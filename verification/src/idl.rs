//! The cluster tables: what the data model says of attributes, commands,
//! events and structs.

use crate::text::{eq_ignore_case, same_ignoring_case, same_text};
use vstd::prelude::*;

verus! {

/// A struct member or event field: its tag number, name and type.
#[derive(Debug)]
pub struct Field {
    pub code: u32,
    pub name: String,
    pub ty: String,
    pub is_list: bool,
}

#[derive(Debug)]
pub struct StructDef {
    pub name: String,
    pub fields: Vec<Field>,
}

#[derive(Debug)]
pub struct Attr {
    pub code: u32,
    pub ty: String,
    pub is_list: bool,
}

/// A command, with the names of the structs that describe its request and its
/// response.
#[derive(Debug)]
pub struct Command {
    pub code: u32,
    pub name: String,
    pub input: Option<String>,
    pub output: Option<String>,
    pub is_timed: bool,
}

#[derive(Debug)]
pub struct Event {
    pub code: u32,
    pub fields: Vec<Field>,
}

#[derive(Debug)]
pub struct Cluster {
    pub id: u32,
    pub name: String,
    pub attrs: Vec<Attr>,
    pub commands: Vec<Command>,
    pub events: Vec<Event>,
    pub structs: Vec<StructDef>,
}

/// The first field with tag number `code`.
pub open spec fn field_by_code(fields: Seq<Field>, code: nat) -> Option<Field>
    decreases fields.len(),
{
    if fields.len() == 0 {
        None
    } else if fields[0].code == code {
        Some(fields[0])
    } else {
        field_by_code(fields.skip(1), code)
    }
}

/// The first field whose name is `key` up to ASCII case.
pub open spec fn field_by_name(fields: Seq<Field>, key: Seq<char>) -> Option<Field>
    decreases fields.len(),
{
    if fields.len() == 0 {
        None
    } else if eq_ignore_case(fields[0].name@, key) {
        Some(fields[0])
    } else {
        field_by_name(fields.skip(1), key)
    }
}

/// The first struct of that exact name.
pub open spec fn struct_by_name(structs: Seq<StructDef>, name: Seq<char>) -> Option<StructDef>
    decreases structs.len(),
{
    if structs.len() == 0 {
        None
    } else if structs[0].name@ == name {
        Some(structs[0])
    } else {
        struct_by_name(structs.skip(1), name)
    }
}

pub open spec fn attr_by_code(attrs: Seq<Attr>, code: nat) -> Option<Attr>
    decreases attrs.len(),
{
    if attrs.len() == 0 {
        None
    } else if attrs[0].code == code {
        Some(attrs[0])
    } else {
        attr_by_code(attrs.skip(1), code)
    }
}

pub open spec fn event_by_code(events: Seq<Event>, code: nat) -> Option<Event>
    decreases events.len(),
{
    if events.len() == 0 {
        None
    } else if events[0].code == code {
        Some(events[0])
    } else {
        event_by_code(events.skip(1), code)
    }
}

/// The first command whose name is `name` up to ASCII case.
pub open spec fn command_by_name(commands: Seq<Command>, name: Seq<char>) -> Option<Command>
    decreases commands.len(),
{
    if commands.len() == 0 {
        None
    } else if eq_ignore_case(commands[0].name@, name) {
        Some(commands[0])
    } else {
        command_by_name(commands.skip(1), name)
    }
}

pub open spec fn cluster_by_id(clusters: Seq<Cluster>, id: nat) -> Option<Cluster>
    decreases clusters.len(),
{
    if clusters.len() == 0 {
        None
    } else if clusters[0].id == id {
        Some(clusters[0])
    } else {
        cluster_by_id(clusters.skip(1), id)
    }
}

pub fn find_field(fields: &Vec<Field>, code: u32) -> (res: Option<&Field>)
    ensures
        match res {
            Some(f) => field_by_code(fields@, code as nat) == Some(*f),
            None => field_by_code(fields@, code as nat) is None,
        },
{
    let mut i: usize = 0;
    assert(fields@.skip(0) =~= fields@);
    while i < fields.len()
        invariant
            i <= fields@.len(),
            field_by_code(fields@.skip(i as int), code as nat) == field_by_code(
                fields@,
                code as nat,
            ),
        decreases fields.len() - i,
    {
        assert(fields@.skip(i as int).skip(1) =~= fields@.skip(i + 1));
        if fields[i].code == code {
            return Some(&fields[i]);
        }
        i += 1;
    }
    None
}

pub fn find_field_named<'a>(fields: &'a Vec<Field>, key: &str) -> (res: Option<&'a Field>)
    ensures
        match res {
            Some(f) => field_by_name(fields@, key@) == Some(*f),
            None => field_by_name(fields@, key@) is None,
        },
{
    let mut i: usize = 0;
    assert(fields@.skip(0) =~= fields@);
    while i < fields.len()
        invariant
            i <= fields@.len(),
            field_by_name(fields@.skip(i as int), key@) == field_by_name(fields@, key@),
        decreases fields.len() - i,
    {
        assert(fields@.skip(i as int).skip(1) =~= fields@.skip(i + 1));
        if same_ignoring_case(fields[i].name.as_str(), key) {
            return Some(&fields[i]);
        }
        i += 1;
    }
    None
}

/// The table of the cluster with this id.
pub fn find_cluster(clusters: &Vec<Cluster>, id: u32) -> (res: Option<&Cluster>)
    ensures
        match res {
            Some(c) => cluster_by_id(clusters@, id as nat) == Some(*c),
            None => cluster_by_id(clusters@, id as nat) is None,
        },
{
    let mut i: usize = 0;
    assert(clusters@.skip(0) =~= clusters@);
    while i < clusters.len()
        invariant
            i <= clusters@.len(),
            cluster_by_id(clusters@.skip(i as int), id as nat) == cluster_by_id(
                clusters@,
                id as nat,
            ),
        decreases clusters.len() - i,
    {
        assert(clusters@.skip(i as int).skip(1) =~= clusters@.skip(i + 1));
        if clusters[i].id == id {
            return Some(&clusters[i]);
        }
        i += 1;
    }
    None
}

impl Cluster {
    /// Struct names are matched exactly.
    pub fn find_struct<'a>(&'a self, name: &str) -> (res: Option<&'a StructDef>)
        ensures
            match res {
                Some(s) => struct_by_name(self.structs@, name@) == Some(*s),
                None => struct_by_name(self.structs@, name@) is None,
            },
    {
        let mut i: usize = 0;
        assert(self.structs@.skip(0) =~= self.structs@);
        while i < self.structs.len()
            invariant
                i <= self.structs@.len(),
                struct_by_name(self.structs@.skip(i as int), name@) == struct_by_name(
                    self.structs@,
                    name@,
                ),
            decreases self.structs.len() - i,
        {
            assert(self.structs@.skip(i as int).skip(1) =~= self.structs@.skip(i + 1));
            if same_text(self.structs[i].name.as_str(), name) {
                return Some(&self.structs[i]);
            }
            i += 1;
        }
        None
    }

    pub fn attr(&self, code: u32) -> (res: Option<&Attr>)
        ensures
            match res {
                Some(a) => attr_by_code(self.attrs@, code as nat) == Some(*a),
                None => attr_by_code(self.attrs@, code as nat) is None,
            },
    {
        let mut i: usize = 0;
        assert(self.attrs@.skip(0) =~= self.attrs@);
        while i < self.attrs.len()
            invariant
                i <= self.attrs@.len(),
                attr_by_code(self.attrs@.skip(i as int), code as nat) == attr_by_code(
                    self.attrs@,
                    code as nat,
                ),
            decreases self.attrs.len() - i,
        {
            assert(self.attrs@.skip(i as int).skip(1) =~= self.attrs@.skip(i + 1));
            if self.attrs[i].code == code {
                return Some(&self.attrs[i]);
            }
            i += 1;
        }
        None
    }

    pub fn event(&self, code: u32) -> (res: Option<&Event>)
        ensures
            match res {
                Some(e) => event_by_code(self.events@, code as nat) == Some(*e),
                None => event_by_code(self.events@, code as nat) is None,
            },
    {
        let mut i: usize = 0;
        assert(self.events@.skip(0) =~= self.events@);
        while i < self.events.len()
            invariant
                i <= self.events@.len(),
                event_by_code(self.events@.skip(i as int), code as nat) == event_by_code(
                    self.events@,
                    code as nat,
                ),
            decreases self.events.len() - i,
        {
            assert(self.events@.skip(i as int).skip(1) =~= self.events@.skip(i + 1));
            if self.events[i].code == code {
                return Some(&self.events[i]);
            }
            i += 1;
        }
        None
    }

    /// Command names are matched up to ASCII case.
    pub fn find_command<'a>(&'a self, name: &str) -> (res: Option<&'a Command>)
        ensures
            match res {
                Some(c) => command_by_name(self.commands@, name@) == Some(*c),
                None => command_by_name(self.commands@, name@) is None,
            },
    {
        let mut i: usize = 0;
        assert(self.commands@.skip(0) =~= self.commands@);
        while i < self.commands.len()
            invariant
                i <= self.commands@.len(),
                command_by_name(self.commands@.skip(i as int), name@) == command_by_name(
                    self.commands@,
                    name@,
                ),
            decreases self.commands.len() - i,
        {
            assert(self.commands@.skip(i as int).skip(1) =~= self.commands@.skip(i + 1));
            if same_ignoring_case(self.commands[i].name.as_str(), name) {
                return Some(&self.commands[i]);
            }
            i += 1;
        }
        None
    }
}

} // verus!
