//! Which network interface mDNS binds to and advertises.

use crate::error::{io_error, std_io_error, SdkError};
use crate::text::{has_prefix, same_text};
use vstd::prelude::*;

verus! {

/// The host name published with our records.
pub const HOSTNAME: &'static str = "matter-rs-server";

/// The address of an interface: four octets, or eight 16-bit segments.
#[derive(Clone, Copy, Debug, PartialEq, Eq)]
pub enum IfAddr {
    V4([u8; 4]),
    V6([u16; 8]),
}

/// One address of one interface of this host.
#[derive(Debug, PartialEq, Eq)]
pub struct Interface {
    pub name: String,
    pub addr: IfAddr,
    pub index: Option<u32>,
}

/// The addresses to bind and advertise; all zeros where there is none.
#[derive(Debug, PartialEq, Eq)]
pub struct Iface {
    pub name: String,
    pub ipv4: [u8; 4],
    pub ipv6: [u16; 8],
    pub index: u32,
}

pub struct IfaceModel {
    pub name: Seq<char>,
    pub ipv4: Seq<u8>,
    pub ipv6: Seq<u16>,
    pub index: u32,
}

impl Iface {
    pub open spec fn view(&self) -> IfaceModel {
        IfaceModel {
            name: self.name@,
            ipv4: self.ipv4@,
            ipv6: self.ipv6@,
            index: self.index,
        }
    }
}

pub open spec fn unspecified_v4() -> Seq<u8> {
    seq![0u8, 0u8, 0u8, 0u8]
}

pub open spec fn unspecified_v6() -> Seq<u16> {
    seq![0u16, 0u16, 0u16, 0u16, 0u16, 0u16, 0u16, 0u16]
}

/// Whether an address is in `fe80::/10`.
pub open spec fn is_link_local(segments: Seq<u16>) -> bool {
    0xfe80 <= segments[0] <= 0xfebf
}

/// Whether an address is in `fe80::/10`.
pub fn is_unicast_link_local(segments: [u16; 8]) -> (res: bool)
    ensures
        res == is_link_local(segments@),
{
    let first: u16 = segments[0];
    assert((first & 0xffc0) == 0xfe80 <==> 0xfe80 <= first <= 0xfebf) by (bit_vector);
    (first & 0xffc0) == 0xfe80
}

/// Whether an address only reaches this host: `127.0.0.0/8` or `::1`.
pub open spec fn is_loopback(addr: IfAddr) -> bool {
    match addr {
        IfAddr::V4(o) => o@[0] == 127,
        IfAddr::V6(s) => s@ == seq![0u16, 0u16, 0u16, 0u16, 0u16, 0u16, 0u16, 1u16],
    }
}

impl Interface {
    /// Whether the address only reaches this host.
    pub fn is_loopback(&self) -> (res: bool)
        ensures
            res == is_loopback(self.addr),
    {
        match self.addr {
            IfAddr::V4(o) => o[0] == 127,
            IfAddr::V6(s) => {
                let res = s[0] == 0 && s[1] == 0 && s[2] == 0 && s[3] == 0 && s[4] == 0 && s[5] == 0
                    && s[6] == 0 && s[7] == 1;
                proof {
                    if res {
                        assert(s@ =~= seq![0u16, 0u16, 0u16, 0u16, 0u16, 0u16, 0u16, 1u16]);
                    }
                }
                res
            },
        }
    }
}

pub open spec fn index_of(ia: Interface) -> u32 {
    match ia.index {
        Some(i) => i,
        None => 0,
    }
}

/// The first IPv4 address of an interface, with its index.
pub open spec fn first_v4(all: Seq<Interface>, name: Seq<char>) -> Option<(Seq<u8>, u32)>
    decreases all.len(),
{
    if all.len() == 0 {
        None
    } else {
        match all[0].addr {
            IfAddr::V4(ip) if all[0].name@ == name => Some((ip@, index_of(all[0]))),
            _ => first_v4(all.skip(1), name),
        }
    }
}

/// The first IPv4 address of an interface that is not loopback.
pub open spec fn first_reachable_v4(all: Seq<Interface>, name: Seq<char>) -> Option<Seq<u8>>
    decreases all.len(),
{
    if all.len() == 0 {
        None
    } else {
        match all[0].addr {
            IfAddr::V4(ip) if all[0].name@ == name && !is_loopback(all[0].addr) => Some(ip@),
            _ => first_reachable_v4(all.skip(1), name),
        }
    }
}

/// The first IPv6 address of an interface.
pub open spec fn first_v6(all: Seq<Interface>, name: Seq<char>) -> Option<Seq<u16>>
    decreases all.len(),
{
    if all.len() == 0 {
        None
    } else {
        match all[0].addr {
            IfAddr::V6(ip) if all[0].name@ == name => Some(ip@),
            _ => first_v6(all.skip(1), name),
        }
    }
}

/// The first entry of `rest` with an IPv6 address that is not loopback (and is
/// link-local, where that is asked for) on an interface of `all` that has an IPv4
/// address that is not loopback too.
pub open spec fn dual_stack(rest: Seq<Interface>, all: Seq<Interface>, link_local_only: bool) -> Option<
    IfaceModel,
>
    decreases rest.len(),
{
    if rest.len() == 0 {
        None
    } else {
        let ia = rest[0];
        match ia.addr {
            IfAddr::V6(ip) if !is_loopback(ia.addr) && (link_local_only ==> is_link_local(
                ip@,
            )) => match first_reachable_v4(all, ia.name@) {
                Some(ipv4) => Some(
                    IfaceModel { name: ia.name@, ipv4, ipv6: ip@, index: index_of(ia) },
                ),
                None => dual_stack(rest.skip(1), all, link_local_only),
            },
            _ => dual_stack(rest.skip(1), all, link_local_only),
        }
    }
}

pub open spec fn is_ethernet(name: Seq<char>) -> bool {
    "eth"@.is_prefix_of(name) || "eno"@.is_prefix_of(name)
}

/// The first address of an Ethernet interface that is not loopback.
pub open spec fn ethernet(rest: Seq<Interface>) -> Option<IfaceModel>
    decreases rest.len(),
{
    if rest.len() == 0 {
        None
    } else {
        let ia = rest[0];
        if !is_loopback(ia.addr) && is_ethernet(ia.name@) {
            match ia.addr {
                IfAddr::V4(ip) => Some(
                    IfaceModel {
                        name: ia.name@,
                        ipv4: ip@,
                        ipv6: unspecified_v6(),
                        index: index_of(ia),
                    },
                ),
                IfAddr::V6(ip) => Some(
                    IfaceModel {
                        name: ia.name@,
                        ipv4: unspecified_v4(),
                        ipv6: ip@,
                        index: index_of(ia),
                    },
                ),
            }
        } else {
            ethernet(rest.skip(1))
        }
    }
}

/// The interface to use. A forced one is used or nothing is; otherwise one with
/// both address families, neither of them loopback, link-local IPv6 before any
/// other, and an Ethernet interface as the last resort.
pub open spec fn selected(all: Seq<Interface>, forced: Option<Seq<char>>) -> Option<IfaceModel> {
    match forced {
        Some(name) => match first_v4(all, name) {
            None => None,
            Some((ipv4, index)) => Some(
                IfaceModel {
                    name,
                    ipv4,
                    ipv6: match first_v6(all, name) {
                        Some(ip) => ip,
                        None => unspecified_v6(),
                    },
                    index,
                },
            ),
        },
        None => match dual_stack(all, all, true) {
            Some(iface) => Some(iface),
            None => match dual_stack(all, all, false) {
                Some(iface) => Some(iface),
                None => ethernet(all),
            },
        },
    }
}

fn index_or_zero(ia: &Interface) -> (res: u32)
    ensures
        res == index_of(*ia),
{
    match ia.index {
        Some(i) => i,
        None => 0,
    }
}

fn find_v4(all: &Vec<Interface>, name: &str) -> (res: Option<([u8; 4], u32)>)
    ensures
        match res {
            Some((ip, index)) => first_v4(all@, name@) == Some((ip@, index)),
            None => first_v4(all@, name@) is None,
        },
{
    let mut i: usize = 0;
    assert(all@.skip(0) =~= all@);
    while i < all.len()
        invariant
            i <= all@.len(),
            first_v4(all@, name@) == first_v4(all@.skip(i as int), name@),
        decreases all.len() - i,
    {
        assert(all@.skip(i as int).skip(1) =~= all@.skip(i + 1));
        if let IfAddr::V4(ip) = all[i].addr {
            if same_text(all[i].name.as_str(), name) {
                return Some((ip, index_or_zero(&all[i])));
            }
        }
        i += 1;
    }
    None
}

fn find_reachable_v4(all: &Vec<Interface>, name: &str) -> (res: Option<[u8; 4]>)
    ensures
        match res {
            Some(ip) => first_reachable_v4(all@, name@) == Some(ip@),
            None => first_reachable_v4(all@, name@) is None,
        },
{
    let mut i: usize = 0;
    assert(all@.skip(0) =~= all@);
    while i < all.len()
        invariant
            i <= all@.len(),
            first_reachable_v4(all@, name@) == first_reachable_v4(all@.skip(i as int), name@),
        decreases all.len() - i,
    {
        assert(all@.skip(i as int).skip(1) =~= all@.skip(i + 1));
        if let IfAddr::V4(ip) = all[i].addr {
            if same_text(all[i].name.as_str(), name) && !all[i].is_loopback() {
                return Some(ip);
            }
        }
        i += 1;
    }
    None
}

fn find_v6(all: &Vec<Interface>, name: &str) -> (res: Option<[u16; 8]>)
    ensures
        match res {
            Some(ip) => first_v6(all@, name@) == Some(ip@),
            None => first_v6(all@, name@) is None,
        },
{
    let mut i: usize = 0;
    assert(all@.skip(0) =~= all@);
    while i < all.len()
        invariant
            i <= all@.len(),
            first_v6(all@, name@) == first_v6(all@.skip(i as int), name@),
        decreases all.len() - i,
    {
        assert(all@.skip(i as int).skip(1) =~= all@.skip(i + 1));
        if let IfAddr::V6(ip) = all[i].addr {
            if same_text(all[i].name.as_str(), name) {
                return Some(ip);
            }
        }
        i += 1;
    }
    None
}

fn find_dual_stack(all: &Vec<Interface>, link_local_only: bool) -> (res: Option<Iface>)
    ensures
        match res {
            Some(iface) => dual_stack(all@, all@, link_local_only) == Some(iface@),
            None => dual_stack(all@, all@, link_local_only) is None,
        },
{
    let mut i: usize = 0;
    assert(all@.skip(0) =~= all@);
    while i < all.len()
        invariant
            i <= all@.len(),
            dual_stack(all@, all@, link_local_only) == dual_stack(
                all@.skip(i as int),
                all@,
                link_local_only,
            ),
        decreases all.len() - i,
    {
        assert(all@.skip(i as int).skip(1) =~= all@.skip(i + 1));
        assert(all@.skip(i as int)[0] == all@[i as int]);
        if let IfAddr::V6(ip) = all[i].addr {
            if !all[i].is_loopback() && (!link_local_only || is_unicast_link_local(ip)) {
                if let Some(ipv4) = find_reachable_v4(all, all[i].name.as_str()) {
                    return Some(
                        Iface {
                            name: all[i].name.clone(),
                            ipv4,
                            ipv6: ip,
                            index: index_or_zero(&all[i]),
                        },
                    );
                }
            }
        }
        i += 1;
    }
    None
}

fn find_ethernet(all: &Vec<Interface>) -> (res: Option<Iface>)
    ensures
        match res {
            Some(iface) => ethernet(all@) == Some(iface@),
            None => ethernet(all@) is None,
        },
{
    let mut i: usize = 0;
    assert(all@.skip(0) =~= all@);
    while i < all.len()
        invariant
            i <= all@.len(),
            ethernet(all@) == ethernet(all@.skip(i as int)),
        decreases all.len() - i,
    {
        assert(all@.skip(i as int).skip(1) =~= all@.skip(i + 1));
        assert(all@.skip(i as int)[0] == all@[i as int]);
        let name = all[i].name.as_str();
        if !all[i].is_loopback() && (has_prefix(name, "eth") || has_prefix(name, "eno")) {
            let (ipv4, ipv6): ([u8; 4], [u16; 8]) = match all[i].addr {
                IfAddr::V4(ip) => (ip, [0, 0, 0, 0, 0, 0, 0, 0]),
                IfAddr::V6(ip) => ([0, 0, 0, 0], ip),
            };
            proof {
                match all@[i as int].addr {
                    IfAddr::V4(_) => assert(ipv6@ =~= unspecified_v6()),
                    IfAddr::V6(_) => assert(ipv4@ =~= unspecified_v4()),
                }
            }
            return Some(
                Iface { name: all[i].name.clone(), ipv4, ipv6, index: index_or_zero(&all[i]) },
            );
        }
        i += 1;
    }
    None
}

pub open spec fn forced_name(forced: Option<&str>) -> Option<Seq<char>> {
    match forced {
        Some(name) => Some(name@),
        None => None,
    }
}

/// Picks the interface to use. A forced one that is missing, or that has no IPv4
/// address, is an error rather than a reason to use another.
pub fn select_interface(all: &Vec<Interface>, forced: Option<&str>) -> (res: Result<Iface, SdkError>)
    ensures
        match selected(all@, forced_name(forced)) {
            Some(iface) => res is Ok && res->Ok_0@ == iface,
            None => res is Err && res->Err_0@ == io_error(),
        },
{
    if let Some(name) = forced {
        return match find_v4(all, name) {
            None => Err(std_io_error()),
            Some((ipv4, index)) => {
                let ipv6: [u16; 8] = match find_v6(all, name) {
                    Some(ip) => ip,
                    None => {
                        let zero: [u16; 8] = [0, 0, 0, 0, 0, 0, 0, 0];
                        assert(zero@ =~= unspecified_v6());
                        zero
                    },
                };
                Ok(Iface { name: name.to_owned(), ipv4, ipv6, index })
            },
        };
    }
    if let Some(iface) = find_dual_stack(all, true) {
        return Ok(iface);
    }
    if let Some(iface) = find_dual_stack(all, false) {
        return Ok(iface);
    }
    match find_ethernet(all) {
        Some(iface) => Ok(iface),
        None => Err(std_io_error()),
    }
}

/// A forced interface never falls back to another one.
pub proof fn forced_interface_never_falls_back(all: Seq<Interface>, name: Seq<char>)
    ensures
        selected(all, Some(name)) is Some ==> selected(all, Some(name))->0.name == name,
        selected(all, Some(name)) is Some <==> first_v4(all, name) is Some,
{
}

/// Unless an interface is forced, no loopback address is advertised, of either
/// family.
pub proof fn loopback_is_never_advertised(all: Seq<Interface>)
    ensures
        selected(all, None) is Some ==> {
            &&& selected(all, None)->0.ipv4[0] != 127
            &&& selected(all, None)->0.ipv6 != seq![0u16, 0u16, 0u16, 0u16, 0u16, 0u16, 0u16, 1u16]
        },
{
    lemma_dual_stack_is_reachable(all, all, true);
    lemma_dual_stack_is_reachable(all, all, false);
    lemma_ethernet_is_reachable(all);
}

proof fn lemma_first_reachable(all: Seq<Interface>, name: Seq<char>)
    ensures
        first_reachable_v4(all, name) is Some ==> first_reachable_v4(all, name)->0[0] != 127,
    decreases all.len(),
{
    if all.len() > 0 {
        lemma_first_reachable(all.skip(1), name);
    }
}

proof fn lemma_dual_stack_is_reachable(
    rest: Seq<Interface>,
    all: Seq<Interface>,
    link_local_only: bool,
)
    ensures
        dual_stack(rest, all, link_local_only) is Some ==> {
            let iface = dual_stack(rest, all, link_local_only)->0;
            &&& iface.ipv4[0] != 127
            &&& iface.ipv6 != seq![0u16, 0u16, 0u16, 0u16, 0u16, 0u16, 0u16, 1u16]
        },
    decreases rest.len(),
{
    if rest.len() > 0 {
        lemma_first_reachable(all, rest[0].name@);
        lemma_dual_stack_is_reachable(rest.skip(1), all, link_local_only);
    }
}

proof fn lemma_ethernet_is_reachable(rest: Seq<Interface>)
    ensures
        ethernet(rest) is Some ==> {
            &&& ethernet(rest)->0.ipv4[0] != 127
            &&& ethernet(rest)->0.ipv6 != seq![0u16, 0u16, 0u16, 0u16, 0u16, 0u16, 0u16, 1u16]
        },
    decreases rest.len(),
{
    if rest.len() > 0 {
        lemma_ethernet_is_reachable(rest.skip(1));
        assert(unspecified_v6()[7] == 0);
    }
}

/// A host with nothing but loopback addresses has no interface to advertise.
pub proof fn loopback_alone_is_no_interface(all: Seq<Interface>)
    requires
        forall|i: int| 0 <= i < all.len() ==> is_loopback((#[trigger] all[i]).addr),
    ensures
        selected(all, None) is None,
{
    lemma_loopback_only(all, all);
}

proof fn lemma_loopback_only(rest: Seq<Interface>, all: Seq<Interface>)
    requires
        forall|i: int| 0 <= i < rest.len() ==> is_loopback((#[trigger] rest[i]).addr),
    ensures
        dual_stack(rest, all, true) is None,
        dual_stack(rest, all, false) is None,
        ethernet(rest) is None,
    decreases rest.len(),
{
    if rest.len() > 0 {
        let shorter = rest.skip(1);
        assert forall|i: int| 0 <= i < shorter.len() implies is_loopback(
            (#[trigger] shorter[i]).addr,
        ) by {
            assert(shorter[i] == rest[i + 1]);
        }
        assert(is_loopback(rest[0].addr));
        lemma_loopback_only(shorter, all);
    }
}

/// A link-local address on an interface with both families is preferred to any
/// other choice.
pub proof fn link_local_is_preferred(all: Seq<Interface>)
    requires
        dual_stack(all, all, true) is Some,
    ensures
        selected(all, None) == dual_stack(all, all, true),
        is_link_local(selected(all, None)->0.ipv6),
{
    lemma_dual_stack_filter(all, all);
}

proof fn lemma_dual_stack_filter(rest: Seq<Interface>, all: Seq<Interface>)
    ensures
        dual_stack(rest, all, true) is Some ==> is_link_local(dual_stack(rest, all, true)->0.ipv6),
    decreases rest.len(),
{
    if rest.len() > 0 {
        lemma_dual_stack_filter(rest.skip(1), all);
    }
}

/// The first of the listed addresses that fits is the one taken: of an IPv4 address of
/// the interface, with its index; of one that is not loopback; and of an IPv6 address.
/// There is none where none fits.
pub proof fn the_first_fitting_address_is_taken(all: Seq<Interface>, name: Seq<char>, at: int)
    ensures
        0 <= at < all.len() && all[at].name@ == name && all[at].addr is V4 && (forall|i: int|
            0 <= i < at ==> !((#[trigger] all[i]).name@ == name && all[i].addr is V4))
            ==> first_v4(all, name) == Some(
            (
                all[at].addr->V4_0@,
                match all[at].index {
                    Some(n) => n,
                    None => 0,
                },
            ),
        ),
        0 <= at < all.len() && all[at].name@ == name && all[at].addr is V4
            && all[at].addr->V4_0@[0] != 127 && (forall|i: int|
            0 <= i < at ==> !((#[trigger] all[i]).name@ == name && all[i].addr is V4
                && all[i].addr->V4_0@[0] != 127)) ==> first_reachable_v4(all, name) == Some(
            all[at].addr->V4_0@,
        ),
        0 <= at < all.len() && all[at].name@ == name && all[at].addr is V6 && (forall|i: int|
            0 <= i < at ==> !((#[trigger] all[i]).name@ == name && all[i].addr is V6))
            ==> first_v6(all, name) == Some(all[at].addr->V6_0@),
        (forall|i: int|
            0 <= i < all.len() ==> !((#[trigger] all[i]).name@ == name && all[i].addr is V4))
            ==> first_v4(all, name) is None,
        (forall|i: int|
            0 <= i < all.len() ==> !((#[trigger] all[i]).name@ == name && all[i].addr is V4
                && all[i].addr->V4_0@[0] != 127)) ==> first_reachable_v4(all, name) is None,
        (forall|i: int|
            0 <= i < all.len() ==> !((#[trigger] all[i]).name@ == name && all[i].addr is V6))
            ==> first_v6(all, name) is None,
    decreases all.len(),
{
    if all.len() > 0 {
        let rest = all.skip(1);
        the_first_fitting_address_is_taken(rest, name, at - 1);
        assert(all[0] == all[0]);
        if 0 < at < all.len() {
            assert(rest[at - 1] == all[at]);
        }
        assert forall|i: int| 0 <= i < rest.len() implies #[trigger] rest[i] == all[i + 1] by {}
    }
}

/// A forced interface is used with the first of its addresses of either family, and
/// without an IPv6 address where it has none.
pub proof fn forced_interfaces_use_their_first_addresses(all: Seq<Interface>, name: Seq<char>)
    ensures
        first_v4(all, name) is None ==> selected(all, Some(name)) is None,
        first_v4(all, name) is Some ==> {
            let iface = selected(all, Some(name));
            &&& iface is Some
            &&& iface->0.name == name
            &&& iface->0.ipv4 == (first_v4(all, name)->0).0
            &&& iface->0.index == (first_v4(all, name)->0).1
            &&& first_v6(all, name) is Some ==> iface->0.ipv6 == first_v6(all, name)->0
            &&& first_v6(all, name) is None ==> iface->0.ipv6 == seq![
                0u16,
                0u16,
                0u16,
                0u16,
                0u16,
                0u16,
                0u16,
                0u16,
            ]
        },
{
}

/// Whether an entry makes its interface one with both families: an IPv6 address that
/// is not loopback, and link-local where that is asked for, beside an IPv4 address
/// that is not loopback.
pub open spec fn has_both(all: Seq<Interface>, i: int, link_local_only: bool) -> bool {
    &&& all[i].addr is V6
    &&& all[i].addr->V6_0@ != seq![0u16, 0u16, 0u16, 0u16, 0u16, 0u16, 0u16, 1u16]
    &&& link_local_only ==> all[i].addr->V6_0@[0] as int / 64 == 0x3FA
    &&& first_reachable_v4(all, all[i].name@) is Some
}

proof fn lemma_dual_stack_is(
    rest: Seq<Interface>,
    all: Seq<Interface>,
    from: int,
    at: int,
    link_local_only: bool,
)
    requires
        0 <= from <= at <= all.len(),
        rest == all.skip(from),
        forall|i: int| from <= i < at ==> !#[trigger] has_both(all, i, link_local_only),
        at < all.len() ==> has_both(all, at, link_local_only),
    ensures
        at == all.len() ==> dual_stack(rest, all, link_local_only) is None,
        at < all.len() ==> dual_stack(rest, all, link_local_only) == Some(
            IfaceModel {
                name: all[at].name@,
                ipv4: first_reachable_v4(all, all[at].name@)->0,
                ipv6: all[at].addr->V6_0@,
                index: match all[at].index {
                    Some(n) => n,
                    None => 0,
                },
            },
        ),
    decreases rest.len(),
{
    if from < all.len() {
        assert(rest[0] == all[from]);
        if from < at {
            assert(!has_both(all, from, link_local_only));
            assert(rest.skip(1) =~= all.skip(from + 1));
            lemma_dual_stack_is(rest.skip(1), all, from + 1, at, link_local_only);
        }
    }
}

/// Without a forced interface, the first entry of one with both families is used,
/// with the first IPv4 address there that is not loopback: a link-local one if there
/// is any, and else any. `link` and `both` are where the first of each stands, or the
/// end of the list.
pub proof fn interfaces_with_both_families_are_used(all: Seq<Interface>, link: int, both: int)
    requires
        0 <= link <= all.len(),
        0 <= both <= all.len(),
        forall|i: int| 0 <= i < link ==> !#[trigger] has_both(all, i, true),
        forall|i: int| 0 <= i < both ==> !#[trigger] has_both(all, i, false),
        link < all.len() ==> has_both(all, link, true),
        both < all.len() ==> has_both(all, both, false),
    ensures
        ({
            let at = if link < all.len() {
                link
            } else {
                both
            };
            at < all.len() ==> selected(all, None) == Some(
                IfaceModel {
                    name: all[at].name@,
                    ipv4: first_reachable_v4(all, all[at].name@)->0,
                    ipv6: all[at].addr->V6_0@,
                    index: match all[at].index {
                        Some(n) => n,
                        None => 0,
                    },
                },
            )
        }),
        both == all.len() ==> selected(all, None) == ethernet(all),
{
    assert(all.skip(0) =~= all);
    lemma_dual_stack_is(all, all, 0, link, true);
    lemma_dual_stack_is(all, all, 0, both, false);
    if both == all.len() && link < all.len() {
        assert(has_both(all, link, false));
    }
}

/// As the last resort the first address is used that is not loopback, of an
/// interface whose name starts with `eth` or `eno`, alone; and none where there is
/// no such address.
pub proof fn ethernet_is_the_last_resort(all: Seq<Interface>, at: int)
    ensures
        0 <= at < all.len() && is_wired(all[at]) && (forall|i: int|
            0 <= i < at ==> !is_wired(#[trigger] all[i])) ==> {
            let iface = ethernet(all);
            &&& iface is Some
            &&& iface->0.name == all[at].name@
            &&& iface->0.index == match all[at].index {
                Some(n) => n,
                None => 0,
            }
            &&& match all[at].addr {
                IfAddr::V4(ip) => iface->0.ipv4 == ip@ && iface->0.ipv6 == seq![
                    0u16,
                    0u16,
                    0u16,
                    0u16,
                    0u16,
                    0u16,
                    0u16,
                    0u16,
                ],
                IfAddr::V6(ip) => iface->0.ipv4 == seq![0u8, 0u8, 0u8, 0u8] && iface->0.ipv6 == ip@,
            }
        },
        (forall|i: int| 0 <= i < all.len() ==> !is_wired(#[trigger] all[i])) ==> ethernet(
            all,
        ) is None,
    decreases all.len(),
{
    if all.len() > 0 {
        let rest = all.skip(1);
        ethernet_is_the_last_resort(rest, at - 1);
        assert(is_wired(all[0]) || !is_wired(all[0]));
        if 0 < at < all.len() {
            assert(rest[at - 1] == all[at]);
        }
        assert forall|i: int| 0 <= i < rest.len() implies #[trigger] rest[i] == all[i + 1] by {}
    }
}

/// Whether an entry is an address of a wired interface that reaches further than this
/// host.
pub open spec fn is_wired(ia: Interface) -> bool {
    &&& "eth"@.is_prefix_of(ia.name@) || "eno"@.is_prefix_of(ia.name@)
    &&& match ia.addr {
        IfAddr::V4(ip) => ip@[0] != 127,
        IfAddr::V6(ip) => ip@ != seq![0u16, 0u16, 0u16, 0u16, 0u16, 0u16, 0u16, 1u16],
    }
}

} // verus!
