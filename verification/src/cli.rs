//! The command line of the commissioning tool.

use crate::text::{parse_unsigned, same_text};
use vstd::prelude::*;

verus! {

/// One command-line argument. `addr_error` tells why it is no `IP:PORT` address,
/// and is absent where it is one.
#[derive(Debug, PartialEq, Eq)]
pub struct RawArg {
    pub text: String,
    pub addr_error: Option<String>,
}

/// What the tool is asked to do.
#[derive(Debug, PartialEq, Eq)]
pub struct Args {
    pub code: String,
    pub addr: Option<String>,
    pub endpoint: u16,
    pub toggle: bool,
}

/// What the arguments read so far ask for.
#[verifier::ext_equal]
pub struct ArgsModel {
    pub code: Option<Seq<char>>,
    pub addr: Option<Seq<char>>,
    pub endpoint: u16,
    pub toggle: bool,
}

/// How a text that is no 16-bit number is described.
pub uninterp spec fn u16_error(text: Seq<char>) -> Seq<char>;

/// `str::parse::<u16>`: an optional `+` and decimal digits that fit, and nothing
/// else; the description of any other text is a function of that text.
#[verifier::external_body]
fn parse_u16(text: &str) -> (res: Result<u16, String>)
    ensures
        match res {
            Ok(n) => parse_unsigned(text@, 65535) == Some(n as nat),
            Err(e) => parse_unsigned(text@, 65535) is None && e@ == u16_error(text@),
        },
{
    text.parse::<u16>().map_err(|e| e.to_string())
}

pub open spec fn defaults() -> ArgsModel {
    ArgsModel { code: None, addr: None, endpoint: 1, toggle: true }
}

/// Reads a run of arguments, given what was read before; the first mistake
/// decides.
pub open spec fn read_from(args: Seq<RawArg>, so_far: ArgsModel) -> Result<ArgsModel, Seq<char>>
    decreases args.len(),
{
    if args.len() == 0 {
        Ok(so_far)
    } else if args[0].text@ == "--addr"@ {
        if args.len() < 2 {
            Err("--addr needs a value"@)
        } else {
            match args[1].addr_error {
                Some(e) => Err(
                    "--addr must be IP:PORT (e.g. [fe80::1%2]:5540 or 192.168.1.50:5540): "@ + e@,
                ),
                None => read_from(
                    args.skip(2),
                    ArgsModel { addr: Some(args[1].text@), ..so_far },
                ),
            }
        }
    } else if args[0].text@ == "--endpoint"@ {
        if args.len() < 2 {
            Err("--endpoint needs a value"@)
        } else {
            match parse_unsigned(args[1].text@, 65535) {
                Some(n) => read_from(args.skip(2), ArgsModel { endpoint: n as u16, ..so_far }),
                None => Err("--endpoint must be u16: "@ + u16_error(args[1].text@)),
            }
        }
    } else if args[0].text@ == "--no-toggle"@ {
        read_from(args.skip(1), ArgsModel { toggle: false, ..so_far })
    } else if so_far.code is None {
        read_from(args.skip(1), ArgsModel { code: Some(args[0].text@), ..so_far })
    } else {
        Err("unexpected argument: "@ + args[0].text@)
    }
}

/// What a command line asks for. A pairing code is required.
pub open spec fn parsed(args: Seq<RawArg>) -> Result<ArgsModel, Seq<char>> {
    match read_from(args, defaults()) {
        Err(e) => Err(e),
        Ok(m) => if m.code is None {
            Err("missing PAIRING_CODE"@)
        } else {
            Ok(m)
        },
    }
}

impl Args {
    pub open spec fn view(&self) -> ArgsModel {
        ArgsModel {
            code: Some(self.code@),
            addr: match self.addr {
                Some(a) => Some(a@),
                None => None,
            },
            endpoint: self.endpoint,
            toggle: self.toggle,
        }
    }
}

spec fn option_text(s: Option<String>) -> Option<Seq<char>> {
    match s {
        Some(s) => Some(s@),
        None => None,
    }
}

fn described(prefix: &str, detail: &str) -> (res: String)
    ensures
        res@ == prefix@ + detail@,
{
    let mut s = prefix.to_owned();
    s.append(detail);
    s
}

/// Reads a command line.
pub fn parse_args(args: &Vec<RawArg>) -> (res: Result<Args, String>)
    ensures
        match parsed(args@) {
            Ok(m) => res is Ok && res->Ok_0@ == m,
            Err(e) => res is Err && res->Err_0@ == e,
        },
{
    let mut code: Option<String> = None;
    let mut addr: Option<String> = None;
    let mut endpoint: u16 = 1;
    let mut toggle = true;
    let mut i: usize = 0;
    assert(args@.skip(0) =~= args@);
    while i < args.len()
        invariant
            i <= args@.len(),
            read_from(args@, defaults()) == read_from(
                args@.skip(i as int),
                ArgsModel { code: option_text(code), addr: option_text(addr), endpoint, toggle },
            ),
        decreases args.len() - i,
    {
        assert(args@.skip(i as int)[0] == args@[i as int]);
        assert(args@.skip(i as int).skip(1) =~= args@.skip(i + 1));
        let text = args[i].text.as_str();
        if same_text(text, "--addr") {
            if i + 1 >= args.len() {
                return Err("--addr needs a value".to_owned());
            }
            assert(args@.skip(i as int)[1] == args@[i + 1]);
            assert(args@.skip(i as int).skip(2) =~= args@.skip(i + 2));
            if let Some(e) = &args[i + 1].addr_error {
                return Err(
                    described(
                        "--addr must be IP:PORT (e.g. [fe80::1%2]:5540 or 192.168.1.50:5540): ",
                        e.as_str(),
                    ),
                );
            }
            addr = Some(args[i + 1].text.clone());
            i += 2;
        } else if same_text(text, "--endpoint") {
            if i + 1 >= args.len() {
                return Err("--endpoint needs a value".to_owned());
            }
            assert(args@.skip(i as int)[1] == args@[i + 1]);
            assert(args@.skip(i as int).skip(2) =~= args@.skip(i + 2));
            match parse_u16(args[i + 1].text.as_str()) {
                Ok(n) => {
                    endpoint = n;
                },
                Err(e) => {
                    return Err(described("--endpoint must be u16: ", e.as_str()));
                },
            }
            i += 2;
        } else if same_text(text, "--no-toggle") {
            toggle = false;
            i += 1;
        } else if code.is_none() {
            code = Some(args[i].text.clone());
            i += 1;
        } else {
            return Err(described("unexpected argument: ", text));
        }
    }
    match code {
        Some(code) => Ok(Args { code, addr, endpoint, toggle }),
        None => Err("missing PAIRING_CODE".to_owned()),
    }
}

/// Options are read where they stand, each with its value, and whatever is no option
/// is the pairing code, once; a second one, an option without its value and a value
/// that does not fit are mistakes.
pub proof fn options_are_read_in_turn(a: RawArg, b: RawArg, rest: Seq<RawArg>, m: ArgsModel)
    ensures
        read_from(Seq::empty(), m) == Ok::<ArgsModel, Seq<char>>(m),
        a.text@ == "--no-toggle"@ ==> read_from(seq![a] + rest, m) == read_from(
            rest,
            ArgsModel { code: m.code, addr: m.addr, endpoint: m.endpoint, toggle: false },
        ),
        a.text@ == "--addr"@ ==> {
            &&& read_from(seq![a], m) == Err::<ArgsModel, Seq<char>>("--addr needs a value"@)
            &&& b.addr_error is None ==> read_from(seq![a, b] + rest, m) == read_from(
                rest,
                ArgsModel {
                    code: m.code,
                    addr: Some(b.text@),
                    endpoint: m.endpoint,
                    toggle: m.toggle,
                },
            )
            &&& b.addr_error is Some ==> read_from(seq![a, b] + rest, m) == Err::<
                ArgsModel,
                Seq<char>,
            >(
                "--addr must be IP:PORT (e.g. [fe80::1%2]:5540 or 192.168.1.50:5540): "@
                    + b.addr_error->0@,
            )
        },
        a.text@ == "--endpoint"@ ==> {
            &&& read_from(seq![a], m) == Err::<ArgsModel, Seq<char>>("--endpoint needs a value"@)
            &&& match parse_unsigned(b.text@, 0xFFFF) {
                Some(n) => read_from(seq![a, b] + rest, m) == read_from(
                    rest,
                    ArgsModel { code: m.code, addr: m.addr, endpoint: n as u16, toggle: m.toggle },
                ),
                None => read_from(seq![a, b] + rest, m) == Err::<ArgsModel, Seq<char>>(
                    "--endpoint must be u16: "@ + u16_error(b.text@),
                ),
            }
        },
        a.text@ != "--no-toggle"@ && a.text@ != "--addr"@ && a.text@ != "--endpoint"@ ==> {
            &&& m.code is None ==> read_from(seq![a] + rest, m) == read_from(
                rest,
                ArgsModel {
                    code: Some(a.text@),
                    addr: m.addr,
                    endpoint: m.endpoint,
                    toggle: m.toggle,
                },
            )
            &&& m.code is Some ==> read_from(seq![a] + rest, m) == Err::<ArgsModel, Seq<char>>(
                "unexpected argument: "@ + a.text@,
            )
        },
{
    reveal_strlit("--addr");
    reveal_strlit("--endpoint");
    reveal_strlit("--no-toggle");
    assert("--addr"@.len() == 6 && "--endpoint"@.len() == 10 && "--no-toggle"@.len() == 11);
    let one = seq![a] + rest;
    let two = seq![a, b] + rest;
    assert(one.skip(1) =~= rest);
    assert(two.skip(2) =~= rest);
    assert(one[0] == a && two[0] == a && two[1] == b);
    assert(seq![a].len() == 1);
}

/// A command line has to name a pairing code; what it does not name is endpoint 1, no
/// address, and to toggle.
pub proof fn a_pairing_code_is_enough(code: RawArg, args: Seq<RawArg>)
    requires
        code.text@ != "--no-toggle"@,
        code.text@ != "--addr"@,
        code.text@ != "--endpoint"@,
    ensures
        parsed(seq![code]) is Ok,
        parsed(seq![code])->Ok_0.code == Some(code.text@),
        parsed(seq![code])->Ok_0.addr is None,
        parsed(seq![code])->Ok_0.endpoint == 1,
        parsed(seq![code])->Ok_0.toggle,
        parsed(Seq::empty()) == Err::<ArgsModel, Seq<char>>("missing PAIRING_CODE"@),
        parsed(args) is Ok ==> parsed(args)->Ok_0.code is Some && read_from(
            args,
            ArgsModel { code: None, addr: None, endpoint: 1, toggle: true },
        ) == parsed(args),
{
    assert(seq![code].skip(1) =~= Seq::empty());
    assert(seq![code][0] == code);
    let read = ArgsModel { code: Some(code.text@), addr: None, endpoint: 1, toggle: true };
    assert(read_from(Seq::empty(), read) == Ok::<ArgsModel, Seq<char>>(read));
}

} // verus!
