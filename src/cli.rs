use vstd::prelude::*;
use vstd::string::StringExecFns;

use crate::fuzz::FuzzConfig;

verus! {

/// Why the flags did not give a configuration.
#[derive(Debug)]
pub enum ParseOutcome {
    /// Help was asked for.
    Help,
    /// A usage error, with its message.
    Error(String),
}

/// The value of a [`ParseOutcome`].
pub enum ParseOutcomeModel {
    Help,
    Error(Seq<char>),
}

impl View for ParseOutcome {
    type V = ParseOutcomeModel;

    open spec fn view(&self) -> ParseOutcomeModel {
        match self {
            ParseOutcome::Help => ParseOutcomeModel::Help,
            ParseOutcome::Error(m) => ParseOutcomeModel::Error(m@),
        }
    }
}

/// The value of decimal digits `d`.
pub open spec fn decimal_value(d: Seq<char>) -> int
    decreases d.len(),
{
    if d.len() == 0 {
        0
    } else {
        decimal_value(d.drop_last()) * 10 + (d.last() as u32 - 48)
    }
}

/// `d` is a non-empty run of ASCII digits.
pub open spec fn is_digits(d: Seq<char>) -> bool {
    &&& d.len() > 0
    &&& forall|i: int| 0 <= i < d.len() ==> 48 <= (#[trigger] d[i]) as u32 <= 57
}

/// The number that text `s` spells for an unsigned integer type whose largest
/// value is `max`: an optional `+` and decimal digits, with nothing else, not
/// above `max`.
pub open spec fn unsigned_text(s: Seq<char>, max: int) -> Option<int> {
    let d = if s.len() > 0 && s[0] == '+' {
        s.drop_first()
    } else {
        s
    };
    if is_digits(d) && decimal_value(d) <= max {
        Some(decimal_value(d))
    } else {
        None
    }
}

/// Relies on `<u64 as FromStr>::from_str`: an optional `+` followed by
/// decimal digits, and an error for anything else or a value above `u64::MAX`.
#[verifier::external_body]
fn read_u64(s: &str) -> (r: Option<u64>)
    ensures
        r matches Some(v) ==> unsigned_text(s@, u64::MAX as int) == Some(v as int),
        r is None ==> unsigned_text(s@, u64::MAX as int) is None,
{
    s.parse::<u64>().ok()
}

/// Relies on `<usize as FromStr>::from_str`: an optional `+` followed by
/// decimal digits, and an error for anything else or a value above `usize::MAX`.
#[verifier::external_body]
fn read_usize(s: &str) -> (r: Option<usize>)
    ensures
        r matches Some(v) ==> unsigned_text(s@, usize::MAX as int) == Some(v as int),
        r is None ==> unsigned_text(s@, usize::MAX as int) is None,
{
    s.parse::<usize>().ok()
}

/// The message for a flag given a value it cannot take.
pub open spec fn invalid_message(flag: Seq<char>, value: Seq<char>) -> Seq<char> {
    "invalid value for "@ + flag + ": "@ + value
}

/// Reads `value` as the `u64` of `flag`.
pub fn parse_u64(flag: &str, value: &str) -> (r: Result<u64, ParseOutcome>)
    ensures
        r matches Ok(v) ==> unsigned_text(value@, u64::MAX as int) == Some(v as int),
        r matches Err(e) ==> unsigned_text(value@, u64::MAX as int) is None && e@ == ParseOutcomeModel::Error(
            invalid_message(flag@, value@),
        ),
{
    match read_u64(value) {
        Some(v) => Ok(v),
        None => Err(ParseOutcome::Error(invalid(flag, value))),
    }
}

/// Reads `value` as the `usize` of `flag`.
pub fn parse_usize(flag: &str, value: &str) -> (r: Result<usize, ParseOutcome>)
    ensures
        r matches Ok(v) ==> unsigned_text(value@, usize::MAX as int) == Some(v as int),
        r matches Err(e) ==> unsigned_text(value@, usize::MAX as int) is None && e@ == ParseOutcomeModel::Error(
            invalid_message(flag@, value@),
        ),
{
    match read_usize(value) {
        Some(v) => Ok(v),
        None => Err(ParseOutcome::Error(invalid(flag, value))),
    }
}

fn invalid(flag: &str, value: &str) -> (r: String)
    ensures
        r@ == invalid_message(flag@, value@),
{
    let m = <String as StringExecFns>::from_str("invalid value for ");
    let m = m.concat(flag);
    let m = m.concat(": ");
    m.concat(value)
}

/// The largest value that flag `a` takes.
pub open spec fn flag_max(a: Seq<char>) -> int {
    if a == "--steps"@ {
        usize::MAX as int
    } else {
        u64::MAX as int
    }
}

/// `c` with the value `n` of flag `a`.
pub open spec fn with_flag(c: FuzzConfig, a: Seq<char>, n: int) -> FuzzConfig {
    if a == "--seed"@ {
        FuzzConfig { seed: n as u64, ..c }
    } else if a == "--cases"@ {
        FuzzConfig { cases: n as u64, ..c }
    } else if a == "--steps"@ {
        FuzzConfig { steps: n as usize, ..c }
    } else {
        FuzzConfig { max_amount: n as u64, ..c }
    }
}

/// The configuration that flags `args` give, starting from `c`: each of
/// `--seed`, `--cases`, `--steps` and `--max-amount` takes the next argument
/// as its value; `--help` or `-h` asks for help; anything else is a usage error.
pub open spec fn parse_spec(args: Seq<Seq<char>>, c: FuzzConfig) -> Result<FuzzConfig, ParseOutcomeModel>
    decreases args.len(),
{
    if args.len() == 0 {
        Ok(c)
    } else {
        let a = args[0];
        if a == "--seed"@ || a == "--cases"@ || a == "--steps"@ || a == "--max-amount"@ {
            if args.len() < 2 {
                Err(ParseOutcomeModel::Error("missing value for "@ + a))
            } else {
                let v = args[1];
                match unsigned_text(v, flag_max(a)) {
                    None => Err(ParseOutcomeModel::Error(invalid_message(a, v))),
                    Some(n) => parse_spec(args.skip(2), with_flag(c, a, n)),
                }
            }
        } else if a == "--help"@ || a == "-h"@ {
            Err(ParseOutcomeModel::Help)
        } else {
            Err(ParseOutcomeModel::Error("unknown flag: "@ + a))
        }
    }
}

/// The values of a list of arguments.
pub open spec fn args_view(args: Seq<String>) -> Seq<Seq<char>> {
    args.map_values(|a: String| a@)
}

fn is(arg: &String, text: &str) -> (r: bool)
    ensures
        r == (arg@ == text@),
{
    *arg == <String as StringExecFns>::from_str(text)
}

/// Applies the flags `args` to `config`, as [`parse_spec`] says.
pub fn parse_flags(args: &Vec<String>, config: FuzzConfig) -> (r: Result<FuzzConfig, ParseOutcome>)
    ensures
        match r {
            Ok(c) => parse_spec(args_view(args@), config) == Ok::<FuzzConfig, ParseOutcomeModel>(c),
            Err(e) => parse_spec(args_view(args@), config) == Err::<FuzzConfig, ParseOutcomeModel>(e@),
        },
{
    let mut cfg = config;
    let mut i: usize = 0;
    assert(args_view(args@).skip(0) =~= args_view(args@));
    while i < args.len()
        invariant
            i <= args@.len(),
            parse_spec(args_view(args@), config) == parse_spec(args_view(args@).skip(i as int), cfg),
        decreases args.len() - i,
    {
        let ghost rest = args_view(args@).skip(i as int);
        assert(rest[0] == args@[i as int]@);
        proof {
            reveal_strlit("--seed");
            reveal_strlit("--cases");
            reveal_strlit("--steps");
            assert("--cases"@[2] != "--steps"@[2]);
        }
        let arg = &args[i];
        let seed = is(arg, "--seed");
        let cases = is(arg, "--cases");
        let steps = is(arg, "--steps");
        let max_amount = is(arg, "--max-amount");
        if seed || cases || steps || max_amount {
            if i + 1 >= args.len() {
                let m = <String as StringExecFns>::from_str("missing value for ");
                return Err(ParseOutcome::Error(m.concat(arg.as_str())));
            }
            let value = args[i + 1].as_str();
            assert(rest[1] == value@);
            let ghost old_cfg = cfg;
            if seed {
                match parse_u64(arg.as_str(), value) {
                    Ok(v) => cfg.seed = v,
                    Err(e) => return Err(e),
                }
                assert(unsigned_text(rest[1], flag_max(rest[0])) == Some(cfg.seed as int));
                assert(cfg == with_flag(old_cfg, rest[0], cfg.seed as int));
            } else if cases {
                match parse_u64(arg.as_str(), value) {
                    Ok(v) => cfg.cases = v,
                    Err(e) => return Err(e),
                }
                assert(unsigned_text(rest[1], flag_max(rest[0])) == Some(cfg.cases as int));
                assert(cfg == with_flag(old_cfg, rest[0], cfg.cases as int));
            } else if steps {
                match parse_usize(arg.as_str(), value) {
                    Ok(v) => cfg.steps = v,
                    Err(e) => return Err(e),
                }
                assert(unsigned_text(rest[1], flag_max(rest[0])) == Some(cfg.steps as int));
                assert(cfg == with_flag(old_cfg, rest[0], cfg.steps as int));
            } else {
                match parse_u64(arg.as_str(), value) {
                    Ok(v) => cfg.max_amount = v,
                    Err(e) => return Err(e),
                }
                assert(unsigned_text(rest[1], flag_max(rest[0])) == Some(cfg.max_amount as int));
                assert(cfg == with_flag(old_cfg, rest[0], cfg.max_amount as int));
            }
            assert(rest.skip(2) =~= args_view(args@).skip(i + 2));
            assert(unsigned_text(rest[1], flag_max(rest[0])) is Some);
            assert(cfg == with_flag(old_cfg, rest[0], unsigned_text(rest[1], flag_max(rest[0]))->Some_0));
            i = i + 2;
        } else if is(arg, "--help") || is(arg, "-h") {
            return Err(ParseOutcome::Help);
        } else {
            let m = <String as StringExecFns>::from_str("unknown flag: ");
            return Err(ParseOutcome::Error(m.concat(arg.as_str())));
        }
    }
    assert(args_view(args@).skip(i as int) =~= Seq::<Seq<char>>::empty());
    Ok(cfg)
}

} // verus!
