use verified_ledger::cli::{parse_flags, parse_u64, parse_usize, ParseOutcome};
use verified_ledger::fuzz::FuzzConfig;

fn args(list: &[&str]) -> Vec<String> {
    list.iter().map(|a| a.to_string()).collect()
}

fn error_of(r: Result<FuzzConfig, ParseOutcome>) -> String {
    match r {
        Err(ParseOutcome::Error(m)) => m,
        _ => panic!("expected a usage error"),
    }
}

#[test]
fn flags_set_every_field() {
    let c = parse_flags(
        &args(&["--seed", "7", "--cases", "3", "--steps", "+12", "--max-amount", "9"]),
        FuzzConfig::new(1),
    )
    .ok()
    .unwrap();
    assert_eq!((c.seed, c.cases, c.steps, c.max_amount), (7, 3, 12, 9));
}

#[test]
fn no_flags_keep_defaults() {
    let c = parse_flags(&args(&[]), FuzzConfig::new(5)).ok().unwrap();
    assert_eq!((c.seed, c.cases, c.steps, c.max_amount), (5, 50, 200, 50));
}

#[test]
fn later_flag_wins() {
    let c = parse_flags(&args(&["--seed", "1", "--seed", "18446744073709551615"]), FuzzConfig::new(0))
        .ok()
        .unwrap();
    assert_eq!(c.seed, u64::MAX);
}

#[test]
fn help_flag() {
    assert!(matches!(parse_flags(&args(&["--steps", "4", "-h"]), FuzzConfig::new(0)), Err(ParseOutcome::Help)));
    assert!(matches!(parse_flags(&args(&["--help", "--bogus"]), FuzzConfig::new(0)), Err(ParseOutcome::Help)));
}

#[test]
fn usage_errors_name_the_flag() {
    assert_eq!(error_of(parse_flags(&args(&["--bogus"]), FuzzConfig::new(0))), "unknown flag: --bogus");
    assert_eq!(error_of(parse_flags(&args(&["--cases"]), FuzzConfig::new(0))), "missing value for --cases");
    assert_eq!(
        error_of(parse_flags(&args(&["--max-amount", "-5"]), FuzzConfig::new(0))),
        "invalid value for --max-amount: -5"
    );
    assert_eq!(
        error_of(parse_flags(&args(&["--seed", "18446744073709551616"]), FuzzConfig::new(0))),
        "invalid value for --seed: 18446744073709551616"
    );
    assert_eq!(error_of(parse_flags(&args(&["--steps", ""]), FuzzConfig::new(0))), "invalid value for --steps: ");
}

#[test]
fn number_parsing() {
    assert_eq!(parse_u64("--seed", "42").ok(), Some(42));
    assert_eq!(parse_u64("--seed", "+0").ok(), Some(0));
    assert!(parse_u64("--seed", "+").is_err());
    assert!(parse_u64("--seed", " 1").is_err());
    assert_eq!(parse_usize("--steps", "200").ok(), Some(200));
    match parse_usize("--steps", "x") {
        Err(ParseOutcome::Error(m)) => assert_eq!(m, "invalid value for --steps: x"),
        _ => panic!("expected an error"),
    }
}
