use bsh::errors::{Error, ErrorKind};
use bsh::num::{i64_to_string, parse_i32, parse_isize, parse_u32, parse_u32_or_message, parse_usize, u64_to_string};
use bsh::util::{BshExitStatusExt, ExitStatus, VecExt};

#[test]
fn test_vec_update() {
    let mut primes = vec![1, 2, 3];
    primes.update(0, |p| p * 2);
    assert_eq!(primes, vec![2, 2, 3]);
}

#[test]
fn exit_status_codes() {
    assert!(ExitStatus::from_success().success());
    assert!(!ExitStatus::from_failure().success());
    assert!(ExitStatus::from_status(0).success());
    assert!(!ExitStatus::from_status(1).success());
    assert_eq!(ExitStatus::from_status(85).code(), Some(85));
    assert_eq!(ExitStatus::from_status(500).code(), Some(244));
    assert_eq!(ExitStatus::from_status(-500).code(), Some(12));
    assert_eq!(ExitStatus::from_status(256).code(), Some(0));
    assert!(!ExitStatus::from_status(256).success());
    assert_eq!(ExitStatus::from_raw(9).code(), None);
}

#[test]
fn integer_parsing() {
    assert_eq!(parse_i32("-42"), Some(-42));
    assert_eq!(parse_i32("+7"), Some(7));
    assert_eq!(parse_i32("2147483647"), Some(i32::MAX));
    assert_eq!(parse_i32("-2147483648"), Some(i32::MIN));
    assert_eq!(parse_i32("2147483648"), None);
    assert_eq!(parse_i32(""), None);
    assert_eq!(parse_i32("-"), None);
    assert_eq!(parse_i32("1 "), None);
    assert_eq!(parse_u32("-0"), None);
    assert_eq!(parse_u32("4294967295"), Some(u32::MAX));
    assert_eq!(parse_u32("4294967296"), None);
    assert_eq!(parse_usize("007"), Some(7));
    assert_eq!(parse_isize("-9"), Some(-9));
    assert_eq!(parse_isize(&isize::MIN.to_string()), Some(isize::MIN));
    for s in ["", "x", "12a", "99999999999", "+", "-1"] {
        let expected = s.parse::<u32>().map_err(|e| e.to_string());
        assert_eq!(parse_u32_or_message(s), expected);
    }
}

#[test]
fn decimal_text() {
    assert_eq!(u64_to_string(0), "0");
    assert_eq!(u64_to_string(1234567890123), "1234567890123");
    assert_eq!(i64_to_string(-45), "-45");
    assert_eq!(i64_to_string(i64::MIN), i64::MIN.to_string());
}

#[test]
fn error_messages() {
    assert_eq!(Error::syntax("a;").message(), "syntax error: 'a;'");
    assert_eq!(Error::command_not_found("foo").message(), "foo: command not found");
    assert_eq!(Error::no_such_job("3").message(), "3: no such job");
    assert_eq!(Error::no_job_control().message(), "no job control");
    assert_eq!(Error::builtin_command("boom", 4).message(), "boom");
    assert_eq!(Error::not_supported("nope").message(), "nope");
    assert_eq!(ErrorKind::Nix.message(), " Nix error occurred");
    assert_eq!(Error::from_kind(ErrorKind::Io).kind(), &ErrorKind::Io);
}
