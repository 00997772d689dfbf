use commander::text::same_text;
use commander::{coerce_value, parse_int, ArgType, CommandError, Commander, Outcome, PrefixArg, Value};

fn args(tokens: &[&str]) -> Vec<String> {
    tokens.iter().map(|t| t.to_string()).collect()
}

fn short_of(p: &PrefixArg) -> Option<String> {
    match p {
        PrefixArg::Short(s) => Some(s.clone()),
        PrefixArg::Both(s, _) => Some(s.clone()),
        PrefixArg::Long(_) => None,
    }
}

#[test]
fn parse_short_only() {
    match PrefixArg::from_str("-x") {
        Ok(PrefixArg::Short(s)) => assert_eq!(s, "-x"),
        other => panic!("unexpected {:?}", other),
    }
}

#[test]
fn parse_long_only() {
    match PrefixArg::from_str("--xx") {
        Ok(PrefixArg::Long(l)) => assert_eq!(l, "--xx"),
        other => panic!("unexpected {:?}", other),
    }
}

#[test]
fn parse_both_short_first() {
    match PrefixArg::from_str("-x,--xx") {
        Ok(PrefixArg::Both(s, l)) => {
            assert_eq!(s, "-x");
            assert_eq!(l, "--xx");
        },
        other => panic!("unexpected {:?}", other),
    }
}

#[test]
fn parse_both_long_first_is_normalized() {
    match PrefixArg::from_str("--xx,-x") {
        Ok(PrefixArg::Both(s, l)) => {
            assert_eq!(s, "-x");
            assert_eq!(l, "--xx");
        },
        other => panic!("unexpected {:?}", other),
    }
}

#[test]
fn parse_refuses_malformed() {
    for raw in ["", "p", "x,--xx", "-a,-b", "--a,--b", "-a,--b,-c", ",", "-a,", "--a,--b,--c,--d"] {
        assert!(
            matches!(PrefixArg::from_str(raw), Err(CommandError::InvalidPrefix)),
            "accepted {:?}",
            raw
        );
    }
}

#[test]
fn parse_keeps_spaces() {
    let p = PrefixArg::from_str("-x, --xx");
    assert!(matches!(p, Err(CommandError::InvalidPrefix)));
    let p = PrefixArg::from_str(" -x").unwrap_err();
    assert_eq!(p, CommandError::InvalidPrefix);
    let p = PrefixArg::from_str("-x ").unwrap();
    assert_eq!(short_of(&p), Some("-x ".to_string()));
}

#[test]
fn prefix_matches_tokens() {
    let p = PrefixArg::from_str("--print,-p").unwrap();
    assert!(p.matches("-p"));
    assert!(p.matches("--print"));
    assert!(!p.matches("-print"));
    assert!(!p.matches("--print,-p"));
}

#[test]
fn parse_int_reads_decimals() {
    assert_eq!(parse_int("42"), Some(42));
    assert_eq!(parse_int("+42"), Some(42));
    assert_eq!(parse_int("-42"), Some(-42));
    assert_eq!(parse_int("0"), Some(0));
    assert_eq!(parse_int("007"), Some(7));
    assert_eq!(parse_int("9223372036854775807"), Some(i64::MAX));
    assert_eq!(parse_int("-9223372036854775808"), Some(i64::MIN));
}

#[test]
fn parse_int_refuses_non_decimals() {
    for raw in ["", "-", "+", "abc", "4 2", " 42", "42 ", "1e3", "--1", "0x10", "9223372036854775808",
        "-9223372036854775809", "99999999999999999999999999"] {
        assert_eq!(parse_int(raw), None, "accepted {:?}", raw);
        assert_eq!(raw.parse::<i64>().ok(), None);
    }
}

#[test]
fn coerce_follows_type() {
    assert_eq!(coerce_value(ArgType::Boole, "true"), Ok(Value::Boole(true)));
    assert_eq!(coerce_value(ArgType::Boole, "false"), Ok(Value::Boole(false)));
    assert_eq!(coerce_value(ArgType::Boole, "True"), Err(CommandError::InvalidArg));
    assert_eq!(coerce_value(ArgType::Int, "-7"), Ok(Value::Int(-7)));
    assert_eq!(coerce_value(ArgType::Int, "seven"), Err(CommandError::ParseError));
    assert_eq!(coerce_value(ArgType::Str, ""), Ok(Value::Str(String::new())));
}

#[test]
fn same_text_compares_characters() {
    assert!(same_text("héllo", "héllo"));
    assert!(!same_text("héllo", "hello"));
    assert!(!same_text("ab", "abc"));
    assert!(same_text("", ""));
}

#[test]
fn boolean_round_trip() {
    let c = Commander::new().option("-p,--print", "print", Some(true));
    assert_eq!(c.execute_command(&args(&["prog", "--print", "true"])), Ok(Value::Boole(true)));
    assert_eq!(c.execute_command(&args(&["prog", "-p", "false"])), Ok(Value::Boole(false)));
    assert_eq!(c.execute_command(&args(&["prog", "--print", "maybe"])), Err(CommandError::InvalidArg));
}

#[test]
fn integer_option_dispatch() {
    let c = Commander::new().option_int("-n,--number", "a number", Some(2));
    assert_eq!(c.execute_command(&args(&["prog", "-n", "42"])), Ok(Value::Int(42)));
    assert_eq!(c.execute_command(&args(&["prog", "--number", "abc"])), Err(CommandError::ParseError));
    assert_eq!(c.execute_command(&args(&["prog", "-n", "-9223372036854775808"])), Ok(Value::Int(i64::MIN)));
    assert_eq!(c.execute_command(&args(&["prog", "-n", "9223372036854775808"])), Err(CommandError::ParseError));
}

#[test]
fn text_option_accepts_anything() {
    let c = Commander::new().option_str("--name", "a name", None);
    assert_eq!(c.execute_command(&args(&["prog", "--name", "x y,z"])), Ok(Value::Str("x y,z".to_string())));
    assert_eq!(c.execute_command(&args(&["prog", "--name", ""])), Ok(Value::Str(String::new())));
    assert_eq!(c.execute_command(&args(&["prog", "--name", "--name"])), Ok(Value::Str("--name".to_string())));
}

#[test]
fn overlapping_prefixes_first_declared_wins() {
    let c = Commander::new()
        .option_int("-p", "first", None)
        .option_str("-p,--print", "second", None);
    assert_eq!(c.execute_command(&args(&["prog", "-p", "12"])), Ok(Value::Int(12)));
    assert_eq!(c.execute_command(&args(&["prog", "-p", "text"])), Err(CommandError::ParseError));
    assert_eq!(c.execute_command(&args(&["prog", "--print", "text"])), Ok(Value::Str("text".to_string())));
}

#[test]
fn unknown_flag_is_reported() {
    let c = Commander::new().option("-p", "print", None);
    assert_eq!(c.execute_command(&args(&["prog", "-q", "true"])), Err(CommandError::UnknownOption));
    assert_eq!(c.execute_command(&args(&["prog", "-p,--print", "true"])), Err(CommandError::UnknownOption));
}

#[test]
fn extra_tokens_are_ignored() {
    let c = Commander::new().option("-p", "print", None);
    assert_eq!(c.execute_command(&args(&["prog", "-p", "true", "-p", "maybe"])), Ok(Value::Boole(true)));
}

#[test]
fn fewer_than_three_tokens_fail() {
    let c = Commander::new().version("1.0").option("-p", "print", None);
    for tokens in [&[][..], &["prog"][..], &["prog", "-p"][..], &["prog", "-h"][..], &["prog", "--version"][..]] {
        assert_eq!(c.execute_command(&args(tokens)), Err(CommandError::InvalidArg));
        assert_eq!(c.analyse_command(&args(tokens)), Err(CommandError::InvalidArg));
    }
}

#[test]
fn malformed_option_is_dropped() {
    let c = Commander::new().instruction("d").option("print", "never", Some(true)).option("-a,-b", "never", None);
    assert_eq!(c.help_text(), "Description:d");
    assert!(c.default_value("print").is_none());
    assert_eq!(c.execute_command(&args(&["prog", "print", "true"])), Err(CommandError::UnknownOption));
}

#[test]
fn help_lists_options_in_order() {
    let c = Commander::new()
        .name("test")
        .version("1.0")
        .instruction("test command")
        .option("-p,--print", "print", Some(true))
        .option_str("--name,-n", "print name", Some("test"))
        .option_int("-v", "print version", Some(2))
        .option_int("--count", "how many", None);
    assert_eq!(
        c.help_text(),
        "Description:test command\n-p--print\tprint\n-n--name\tprint name\n-v\tprint version\n--count\thow many"
    );
}

#[test]
fn version_text_is_exact() {
    let c = Commander::new().version("0.1").version("1.0");
    assert_eq!(c.version_text(), "Version:1.0");
    assert_eq!(Commander::new().version_text(), "Version:");
}

#[test]
fn metadata_last_write_wins() {
    let c = Commander::new().instruction("one").name("a").instruction("two").name("b");
    assert_eq!(c.help_text(), "Description:two");
}

#[test]
fn defaults_keyed_by_declared_text() {
    let c = Commander::new()
        .option("-p,--print", "print", Some(true))
        .option_str("-n", "name", Some("test"))
        .option_int("--count", "count", None)
        .option_int("-n", "again", Some(5));
    assert_eq!(c.default_value("-p,--print"), Some(&Value::Boole(true)));
    assert_eq!(c.default_value("--print,-p"), None);
    assert_eq!(c.default_value("-p"), None);
    assert_eq!(c.default_value("--count"), None);
    assert_eq!(c.default_value("-n"), Some(&Value::Int(5)));
}

#[test]
fn analyse_routes_help_and_version() {
    let c = Commander::new()
        .version("1.0")
        .instruction("test command")
        .option("-p,--print", "print", Some(true))
        .option_int("-v", "print version", Some(2));
    assert_eq!(
        c.analyse_command(&args(&["prog", "-h", "x"])),
        Ok(Outcome::Help("Description:test command\n-p--print\tprint\n-v\tprint version".to_string()))
    );
    assert_eq!(c.analyse_command(&args(&["prog", "--help", "x"])), Ok(Outcome::Help(c.help_text())));
    assert_eq!(c.analyse_command(&args(&["prog", "-v", "7"])), Ok(Outcome::Version("Version:1.0".to_string())));
    assert_eq!(c.analyse_command(&args(&["prog", "--version", "7"])), Ok(Outcome::Version("Version:1.0".to_string())));
    assert_eq!(c.analyse_command(&args(&["prog", "--print", "false"])), Ok(Outcome::Matched(Value::Boole(false))));
    assert_eq!(c.analyse_command(&args(&["prog", "-p", "no"])), Err(CommandError::InvalidArg));
    assert_eq!(c.analyse_command(&args(&["prog", "-x", "no"])), Err(CommandError::UnknownOption));
}

#[test]
fn value_clone_is_equal() {
    let v = Value::Str("abc".to_string());
    assert_eq!(v.clone(), v);
    assert_eq!(Value::Int(-3).clone(), Value::Int(-3));
}

#[test]
fn arg_info_new_builds() {
    let p = PrefixArg::from_str("-q").unwrap();
    let a = commander::ArgInfo::new(p, ArgType::Str, "quiet", None);
    assert!(format!("{:?}", a).contains("quiet"));
}
