use drastic_idle::args::{
    argv_pairs, invalid_config_message, parse_args, parse_i64, parse_opt_value, parse_u64,
    split_whitespace_tokens, trim, ParseOutcome,
};

fn sv(parts: &[&str]) -> Vec<String> {
    parts.iter().map(|p| p.to_string()).collect()
}

#[test]
fn tokens_split_on_whitespace() {
    assert_eq!(split_whitespace_tokens("echo hi"), sv(&["echo", "hi"]));
    assert_eq!(split_whitespace_tokens("  a \t b\nc  "), sv(&["a", "b", "c"]));
    assert_eq!(split_whitespace_tokens(""), Vec::<String>::new());
    assert_eq!(split_whitespace_tokens(" \t "), Vec::<String>::new());
}

#[test]
fn trim_strips_both_ends() {
    assert_eq!(trim("  x  "), "x");
    assert_eq!(trim("x"), "x");
    assert_eq!(trim("  a b  "), "a b");
    assert_eq!(trim("   "), "");
    assert_eq!(trim(""), "");
}

#[test]
fn opt_value_none_forms() {
    assert_eq!(parse_opt_value(""), None);
    assert_eq!(parse_opt_value("   "), None);
    assert_eq!(parse_opt_value("none"), None);
    assert_eq!(parse_opt_value("NONE"), None);
    assert_eq!(parse_opt_value(" NoNe "), None);
    assert_eq!(parse_opt_value("nones"), Some(sv(&["nones"])));
    assert_eq!(parse_opt_value("echo none"), Some(sv(&["echo", "none"])));
    assert_eq!(parse_opt_value(" notify-send  hello "), Some(sv(&["notify-send", "hello"])));
}

#[test]
fn unicode_whitespace_splits_and_trims() {
    // vertical tab alone is whitespace: no tokens, command disabled
    assert_eq!(parse_opt_value("\u{000B}"), None);
    assert_eq!(parse_opt_value("\u{000C}\u{0085}"), None);
    // `none` surrounded by non-ASCII whitespace still disables the command
    assert_eq!(parse_opt_value("\u{00A0}none\u{3000}"), None);
    // non-ASCII whitespace separates tokens like any other
    assert_eq!(
        split_whitespace_tokens("a\u{00A0}b\u{2003}c\u{2028}d"),
        sv(&["a", "b", "c", "d"])
    );
    assert_eq!(trim("\u{2028}x\u{000B}"), "x");
    assert_eq!(trim("\u{1680}\u{205F}\u{202F}"), "");
}

#[test]
fn pairs_inline_value_trims_unicode_whitespace() {
    let pairs = argv_pairs(&sv(&["prog", "--phase1-cmd=\u{00A0}echo hi\u{3000}"]));
    assert_eq!(pairs, vec![("--phase1-cmd".to_string(), Some("echo hi".to_string()))]);
    // an inline value that is only non-ASCII whitespace counts as absent,
    // so the option takes the next argument
    let pairs = argv_pairs(&sv(&["prog", "--phase1-cmd=\u{000B}", "free"]));
    assert_eq!(pairs, vec![("--phase1-cmd".to_string(), Some("free".to_string()))]);
}

#[test]
fn u64_parsing() {
    assert_eq!(parse_u64("0"), Some(0));
    assert_eq!(parse_u64("123"), Some(123));
    assert_eq!(parse_u64("+7"), Some(7));
    assert_eq!(parse_u64("18446744073709551615"), Some(u64::MAX));
    assert_eq!(parse_u64("18446744073709551616"), None);
    assert_eq!(parse_u64(""), None);
    assert_eq!(parse_u64("+"), None);
    assert_eq!(parse_u64("-1"), None);
    assert_eq!(parse_u64("12a"), None);
    assert_eq!(parse_u64(" 12"), None);
}

#[test]
fn i64_parsing() {
    assert_eq!(parse_i64("-5"), Some(-5));
    assert_eq!(parse_i64("5"), Some(5));
    assert_eq!(parse_i64("+5"), Some(5));
    assert_eq!(parse_i64("9223372036854775807"), Some(i64::MAX));
    assert_eq!(parse_i64("9223372036854775808"), None);
    assert_eq!(parse_i64("-9223372036854775808"), Some(i64::MIN));
    assert_eq!(parse_i64("-9223372036854775809"), None);
    assert_eq!(parse_i64("-"), None);
    assert_eq!(parse_i64("x"), None);
}

#[test]
fn pairs_from_separate_and_inline_values() {
    let pairs = argv_pairs(&sv(&["prog", "--phase1", "30", "--phase2=60", "plain"]));
    assert_eq!(
        pairs,
        vec![
            ("--phase1".to_string(), Some("30".to_string())),
            ("--phase2".to_string(), Some("60".to_string())),
            ("plain".to_string(), None),
        ]
    );
}

#[test]
fn pairs_empty_inline_value_consumes_next() {
    // `--phase1-cmd=` carries no value, so the option takes the next argument
    let pairs = argv_pairs(&sv(&["prog", "--phase1-cmd=", "free"]));
    assert_eq!(pairs, vec![("--phase1-cmd".to_string(), Some("free".to_string()))]);
}

#[test]
fn pairs_inline_value_is_trimmed() {
    let pairs = argv_pairs(&sv(&["prog", "--phase1-cmd= echo hi "]));
    assert_eq!(pairs, vec![("--phase1-cmd".to_string(), Some("echo hi".to_string()))]);
}

#[test]
fn pairs_only_first_equals_sign_splits() {
    let pairs = argv_pairs(&sv(&["prog", "--phase1-cmd=a=b"]));
    assert_eq!(pairs, vec![("--phase1-cmd".to_string(), Some("a=b".to_string()))]);
}

#[test]
fn pairs_non_option_with_equals_still_splits() {
    let pairs = argv_pairs(&sv(&["prog", "foo=bar"]));
    assert_eq!(pairs, vec![("foo".to_string(), Some("bar".to_string()))]);
}

#[test]
fn pairs_value_option_at_end_gets_none() {
    let pairs = argv_pairs(&sv(&["prog", "--phase1"]));
    assert_eq!(pairs, vec![("--phase1".to_string(), None)]);
}

#[test]
fn pairs_non_value_option_keeps_next() {
    let pairs = argv_pairs(&sv(&["prog", "-h", "--phase1"]));
    assert_eq!(
        pairs,
        vec![("-h".to_string(), None), ("--phase1".to_string(), None)]
    );
}

#[test]
fn defaults_when_no_options() {
    match parse_args(&sv(&["prog"])) {
        ParseOutcome::Run(c) => {
            assert_eq!(c.phase1_secs, 10);
            assert_eq!(c.phase2_secs, 300);
            assert_eq!(c.auto_snooze_secs, 60);
            assert_eq!(c.phase1_cmd, None);
            assert_eq!(c.phase2_cmd, Some(sv(&["systemctl", "poweroff"])));
        }
        _ => panic!("expected a runnable configuration"),
    }
}

#[test]
fn options_override_defaults() {
    match parse_args(&sv(&[
        "prog",
        "-1",
        "5",
        "--phase2=90",
        "-a",
        "0",
        "--phase1-cmd",
        "notify-send hi",
        "--phase2-cmd=none",
    ])) {
        ParseOutcome::Run(c) => {
            assert_eq!(c.phase1_secs, 5);
            assert_eq!(c.phase2_secs, 90);
            assert_eq!(c.auto_snooze_secs, 0);
            assert_eq!(c.phase1_cmd, Some(sv(&["notify-send", "hi"])));
            assert_eq!(c.phase2_cmd, None);
        }
        _ => panic!("expected a runnable configuration"),
    }
}

#[test]
fn zero_and_junk_threshold_values_are_ignored() {
    match parse_args(&sv(&["prog", "--phase1", "0", "--phase2", "oops"])) {
        ParseOutcome::Run(c) => {
            assert_eq!(c.phase1_secs, 10);
            assert_eq!(c.phase2_secs, 300);
        }
        _ => panic!("expected a runnable configuration"),
    }
}

#[test]
fn negative_snooze_clamps_to_zero() {
    match parse_args(&sv(&["prog", "--auto-snooze", "-5"])) {
        ParseOutcome::Run(c) => assert_eq!(c.auto_snooze_secs, 0),
        _ => panic!("expected a runnable configuration"),
    }
}

#[test]
fn help_flag_wins() {
    assert!(matches!(parse_args(&sv(&["prog", "-h"])), ParseOutcome::ShowHelp));
    assert!(matches!(
        parse_args(&sv(&["prog", "--phase1", "300", "--help"])),
        ParseOutcome::ShowHelp
    ));
}

#[test]
fn rejects_phase1_not_below_phase2() {
    assert!(matches!(
        parse_args(&sv(&["prog", "--phase1", "300", "--phase2", "10"])),
        ParseOutcome::Reject
    ));
    assert!(matches!(
        parse_args(&sv(&["prog", "--phase1", "300", "--phase2", "300"])),
        ParseOutcome::Reject
    ));
}

#[test]
fn unknown_options_are_ignored() {
    assert!(matches!(
        parse_args(&sv(&["prog", "--bogus", "stuff"])),
        ParseOutcome::Run(_)
    ));
}

#[test]
fn rejection_message_names_the_program() {
    assert_eq!(
        invalid_config_message("prog"),
        "prog: phase1 must be less than phase2"
    );
}
