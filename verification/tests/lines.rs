//! Whole lines: what they decode to and what they are written as.

use strace_parse::line::{
    decode_timestamp, strace_line, try_decode_timestamp, DecodeError, StraceLine, StraceParser,
    Timestamp,
};
use strace_parse::token::StraceToken;

fn id(name: &str) -> StraceToken {
    StraceToken::Ident(name.to_string())
}

fn st(text: &str) -> StraceToken {
    StraceToken::String(text.to_string())
}

fn ex(items: Vec<StraceToken>) -> StraceToken {
    StraceToken::Expr(items)
}

fn hash(entries: Vec<(&str, StraceToken)>) -> StraceToken {
    StraceToken::Hash(entries.into_iter().map(|(key, value)| (key.to_string(), value)).collect())
}

fn round_trip(line: &str) {
    assert_eq!(StraceLine::from_str(line).unwrap().serialize(), line);
}

#[test]
fn written_lines_with_every_prefix_come_back() {
    for body in [
        r#"openat(AT_FDCWD, "/etc/ld.so.cache", O_RDONLY|O_CLOEXEC) = 3"#,
        r#"access("/etc/ld.so.preload", R_OK) = -1 ENOENT (No such file or directory)"#,
        r#"access(...) = -1"#,
        r#"+++ exited with 42 +++"#,
        r#"+++ killed by SIGINT +++"#,
        r#"strace: Process 1807404 detached"#,
    ] {
        round_trip(body);
        round_trip(&format!("1611916273.692217 {}", body));
        round_trip(&format!("[pid 1823469] {}", body));
        round_trip(&format!("[pid 1823469] 1611916273.692217 {}", body));
    }
}

#[test]
fn attach_notice_comes_back_with_the_tracer_it_names() {
    let line = "/usr/bin/strace: Process 1807404 attached";
    let decoded = StraceLine::from_str(line).unwrap();
    assert_eq!(decoded.inner, StraceToken::ProcessAttach(1807404));
    assert_eq!(decoded.serialize(), line);
    assert_eq!(decoded.inner.serialize(), line);
    assert_eq!(decoded.serialize_with("/usr/bin/strace"), line);
    assert_eq!(decoded.serialize_with("/opt/bin/strace"), "/opt/bin/strace: Process 1807404 attached");
    for prefix in ["", "1611916273.692217 ", "[pid 1823469] ", "[pid 1823469] 1611916273.692217 "] {
        round_trip(&format!("{}{}", prefix, line));
    }
    assert_eq!(
        StraceLine::from_str("strace: Process 1807404 attached").unwrap().serialize(),
        line
    );
}

#[test]
fn permission_denied_notice() {
    let line = "/usr/bin/strace: attach: ptrace(PTRACE_SEIZE, 4242): Operation not permitted";
    let decoded = StraceLine::from_str(line).unwrap();
    assert_eq!(
        decoded,
        StraceLine { pid: None, time: None, inner: StraceToken::PermissionDenied(4242) }
    );
    assert_eq!(decoded.serialize(), line);
    assert_eq!(decoded.serialize_with("/usr/bin/strace"), line);
    assert_eq!(decoded.inner.serialize_with("strace"), "strace: attach: ptrace(PTRACE_SEIZE, 4242): Operation not permitted");
}

#[test]
fn signal_with_numbers_is_written_in_canonical_form() {
    let decoded = StraceLine::from_str(
        "--- SIGCHLD {si_signo=SIGCHLD, si_code=CLD_EXITED, si_pid=1783018, ...} ---",
    )
    .unwrap();
    assert_eq!(
        decoded.inner,
        StraceToken::Signal(
            "SIGCHLD".to_string(),
            vec![hash(vec![
                ("si_signo", ex(vec![id("SIGCHLD")])),
                ("si_code", ex(vec![id("CLD_EXITED")])),
                ("si_pid", ex(vec![StraceToken::Number(1783018)])),
            ])]
        )
    );
    let written = decoded.serialize();
    assert_eq!(written, "--- SIGCHLD {si_signo=SIGCHLD, si_code=CLD_EXITED, si_pid=0x1b34ea} ---");
    assert_eq!(StraceLine::from_str(&written).unwrap(), decoded);
}

#[test]
fn signal_without_numbers_comes_back() {
    round_trip("--- SIGINT {si_signo=SIGINT, si_code=SI_KERNEL} ---");
    round_trip("[pid 7] 12.000001 --- SIGINT {si_signo=SIGINT, si_code=SI_KERNEL} ---");
    assert_eq!(StraceLine::from_str("--- SIGALRM ... ---").unwrap().serialize(), "--- SIGALRM ---");
    round_trip("--- SIGALRM ---");
}

#[test]
fn numbers_are_stored_by_value_and_written_in_hexadecimal() {
    let decoded = StraceLine::from_str("{st_mode=S_IFREG|0644, st_size=282443, ...}").unwrap();
    assert_eq!(
        decoded.inner,
        hash(vec![
            (
                "st_mode",
                ex(vec![id("S_IFREG"), StraceToken::Op("|".to_string()), StraceToken::Number(0o644)])
            ),
            ("st_size", ex(vec![StraceToken::Number(282443)])),
        ])
    );
    assert_eq!(decoded.serialize(), "{st_mode=S_IFREG|0x1a4, st_size=0x44f4b}");
}

#[test]
fn number_literals_of_each_base() {
    let decoded = StraceLine::from_str("f(0x10, 010, 10, -10, 0, 0x7fffffffffffffff, -9223372036854775808)").unwrap();
    assert_eq!(
        decoded.inner,
        StraceToken::Call {
            name: "f".to_string(),
            args: vec![
                ex(vec![StraceToken::Number(16)]),
                ex(vec![StraceToken::Number(8)]),
                ex(vec![StraceToken::Number(10)]),
                ex(vec![StraceToken::Number(-10)]),
                ex(vec![StraceToken::Number(0)]),
                ex(vec![StraceToken::Number(i64::MAX)]),
                ex(vec![StraceToken::Number(i64::MIN)]),
            ],
            result: None,
            info: None,
        }
    );
    assert_eq!(
        decoded.serialize(),
        "f(0x10, 0x8, 0xa, 0xfffffffffffffff6, 0x0, 0x7fffffffffffffff, 0x8000000000000000)"
    );
}

#[test]
fn number_written_in_hexadecimal() {
    assert_eq!(StraceToken::Number(0).serialize(), "0x0");
    assert_eq!(StraceToken::Number(255).serialize(), "0xff");
    assert_eq!(StraceToken::Number(-1).serialize(), "0xffffffffffffffff");
    assert_eq!(StraceToken::Number(i64::MIN).serialize(), "0x8000000000000000");
    assert_eq!(StraceToken::Number(0x7ffea94d6768).serialize(), "0x7ffea94d6768");
}

#[test]
fn truncated_value_in_a_hash() {
    let decoded =
        StraceLine::from_str("--- SIGINT {si_signo=SIGINT, si_code=SI_USER, si_pid=...} ---").unwrap();
    match decoded.inner {
        StraceToken::Signal(name, details) => {
            assert_eq!(name, "SIGINT");
            assert_eq!(details.len(), 1);
            match &details[0] {
                StraceToken::Hash(entries) => {
                    assert_eq!(entries.len(), 3);
                    assert_eq!(entries[2], ("si_pid".to_string(), StraceToken::Truncated));
                },
                other => panic!("not a hash: {:?}", other),
            }
        },
        other => panic!("not a signal: {:?}", other),
    }
}

#[test]
fn nested_call_in_a_hash() {
    let decoded =
        StraceLine::from_str("stat(..., {st_mode=..., st_rdev=makedev(0xe2, 0)}) = 0").unwrap();
    assert_eq!(
        decoded.inner,
        StraceToken::Call {
            name: "stat".to_string(),
            args: vec![
                StraceToken::Truncated,
                hash(vec![
                    ("st_mode", StraceToken::Truncated),
                    (
                        "st_rdev",
                        ex(vec![StraceToken::Call {
                            name: "makedev".to_string(),
                            args: vec![
                                ex(vec![StraceToken::Number(0xe2)]),
                                ex(vec![StraceToken::Number(0)])
                            ],
                            result: None,
                            info: None,
                        }])
                    ),
                ]),
            ],
            result: Some(0),
            info: None,
        }
    );
}

#[test]
fn dots_behind_a_string_are_dropped() {
    let decoded = StraceLine::from_str(r#"readlink("a", "b"..., 256) = 36"#).unwrap();
    assert_eq!(
        decoded.inner,
        StraceToken::Call {
            name: "readlink".to_string(),
            args: vec![st("a"), st("b"), ex(vec![StraceToken::Number(256)])],
            result: Some(36),
            info: None,
        }
    );
    assert_eq!(decoded.inner.strs(), vec!["a".to_string(), "b".to_string()]);
    assert_eq!(decoded.serialize(), r#"readlink("a", "b", 0x100) = 36"#);
}

#[test]
fn string_is_kept_as_written() {
    let decoded = StraceLine::from_str(r#"open("\x2f\x65\x74\x63", "say \"hi\"\n") = 3"#).unwrap();
    assert_eq!(
        decoded.inner,
        StraceToken::Call {
            name: "open".to_string(),
            args: vec![st(r"\x2f\x65\x74\x63"), st(r#"say \"hi\"\n"#)],
            result: Some(3),
            info: None,
        }
    );
    assert_eq!(decoded.serialize(), r#"open("\x2f\x65\x74\x63", "say \"hi\"\n") = 3"#);
}

#[test]
fn spaces_and_comments_between_tokens() {
    let decoded = StraceLine::from_str("close( 3 /* the file */ )                     = 0").unwrap();
    assert_eq!(
        decoded.inner,
        StraceToken::Call {
            name: "close".to_string(),
            args: vec![ex(vec![StraceToken::Number(3)])],
            result: Some(0),
            info: None,
        }
    );
    assert_eq!(decoded.serialize(), "close(0x3) = 0");
}

#[test]
fn padded_pid() {
    assert_eq!(
        StraceLine::from_str("[pid    12] +++ exited with 0 +++").unwrap(),
        StraceLine { pid: Some(12), time: None, inner: StraceToken::Exit(0) }
    );
}

#[test]
fn bare_values_as_lines() {
    assert_eq!(StraceLine::from_str("[]").unwrap().inner, StraceToken::Array(vec![]));
    assert_eq!(StraceLine::from_str("{}").unwrap().inner, StraceToken::Hash(vec![]));
    assert_eq!(
        StraceLine::from_str("~[RTMIN RT_1]").unwrap().inner,
        StraceToken::BitSet(true, vec![id("RTMIN"), id("RT_1")])
    );
    assert_eq!(
        StraceLine::from_str("{a b}").unwrap().inner,
        StraceToken::List(vec![ex(vec![id("a")]), ex(vec![id("b")])])
    );
    assert_eq!(StraceLine::from_str("~[RTMIN RT_1]").unwrap().serialize(), "~[RTMIN RT_1]");
    assert_eq!(StraceLine::from_str("{a b ...}").unwrap().serialize(), "{a b}");
    assert_eq!(
        StraceLine::from_str(r#"["a", ...]"#).unwrap().inner,
        StraceToken::Array(vec![st("a"), StraceToken::Truncated])
    );
    assert_eq!(StraceLine::from_str(r#"["a", ...]"#).unwrap().serialize(), r#"["a", ...]"#);
    assert_eq!(
        StraceLine::from_str(r#"["a", NULL, {k=[1]}]"#).unwrap().serialize(),
        r#"["a", NULL, {k=[0x1]}]"#
    );
}

#[test]
fn expression_is_written_without_spaces() {
    assert_eq!(
        StraceLine::from_str("ioctl(2, SNDCTL_TMR_STOP or TCSETSW) = 0").unwrap().serialize(),
        "ioctl(0x2, SNDCTL_TMR_STOPorTCSETSW) = 0"
    );
    assert_eq!(
        StraceLine::from_str("f(8192*1024, A&&B, 1<<4)").unwrap().inner,
        StraceToken::Call {
            name: "f".to_string(),
            args: vec![
                ex(vec![StraceToken::Number(8192), StraceToken::Op("*".to_string()), StraceToken::Number(1024)]),
                ex(vec![id("A"), StraceToken::Op("&&".to_string()), id("B")]),
                ex(vec![StraceToken::Number(1), StraceToken::Op("<<".to_string()), StraceToken::Number(4)]),
            ],
            result: None,
            info: None,
        }
    );
}

#[test]
fn time_is_written_with_six_digits_of_microseconds() {
    let line = StraceLine {
        pid: Some(-3),
        time: Some(Timestamp::from_micros(12_000_217)),
        inner: StraceToken::Exit(-1),
    };
    assert_eq!(line.serialize(), "[pid -3] 12.000217 +++ exited with -1 +++");
    assert_eq!(Timestamp::from_micros(12_000_217).as_secs(), 12);
    assert_eq!(Timestamp::from_micros(12_000_217).subsec_micros(), 217);
    for (micros, text) in [
        (0, "0.000000"),
        (1, "0.000001"),
        (999_999, "0.999999"),
        (1_000_000, "1.000000"),
        (1611916273000217, "1611916273.000217"),
        (1611916273692217, "1611916273.692217"),
        (u64::MAX, "18446744073709.551615"),
    ] {
        let line = StraceLine {
            pid: None,
            time: Some(Timestamp::from_micros(micros)),
            inner: StraceToken::Exit(0),
        };
        assert_eq!(line.serialize(), format!("{} +++ exited with 0 +++", text));
        assert_eq!(decode_timestamp(text), Timestamp::from_micros(micros));
    }
}

#[test]
fn time_with_leading_zeros_in_its_microseconds_comes_back() {
    round_trip("1611916273.000217 +++ exited with 42 +++");
    round_trip("[pid 1823469] 1611916273.000217 +++ exited with 42 +++");
    round_trip(r#"1611916273.000001 openat(AT_FDCWD, "/etc/ld.so.cache", O_RDONLY|O_CLOEXEC) = 3"#);
    round_trip("0.000000 +++ killed by SIGINT +++");
    assert_eq!(
        StraceLine::from_str("1611916273.000217 +++ exited with 42 +++").unwrap().time,
        Some(Timestamp::from_micros(1611916273000217))
    );
}

#[test]
fn timestamp_is_its_digits_in_microseconds() {
    assert_eq!(decode_timestamp("1611916273.692217"), Timestamp::from_micros(1611916273692217));
    assert_eq!(decode_timestamp("1611916273.692217").micros, 1611916273692217);
    assert_eq!(decode_timestamp("0.000001").micros, 1);
    assert_eq!(decode_timestamp("1.5").micros, 15);
    assert_eq!(decode_timestamp("18446744073709.551615").micros, u64::MAX);
}

#[test]
fn line_that_matches_no_rule_is_refused() {
    for line in [
        "",
        " ",
        "this is not a trace line",
        "openat(",
        "openat(AT_FDCWD",
        "openat(AT_FDCWD) = ",
        "openat(AT_FDCWD) = 3extra",
        "openat(AT_FDCWD) = 0x7f00",
        "exit_group(0) = ?",
        r#"open("unterminated) = 3"#,
        "f(1) trailing",
        "f(1 /* open comment) = 0",
        "+++ exited with +++",
        "+++ exited with 1 ++",
        "[pid 12]openat(1) = 0",
        "[pid x] openat(1) = 0",
        "--- ---",
        ": Process 12 attached",
        "strace: Process attached",
        "{a=}",
        "[1 2",
    ] {
        assert_eq!(
            StraceLine::from_str(line),
            Err(DecodeError { line: line.to_string() }),
            "{:?}",
            line
        );
    }
}

#[test]
fn number_that_does_not_fit_is_refused() {
    for line in [
        "f(9223372036854775808)",
        "f(-9223372036854775809)",
        "f(0x10000000000000000)",
        "f(18446744073709551615)",
        "f(01000000000000000000000)",
        "f(1) = 2147483648",
        "f(1) = -2147483649",
        "+++ exited with 2147483648 +++",
        "[pid 2147483648] f(1)",
        "strace: Process 2147483648 attached",
        "18446744073709.551616 f(1)",
    ] {
        assert!(StraceLine::from_str(line).is_err(), "{:?}", line);
    }
    assert_eq!(
        StraceLine::from_str("f(1) = 2147483647").unwrap().inner,
        StraceToken::Call {
            name: "f".to_string(),
            args: vec![ex(vec![StraceToken::Number(1)])],
            result: Some(i32::MAX),
            info: None,
        }
    );
    assert_eq!(
        StraceLine::from_str("+++ exited with -2147483648 +++").unwrap().inner,
        StraceToken::Exit(i32::MIN)
    );
    assert_eq!(
        StraceLine::from_str("18446744073709.551615 f(1)").unwrap().time,
        Some(Timestamp::from_micros(u64::MAX))
    );
}

#[test]
fn refused_line_does_not_change_the_next() {
    let good = r#"[pid 1823469] access("/etc/ld.so.preload", R_OK) = -1"#;
    let before = StraceLine::from_str(good).unwrap();
    let refused = StraceLine::from_str("%% garbage from the traced program %%");
    assert_eq!(
        refused,
        Err(DecodeError { line: "%% garbage from the traced program %%".to_string() })
    );
    assert_eq!(StraceLine::from_str(good).unwrap(), before);
    assert_eq!(strace_line(good).unwrap(), before);
    assert_eq!(StraceParser::parse(good).unwrap(), before);
}

#[test]
fn the_three_decoders_agree() {
    for line in ["+++ exited with 3 +++", "nonsense", "f(a|b, [x y]) = 1 note"] {
        assert_eq!(strace_line(line), StraceLine::from_str(line));
        assert_eq!(StraceParser::parse(line), StraceLine::from_str(line));
    }
}

#[test]
fn lines_of_a_stream_are_decoded_each_alone() {
    let lines = vec![
        "+++ exited with 1 +++".to_string(),
        "garbage".to_string(),
        "+++ exited with 2 +++".to_string(),
    ];
    let decoded = strace_parse::line::decode_lines(&lines);
    assert_eq!(decoded.len(), 3);
    assert_eq!(decoded[0], StraceLine::from_str("+++ exited with 1 +++"));
    assert_eq!(decoded[1], Err(DecodeError { line: "garbage".to_string() }));
    assert_eq!(
        decoded[2],
        Ok(StraceLine { pid: None, time: None, inner: StraceToken::Exit(2) })
    );
    assert_eq!(strace_parse::line::decode_lines(&Vec::new()), Vec::new());
}

#[test]
fn timestamp_that_cannot_be_decoded() {
    assert_eq!(try_decode_timestamp("1611916273.692217"), Some(Timestamp::from_micros(1611916273692217)));
    assert_eq!(try_decode_timestamp("12"), Some(Timestamp::from_micros(12)));
    assert_eq!(try_decode_timestamp("1.2.3"), Some(Timestamp::from_micros(123)));
    assert_eq!(try_decode_timestamp("18446744073709.551615"), Some(Timestamp::from_micros(u64::MAX)));
    for text in ["", ".", "..", "1.x", "-1.5", "+1.5", " 1.5", "18446744073709.551616", "1e3"] {
        assert_eq!(try_decode_timestamp(text), None, "{:?}", text);
    }
}

#[test]
fn call_with_a_notice_in_a_string_is_a_call() {
    let line = r#"open("strace: Process 1 attached") = 3"#;
    let decoded = StraceLine::from_str(line).unwrap();
    assert_eq!(
        decoded.inner,
        StraceToken::Call {
            name: "open".to_string(),
            args: vec![st("strace: Process 1 attached")],
            result: Some(3),
            info: None,
        }
    );
    assert_eq!(decoded.serialize(), line);
    assert_eq!(
        StraceLine::from_str(r#"f("x: Process 1 attached /*") = 1 */"#).unwrap().inner,
        StraceToken::Call {
            name: "f".to_string(),
            args: vec![st("x: Process 1 attached /*")],
            result: Some(1),
            info: Some("*/".to_string()),
        }
    );
    assert!(StraceLine::from_str("a(b: Process 1 attached").is_err());
    assert!(StraceLine::from_str("a\"b: Process 1 attached").is_err());
}

#[test]
fn plain_lines_come_back_for_every_prefix() {
    let mut bodies: Vec<StraceToken> = Vec::new();
    for code in [i32::MIN, -1, 0, 1, 42, i32::MAX] {
        bodies.push(StraceToken::Exit(code));
    }
    for pid in [0, 1, 1807404, i32::MAX] {
        bodies.push(StraceToken::ProcessAttach(pid));
        bodies.push(StraceToken::ProcessDetach(pid));
        bodies.push(StraceToken::PermissionDenied(pid));
    }
    for name in ["SIGINT", "SIGKILL", "_x9"] {
        bodies.push(StraceToken::Kill(name.to_string()));
        bodies.push(StraceToken::Signal(name.to_string(), vec![]));
    }
    for (result, info) in
        [(None, None), (Some(3), None), (Some(-1), Some("ENOENT (No such file or directory)"))]
    {
        for args in [
            vec![],
            vec![StraceToken::Truncated],
            vec![st("/etc/ld.so.cache")],
            vec![
                ex(vec![id("AT_FDCWD")]),
                st("a b: c, d) = 1"),
                ex(vec![
                    id("O_RDONLY"),
                    StraceToken::Op("|".to_string()),
                    StraceToken::Number(0x1f),
                    StraceToken::Op("-".to_string()),
                    StraceToken::Number(-1),
                    StraceToken::Op("^".to_string()),
                    StraceToken::Number(i64::MIN),
                    StraceToken::Op("<<".to_string()),
                    id("or"),
                    StraceToken::Op("/".to_string()),
                    id("NULLS"),
                ]),
                StraceToken::Truncated,
                st(""),
            ],
        ] {
            bodies.push(StraceToken::Call {
                name: "openat".to_string(),
                args,
                result,
                info: info.map(|text| text.to_string()),
            });
        }
    }
    let mut count = 0;
    for inner in bodies {
        for pid in [None, Some(0), Some(1823469), Some(i32::MAX)] {
            for time in [None, Some(0), Some(12_000_217), Some(1611916273692217), Some(u64::MAX)] {
                let line = StraceLine {
                    pid,
                    time: time.map(Timestamp::from_micros),
                    inner: clone_token(&inner),
                };
                let written = line.serialize();
                assert_eq!(StraceLine::from_str(&written), Ok(line), "{:?}", written);
                count += 1;
            }
        }
    }
    assert_eq!(count, (6 + 12 + 6 + 12) * 20);
}

fn clone_token(token: &StraceToken) -> StraceToken {
    match token {
        StraceToken::Exit(code) => StraceToken::Exit(*code),
        StraceToken::Kill(name) => StraceToken::Kill(name.clone()),
        StraceToken::Signal(name, _) => StraceToken::Signal(name.clone(), vec![]),
        StraceToken::ProcessAttach(pid) => StraceToken::ProcessAttach(*pid),
        StraceToken::ProcessDetach(pid) => StraceToken::ProcessDetach(*pid),
        StraceToken::PermissionDenied(pid) => StraceToken::PermissionDenied(*pid),
        StraceToken::Call { name, args, result, info } => StraceToken::Call {
            name: name.clone(),
            args: args.iter().map(clone_token).collect(),
            result: *result,
            info: info.clone(),
        },
        StraceToken::Expr(items) => StraceToken::Expr(items.iter().map(clone_token).collect()),
        StraceToken::String(text) => StraceToken::String(text.clone()),
        StraceToken::Number(n) => StraceToken::Number(*n),
        StraceToken::Ident(name) => StraceToken::Ident(name.clone()),
        StraceToken::Op(op) => StraceToken::Op(op.clone()),
        StraceToken::Truncated => StraceToken::Truncated,
        other => panic!("not a token of a plain line: {:?}", other),
    }
}

#[test]
fn lines_that_do_not_come_back() {
    // the operator `or` is written without the spaces that set it off
    let words = StraceLine::from_str("f(A or B)").unwrap();
    assert_eq!(words.serialize(), "f(AorB)");
    assert_eq!(
        StraceLine::from_str(&words.serialize()).unwrap().inner,
        StraceToken::Call {
            name: "f".to_string(),
            args: vec![ex(vec![id("AorB")])],
            result: None,
            info: None,
        }
    );
    let numbers = StraceLine::from_str("f(1 or 2)").unwrap();
    assert_eq!(numbers.serialize(), "f(0x1or0x2)");
    assert!(StraceLine::from_str(&numbers.serialize()).is_err());
}

#[test]
fn hexadecimal_number_gives_its_64_bits() {
    let negative = StraceLine::from_str("f(-1, 0xffffffffffffffff, 0x8000000000000000)").unwrap();
    assert_eq!(
        negative.inner,
        StraceToken::Call {
            name: "f".to_string(),
            args: vec![
                ex(vec![StraceToken::Number(-1)]),
                ex(vec![StraceToken::Number(-1)]),
                ex(vec![StraceToken::Number(i64::MIN)]),
            ],
            result: None,
            info: None,
        }
    );
    assert_eq!(negative.serialize(), "f(0xffffffffffffffff, 0xffffffffffffffff, 0x8000000000000000)");
    assert_eq!(StraceLine::from_str(&negative.serialize()), Ok(negative));
    assert!(StraceLine::from_str("f(0x10000000000000000)").is_err());
    assert_eq!(
        StraceLine::from_str("f(0x00000000000000001)").unwrap().inner,
        StraceToken::Call {
            name: "f".to_string(),
            args: vec![ex(vec![StraceToken::Number(1)])],
            result: None,
            info: None,
        }
    );
}
