//! Lines of the tracer's output, decoded through `StraceLine::from_str`.

use strace_parse::line::{StraceLine, Timestamp};
use strace_parse::token::StraceToken;

fn p(line: &str) -> StraceLine {
    StraceLine::from_str(line).unwrap()
}

fn id(name: &str) -> StraceToken {
    StraceToken::Ident(name.to_string())
}

fn op(text: &str) -> StraceToken {
    StraceToken::Op(text.to_string())
}

fn st(text: &str) -> StraceToken {
    StraceToken::String(text.to_string())
}

fn num(n: i64) -> StraceToken {
    StraceToken::Number(n)
}

fn ex(items: Vec<StraceToken>) -> StraceToken {
    StraceToken::Expr(items)
}

fn call(name: &str, args: Vec<StraceToken>, result: Option<i32>, info: Option<&str>) -> StraceToken {
    StraceToken::Call {
        name: name.to_string(),
        args,
        result,
        info: info.map(|text| text.to_string()),
    }
}

fn hash(entries: Vec<(&str, StraceToken)>) -> StraceToken {
    StraceToken::Hash(entries.into_iter().map(|(key, value)| (key.to_string(), value)).collect())
}

fn assert_serde(line: &str) {
    assert_eq!(StraceLine::serialize(&p(line)), line);
}

#[test]
fn mod_serde() {
    assert_serde(r#"openat(AT_FDCWD, "/etc/ld.so.cache", O_RDONLY|O_CLOEXEC) = 3"#);
    assert_serde(
        r#"1611916273.692217 openat(AT_FDCWD, "/etc/ld.so.cache", O_RDONLY|O_CLOEXEC) = 3"#,
    );
    assert_serde(
        r#"[pid 1823469] openat(AT_FDCWD, "/etc/ld.so.cache", O_RDONLY|O_CLOEXEC) = 3"#,
    );
    assert_serde(
        r#"[pid 1823469] 1611916273.692217 openat(AT_FDCWD, "/etc/ld.so.cache", O_RDONLY|O_CLOEXEC) = 3"#,
    );

    assert_serde(r#"access("/etc/ld.so.preload", R_OK) = -1 ENOENT (No such file or directory)"#);
    assert_serde(
        r#"1611916273.692217 access("/etc/ld.so.preload", R_OK) = -1 ENOENT (No such file or directory)"#,
    );
    assert_serde(
        r#"[pid 1823469] access("/etc/ld.so.preload", R_OK) = -1 ENOENT (No such file or directory)"#,
    );
    assert_serde(
        r#"[pid 1823469] 1611916273.692217 access("/etc/ld.so.preload", R_OK) = -1 ENOENT (No such file or directory)"#,
    );

    assert_serde(r#"+++ exited with 42 +++"#);
    assert_serde(r#"1611916273.692217 +++ exited with 42 +++"#);
    assert_serde(r#"[pid 1823469] +++ exited with 42 +++"#);
    assert_serde(r#"[pid 1823469] 1611916273.692217 +++ exited with 42 +++"#);

    assert_serde(r#"/usr/bin/strace: Process 42 attached"#);
}

#[test]
fn mod_process_attached() {
    assert_eq!(
        p(r#"/usr/bin/strace: Process 1807404 attached"#).inner,
        StraceToken::ProcessAttach(1807404)
    );
}

#[test]
fn mod_process_detached() {
    assert_eq!(
        p(r#"strace: Process 1807404 detached"#).inner,
        StraceToken::ProcessDetach(1807404)
    );
}

#[test]
fn mod_process_exit() {
    assert_eq!(
        p(r#"+++ exited with 0 +++"#),
        StraceLine { pid: None, time: None, inner: StraceToken::Exit(0) }
    );
    assert_eq!(
        p(r#"+++ exited with 42 +++"#),
        StraceLine { pid: None, time: None, inner: StraceToken::Exit(42) }
    );
    assert_eq!(
        p(r#"+++ exited with -1 +++"#),
        StraceLine { pid: None, time: None, inner: StraceToken::Exit(-1) }
    );
    assert_eq!(
        p(r#"1611916273.692217 +++ exited with -1 +++"#),
        StraceLine {
            pid: None,
            time: Some(Timestamp::from_micros(1611916273692217)),
            inner: StraceToken::Exit(-1)
        }
    );
    assert_eq!(
        p(r#"[pid 1823469] +++ exited with -1 +++"#),
        StraceLine { pid: Some(1823469), time: None, inner: StraceToken::Exit(-1) }
    );
    assert_eq!(
        p(r#"[pid 1823469] 1611916273.692217 +++ exited with -1 +++"#),
        StraceLine {
            pid: Some(1823469),
            time: Some(Timestamp::from_micros(1611916273692217)),
            inner: StraceToken::Exit(-1)
        }
    );
}

#[test]
fn mod_or_expression() {
    assert_eq!(
        p(r#"openat(AT_FDCWD, "/etc/ld.so.cache", O_RDONLY|O_CLOEXEC) = 3"#).inner,
        call(
            "openat",
            vec![
                ex(vec![id("AT_FDCWD")]),
                st("/etc/ld.so.cache"),
                ex(vec![id("O_RDONLY"), op("|"), id("O_CLOEXEC")])
            ],
            Some(3),
            None,
        )
    );
}

#[test]
fn mod_trailing_info() {
    assert_eq!(
        p(r#"access("/etc/ld.so.preload", R_OK) = -1 ENOENT (No such file or directory)"#).inner,
        call(
            "access",
            vec![st("/etc/ld.so.preload"), ex(vec![id("R_OK")])],
            Some(-1),
            Some("ENOENT (No such file or directory)"),
        )
    );
}

#[test]
fn mod_call_args_comment() {
    assert_eq!(
        p(r#"execve("/usr/bin/ls", ["ls"], 0x7ffea94d6768 /* 71 vars */) = 0"#).inner,
        call(
            "execve",
            vec![
                st("/usr/bin/ls"),
                StraceToken::Array(vec![st("ls")]),
                ex(vec![num(0x7ffea94d6768)])
            ],
            Some(0),
            None,
        )
    );
}

#[test]
fn mod_call_args_empty_comment() {
    assert_eq!(
        p(r#"execve("/usr/bin/ls", ["ls"], 0x7ffea94d6768 /**/) = 0"#).inner,
        call(
            "execve",
            vec![
                st("/usr/bin/ls"),
                StraceToken::Array(vec![st("ls")]),
                ex(vec![num(0x7ffea94d6768)])
            ],
            Some(0),
            None,
        )
    );
}

#[test]
fn mod_call_args_with_hash() {
    assert_eq!(
        p(r#"fstat(3, {st_mode=S_IFREG|0644, st_size=282443, ...}) = 0"#).inner,
        call(
            "fstat",
            vec![
                ex(vec![num(3)]),
                hash(vec![
                    ("st_mode", ex(vec![id("S_IFREG"), op("|"), num(0o644)])),
                    ("st_size", ex(vec![num(282443)]))
                ])
            ],
            Some(0),
            None,
        )
    )
}

#[test]
fn mod_call_args_string_ellipse() {
    assert_eq!(
        p(
            r#"readlink("\x2f\x65\x74\x63\x2f\x6c\x6f\x63\x61\x6c\x74\x69\x6d\x65", "\x2f\x75\x73\x72\x2f\x73\x68\x61\x72\x65\x2f\x7a\x6f\x6e\x65\x69\x6e\x66\x6f\x2f\x41\x75\x73\x74\x72\x61\x6c\x69\x61\x2f\x53\x79"..., 256) = 36"#
        ).inner,
        call(
            "readlink",
            vec![
                st(r"\x2f\x65\x74\x63\x2f\x6c\x6f\x63\x61\x6c\x74\x69\x6d\x65"),
                st(
                    r"\x2f\x75\x73\x72\x2f\x73\x68\x61\x72\x65\x2f\x7a\x6f\x6e\x65\x69\x6e\x66\x6f\x2f\x41\x75\x73\x74\x72\x61\x6c\x69\x61\x2f\x53\x79"
                ),
                ex(vec![num(256)])
            ],
            Some(36),
            None,
        )
    );
}

#[test]
fn mod_call_args_hash_nested_call() {
    assert_eq!(
        p(
            r#"stat("\x2f\x64\x65\x76\x2f\x64\x72\x69\x2f\x63\x61\x72\x64\x30", {st_mode=S_IFCHR|0660, st_rdev=makedev(0xe2, 0)}) = 0"#
        ).inner,
        call(
            "stat",
            vec![
                st(r"\x2f\x64\x65\x76\x2f\x64\x72\x69\x2f\x63\x61\x72\x64\x30"),
                hash(vec![
                    ("st_mode", ex(vec![id("S_IFCHR"), op("|"), num(0o660)])),
                    (
                        "st_rdev",
                        ex(vec![call(
                            "makedev",
                            vec![ex(vec![num(0xe2)]), ex(vec![num(0)])],
                            None,
                            None,
                        )])
                    ),
                ])
            ],
            Some(0),
            None,
        )
    );
}

#[test]
fn mod_prefix_timestamp() {
    assert_eq!(
        p(r#"1611916273.692217 access("/etc/ld.so.preload", R_OK) = -1"#),
        StraceLine {
            pid: None,
            time: Some(Timestamp::from_micros(1611916273692217)),
            inner: call(
                "access",
                vec![st("/etc/ld.so.preload"), ex(vec![id("R_OK")])],
                Some(-1),
                None,
            )
        }
    )
}

#[test]
fn mod_prefix_pid() {
    assert_eq!(
        p(r#"[pid 1823469] access("/etc/ld.so.preload", R_OK) = -1"#),
        StraceLine {
            pid: Some(1823469),
            time: None,
            inner: call(
                "access",
                vec![st("/etc/ld.so.preload"), ex(vec![id("R_OK")])],
                Some(-1),
                None,
            )
        }
    )
}

#[test]
fn mod_prefix_pid_and_timestamp() {
    assert_eq!(
        p(r#"[pid 1823469] 1611916273.692217 access("/etc/ld.so.preload", R_OK) = -1"#),
        StraceLine {
            pid: Some(1823469),
            time: Some(Timestamp::from_micros(1611916273692217)),
            inner: call(
                "access",
                vec![st("/etc/ld.so.preload"), ex(vec![id("R_OK")])],
                Some(-1),
                None,
            )
        }
    )
}

#[test]
fn mod_signals() {
    assert_eq!(
        p(r#"--- SIGALRM ... ---"#).inner,
        StraceToken::Signal("SIGALRM".to_string(), vec![])
    );
    assert_eq!(
        p(r#"--- SIGINT {si_signo=SIGINT, si_code=SI_KERNEL} ---"#).inner,
        StraceToken::Signal(
            "SIGINT".to_string(),
            vec![hash(vec![
                ("si_signo", ex(vec![id("SIGINT")])),
                ("si_code", ex(vec![id("SI_KERNEL")]))
            ])]
        )
    );
    assert_eq!(
        p(r#"--- SIGCHLD {si_signo=SIGCHLD, si_code=CLD_EXITED, si_pid=1783018, si_uid=1000, si_status=0, si_utime=0, si_stime=0} ---"#).inner,
        StraceToken::Signal("SIGCHLD".to_string(), vec![
            hash(vec![
                ("si_signo", ex(vec![id("SIGCHLD")])),
                ("si_code", ex(vec![id("CLD_EXITED")])),
                ("si_pid", ex(vec![num(1783018)])),
                ("si_uid", ex(vec![num(1000)])),
                ("si_status", ex(vec![num(0)])),
                ("si_utime", ex(vec![num(0)])),
                ("si_stime", ex(vec![num(0)])),
            ])
        ])
    );
}

#[test]
fn mod_signals_truncated() {
    assert_eq!(
        p(r#"--- SIGINT {si_signo=SIGINT, si_code=SI_USER, si_pid=...} ---"#).inner,
        StraceToken::Signal(
            "SIGINT".to_string(),
            vec![hash(vec![
                ("si_signo", ex(vec![id("SIGINT")])),
                ("si_code", ex(vec![id("SI_USER")])),
                ("si_pid", StraceToken::Truncated),
            ])]
        )
    );
}

#[test]
fn mod_process_killed() {
    assert_eq!(p(r#"+++ killed by SIGINT +++"#).inner, StraceToken::Kill("SIGINT".to_string()));
}

#[test]
fn mod_call_args_bit_set() {
    assert_eq!(
        p(r#"sigprocmask(SIG_BLOCK, [CHLD TTOU], []) = 0"#).inner,
        call(
            "sigprocmask",
            vec![
                ex(vec![id("SIG_BLOCK")]),
                StraceToken::BitSet(false, vec![id("CHLD"), id("TTOU")]),
                StraceToken::Array(vec![])
            ],
            Some(0),
            None,
        )
    );
}

#[test]
fn mod_call_args_bit_set_not() {
    assert_eq!(
        p(r#"sigprocmask(SIG_UNBLOCK, ~[], NULL) = 0"#).inner,
        call(
            "sigprocmask",
            vec![ex(vec![id("SIG_UNBLOCK")]), StraceToken::BitSet(true, vec![]), StraceToken::Null],
            Some(0),
            None,
        )
    );
}

#[test]
fn mod_call_args_list() {
    assert_eq!(
        p(r#"ioctl(2, SNDCTL_TMR_STOP or TCSETSW, {B38400 opost isig icanon echo ...}) = 0"#).inner,
        call(
            "ioctl",
            vec![
                ex(vec![num(2)]),
                ex(vec![id("SNDCTL_TMR_STOP"), op("or"), id("TCSETSW")]),
                StraceToken::List(vec![
                    ex(vec![id("B38400")]),
                    ex(vec![id("opost")]),
                    ex(vec![id("isig")]),
                    ex(vec![id("icanon")]),
                    ex(vec![id("echo")])
                ])
            ],
            Some(0),
            None,
        )
    );
}
