//! The options of the command line and the table of system calls.

use strace_parse::cli::{is_possible_type, Args, FileTypes};
use strace_parse::syscall::{
    SkipReason, SyscallInfo, SyscallInfoInner, SyscallSignature, SyscallSignatureMatch,
    SyscallSignatureParam,
};

fn names(list: &[&str]) -> Vec<String> {
    list.iter().map(|name| name.to_string()).collect()
}

fn param(name: &str, param_type: &str) -> SyscallSignatureParam {
    SyscallSignatureParam { name: name.to_string(), param_type: param_type.to_string() }
}

fn place(params: Vec<SyscallSignatureParam>) -> SyscallSignatureMatch {
    SyscallSignatureMatch {
        path: "fs/open.c".to_string(),
        text: "SYSCALL_DEFINE".to_string(),
        offset: 7,
        params,
    }
}

#[test]
fn no_type_name_is_no_limit() {
    assert_eq!(Args::parse_file_types(&Vec::new()), None);
    let args = Args::new(names(&["ls", "-l"]), None, true, false, false, Vec::new());
    assert_eq!(args.file_types(), None);
    assert_eq!(args.cmd, names(&["ls", "-l"]));
    assert!(args.color);
}

#[test]
fn type_names_short_and_long() {
    assert_eq!(
        Args::parse_file_types(&names(&["f"])),
        Some(FileTypes { files: true, ..FileTypes::default() })
    );
    assert_eq!(
        Args::parse_file_types(&names(&["directory", "l", "d"])),
        Some(FileTypes { directories: true, symlinks: true, ..FileTypes::default() })
    );
    assert_eq!(
        Args::parse_file_types(&names(&["x", "empty", "socket", "p"])),
        Some(FileTypes {
            executables: true,
            empty: true,
            sockets: true,
            pipes: true,
            ..FileTypes::default()
        })
    );
    assert_eq!(
        Args::parse_file_types(&names(&[
            "file", "d", "symlink", "executable", "e", "s", "pipe"
        ])),
        Some(FileTypes {
            files: true,
            directories: true,
            symlinks: true,
            sockets: true,
            pipes: true,
            executables: true,
            empty: true,
        })
    );
    let args = Args::new(Vec::new(), Some(12), false, true, true, names(&["s"]));
    assert_eq!(args.file_types(), Some(&FileTypes { sockets: true, ..FileTypes::default() }));
    assert_eq!(args.pid, Some(12));
    assert!(args.invalid_lines && args.non_existent && !args.color);
}

#[test]
fn param_types_of_the_first_match() {
    let info = SyscallInfo {
        id: 2,
        abi: "common".to_string(),
        name: "open".to_string(),
        impl_name: Some("sys_open".to_string()),
        inner: SyscallInfoInner::Signatures(vec![
            SyscallSignature {
                key: "open".to_string(),
                matches: vec![
                    place(vec![param("filename", "const char *"), param("flags", "int")]),
                    place(vec![param("other", "long")]),
                ],
            },
            SyscallSignature { key: "open2".to_string(), matches: vec![place(vec![])] },
        ]),
    };
    assert_eq!(
        info.param_types(),
        Some(vec![vec!["const char *".to_string(), "int".to_string()], vec![]])
    );
}

#[test]
fn param_types_of_a_skipped_call() {
    let info = SyscallInfo {
        id: 1,
        abi: "64".to_string(),
        name: "uselib".to_string(),
        impl_name: None,
        inner: SyscallInfoInner::Skipped(SkipReason::Deprecated),
    };
    assert_eq!(info.param_types(), None);
    let none = SyscallInfo {
        id: 1,
        abi: "64".to_string(),
        name: "x".to_string(),
        impl_name: None,
        inner: SyscallInfoInner::Signatures(vec![]),
    };
    assert_eq!(none.param_types(), Some(vec![]));
}

#[test]
fn names_of_kinds_of_file() {
    for name in [
        "f", "file", "d", "directory", "l", "symlink", "x", "executable", "e", "empty", "s",
        "socket", "p", "pipe",
    ] {
        assert!(is_possible_type(name), "{}", name);
    }
    for name in ["", "F", "files", "dir", "fd", "pipe ", "z"] {
        assert!(!is_possible_type(name), "{}", name);
    }
}

#[test]
fn signature_without_a_match_is_found() {
    let whole = SyscallInfo {
        id: 2,
        abi: "common".to_string(),
        name: "open".to_string(),
        impl_name: None,
        inner: SyscallInfoInner::Signatures(vec![
            SyscallSignature { key: "a".to_string(), matches: vec![place(vec![])] },
            SyscallSignature { key: "b".to_string(), matches: vec![place(vec![param("x", "int")])] },
        ]),
    };
    assert!(whole.has_every_match());
    let wanting = SyscallInfo {
        id: 2,
        abi: "common".to_string(),
        name: "open".to_string(),
        impl_name: None,
        inner: SyscallInfoInner::Signatures(vec![
            SyscallSignature { key: "a".to_string(), matches: vec![place(vec![])] },
            SyscallSignature { key: "b".to_string(), matches: vec![] },
        ]),
    };
    assert!(!wanting.has_every_match());
    let skipped = SyscallInfo {
        id: 1,
        abi: "64".to_string(),
        name: "uselib".to_string(),
        impl_name: None,
        inner: SyscallInfoInner::Skipped(SkipReason::Unimplemented),
    };
    assert!(skipped.has_every_match());
}
