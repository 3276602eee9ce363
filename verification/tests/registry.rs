//! The registry of functions, and the success of calls.

use strace_parse::analysis::{classify, AccessMode, ErrorReturnCode, FnInfo, Registry};

#[test]
fn classification_of_known_functions() {
    assert_eq!(classify("open").mode, AccessMode::ReadWrite);
    assert_eq!(classify("openat").mode, AccessMode::ReadWrite);
    assert_eq!(classify("access"), FnInfo::new(AccessMode::Read, ErrorReturnCode::Single(-1)));
    assert_eq!(classify("acct"), FnInfo::new(AccessMode::Unknown, ErrorReturnCode::Single(-1)));
    assert_eq!(classify("chmod").mode, AccessMode::Write);
    assert_eq!(classify("execv"), FnInfo::new(AccessMode::Read, ErrorReturnCode::Unknown));
    assert_eq!(classify("perror"), FnInfo::new(AccessMode::Ignore, ErrorReturnCode::Unknown));
    assert_eq!(classify("printargs"), FnInfo::new(AccessMode::Unknown, ErrorReturnCode::Unknown));
    assert_eq!(classify("utimes"), FnInfo::new(AccessMode::Write, ErrorReturnCode::Single(-1)));
    assert_eq!(classify("getcwd"), FnInfo::new(AccessMode::Read, ErrorReturnCode::negative()));
}

#[test]
fn did_succeed_by_the_convention() {
    assert_eq!(classify("access").did_succeed(-1), Some(false));
    assert_eq!(classify("access").did_succeed(0), Some(true));
    assert_eq!(classify("access").did_succeed(3), Some(true));
    for code in [i32::MIN, -1, 0, 1, 42, i32::MAX] {
        assert_eq!(classify("execv").did_succeed(code), None);
    }
    assert_eq!(FnInfo::new(AccessMode::Read, ErrorReturnCode::Single(0)).did_succeed(0), Some(false));
    assert_eq!(FnInfo::new(AccessMode::Read, ErrorReturnCode::Single(0)).did_succeed(-1), Some(true));
}

#[test]
fn function_that_is_not_listed_is_unknown() {
    for name in ["frobnicate", "", "OPEN", "open ", "mmap"] {
        assert_eq!(classify(name), FnInfo::new(AccessMode::Unknown, ErrorReturnCode::Unknown));
        assert_eq!(classify(name).did_succeed(-1), None);
    }
    assert_eq!(FnInfo::default(), FnInfo::new(AccessMode::Unknown, ErrorReturnCode::Unknown));
}

#[test]
fn registry_built_once_answers_as_classify() {
    let registry = Registry::new();
    for name in ["access", "open", "execv", "stat", "unlinkat", "nothing"] {
        assert_eq!(registry.classify(name), classify(name));
    }
    assert_eq!(registry.classify("rename").mode, AccessMode::Write);
    assert_eq!(registry.classify("readlink").mode, AccessMode::Read);
}

#[test]
fn negative_convention() {
    assert_eq!(ErrorReturnCode::negative(), ErrorReturnCode::Single(-1));
}
