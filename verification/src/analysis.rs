//! What is known of the functions that a trace may show: whether a function
//! reads or writes the files that it names, and which result tells that it failed.

use easy_collections::EasyMap;
use vstd::prelude::*;

verus! {

/// How a function uses the files that it names.
#[derive(Debug, Clone, Copy, PartialEq, Eq, Structural)]
pub enum AccessMode {
    Read,
    Write,
    ReadWrite,
    /// The function touches no file.
    Ignore,
    Unknown,
}

/// How the result of a function tells that it failed.
#[derive(Debug, Clone, Copy, PartialEq, Eq, Structural)]
pub enum ErrorReturnCode {
    /// The function failed where its result is this value, and only there.
    Single(i32),
    /// The result alone does not tell.
    Unknown,
}

impl ErrorReturnCode {
    /// The convention of most system calls: `-1` tells a failure.
    pub fn negative() -> (r: ErrorReturnCode)
        ensures
            r == ErrorReturnCode::Single(-1i32),
    {
        ErrorReturnCode::Single(-1)
    }
}

/// What is known of one function.
#[derive(Debug, Clone, Copy, PartialEq, Eq, Structural)]
pub struct FnInfo {
    pub mode: AccessMode,
    pub err_code: ErrorReturnCode,
}

impl FnInfo {
    /// What is known of a function of this use of files and this convention.
    pub fn new(mode: AccessMode, err_code: ErrorReturnCode) -> (r: FnInfo)
        ensures
            r == (FnInfo { mode, err_code }),
    {
        FnInfo { mode, err_code }
    }

    /// What is assumed of a function that the registry does not list.
    pub open spec fn unknown() -> FnInfo {
        FnInfo { mode: AccessMode::Unknown, err_code: ErrorReturnCode::Unknown }
    }

    /// Whether a call that returned `code` succeeded; `None` where the result
    /// alone does not tell.
    pub open spec fn succeeded(self, code: int) -> Option<bool> {
        match self.err_code {
            ErrorReturnCode::Single(n) => Some(code != n),
            ErrorReturnCode::Unknown => None,
        }
    }

    /// Tells whether a call that returned `code` succeeded; `None` where the
    /// result alone does not tell.
    pub fn did_succeed(&self, code: i32) -> (r: Option<bool>)
        ensures
            r == self.succeeded(code as int),
    {
        match self.err_code {
            ErrorReturnCode::Single(n) => Some(code != n),
            ErrorReturnCode::Unknown => None,
        }
    }
}

impl Default for FnInfo {
    fn default() -> (r: FnInfo)
        ensures
            r == FnInfo::unknown(),
    {
        FnInfo { mode: AccessMode::Unknown, err_code: ErrorReturnCode::Unknown }
    }
}

/// The registry: each function that it lists, with what is known of it.
pub open spec fn fn_table() -> Map<Seq<char>, FnInfo> {
    Map::<Seq<char>, FnInfo>::empty()
        .insert("access"@, FnInfo { mode: AccessMode::Read, err_code: ErrorReturnCode::Single(-1i32) })
        .insert("acct"@, FnInfo { mode: AccessMode::Unknown, err_code: ErrorReturnCode::Single(-1i32) })
        .insert("chdir"@, FnInfo { mode: AccessMode::Read, err_code: ErrorReturnCode::Single(-1i32) })
        .insert("chmod"@, FnInfo { mode: AccessMode::Write, err_code: ErrorReturnCode::Single(-1i32) })
        .insert("chown"@, FnInfo { mode: AccessMode::Write, err_code: ErrorReturnCode::Single(-1i32) })
        .insert("chown16"@, FnInfo { mode: AccessMode::Write, err_code: ErrorReturnCode::Single(-1i32) })
        .insert("chroot"@, FnInfo { mode: AccessMode::Read, err_code: ErrorReturnCode::Single(-1i32) })
        .insert("creat"@, FnInfo { mode: AccessMode::Write, err_code: ErrorReturnCode::Single(-1i32) })
        .insert("execv"@, FnInfo { mode: AccessMode::Read, err_code: ErrorReturnCode::Unknown })
        .insert("execve"@, FnInfo { mode: AccessMode::Read, err_code: ErrorReturnCode::Single(-1i32) })
        .insert("execveat"@, FnInfo { mode: AccessMode::Read, err_code: ErrorReturnCode::Single(-1i32) })
        .insert("faccessat"@, FnInfo { mode: AccessMode::Read, err_code: ErrorReturnCode::Single(-1i32) })
        .insert("fanotify_mark"@, FnInfo { mode: AccessMode::Unknown, err_code: ErrorReturnCode::Single(-1i32) })
        .insert("fchmodat"@, FnInfo { mode: AccessMode::Write, err_code: ErrorReturnCode::Single(-1i32) })
        .insert("fchownat"@, FnInfo { mode: AccessMode::Write, err_code: ErrorReturnCode::Single(-1i32) })
        .insert("fstat"@, FnInfo { mode: AccessMode::Read, err_code: ErrorReturnCode::Single(-1i32) })
        .insert("fstat64"@, FnInfo { mode: AccessMode::Read, err_code: ErrorReturnCode::Single(-1i32) })
        .insert("fstatat64"@, FnInfo { mode: AccessMode::Read, err_code: ErrorReturnCode::Single(-1i32) })
        .insert("fstatfs"@, FnInfo { mode: AccessMode::Read, err_code: ErrorReturnCode::Single(-1i32) })
        .insert("fstatfs64"@, FnInfo { mode: AccessMode::Read, err_code: ErrorReturnCode::Single(-1i32) })
        .insert("futimesat"@, FnInfo { mode: AccessMode::Read, err_code: ErrorReturnCode::Single(-1i32) })
        .insert("getcwd"@, FnInfo { mode: AccessMode::Read, err_code: ErrorReturnCode::Single(-1i32) })
        .insert("getxattr"@, FnInfo { mode: AccessMode::Read, err_code: ErrorReturnCode::Single(-1i32) })
        .insert("inotify_add_watch"@, FnInfo { mode: AccessMode::Read, err_code: ErrorReturnCode::Single(-1i32) })
        .insert("link"@, FnInfo { mode: AccessMode::Write, err_code: ErrorReturnCode::Single(-1i32) })
        .insert("linkat"@, FnInfo { mode: AccessMode::Write, err_code: ErrorReturnCode::Single(-1i32) })
        .insert("listxattr"@, FnInfo { mode: AccessMode::Read, err_code: ErrorReturnCode::Single(-1i32) })
        .insert("lstat"@, FnInfo { mode: AccessMode::Read, err_code: ErrorReturnCode::Single(-1i32) })
        .insert("lstat64"@, FnInfo { mode: AccessMode::Read, err_code: ErrorReturnCode::Single(-1i32) })
        .insert("mkdir"@, FnInfo { mode: AccessMode::Write, err_code: ErrorReturnCode::Single(-1i32) })
        .insert("mkdirat"@, FnInfo { mode: AccessMode::Write, err_code: ErrorReturnCode::Single(-1i32) })
        .insert("mknod"@, FnInfo { mode: AccessMode::Write, err_code: ErrorReturnCode::Single(-1i32) })
        .insert("mknodat"@, FnInfo { mode: AccessMode::Write, err_code: ErrorReturnCode::Single(-1i32) })
        .insert("mount"@, FnInfo { mode: AccessMode::Read, err_code: ErrorReturnCode::Single(-1i32) })
        .insert("name_to_handle_at"@, FnInfo { mode: AccessMode::Unknown, err_code: ErrorReturnCode::Single(-1i32) })
        .insert("newfstatat"@, FnInfo { mode: AccessMode::Read, err_code: ErrorReturnCode::Single(-1i32) })
        .insert("oldfstat"@, FnInfo { mode: AccessMode::Read, err_code: ErrorReturnCode::Single(-1i32) })
        .insert("oldlstat"@, FnInfo { mode: AccessMode::Read, err_code: ErrorReturnCode::Single(-1i32) })
        .insert("oldstat"@, FnInfo { mode: AccessMode::Read, err_code: ErrorReturnCode::Single(-1i32) })
        .insert("open"@, FnInfo { mode: AccessMode::ReadWrite, err_code: ErrorReturnCode::Single(-1i32) })
        .insert("openat"@, FnInfo { mode: AccessMode::ReadWrite, err_code: ErrorReturnCode::Single(-1i32) })
        .insert("osf_fstatfs"@, FnInfo { mode: AccessMode::Read, err_code: ErrorReturnCode::Unknown })
        .insert("osf_statfs"@, FnInfo { mode: AccessMode::Read, err_code: ErrorReturnCode::Unknown })
        .insert("osf_utimes"@, FnInfo { mode: AccessMode::Read, err_code: ErrorReturnCode::Unknown })
        .insert("perror"@, FnInfo { mode: AccessMode::Ignore, err_code: ErrorReturnCode::Unknown })
        .insert("pivotroot"@, FnInfo { mode: AccessMode::Read, err_code: ErrorReturnCode::Unknown })
        .insert("printargs"@, FnInfo { mode: AccessMode::Unknown, err_code: ErrorReturnCode::Unknown })
        .insert("printf"@, FnInfo { mode: AccessMode::Ignore, err_code: ErrorReturnCode::Unknown })
        .insert("quotactl"@, FnInfo { mode: AccessMode::Unknown, err_code: ErrorReturnCode::Single(-1i32) })
        .insert("readlink"@, FnInfo { mode: AccessMode::Read, err_code: ErrorReturnCode::Single(-1i32) })
        .insert("readlinkat"@, FnInfo { mode: AccessMode::Read, err_code: ErrorReturnCode::Single(-1i32) })
        .insert("removexattr"@, FnInfo { mode: AccessMode::Write, err_code: ErrorReturnCode::Single(-1i32) })
        .insert("rename"@, FnInfo { mode: AccessMode::Write, err_code: ErrorReturnCode::Single(-1i32) })
        .insert("renameat"@, FnInfo { mode: AccessMode::Write, err_code: ErrorReturnCode::Single(-1i32) })
        .insert("renameat2"@, FnInfo { mode: AccessMode::Write, err_code: ErrorReturnCode::Single(-1i32) })
        .insert("rmdir"@, FnInfo { mode: AccessMode::Write, err_code: ErrorReturnCode::Single(-1i32) })
        .insert("setxattr"@, FnInfo { mode: AccessMode::Write, err_code: ErrorReturnCode::Single(-1i32) })
        .insert("stat"@, FnInfo { mode: AccessMode::Read, err_code: ErrorReturnCode::Single(-1i32) })
        .insert("stat64"@, FnInfo { mode: AccessMode::Read, err_code: ErrorReturnCode::Single(-1i32) })
        .insert("statfs"@, FnInfo { mode: AccessMode::Read, err_code: ErrorReturnCode::Single(-1i32) })
        .insert("statfs64"@, FnInfo { mode: AccessMode::Read, err_code: ErrorReturnCode::Single(-1i32) })
        .insert("statx"@, FnInfo { mode: AccessMode::Read, err_code: ErrorReturnCode::Single(-1i32) })
        .insert("swapoff"@, FnInfo { mode: AccessMode::Write, err_code: ErrorReturnCode::Single(-1i32) })
        .insert("swapon"@, FnInfo { mode: AccessMode::Write, err_code: ErrorReturnCode::Single(-1i32) })
        .insert("symlink"@, FnInfo { mode: AccessMode::Write, err_code: ErrorReturnCode::Single(-1i32) })
        .insert("symlinkat"@, FnInfo { mode: AccessMode::Write, err_code: ErrorReturnCode::Single(-1i32) })
        .insert("truncate"@, FnInfo { mode: AccessMode::Write, err_code: ErrorReturnCode::Single(-1i32) })
        .insert("truncate64"@, FnInfo { mode: AccessMode::Write, err_code: ErrorReturnCode::Single(-1i32) })
        .insert("umount"@, FnInfo { mode: AccessMode::Read, err_code: ErrorReturnCode::Single(-1i32) })
        .insert("umount2"@, FnInfo { mode: AccessMode::Read, err_code: ErrorReturnCode::Single(-1i32) })
        .insert("unlink"@, FnInfo { mode: AccessMode::Write, err_code: ErrorReturnCode::Single(-1i32) })
        .insert("unlinkat"@, FnInfo { mode: AccessMode::Write, err_code: ErrorReturnCode::Single(-1i32) })
        .insert("uselib"@, FnInfo { mode: AccessMode::Read, err_code: ErrorReturnCode::Single(-1i32) })
        .insert("utime"@, FnInfo { mode: AccessMode::Write, err_code: ErrorReturnCode::Single(-1i32) })
        .insert("utimensat"@, FnInfo { mode: AccessMode::Write, err_code: ErrorReturnCode::Single(-1i32) })
        .insert("utimes"@, FnInfo { mode: AccessMode::Write, err_code: ErrorReturnCode::Single(-1i32) })
}

/// What is known of the function `name`: its entry in the registry, or
/// [`FnInfo::unknown`] where the registry does not list it.
pub open spec fn classify_spec(name: Seq<char>) -> FnInfo {
    if fn_table().contains_key(name) {
        fn_table()[name]
    } else {
        FnInfo::unknown()
    }
}

/// Whatever a call of `execv` returned, the registry does not tell whether it
/// succeeded.
pub proof fn lemma_execv_tells_nothing(code: int)
    ensures
        classify_spec("execv"@).succeeded(code) is None,
{
    reveal_strlit("execv");
    reveal_strlit("execve");
    assert("execv"@.len() != "execve"@.len());
    reveal_strlit("execveat");
    assert("execv"@.len() != "execveat"@.len());
    reveal_strlit("faccessat");
    assert("execv"@.len() != "faccessat"@.len());
    reveal_strlit("fanotify_mark");
    assert("execv"@.len() != "fanotify_mark"@.len());
    reveal_strlit("fchmodat");
    assert("execv"@.len() != "fchmodat"@.len());
    reveal_strlit("fchownat");
    assert("execv"@.len() != "fchownat"@.len());
    reveal_strlit("fstat");
    assert("execv"@[0] != "fstat"@[0]);
    reveal_strlit("fstat64");
    assert("execv"@.len() != "fstat64"@.len());
    reveal_strlit("fstatat64");
    assert("execv"@.len() != "fstatat64"@.len());
    reveal_strlit("fstatfs");
    assert("execv"@.len() != "fstatfs"@.len());
    reveal_strlit("fstatfs64");
    assert("execv"@.len() != "fstatfs64"@.len());
    reveal_strlit("futimesat");
    assert("execv"@.len() != "futimesat"@.len());
    reveal_strlit("getcwd");
    assert("execv"@.len() != "getcwd"@.len());
    reveal_strlit("getxattr");
    assert("execv"@.len() != "getxattr"@.len());
    reveal_strlit("inotify_add_watch");
    assert("execv"@.len() != "inotify_add_watch"@.len());
    reveal_strlit("link");
    assert("execv"@.len() != "link"@.len());
    reveal_strlit("linkat");
    assert("execv"@.len() != "linkat"@.len());
    reveal_strlit("listxattr");
    assert("execv"@.len() != "listxattr"@.len());
    reveal_strlit("lstat");
    assert("execv"@[0] != "lstat"@[0]);
    reveal_strlit("lstat64");
    assert("execv"@.len() != "lstat64"@.len());
    reveal_strlit("mkdir");
    assert("execv"@[0] != "mkdir"@[0]);
    reveal_strlit("mkdirat");
    assert("execv"@.len() != "mkdirat"@.len());
    reveal_strlit("mknod");
    assert("execv"@[0] != "mknod"@[0]);
    reveal_strlit("mknodat");
    assert("execv"@.len() != "mknodat"@.len());
    reveal_strlit("mount");
    assert("execv"@[0] != "mount"@[0]);
    reveal_strlit("name_to_handle_at");
    assert("execv"@.len() != "name_to_handle_at"@.len());
    reveal_strlit("newfstatat");
    assert("execv"@.len() != "newfstatat"@.len());
    reveal_strlit("oldfstat");
    assert("execv"@.len() != "oldfstat"@.len());
    reveal_strlit("oldlstat");
    assert("execv"@.len() != "oldlstat"@.len());
    reveal_strlit("oldstat");
    assert("execv"@.len() != "oldstat"@.len());
    reveal_strlit("open");
    assert("execv"@.len() != "open"@.len());
    reveal_strlit("openat");
    assert("execv"@.len() != "openat"@.len());
    reveal_strlit("osf_fstatfs");
    assert("execv"@.len() != "osf_fstatfs"@.len());
    reveal_strlit("osf_statfs");
    assert("execv"@.len() != "osf_statfs"@.len());
    reveal_strlit("osf_utimes");
    assert("execv"@.len() != "osf_utimes"@.len());
    reveal_strlit("perror");
    assert("execv"@.len() != "perror"@.len());
    reveal_strlit("pivotroot");
    assert("execv"@.len() != "pivotroot"@.len());
    reveal_strlit("printargs");
    assert("execv"@.len() != "printargs"@.len());
    reveal_strlit("printf");
    assert("execv"@.len() != "printf"@.len());
    reveal_strlit("quotactl");
    assert("execv"@.len() != "quotactl"@.len());
    reveal_strlit("readlink");
    assert("execv"@.len() != "readlink"@.len());
    reveal_strlit("readlinkat");
    assert("execv"@.len() != "readlinkat"@.len());
    reveal_strlit("removexattr");
    assert("execv"@.len() != "removexattr"@.len());
    reveal_strlit("rename");
    assert("execv"@.len() != "rename"@.len());
    reveal_strlit("renameat");
    assert("execv"@.len() != "renameat"@.len());
    reveal_strlit("renameat2");
    assert("execv"@.len() != "renameat2"@.len());
    reveal_strlit("rmdir");
    assert("execv"@[0] != "rmdir"@[0]);
    reveal_strlit("setxattr");
    assert("execv"@.len() != "setxattr"@.len());
    reveal_strlit("stat");
    assert("execv"@.len() != "stat"@.len());
    reveal_strlit("stat64");
    assert("execv"@.len() != "stat64"@.len());
    reveal_strlit("statfs");
    assert("execv"@.len() != "statfs"@.len());
    reveal_strlit("statfs64");
    assert("execv"@.len() != "statfs64"@.len());
    reveal_strlit("statx");
    assert("execv"@[0] != "statx"@[0]);
    reveal_strlit("swapoff");
    assert("execv"@.len() != "swapoff"@.len());
    reveal_strlit("swapon");
    assert("execv"@.len() != "swapon"@.len());
    reveal_strlit("symlink");
    assert("execv"@.len() != "symlink"@.len());
    reveal_strlit("symlinkat");
    assert("execv"@.len() != "symlinkat"@.len());
    reveal_strlit("truncate");
    assert("execv"@.len() != "truncate"@.len());
    reveal_strlit("truncate64");
    assert("execv"@.len() != "truncate64"@.len());
    reveal_strlit("umount");
    assert("execv"@.len() != "umount"@.len());
    reveal_strlit("umount2");
    assert("execv"@.len() != "umount2"@.len());
    reveal_strlit("unlink");
    assert("execv"@.len() != "unlink"@.len());
    reveal_strlit("unlinkat");
    assert("execv"@.len() != "unlinkat"@.len());
    reveal_strlit("uselib");
    assert("execv"@.len() != "uselib"@.len());
    reveal_strlit("utime");
    assert("execv"@[0] != "utime"@[0]);
    reveal_strlit("utimensat");
    assert("execv"@.len() != "utimensat"@.len());
    reveal_strlit("utimes");
    assert("execv"@.len() != "utimes"@.len());
    assert(fn_table().contains_key("execv"@));
    assert(fn_table()["execv"@].err_code is Unknown);
}

/// The registry lists `open` as a function that reads and writes.
pub proof fn lemma_open_reads_and_writes()
    ensures
        classify_spec("open"@).mode == AccessMode::ReadWrite,
{
    reveal_strlit("open");
    reveal_strlit("openat");
    assert("open"@.len() != "openat"@.len());
    reveal_strlit("osf_fstatfs");
    assert("open"@.len() != "osf_fstatfs"@.len());
    reveal_strlit("osf_statfs");
    assert("open"@.len() != "osf_statfs"@.len());
    reveal_strlit("osf_utimes");
    assert("open"@.len() != "osf_utimes"@.len());
    reveal_strlit("perror");
    assert("open"@.len() != "perror"@.len());
    reveal_strlit("pivotroot");
    assert("open"@.len() != "pivotroot"@.len());
    reveal_strlit("printargs");
    assert("open"@.len() != "printargs"@.len());
    reveal_strlit("printf");
    assert("open"@.len() != "printf"@.len());
    reveal_strlit("quotactl");
    assert("open"@.len() != "quotactl"@.len());
    reveal_strlit("readlink");
    assert("open"@.len() != "readlink"@.len());
    reveal_strlit("readlinkat");
    assert("open"@.len() != "readlinkat"@.len());
    reveal_strlit("removexattr");
    assert("open"@.len() != "removexattr"@.len());
    reveal_strlit("rename");
    assert("open"@.len() != "rename"@.len());
    reveal_strlit("renameat");
    assert("open"@.len() != "renameat"@.len());
    reveal_strlit("renameat2");
    assert("open"@.len() != "renameat2"@.len());
    reveal_strlit("rmdir");
    assert("open"@.len() != "rmdir"@.len());
    reveal_strlit("setxattr");
    assert("open"@.len() != "setxattr"@.len());
    reveal_strlit("stat");
    assert("open"@[0] != "stat"@[0]);
    reveal_strlit("stat64");
    assert("open"@.len() != "stat64"@.len());
    reveal_strlit("statfs");
    assert("open"@.len() != "statfs"@.len());
    reveal_strlit("statfs64");
    assert("open"@.len() != "statfs64"@.len());
    reveal_strlit("statx");
    assert("open"@.len() != "statx"@.len());
    reveal_strlit("swapoff");
    assert("open"@.len() != "swapoff"@.len());
    reveal_strlit("swapon");
    assert("open"@.len() != "swapon"@.len());
    reveal_strlit("symlink");
    assert("open"@.len() != "symlink"@.len());
    reveal_strlit("symlinkat");
    assert("open"@.len() != "symlinkat"@.len());
    reveal_strlit("truncate");
    assert("open"@.len() != "truncate"@.len());
    reveal_strlit("truncate64");
    assert("open"@.len() != "truncate64"@.len());
    reveal_strlit("umount");
    assert("open"@.len() != "umount"@.len());
    reveal_strlit("umount2");
    assert("open"@.len() != "umount2"@.len());
    reveal_strlit("unlink");
    assert("open"@.len() != "unlink"@.len());
    reveal_strlit("unlinkat");
    assert("open"@.len() != "unlinkat"@.len());
    reveal_strlit("uselib");
    assert("open"@.len() != "uselib"@.len());
    reveal_strlit("utime");
    assert("open"@.len() != "utime"@.len());
    reveal_strlit("utimensat");
    assert("open"@.len() != "utimensat"@.len());
    reveal_strlit("utimes");
    assert("open"@.len() != "utimes"@.len());
    assert(fn_table().contains_key("open"@));
    assert(fn_table()["open"@].mode == AccessMode::ReadWrite);
}

/// A call of `access` failed where it returned -1, and succeeded where it
/// returned anything else.
pub proof fn lemma_access_fails_with_minus_one(code: int)
    ensures
        classify_spec("access"@).succeeded(code) == Some(code != -1),
        classify_spec("access"@).mode == AccessMode::Read,
{
    reveal_strlit("access");
    reveal_strlit("acct");
    assert("access"@.len() != "acct"@.len());
    reveal_strlit("chdir");
    assert("access"@.len() != "chdir"@.len());
    reveal_strlit("chmod");
    assert("access"@.len() != "chmod"@.len());
    reveal_strlit("chown");
    assert("access"@.len() != "chown"@.len());
    reveal_strlit("chown16");
    assert("access"@.len() != "chown16"@.len());
    reveal_strlit("chroot");
    assert("access"@[0] != "chroot"@[0]);
    reveal_strlit("creat");
    assert("access"@.len() != "creat"@.len());
    reveal_strlit("execv");
    assert("access"@.len() != "execv"@.len());
    reveal_strlit("execve");
    assert("access"@[0] != "execve"@[0]);
    reveal_strlit("execveat");
    assert("access"@.len() != "execveat"@.len());
    reveal_strlit("faccessat");
    assert("access"@.len() != "faccessat"@.len());
    reveal_strlit("fanotify_mark");
    assert("access"@.len() != "fanotify_mark"@.len());
    reveal_strlit("fchmodat");
    assert("access"@.len() != "fchmodat"@.len());
    reveal_strlit("fchownat");
    assert("access"@.len() != "fchownat"@.len());
    reveal_strlit("fstat");
    assert("access"@.len() != "fstat"@.len());
    reveal_strlit("fstat64");
    assert("access"@.len() != "fstat64"@.len());
    reveal_strlit("fstatat64");
    assert("access"@.len() != "fstatat64"@.len());
    reveal_strlit("fstatfs");
    assert("access"@.len() != "fstatfs"@.len());
    reveal_strlit("fstatfs64");
    assert("access"@.len() != "fstatfs64"@.len());
    reveal_strlit("futimesat");
    assert("access"@.len() != "futimesat"@.len());
    reveal_strlit("getcwd");
    assert("access"@[0] != "getcwd"@[0]);
    reveal_strlit("getxattr");
    assert("access"@.len() != "getxattr"@.len());
    reveal_strlit("inotify_add_watch");
    assert("access"@.len() != "inotify_add_watch"@.len());
    reveal_strlit("link");
    assert("access"@.len() != "link"@.len());
    reveal_strlit("linkat");
    assert("access"@[0] != "linkat"@[0]);
    reveal_strlit("listxattr");
    assert("access"@.len() != "listxattr"@.len());
    reveal_strlit("lstat");
    assert("access"@.len() != "lstat"@.len());
    reveal_strlit("lstat64");
    assert("access"@.len() != "lstat64"@.len());
    reveal_strlit("mkdir");
    assert("access"@.len() != "mkdir"@.len());
    reveal_strlit("mkdirat");
    assert("access"@.len() != "mkdirat"@.len());
    reveal_strlit("mknod");
    assert("access"@.len() != "mknod"@.len());
    reveal_strlit("mknodat");
    assert("access"@.len() != "mknodat"@.len());
    reveal_strlit("mount");
    assert("access"@.len() != "mount"@.len());
    reveal_strlit("name_to_handle_at");
    assert("access"@.len() != "name_to_handle_at"@.len());
    reveal_strlit("newfstatat");
    assert("access"@.len() != "newfstatat"@.len());
    reveal_strlit("oldfstat");
    assert("access"@.len() != "oldfstat"@.len());
    reveal_strlit("oldlstat");
    assert("access"@.len() != "oldlstat"@.len());
    reveal_strlit("oldstat");
    assert("access"@.len() != "oldstat"@.len());
    reveal_strlit("open");
    assert("access"@.len() != "open"@.len());
    reveal_strlit("openat");
    assert("access"@[0] != "openat"@[0]);
    reveal_strlit("osf_fstatfs");
    assert("access"@.len() != "osf_fstatfs"@.len());
    reveal_strlit("osf_statfs");
    assert("access"@.len() != "osf_statfs"@.len());
    reveal_strlit("osf_utimes");
    assert("access"@.len() != "osf_utimes"@.len());
    reveal_strlit("perror");
    assert("access"@[0] != "perror"@[0]);
    reveal_strlit("pivotroot");
    assert("access"@.len() != "pivotroot"@.len());
    reveal_strlit("printargs");
    assert("access"@.len() != "printargs"@.len());
    reveal_strlit("printf");
    assert("access"@[0] != "printf"@[0]);
    reveal_strlit("quotactl");
    assert("access"@.len() != "quotactl"@.len());
    reveal_strlit("readlink");
    assert("access"@.len() != "readlink"@.len());
    reveal_strlit("readlinkat");
    assert("access"@.len() != "readlinkat"@.len());
    reveal_strlit("removexattr");
    assert("access"@.len() != "removexattr"@.len());
    reveal_strlit("rename");
    assert("access"@[0] != "rename"@[0]);
    reveal_strlit("renameat");
    assert("access"@.len() != "renameat"@.len());
    reveal_strlit("renameat2");
    assert("access"@.len() != "renameat2"@.len());
    reveal_strlit("rmdir");
    assert("access"@.len() != "rmdir"@.len());
    reveal_strlit("setxattr");
    assert("access"@.len() != "setxattr"@.len());
    reveal_strlit("stat");
    assert("access"@.len() != "stat"@.len());
    reveal_strlit("stat64");
    assert("access"@[0] != "stat64"@[0]);
    reveal_strlit("statfs");
    assert("access"@[0] != "statfs"@[0]);
    reveal_strlit("statfs64");
    assert("access"@.len() != "statfs64"@.len());
    reveal_strlit("statx");
    assert("access"@.len() != "statx"@.len());
    reveal_strlit("swapoff");
    assert("access"@.len() != "swapoff"@.len());
    reveal_strlit("swapon");
    assert("access"@[0] != "swapon"@[0]);
    reveal_strlit("symlink");
    assert("access"@.len() != "symlink"@.len());
    reveal_strlit("symlinkat");
    assert("access"@.len() != "symlinkat"@.len());
    reveal_strlit("truncate");
    assert("access"@.len() != "truncate"@.len());
    reveal_strlit("truncate64");
    assert("access"@.len() != "truncate64"@.len());
    reveal_strlit("umount");
    assert("access"@[0] != "umount"@[0]);
    reveal_strlit("umount2");
    assert("access"@.len() != "umount2"@.len());
    reveal_strlit("unlink");
    assert("access"@[0] != "unlink"@[0]);
    reveal_strlit("unlinkat");
    assert("access"@.len() != "unlinkat"@.len());
    reveal_strlit("uselib");
    assert("access"@[0] != "uselib"@[0]);
    reveal_strlit("utime");
    assert("access"@.len() != "utime"@.len());
    reveal_strlit("utimensat");
    assert("access"@.len() != "utimensat"@.len());
    reveal_strlit("utimes");
    assert("access"@[0] != "utimes"@[0]);
    assert(fn_table().contains_key("access"@));
    assert(fn_table()["access"@] == (FnInfo {
        mode: AccessMode::Read,
        err_code: ErrorReturnCode::Single(-1i32),
    }));
}

/// Whatever a call of a function that the registry does not list returned, the
/// registry does not tell whether it succeeded.
pub proof fn lemma_unlisted_tells_nothing(name: Seq<char>, code: int)
    requires
        !fn_table().contains_key(name),
    ensures
        classify_spec(name) == FnInfo::unknown(),
        classify_spec(name).succeeded(code) is None,
{
}

/// `EasyMap` of `easy_collections`: a hash map that gives a default for a key
/// without entry. Nothing is known of what is inside one but through
/// [`table_entries`] and [`table_default`].
#[verifier::external_type_specification]
#[verifier::external_body]
#[verifier::reject_recursive_types(K)]
#[verifier::reject_recursive_types(V)]
pub struct ExEasyMap<K: Eq + std::hash::Hash, V: Clone>(EasyMap<K, V>);

/// The entries of a map from names to what is known of them.
pub uninterp spec fn table_entries(table: EasyMap<&'static str, FnInfo>) -> Map<Seq<char>, FnInfo>;

/// What a map gives for a name that it has no entry for.
pub uninterp spec fn table_default(table: EasyMap<&'static str, FnInfo>) -> FnInfo;

/// A map without entries.
///
/// Stands for `EasyMap::new_with_default`: the map has no entry, and gives
/// `default` for every name.
#[verifier::external_body]
fn table_new(default: FnInfo) -> (r: EasyMap<&'static str, FnInfo>)
    ensures
        table_entries(r) == (Map::<Seq<char>, FnInfo>::empty()),
        table_default(r) == default,
{
    EasyMap::new_with_default(default)
}

/// Puts an entry into a map.
///
/// Stands for `EasyMap::insert`: afterwards `name` has the entry `info`, in place
/// of an earlier one where there was one; no other entry changes, nor what the
/// map gives for a name without entry.
#[verifier::external_body]
fn table_insert(table: &mut EasyMap<&'static str, FnInfo>, name: &'static str, info: FnInfo)
    ensures
        table_entries(*final(table)) == table_entries(*old(table)).insert(name@, info),
        table_default(*final(table)) == table_default(*old(table)),
{
    table.insert(name, info);
}

/// Looks a name up in a map.
///
/// Stands for the map's `Index`: the entry of `name`, or the map's default where
/// it has no entry for `name`.
#[verifier::external_body]
fn table_get(table: &EasyMap<&'static str, FnInfo>, name: &str) -> (info: FnInfo)
    ensures
        info == if table_entries(*table).contains_key(name@) {
            table_entries(*table)[name@]
        } else {
            table_default(*table)
        },
{
    table[name]
}

/// The registry of the functions whose use of files is known.
pub struct Registry {
    table: EasyMap<&'static str, FnInfo>,
}

impl Registry {
    #[verifier::type_invariant]
    spec fn holds_the_table(&self) -> bool {
        table_entries(self.table) == fn_table() && table_default(self.table) == FnInfo::unknown()
    }

    /// The entries of the registry.
    pub closed spec fn entries(&self) -> Map<Seq<char>, FnInfo> {
        table_entries(self.table)
    }

    /// What the registry gives for a function that it does not list.
    pub closed spec fn fallback(&self) -> FnInfo {
        table_default(self.table)
    }

    /// Builds the registry: the table of the functions that are known, and
    /// [`FnInfo::unknown`] for every other function.
    pub fn new() -> (r: Registry)
        ensures
            r.entries() == fn_table(),
            r.fallback() == FnInfo::unknown(),
    {
        let mut table = table_new(FnInfo::default());
        table_insert(&mut table, "access", FnInfo::new(AccessMode::Read, ErrorReturnCode::negative()));
        table_insert(&mut table, "acct", FnInfo::new(AccessMode::Unknown, ErrorReturnCode::negative()));
        table_insert(&mut table, "chdir", FnInfo::new(AccessMode::Read, ErrorReturnCode::negative()));
        table_insert(&mut table, "chmod", FnInfo::new(AccessMode::Write, ErrorReturnCode::negative()));
        table_insert(&mut table, "chown", FnInfo::new(AccessMode::Write, ErrorReturnCode::negative()));
        table_insert(&mut table, "chown16", FnInfo::new(AccessMode::Write, ErrorReturnCode::negative()));
        table_insert(&mut table, "chroot", FnInfo::new(AccessMode::Read, ErrorReturnCode::negative()));
        table_insert(&mut table, "creat", FnInfo::new(AccessMode::Write, ErrorReturnCode::negative()));
        table_insert(&mut table, "execv", FnInfo::new(AccessMode::Read, ErrorReturnCode::Unknown));
        table_insert(&mut table, "execve", FnInfo::new(AccessMode::Read, ErrorReturnCode::negative()));
        table_insert(&mut table, "execveat", FnInfo::new(AccessMode::Read, ErrorReturnCode::negative()));
        table_insert(&mut table, "faccessat", FnInfo::new(AccessMode::Read, ErrorReturnCode::negative()));
        table_insert(&mut table, "fanotify_mark", FnInfo::new(AccessMode::Unknown, ErrorReturnCode::negative()));
        table_insert(&mut table, "fchmodat", FnInfo::new(AccessMode::Write, ErrorReturnCode::negative()));
        table_insert(&mut table, "fchownat", FnInfo::new(AccessMode::Write, ErrorReturnCode::negative()));
        table_insert(&mut table, "fstat", FnInfo::new(AccessMode::Read, ErrorReturnCode::negative()));
        table_insert(&mut table, "fstat64", FnInfo::new(AccessMode::Read, ErrorReturnCode::negative()));
        table_insert(&mut table, "fstatat64", FnInfo::new(AccessMode::Read, ErrorReturnCode::negative()));
        table_insert(&mut table, "fstatfs", FnInfo::new(AccessMode::Read, ErrorReturnCode::negative()));
        table_insert(&mut table, "fstatfs64", FnInfo::new(AccessMode::Read, ErrorReturnCode::negative()));
        table_insert(&mut table, "futimesat", FnInfo::new(AccessMode::Read, ErrorReturnCode::negative()));
        table_insert(&mut table, "getcwd", FnInfo::new(AccessMode::Read, ErrorReturnCode::negative()));
        table_insert(&mut table, "getxattr", FnInfo::new(AccessMode::Read, ErrorReturnCode::negative()));
        table_insert(&mut table, "inotify_add_watch", FnInfo::new(AccessMode::Read, ErrorReturnCode::negative()));
        table_insert(&mut table, "link", FnInfo::new(AccessMode::Write, ErrorReturnCode::negative()));
        table_insert(&mut table, "linkat", FnInfo::new(AccessMode::Write, ErrorReturnCode::negative()));
        table_insert(&mut table, "listxattr", FnInfo::new(AccessMode::Read, ErrorReturnCode::negative()));
        table_insert(&mut table, "lstat", FnInfo::new(AccessMode::Read, ErrorReturnCode::negative()));
        table_insert(&mut table, "lstat64", FnInfo::new(AccessMode::Read, ErrorReturnCode::negative()));
        table_insert(&mut table, "mkdir", FnInfo::new(AccessMode::Write, ErrorReturnCode::negative()));
        table_insert(&mut table, "mkdirat", FnInfo::new(AccessMode::Write, ErrorReturnCode::negative()));
        table_insert(&mut table, "mknod", FnInfo::new(AccessMode::Write, ErrorReturnCode::negative()));
        table_insert(&mut table, "mknodat", FnInfo::new(AccessMode::Write, ErrorReturnCode::negative()));
        table_insert(&mut table, "mount", FnInfo::new(AccessMode::Read, ErrorReturnCode::negative()));
        table_insert(&mut table, "name_to_handle_at", FnInfo::new(AccessMode::Unknown, ErrorReturnCode::negative()));
        table_insert(&mut table, "newfstatat", FnInfo::new(AccessMode::Read, ErrorReturnCode::negative()));
        table_insert(&mut table, "oldfstat", FnInfo::new(AccessMode::Read, ErrorReturnCode::negative()));
        table_insert(&mut table, "oldlstat", FnInfo::new(AccessMode::Read, ErrorReturnCode::negative()));
        table_insert(&mut table, "oldstat", FnInfo::new(AccessMode::Read, ErrorReturnCode::negative()));
        table_insert(&mut table, "open", FnInfo::new(AccessMode::ReadWrite, ErrorReturnCode::negative()));
        table_insert(&mut table, "openat", FnInfo::new(AccessMode::ReadWrite, ErrorReturnCode::negative()));
        table_insert(&mut table, "osf_fstatfs", FnInfo::new(AccessMode::Read, ErrorReturnCode::Unknown));
        table_insert(&mut table, "osf_statfs", FnInfo::new(AccessMode::Read, ErrorReturnCode::Unknown));
        table_insert(&mut table, "osf_utimes", FnInfo::new(AccessMode::Read, ErrorReturnCode::Unknown));
        table_insert(&mut table, "perror", FnInfo::new(AccessMode::Ignore, ErrorReturnCode::Unknown));
        table_insert(&mut table, "pivotroot", FnInfo::new(AccessMode::Read, ErrorReturnCode::Unknown));
        table_insert(&mut table, "printargs", FnInfo::new(AccessMode::Unknown, ErrorReturnCode::Unknown));
        table_insert(&mut table, "printf", FnInfo::new(AccessMode::Ignore, ErrorReturnCode::Unknown));
        table_insert(&mut table, "quotactl", FnInfo::new(AccessMode::Unknown, ErrorReturnCode::negative()));
        table_insert(&mut table, "readlink", FnInfo::new(AccessMode::Read, ErrorReturnCode::negative()));
        table_insert(&mut table, "readlinkat", FnInfo::new(AccessMode::Read, ErrorReturnCode::negative()));
        table_insert(&mut table, "removexattr", FnInfo::new(AccessMode::Write, ErrorReturnCode::negative()));
        table_insert(&mut table, "rename", FnInfo::new(AccessMode::Write, ErrorReturnCode::negative()));
        table_insert(&mut table, "renameat", FnInfo::new(AccessMode::Write, ErrorReturnCode::negative()));
        table_insert(&mut table, "renameat2", FnInfo::new(AccessMode::Write, ErrorReturnCode::negative()));
        table_insert(&mut table, "rmdir", FnInfo::new(AccessMode::Write, ErrorReturnCode::negative()));
        table_insert(&mut table, "setxattr", FnInfo::new(AccessMode::Write, ErrorReturnCode::negative()));
        table_insert(&mut table, "stat", FnInfo::new(AccessMode::Read, ErrorReturnCode::negative()));
        table_insert(&mut table, "stat64", FnInfo::new(AccessMode::Read, ErrorReturnCode::negative()));
        table_insert(&mut table, "statfs", FnInfo::new(AccessMode::Read, ErrorReturnCode::negative()));
        table_insert(&mut table, "statfs64", FnInfo::new(AccessMode::Read, ErrorReturnCode::negative()));
        table_insert(&mut table, "statx", FnInfo::new(AccessMode::Read, ErrorReturnCode::negative()));
        table_insert(&mut table, "swapoff", FnInfo::new(AccessMode::Write, ErrorReturnCode::negative()));
        table_insert(&mut table, "swapon", FnInfo::new(AccessMode::Write, ErrorReturnCode::negative()));
        table_insert(&mut table, "symlink", FnInfo::new(AccessMode::Write, ErrorReturnCode::negative()));
        table_insert(&mut table, "symlinkat", FnInfo::new(AccessMode::Write, ErrorReturnCode::negative()));
        table_insert(&mut table, "truncate", FnInfo::new(AccessMode::Write, ErrorReturnCode::negative()));
        table_insert(&mut table, "truncate64", FnInfo::new(AccessMode::Write, ErrorReturnCode::negative()));
        table_insert(&mut table, "umount", FnInfo::new(AccessMode::Read, ErrorReturnCode::negative()));
        table_insert(&mut table, "umount2", FnInfo::new(AccessMode::Read, ErrorReturnCode::negative()));
        table_insert(&mut table, "unlink", FnInfo::new(AccessMode::Write, ErrorReturnCode::negative()));
        table_insert(&mut table, "unlinkat", FnInfo::new(AccessMode::Write, ErrorReturnCode::negative()));
        table_insert(&mut table, "uselib", FnInfo::new(AccessMode::Read, ErrorReturnCode::negative()));
        table_insert(&mut table, "utime", FnInfo::new(AccessMode::Write, ErrorReturnCode::negative()));
        table_insert(&mut table, "utimensat", FnInfo::new(AccessMode::Write, ErrorReturnCode::negative()));
        table_insert(&mut table, "utimes", FnInfo::new(AccessMode::Write, ErrorReturnCode::negative()));
        Registry { table }
    }

    /// What is known of the function `name`.
    pub fn classify(&self, name: &str) -> (info: FnInfo)
        ensures
            info == classify_spec(name@),
    {
        proof {
            use_type_invariant(self);
        }
        table_get(&self.table, name)
    }
}

/// What is known of the function `name`. A function that the registry does not
/// list has an unknown use of files and an unknown convention for failures.
///
/// The registry is built for this one look-up: keep a [`Registry`] to look up
/// many names.
pub fn classify(name: &str) -> (info: FnInfo)
    ensures
        info == classify_spec(name@),
{
    Registry::new().classify(name)
}

} // verus!
