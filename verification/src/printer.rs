//! How the arguments of a system call are shown.

use vstd::prelude::*;
use vstd::string::StrSliceExecFns;
use crate::chars::{has_lit, starts_with_at};
use crate::text::{same_text, to_chars};

verus! {

/// What an argument is shown as.
#[derive(Debug, Clone, Copy, PartialEq, Eq, Structural)]
pub enum ParamShape {
    /// The string that the argument points to.
    Text,
    /// A file descriptor: a standard stream, or the file that it is open on.
    Descriptor,
    /// `NULL`.
    Null,
    /// The value in hexadecimal.
    Number,
}

/// Whether `needle` stands somewhere in `hay`.
pub open spec fn contains_text(hay: Seq<char>, needle: Seq<char>) -> bool {
    exists|k: int| #[trigger] has_lit(hay, k, needle)
}

/// What the argument `name` of type `param_type` is shown as where its value is
/// `value`: a string where the type names `char`, a file descriptor where the
/// argument is called `fd` and is an integer, `NULL` where it is an
/// `unsigned long` of value 0, and else a number.
pub open spec fn param_shape(name: Seq<char>, param_type: Seq<char>, value: u64) -> ParamShape {
    if contains_text(param_type, "char "@) {
        ParamShape::Text
    } else if name == "fd"@ && (param_type == "int"@ || param_type == "unsigned int"@
        || param_type == "unsigned long"@) {
        ParamShape::Descriptor
    } else if param_type == "unsigned long"@ && value == 0 {
        ParamShape::Null
    } else {
        ParamShape::Number
    }
}

/// The name of a standard stream.
pub open spec fn stream_name(fd: u64) -> Option<Seq<char>> {
    if fd == 0 {
        Some("STDIN"@)
    } else if fd == 1 {
        Some("STDOUT"@)
    } else if fd == 2 {
        Some("STDERR"@)
    } else {
        None
    }
}

/// Tells whether `needle` stands somewhere in `hay`.
pub fn text_contains(hay: &str, needle: &str) -> (r: bool)
    ensures
        r == contains_text(hay@, needle@),
{
    let chars = to_chars(hay);
    let mut k: usize = 0;
    while k < chars.len()
        invariant
            k <= chars.len(),
            chars@ == hay@,
            forall|m: int| 0 <= m < k ==> !has_lit(hay@, m, needle@),
        decreases chars.len() - k,
    {
        if starts_with_at(chars.as_slice(), k, needle) {
            return true;
        }
        k += 1;
    }
    if starts_with_at(chars.as_slice(), k, needle) {
        return true;
    }
    assert forall|m: int| !#[trigger] has_lit(hay@, m, needle@) by {
        if m > k {
            assert(m + needle@.len() > hay@.len());
        }
    }
    false
}

/// Tells what an argument is shown as.
pub fn shape_of_param(name: &str, param_type: &str, value: u64) -> (r: ParamShape)
    ensures
        r == param_shape(name@, param_type@, value),
{
    if text_contains(param_type, "char ") {
        ParamShape::Text
    } else if same_text(name, "fd") && (same_text(param_type, "int") || same_text(
        param_type,
        "unsigned int",
    ) || same_text(param_type, "unsigned long")) {
        ParamShape::Descriptor
    } else if same_text(param_type, "unsigned long") && value == 0 {
        ParamShape::Null
    } else {
        ParamShape::Number
    }
}

/// The name of the standard stream that a file descriptor stands for, where it
/// stands for one.
pub fn standard_stream(fd: u64) -> (r: Option<&'static str>)
    ensures
        match r {
            Some(name) => stream_name(fd) == Some(name@),
            None => stream_name(fd) is None,
        },
{
    if fd == 0 {
        Some("STDIN")
    } else if fd == 1 {
        Some("STDOUT")
    } else if fd == 2 {
        Some("STDERR")
    } else {
        None
    }
}

} // verus!
