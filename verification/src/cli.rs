//! The options of the command line, as the library reads them.

use vstd::prelude::*;
use crate::text::same_text;

verus! {

/// The kinds of file that the output is limited to.
#[derive(Debug, Default, Clone, Copy, PartialEq, Eq, Structural)]
pub struct FileTypes {
    pub files: bool,
    pub directories: bool,
    pub symlinks: bool,
    pub sockets: bool,
    pub pipes: bool,
    pub executables: bool,
    pub empty: bool,
}

/// The options of one run.
#[derive(Debug)]
pub struct Args {
    /// The command to trace.
    pub cmd: Vec<String>,
    /// The running process to trace, in place of a command.
    pub pid: Option<usize>,
    /// Whether the output is coloured.
    pub color: bool,
    /// Whether lines that could not be decoded are printed.
    pub invalid_lines: bool,
    /// Whether paths that do not exist are printed.
    pub non_existent: bool,
    /// The names of the kinds of file that the output is limited to, as given.
    pub type_names: Vec<String>,
    /// The kinds of file that `type_names` names.
    pub selected: Option<FileTypes>,
}

/// Whether `name` is one of the names of a kind of file, short or long.
pub open spec fn is_type_name(name: Seq<char>) -> bool {
    name == "f"@ || name == "file"@ || name == "d"@ || name == "directory"@ || name == "l"@
        || name == "symlink"@ || name == "x"@ || name == "executable"@ || name == "e"@ || name
        == "empty"@ || name == "s"@ || name == "socket"@ || name == "p"@ || name == "pipe"@
}

/// Whether one of `input` is `short` or `long`.
pub open spec fn names_type(input: Seq<String>, short: Seq<char>, long: Seq<char>) -> bool {
    exists|k: int| 0 <= k < input.len() && ((#[trigger] input[k])@ == short || input[k]@ == long)
}

/// The kinds of file that `input` names; `None` where it names none, which
/// stands for no limit.
pub open spec fn selected_types(input: Seq<String>) -> Option<FileTypes> {
    if input.len() == 0 {
        None
    } else {
        Some(
            FileTypes {
                files: names_type(input, "f"@, "file"@),
                directories: names_type(input, "d"@, "directory"@),
                symlinks: names_type(input, "l"@, "symlink"@),
                sockets: names_type(input, "s"@, "socket"@),
                pipes: names_type(input, "p"@, "pipe"@),
                executables: names_type(input, "x"@, "executable"@),
                empty: names_type(input, "e"@, "empty"@),
            },
        )
    }
}

/// Tells whether `name` is one of the names of a kind of file.
pub fn is_possible_type(name: &str) -> (r: bool)
    ensures
        r == is_type_name(name@),
{
    same_text(name, "f") || same_text(name, "file") || same_text(name, "d") || same_text(
        name,
        "directory",
    ) || same_text(name, "l") || same_text(name, "symlink") || same_text(name, "x") || same_text(
        name,
        "executable",
    ) || same_text(name, "e") || same_text(name, "empty") || same_text(name, "s") || same_text(
        name,
        "socket",
    ) || same_text(name, "p") || same_text(name, "pipe")
}

/// Tells whether one of `input` is `short` or `long`.
fn any_named(input: &Vec<String>, short: &str, long: &str) -> (r: bool)
    ensures
        r == names_type(input@, short@, long@),
{
    let mut k: usize = 0;
    while k < input.len()
        invariant
            k <= input.len(),
            forall|m: int| 0 <= m < k ==> !((#[trigger] input[m])@ == short@ || input[m]@ == long@),
        decreases input.len() - k,
    {
        if same_text(input[k].as_str(), short) || same_text(input[k].as_str(), long) {
            assert(input@[k as int]@ == short@ || input@[k as int]@ == long@);
            return true;
        }
        k += 1;
    }
    false
}

impl Args {
    /// The options of a run. Each of `file_types` is the name of a kind of file.
    pub fn new(
        cmd: Vec<String>,
        pid: Option<usize>,
        color: bool,
        invalid_lines: bool,
        non_existent: bool,
        file_types: Vec<String>,
    ) -> (r: Args)
        requires
            forall|k: int| 0 <= k < file_types.len() ==> is_type_name(#[trigger] file_types[k]@),
        ensures
            r.cmd == cmd,
            r.pid == pid,
            r.color == color,
            r.invalid_lines == invalid_lines,
            r.non_existent == non_existent,
            r.type_names == file_types,
            r.selected == selected_types(file_types@),
    {
        let selected = Args::parse_file_types(&file_types);
        Args { cmd, pid, color, invalid_lines, non_existent, type_names: file_types, selected }
    }

    /// The kinds of file that the output is limited to; `None` for no limit.
    pub fn file_types(&self) -> (r: Option<&FileTypes>)
        ensures
            match r {
                Some(types) => self.selected == Some(*types),
                None => self.selected is None,
            },
    {
        self.selected.as_ref()
    }

    /// Reads the names of kinds of file: each kind that is named, by its short or
    /// its long name, is selected. No name at all stands for no limit.
    pub fn parse_file_types(input: &Vec<String>) -> (r: Option<FileTypes>)
        requires
            forall|k: int| 0 <= k < input.len() ==> is_type_name(#[trigger] input[k]@),
        ensures
            r == selected_types(input@),
    {
        if input.len() == 0 {
            None
        } else {
            Some(
                FileTypes {
                    files: any_named(input, "f", "file"),
                    directories: any_named(input, "d", "directory"),
                    symlinks: any_named(input, "l", "symlink"),
                    sockets: any_named(input, "s", "socket"),
                    pipes: any_named(input, "p", "pipe"),
                    executables: any_named(input, "x", "executable"),
                    empty: any_named(input, "e", "empty"),
                },
            )
        }
    }
}

} // verus!
