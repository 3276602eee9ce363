//! The tree that one trace line decodes to.

use vstd::prelude::*;
use vstd::string::StringExecFns;
use crate::number::{decimal_text, hex_text, push_decimal, push_hex};

verus! {

/// One node of a decoded trace line: a call, a value inside a call, or one of the
/// notices that the tracer prints about the traced process.
///
/// Every text field is a copy of the characters of the line, as they stood there.
#[derive(Debug, PartialEq, Eq)]
pub enum StraceToken {
    /// `--- NAME {..} ---`: a signal was delivered.
    Signal(String, Vec<StraceToken>),
    /// The tracer was not allowed to attach to this process.
    PermissionDenied(i32),
    /// The tracer attached to this process.
    ProcessAttach(i32),
    /// The tracer detached from this process.
    ProcessDetach(i32),
    /// `+++ killed by NAME +++`.
    Kill(String),
    /// `+++ exited with CODE +++`.
    Exit(i32),
    /// `name(args) = result info`.
    Call { name: String, args: Vec<StraceToken>, result: Option<i32>, info: Option<String> },
    /// Names, numbers, calls and the operators between them, in the order written.
    Expr(Vec<StraceToken>),
    /// `{key=value, ..}`.
    Hash(Vec<(String, StraceToken)>),
    /// `[value, ..]`.
    Array(Vec<StraceToken>),
    /// `{value value ..}`.
    List(Vec<StraceToken>),
    /// `[NAME NAME ..]`, or `~[NAME ..]` where the flag is set.
    BitSet(bool, Vec<StraceToken>),
    /// A quoted string, without its quotes and with its escapes as written.
    String(String),
    /// A number, whatever base it was written in.
    Number(i64),
    /// A bare name.
    Ident(String),
    /// An operator between two operands.
    Op(String),
    /// `...`: a value that the tracer left out.
    Truncated,
    /// `NULL`.
    Null,
}

/// The mathematical value of a [`StraceToken`].
pub enum Token {
    Signal(Seq<char>, Seq<Token>),
    PermissionDenied(int),
    ProcessAttach(int),
    ProcessDetach(int),
    Kill(Seq<char>),
    Exit(int),
    Call { name: Seq<char>, args: Seq<Token>, result: Option<int>, info: Option<Seq<char>> },
    Expr(Seq<Token>),
    Hash(Seq<(Seq<char>, Token)>),
    Array(Seq<Token>),
    List(Seq<Token>),
    BitSet(bool, Seq<Token>),
    String(Seq<char>),
    Number(int),
    Ident(Seq<char>),
    Op(Seq<char>),
    Truncated,
    Null,
}

/// The values of a sequence of tokens.
pub open spec fn view_tokens(v: Seq<StraceToken>) -> Seq<Token>
    decreases v,
{
    Seq::new(
        v.len(),
        |k: int|
            if 0 <= k < v.len() {
                v[k].view()
            } else {
                Token::Null
            },
    )
}

/// The values of the entries of a hash.
pub open spec fn view_entries(v: Seq<(String, StraceToken)>) -> Seq<(Seq<char>, Token)>
    decreases v,
{
    Seq::new(
        v.len(),
        |k: int|
            if 0 <= k < v.len() {
                (v[k].0@, v[k].1.view())
            } else {
                (Seq::empty(), Token::Null)
            },
    )
}

/// The value of the result of a call.
pub open spec fn view_code(code: Option<i32>) -> Option<int> {
    match code {
        Some(n) => Some(n as int),
        None => None,
    }
}

/// The value of the remark behind the result of a call.
pub open spec fn view_text(text: Option<String>) -> Option<Seq<char>> {
    match text {
        Some(t) => Some(t@),
        None => None,
    }
}

impl View for StraceToken {
    type V = Token;

    open spec fn view(&self) -> Token
        decreases self,
    {
        match self {
            StraceToken::Signal(name, vars) => Token::Signal(name@, view_tokens(vars@)),
            StraceToken::PermissionDenied(pid) => Token::PermissionDenied(*pid as int),
            StraceToken::ProcessAttach(pid) => Token::ProcessAttach(*pid as int),
            StraceToken::ProcessDetach(pid) => Token::ProcessDetach(*pid as int),
            StraceToken::Kill(name) => Token::Kill(name@),
            StraceToken::Exit(code) => Token::Exit(*code as int),
            StraceToken::Call { name, args, result, info } => Token::Call {
                name: name@,
                args: view_tokens(args@),
                result: view_code(*result),
                info: view_text(*info),
            },
            StraceToken::Expr(items) => Token::Expr(view_tokens(items@)),
            StraceToken::Hash(entries) => Token::Hash(view_entries(entries@)),
            StraceToken::Array(items) => Token::Array(view_tokens(items@)),
            StraceToken::List(items) => Token::List(view_tokens(items@)),
            StraceToken::BitSet(negated, items) => Token::BitSet(*negated, view_tokens(items@)),
            StraceToken::String(text) => Token::String(text@),
            StraceToken::Number(n) => Token::Number(*n as int),
            StraceToken::Ident(name) => Token::Ident(name@),
            StraceToken::Op(op) => Token::Op(op@),
            StraceToken::Truncated => Token::Truncated,
            StraceToken::Null => Token::Null,
        }
    }
}

/// Adding a token to a sequence adds its value to the sequence's values.
pub(crate) proof fn lemma_view_tokens_push(v: Seq<StraceToken>, t: StraceToken)
    ensures
        view_tokens(v.push(t)) == view_tokens(v).push(t@),
{
    assert(view_tokens(v.push(t)) =~= view_tokens(v).push(t@));
}

/// Adding an entry to a hash adds its value to the hash's values.
pub(crate) proof fn lemma_view_entries_push(v: Seq<(String, StraceToken)>, key: String, t: StraceToken)
    ensures
        view_entries(v.push((key, t))) == view_entries(v).push((key@, t@)),
{
    assert(view_entries(v.push((key, t))) =~= view_entries(v).push((key@, t@)));
}

/// The parts with `sep` between each two of them.
pub open spec fn join(parts: Seq<Seq<char>>, sep: Seq<char>) -> Seq<char>
    decreases parts.len(),
{
    if parts.len() == 0 {
        Seq::empty()
    } else if parts.len() == 1 {
        parts[0]
    } else {
        join(parts.drop_last(), sep) + sep + parts.last()
    }
}

/// The text of each of `items`.
pub open spec fn render_each(items: Seq<Token>, tracer: Seq<char>) -> Seq<Seq<char>>
    decreases items,
{
    Seq::new(
        items.len(),
        |k: int|
            if 0 <= k < items.len() {
                render(items[k], tracer)
            } else {
                Seq::empty()
            },
    )
}

/// The text `key=value` of each of `entries`.
pub open spec fn render_entries(entries: Seq<(Seq<char>, Token)>, tracer: Seq<char>) -> Seq<
    Seq<char>,
>
    decreases entries,
{
    Seq::new(
        entries.len(),
        |k: int|
            if 0 <= k < entries.len() {
                entries[k].0 + "="@ + render(entries[k].1, tracer)
            } else {
                Seq::empty()
            },
    )
}

/// The text of a call's result and of the remark behind it.
pub open spec fn render_result(result: Option<int>, info: Option<Seq<char>>) -> Seq<char> {
    (match result {
        Some(code) => " = "@ + decimal_text(code),
        None => Seq::empty(),
    }) + (match info {
        Some(remark) => " "@ + remark,
        None => Seq::empty(),
    })
}

/// The text that a token is written as. `tracer` is the path of the tracer's
/// binary, which two of the notices begin with.
///
/// A number is always written in hexadecimal, and a string between quotes as it
/// is stored. The operands and operators of an expression follow each other with
/// nothing between them.
pub open spec fn render(t: Token, tracer: Seq<char>) -> Seq<char>
    decreases t,
{
    match t {
        Token::Signal(name, details) => "--- "@ + name + (if details.len() > 0 {
            " "@ + join(render_each(details, tracer), ", "@)
        } else {
            Seq::empty()
        }) + " ---"@,
        Token::PermissionDenied(pid) => tracer + ": attach: ptrace(PTRACE_SEIZE, "@
            + decimal_text(pid) + "): Operation not permitted"@,
        Token::ProcessAttach(pid) => tracer + ": Process "@ + decimal_text(pid) + " attached"@,
        Token::ProcessDetach(pid) => "strace"@ + ": Process "@ + decimal_text(pid) + " detached"@,
        Token::Kill(name) => "+++ killed by "@ + name + " +++"@,
        Token::Exit(code) => "+++ exited with "@ + decimal_text(code) + " +++"@,
        Token::Call { name, args, result, info } => name + "("@ + join(
            render_each(args, tracer),
            ", "@,
        ) + ")"@ + render_result(result, info),
        Token::Expr(items) => join(render_each(items, tracer), Seq::empty()),
        Token::Hash(entries) => "{"@ + join(render_entries(entries, tracer), ", "@) + "}"@,
        Token::Array(items) => "["@ + join(render_each(items, tracer), ", "@) + "]"@,
        Token::List(items) => "{"@ + join(render_each(items, tracer), " "@) + "}"@,
        Token::BitSet(negated, bits) => (if negated {
            "~"@
        } else {
            Seq::empty()
        }) + "["@ + join(render_each(bits, tracer), " "@) + "]"@,
        Token::String(text) => "\""@ + text + "\""@,
        Token::Number(n) => hex_text(n),
        Token::Ident(name) => name,
        Token::Op(op) => op,
        Token::Truncated => "..."@,
        Token::Null => "NULL"@,
    }
}

/// Joining one part more: the join so far, the separator unless the part is the
/// first, and the part.
pub(crate) proof fn lemma_join_next(parts: Seq<Seq<char>>, sep: Seq<char>, k: int)
    requires
        0 <= k < parts.len(),
    ensures
        join(parts.take(k + 1), sep) == if k == 0 {
            parts[k]
        } else {
            join(parts.take(k), sep) + sep + parts[k]
        },
{
    assert(parts.take(k + 1).drop_last() =~= parts.take(k));
}

impl StraceToken {
    /// Appends the text of each of `items` to `out`, with `sep` between each two.
    pub fn write_joined(items: &Vec<StraceToken>, out: &mut String, sep: &str, tracer: &str)
        ensures
            final(out)@ == old(out)@ + join(render_each(view_tokens(items@), tracer@), sep@),
        decreases items,
    {
        let ghost parts = render_each(view_tokens(items@), tracer@);
        let mut k: usize = 0;
        assert(out@ =~= old(out)@ + join(parts.take(0), sep@));
        while k < items.len()
            invariant
                k <= items.len(),
                parts == render_each(view_tokens(items@), tracer@),
                out@ == old(out)@ + join(parts.take(k as int), sep@),
            decreases items.len() - k,
        {
            if k > 0 {
                out.append(sep);
            }
            items[k].write_to(out, tracer);
            proof {
                lemma_join_next(parts, sep@, k as int);
                assert(out@ =~= old(out)@ + join(parts.take(k + 1), sep@));
            }
            k += 1;
        }
        assert(parts.take(items.len() as int) =~= parts);
    }

    /// Appends the text `key=value` of each of `entries` to `out`, with `, `
    /// between each two.
    pub fn write_entries(entries: &Vec<(String, StraceToken)>, out: &mut String, tracer: &str)
        ensures
            final(out)@ == old(out)@ + join(
                render_entries(view_entries(entries@), tracer@),
                ", "@,
            ),
        decreases entries,
    {
        let ghost parts = render_entries(view_entries(entries@), tracer@);
        let mut k: usize = 0;
        assert(out@ =~= old(out)@ + join(parts.take(0), ", "@));
        while k < entries.len()
            invariant
                k <= entries.len(),
                parts == render_entries(view_entries(entries@), tracer@),
                out@ == old(out)@ + join(parts.take(k as int), ", "@),
            decreases entries.len() - k,
        {
            if k > 0 {
                out.append(", ");
            }
            out.append(entries[k].0.as_str());
            out.append("=");
            entries[k].1.write_to(out, tracer);
            proof {
                lemma_join_next(parts, ", "@, k as int);
                assert(out@ =~= old(out)@ + join(parts.take(k + 1), ", "@));
            }
            k += 1;
        }
        assert(parts.take(entries.len() as int) =~= parts);
    }

    /// Appends the text of the token to `out`.
    pub fn write_to(&self, out: &mut String, tracer: &str)
        ensures
            final(out)@ == old(out)@ + render(self@, tracer@),
        decreases self,
    {
        match self {
            StraceToken::Signal(name, details) => {
                out.append("--- ");
                out.append(name.as_str());
                if details.len() > 0 {
                    out.append(" ");
                    StraceToken::write_joined(details, out, ", ", tracer);
                }
                out.append(" ---");
            },
            StraceToken::PermissionDenied(pid) => {
                out.append(tracer);
                out.append(": attach: ptrace(PTRACE_SEIZE, ");
                push_decimal(out, *pid as i64);
                out.append("): Operation not permitted");
            },
            StraceToken::ProcessAttach(pid) => {
                out.append(tracer);
                out.append(": Process ");
                push_decimal(out, *pid as i64);
                out.append(" attached");
            },
            StraceToken::ProcessDetach(pid) => {
                out.append("strace");
                out.append(": Process ");
                push_decimal(out, *pid as i64);
                out.append(" detached");
            },
            StraceToken::Kill(name) => {
                out.append("+++ killed by ");
                out.append(name.as_str());
                out.append(" +++");
            },
            StraceToken::Exit(code) => {
                out.append("+++ exited with ");
                push_decimal(out, *code as i64);
                out.append(" +++");
            },
            StraceToken::Call { name, args, result, info } => {
                out.append(name.as_str());
                out.append("(");
                StraceToken::write_joined(args, out, ", ", tracer);
                out.append(")");
                match result {
                    Some(code) => {
                        out.append(" = ");
                        push_decimal(out, *code as i64);
                    },
                    None => {},
                }
                match info {
                    Some(remark) => {
                        out.append(" ");
                        out.append(remark.as_str());
                    },
                    None => {},
                }
            },
            StraceToken::Expr(items) => {
                StraceToken::write_joined(items, out, "", tracer);
                proof {
                    reveal_strlit("");
                    assert(""@ =~= Seq::<char>::empty());
                }
            },
            StraceToken::Hash(entries) => {
                out.append("{");
                StraceToken::write_entries(entries, out, tracer);
                out.append("}");
            },
            StraceToken::Array(items) => {
                out.append("[");
                StraceToken::write_joined(items, out, ", ", tracer);
                out.append("]");
            },
            StraceToken::List(items) => {
                out.append("{");
                StraceToken::write_joined(items, out, " ", tracer);
                out.append("}");
            },
            StraceToken::BitSet(negated, bits) => {
                if *negated {
                    out.append("~");
                }
                out.append("[");
                StraceToken::write_joined(bits, out, " ", tracer);
                out.append("]");
            },
            StraceToken::String(text) => {
                out.append("\"");
                out.append(text.as_str());
                out.append("\"");
            },
            StraceToken::Number(n) => {
                push_hex(out, *n);
            },
            StraceToken::Ident(name) => {
                out.append(name.as_str());
            },
            StraceToken::Op(op) => {
                out.append(op.as_str());
            },
            StraceToken::Truncated => {
                out.append("...");
            },
            StraceToken::Null => {
                out.append("NULL");
            },
        }
        assert(out@ =~= old(out)@ + render(self@, tracer@));
    }

    /// The text of the token, with `tracer` as the path of the tracer's binary.
    /// The path shows only in a token that holds one of the two notices that
    /// begin with it.
    pub fn serialize_with(&self, tracer: &str) -> (r: String)
        ensures
            r@ == render(self@, tracer@),
            !mentions_tracer(self@) ==> r@ == render(self@, default_tracer()),
    {
        let mut out = String::new();
        self.write_to(&mut out, tracer);
        assert(out@ =~= render(self@, tracer@));
        proof {
            if !mentions_tracer(self@) {
                lemma_render_without_tracer(self@, tracer@, default_tracer());
            }
        }
        out
    }
}

/// Whether the text of a token holds the path of the tracer's binary: whether one
/// of the two notices that begin with it stands anywhere in the token.
pub open spec fn mentions_tracer(t: Token) -> bool
    decreases t,
{
    match t {
        Token::PermissionDenied(_) => true,
        Token::ProcessAttach(_) => true,
        Token::Signal(_, details) => exists|k: int|
            0 <= k < details.len() && mentions_tracer(#[trigger] details[k]),
        Token::Call { args, .. } => exists|k: int|
            0 <= k < args.len() && mentions_tracer(#[trigger] args[k]),
        Token::Expr(items) => exists|k: int|
            0 <= k < items.len() && mentions_tracer(#[trigger] items[k]),
        Token::Hash(entries) => exists|k: int|
            0 <= k < entries.len() && mentions_tracer((#[trigger] entries[k]).1),
        Token::Array(items) => exists|k: int|
            0 <= k < items.len() && mentions_tracer(#[trigger] items[k]),
        Token::List(items) => exists|k: int|
            0 <= k < items.len() && mentions_tracer(#[trigger] items[k]),
        Token::BitSet(_, bits) => exists|k: int|
            0 <= k < bits.len() && mentions_tracer(#[trigger] bits[k]),
        _ => false,
    }
}

/// The text of tokens of which none mentions the tracer is the same whatever the
/// tracer's path.
pub(crate) proof fn lemma_render_each_without_tracer(items: Seq<Token>, a: Seq<char>, b: Seq<char>)
    requires
        forall|k: int| 0 <= k < items.len() ==> !mentions_tracer(#[trigger] items[k]),
    ensures
        render_each(items, a) == render_each(items, b),
    decreases items,
{
    assert forall|k: int| 0 <= k < items.len() implies render(items[k], a) == render(
        items[k],
        b,
    ) by {
        lemma_render_without_tracer(items[k], a, b);
    }
    assert(render_each(items, a) =~= render_each(items, b));
}

/// The text of a token that does not mention the tracer is the same whatever the
/// tracer's path.
pub proof fn lemma_render_without_tracer(t: Token, a: Seq<char>, b: Seq<char>)
    requires
        !mentions_tracer(t),
    ensures
        render(t, a) == render(t, b),
    decreases t,
{
    match t {
        Token::Signal(_, details) => {
            lemma_render_each_without_tracer(details, a, b);
        },
        Token::Call { args, .. } => {
            lemma_render_each_without_tracer(args, a, b);
        },
        Token::Expr(items) => {
            lemma_render_each_without_tracer(items, a, b);
        },
        Token::Hash(entries) => {
            assert forall|k: int| 0 <= k < entries.len() implies render(entries[k].1, a)
                == render(entries[k].1, b) by {
                lemma_render_without_tracer(entries[k].1, a, b);
            }
            assert(render_entries(entries, a) =~= render_entries(entries, b));
        },
        Token::Array(items) => {
            lemma_render_each_without_tracer(items, a, b);
        },
        Token::List(items) => {
            lemma_render_each_without_tracer(items, a, b);
        },
        Token::BitSet(_, bits) => {
            lemma_render_each_without_tracer(bits, a, b);
        },
        _ => {},
    }
}

/// The path under which the tracer's binary is installed where nothing says
/// otherwise: the path that [`StraceToken::serialize`] writes.
pub open spec fn default_tracer() -> Seq<char> {
    "/usr/bin/strace"@
}

impl StraceToken {
    /// The text of the token. The two notices that begin with the path of the
    /// tracer's binary are written with `/usr/bin/strace`; to write them with
    /// another path, call [`StraceToken::serialize_with`].
    pub fn serialize(&self) -> (r: String)
        ensures
            r@ == render(self@, default_tracer()),
    {
        self.serialize_with("/usr/bin/strace")
    }
}

} // verus!
