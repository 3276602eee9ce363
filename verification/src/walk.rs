//! Walking a token tree: every node before its children, the children from left
//! to right.
//!
//! A walk goes into the values of a call, the parts of an expression, the values
//! of a hash and the values of an array. Every other token is a leaf to it.

use vstd::prelude::*;
use crate::line::StraceLine;
use crate::token::{view_entries, view_tokens, StraceToken, Token};

verus! {

/// What a walk shows each node to.
pub trait Visitor {
    /// What a visitor has gathered, as a mathematical value.
    type Seen;

    /// What the visitor has gathered so far.
    spec fn seen(&self) -> Self::Seen;

    /// What a visitor that had gathered `seen` has gathered after it is shown
    /// `token`, and whether the walk is to go into the children of `token`.
    spec fn after(seen: Self::Seen, token: Token) -> (Self::Seen, bool);

    /// Shows `token` to the visitor. The walk goes into the children of `token`
    /// where the answer is `true`, and passes them over where it is `false`.
    fn visit(&mut self, token: &StraceToken) -> (descend: bool)
        ensures
            (final(self).seen(), descend) == Self::after(old(self).seen(), token@),
    ;
}

/// What a visitor has gathered after a walk of `token`.
pub open spec fn walk_token<V: Visitor>(token: Token, seen: V::Seen) -> V::Seen
    decreases token, 0int,
{
    let (seen, descend) = V::after(seen, token);
    if !descend {
        seen
    } else {
        match token {
            Token::Call { args, .. } => walk_tokens::<V>(args, 0, seen),
            Token::Expr(items) => walk_tokens::<V>(items, 0, seen),
            Token::Hash(entries) => walk_entries::<V>(entries, 0, seen),
            Token::Array(items) => walk_tokens::<V>(items, 0, seen),
            _ => seen,
        }
    }
}

/// What a visitor has gathered after walks of `items[from..]`, one after the other.
pub open spec fn walk_tokens<V: Visitor>(items: Seq<Token>, from: int, seen: V::Seen) -> V::Seen
    decreases items, items.len() - from,
{
    if 0 <= from < items.len() {
        walk_tokens::<V>(items, from + 1, walk_token::<V>(items[from], seen))
    } else {
        seen
    }
}

/// What a visitor has gathered after walks of the values of `entries[from..]`,
/// one after the other.
pub open spec fn walk_entries<V: Visitor>(
    entries: Seq<(Seq<char>, Token)>,
    from: int,
    seen: V::Seen,
) -> V::Seen
    decreases entries, entries.len() - from,
{
    if 0 <= from < entries.len() {
        walk_entries::<V>(entries, from + 1, walk_token::<V>(entries[from].1, seen))
    } else {
        seen
    }
}

/// The strings in a token, in the order in which a walk comes to them.
pub open spec fn strings_of(token: Token) -> Seq<Seq<char>>
    decreases token, 0int,
{
    match token {
        Token::String(text) => seq![text],
        Token::Call { args, .. } => strings_in(args, 0),
        Token::Expr(items) => strings_in(items, 0),
        Token::Hash(entries) => strings_in_entries(entries, 0),
        Token::Array(items) => strings_in(items, 0),
        _ => Seq::empty(),
    }
}

/// The strings in `items[from..]`.
pub open spec fn strings_in(items: Seq<Token>, from: int) -> Seq<Seq<char>>
    decreases items, items.len() - from,
{
    if 0 <= from < items.len() {
        strings_of(items[from]) + strings_in(items, from + 1)
    } else {
        Seq::empty()
    }
}

/// The strings in the values of `entries[from..]`.
pub open spec fn strings_in_entries(entries: Seq<(Seq<char>, Token)>, from: int) -> Seq<
    Seq<char>,
>
    decreases entries, entries.len() - from,
{
    if 0 <= from < entries.len() {
        strings_of(entries[from].1) + strings_in_entries(entries, from + 1)
    } else {
        Seq::empty()
    }
}

/// A visitor that keeps every string that it is shown, and has the walk go
/// everywhere.
pub struct StringCollector {
    pub found: Vec<String>,
}

impl Visitor for StringCollector {
    type Seen = Seq<Seq<char>>;

    open spec fn seen(&self) -> Seq<Seq<char>> {
        self.found.deep_view()
    }

    open spec fn after(seen: Seq<Seq<char>>, token: Token) -> (Seq<Seq<char>>, bool) {
        match token {
            Token::String(text) => (seen.push(text), true),
            _ => (seen, true),
        }
    }

    fn visit(&mut self, token: &StraceToken) -> (descend: bool) {
        match token {
            StraceToken::String(text) => {
                self.found.push(text.clone());
                assert(self.found.deep_view() =~= old(self).found.deep_view().push(text@));
            },
            _ => {},
        }
        true
    }
}

/// A walk with a collector of strings adds the strings of the token to those
/// that the collector had.
pub proof fn lemma_collector_walk(token: Token, seen: Seq<Seq<char>>)
    ensures
        walk_token::<StringCollector>(token, seen) == seen + strings_of(token),
    decreases token, 0int,
{
    match token {
        Token::String(text) => {
            assert(seen.push(text) =~= seen + seq![text]);
        },
        Token::Call { args, .. } => {
            lemma_collector_walk_tokens(args, 0, seen);
        },
        Token::Expr(items) => {
            lemma_collector_walk_tokens(items, 0, seen);
        },
        Token::Hash(entries) => {
            lemma_collector_walk_entries(entries, 0, seen);
        },
        Token::Array(items) => {
            lemma_collector_walk_tokens(items, 0, seen);
        },
        _ => {
            assert(seen + Seq::<Seq<char>>::empty() =~= seen);
        },
    }
}

/// [`lemma_collector_walk`], for the walks of `items[from..]`.
pub(crate) proof fn lemma_collector_walk_tokens(items: Seq<Token>, from: int, seen: Seq<Seq<char>>)
    requires
        0 <= from,
    ensures
        walk_tokens::<StringCollector>(items, from, seen) == seen + strings_in(items, from),
    decreases items, items.len() - from,
{
    if from < items.len() {
        lemma_collector_walk(items[from], seen);
        lemma_collector_walk_tokens(items, from + 1, seen + strings_of(items[from]));
        assert((seen + strings_of(items[from])) + strings_in(items, from + 1) =~= seen
            + strings_in(items, from));
    } else {
        assert(seen + Seq::<Seq<char>>::empty() =~= seen);
    }
}

/// [`lemma_collector_walk`], for the walks of the values of `entries[from..]`.
pub(crate) proof fn lemma_collector_walk_entries(
    entries: Seq<(Seq<char>, Token)>,
    from: int,
    seen: Seq<Seq<char>>,
)
    requires
        0 <= from,
    ensures
        walk_entries::<StringCollector>(entries, from, seen) == seen + strings_in_entries(
            entries,
            from,
        ),
    decreases entries, entries.len() - from,
{
    if from < entries.len() {
        lemma_collector_walk(entries[from].1, seen);
        lemma_collector_walk_entries(entries, from + 1, seen + strings_of(entries[from].1));
        assert((seen + strings_of(entries[from].1)) + strings_in_entries(entries, from + 1) =~= seen
            + strings_in_entries(entries, from));
    } else {
        assert(seen + Seq::<Seq<char>>::empty() =~= seen);
    }
}

/// The nodes that a walk of `token` comes to, in order, where the walk goes into
/// the children of the nodes of which `keep` holds, and of no others.
pub open spec fn visited(token: Token, keep: spec_fn(Token) -> bool) -> Seq<Token>
    decreases token, 0int,
{
    if !keep(token) {
        seq![token]
    } else {
        match token {
            Token::Call { args, .. } => seq![token] + visited_in(args, 0, keep),
            Token::Expr(items) => seq![token] + visited_in(items, 0, keep),
            Token::Hash(entries) => seq![token] + visited_in_entries(entries, 0, keep),
            Token::Array(items) => seq![token] + visited_in(items, 0, keep),
            _ => seq![token],
        }
    }
}

/// The nodes that walks of `items[from..]` come to.
pub open spec fn visited_in(items: Seq<Token>, from: int, keep: spec_fn(Token) -> bool) -> Seq<
    Token,
>
    decreases items, items.len() - from,
{
    if 0 <= from < items.len() {
        visited(items[from], keep) + visited_in(items, from + 1, keep)
    } else {
        Seq::empty()
    }
}

/// The nodes that walks of the values of `entries[from..]` come to.
pub open spec fn visited_in_entries(
    entries: Seq<(Seq<char>, Token)>,
    from: int,
    keep: spec_fn(Token) -> bool,
) -> Seq<Token>
    decreases entries, entries.len() - from,
{
    if 0 <= from < entries.len() {
        visited(entries[from].1, keep) + visited_in_entries(entries, from + 1, keep)
    } else {
        Seq::empty()
    }
}

/// Whether the answers of `f` are those of `keep`: whether `f`, shown a token,
/// answers what `keep` says of the token's value.
pub open spec fn computes<F: Fn(&StraceToken) -> bool>(f: &F, keep: spec_fn(Token) -> bool) -> bool {
    forall|t: &StraceToken, b: bool| #[trigger] f.ensures((t,), b) ==> b == keep(t@)
}

/// The values of the tokens that `nodes` refers to.
pub open spec fn view_nodes(nodes: Seq<&StraceToken>) -> Seq<Token> {
    Seq::new(nodes.len(), |k: int| nodes[k]@)
}

impl StraceToken {
    /// Walks `items`, one after the other, and adds the nodes to `out`.
    fn visit_each<'a, F: Fn(&StraceToken) -> bool>(
        items: &'a Vec<StraceToken>,
        f: &F,
        out: &mut Vec<&'a StraceToken>,
    )
        requires
            forall|t: &StraceToken| f.requires((t,)),
        ensures
            forall|keep: spec_fn(Token) -> bool| #[trigger]
                computes(f, keep) ==> view_nodes(final(out)@) == view_nodes(old(out)@) + visited_in(
                    view_tokens(items@),
                    0,
                    keep,
                ),
            old(out)@.is_prefix_of(final(out)@),
        decreases items,
    {
        let mut k: usize = 0;
        assert forall|keep: spec_fn(Token) -> bool| #[trigger] computes(f, keep) implies view_nodes(
            out@,
        ) + visited_in(view_tokens(items@), 0, keep) == view_nodes(old(out)@) + visited_in(
            view_tokens(items@),
            0,
            keep,
        ) by {}
        while k < items.len()
            invariant
                k <= items.len(),
                forall|t: &StraceToken| f.requires((t,)),
                old(out)@.is_prefix_of(out@),
                forall|keep: spec_fn(Token) -> bool| #[trigger]
                    computes(f, keep) ==> view_nodes(out@) + visited_in(
                        view_tokens(items@),
                        k as int,
                        keep,
                    ) == view_nodes(old(out)@) + visited_in(view_tokens(items@), 0, keep),
            decreases items.len() - k,
        {
            let ghost before = out@;
            items[k].visit_into(f, out);
            proof {
                assert forall|keep: spec_fn(Token) -> bool| #[trigger]
                    computes(f, keep) implies view_nodes(out@) + visited_in(
                    view_tokens(items@),
                    k + 1,
                    keep,
                ) == view_nodes(old(out)@) + visited_in(view_tokens(items@), 0, keep) by {
                    assert(view_nodes(out@) + visited_in(view_tokens(items@), k + 1, keep)
                        =~= view_nodes(before) + visited_in(view_tokens(items@), k as int, keep));
                }
            }
            k += 1;
        }
        proof {
            assert forall|keep: spec_fn(Token) -> bool| #[trigger]
                computes(f, keep) implies view_nodes(out@) == view_nodes(old(out)@) + visited_in(
                view_tokens(items@),
                0,
                keep,
            ) by {
                assert(view_nodes(out@) + visited_in(view_tokens(items@), k as int, keep)
                    =~= view_nodes(out@));
            }
        }
    }

    /// Walks the values of `entries`, one after the other, and adds the nodes to
    /// `out`.
    fn visit_values<'a, F: Fn(&StraceToken) -> bool>(
        entries: &'a Vec<(String, StraceToken)>,
        f: &F,
        out: &mut Vec<&'a StraceToken>,
    )
        requires
            forall|t: &StraceToken| f.requires((t,)),
        ensures
            forall|keep: spec_fn(Token) -> bool| #[trigger]
                computes(f, keep) ==> view_nodes(final(out)@) == view_nodes(old(out)@)
                    + visited_in_entries(view_entries(entries@), 0, keep),
            old(out)@.is_prefix_of(final(out)@),
        decreases entries,
    {
        let mut k: usize = 0;
        while k < entries.len()
            invariant
                k <= entries.len(),
                forall|t: &StraceToken| f.requires((t,)),
                old(out)@.is_prefix_of(out@),
                forall|keep: spec_fn(Token) -> bool| #[trigger]
                    computes(f, keep) ==> view_nodes(out@) + visited_in_entries(
                        view_entries(entries@),
                        k as int,
                        keep,
                    ) == view_nodes(old(out)@) + visited_in_entries(
                        view_entries(entries@),
                        0,
                        keep,
                    ),
            decreases entries.len() - k,
        {
            let ghost before = out@;
            entries[k].1.visit_into(f, out);
            proof {
                assert forall|keep: spec_fn(Token) -> bool| #[trigger]
                    computes(f, keep) implies view_nodes(out@) + visited_in_entries(
                    view_entries(entries@),
                    k + 1,
                    keep,
                ) == view_nodes(old(out)@) + visited_in_entries(
                    view_entries(entries@),
                    0,
                    keep,
                ) by {
                    assert(view_nodes(out@) + visited_in_entries(
                        view_entries(entries@),
                        k + 1,
                        keep,
                    ) =~= view_nodes(before) + visited_in_entries(
                        view_entries(entries@),
                        k as int,
                        keep,
                    ));
                }
            }
            k += 1;
        }
        proof {
            assert forall|keep: spec_fn(Token) -> bool| #[trigger]
                computes(f, keep) implies view_nodes(out@) == view_nodes(old(out)@)
                + visited_in_entries(view_entries(entries@), 0, keep) by {
                assert(view_nodes(out@) + visited_in_entries(
                    view_entries(entries@),
                    k as int,
                    keep,
                ) =~= view_nodes(out@));
            }
        }
    }

    /// Walks the token and adds the nodes that the walk comes to to `out`.
    fn visit_into<'a, F: Fn(&StraceToken) -> bool>(&'a self, f: &F, out: &mut Vec<&'a StraceToken>)
        requires
            forall|t: &StraceToken| f.requires((t,)),
        ensures
            forall|keep: spec_fn(Token) -> bool| #[trigger]
                computes(f, keep) ==> view_nodes(final(out)@) == view_nodes(old(out)@) + visited(
                    self@,
                    keep,
                ),
            old(out)@.push(self).is_prefix_of(final(out)@),
        decreases self,
    {
        out.push(self);
        let ghost first = out@;
        assert(view_nodes(first) =~= view_nodes(old(out)@) + seq![self@]);
        let descend = f(self);
        if descend {
            match self {
                StraceToken::Call { args, .. } => StraceToken::visit_each(args, f, out),
                StraceToken::Expr(items) => StraceToken::visit_each(items, f, out),
                StraceToken::Hash(entries) => StraceToken::visit_values(entries, f, out),
                StraceToken::Array(items) => StraceToken::visit_each(items, f, out),
                _ => {},
            }
        }
        proof {
            assert forall|keep: spec_fn(Token) -> bool| #[trigger]
                computes(f, keep) implies view_nodes(out@) == view_nodes(old(out)@) + visited(
                self@,
                keep,
            ) by {
                assert(descend == keep(self@));
                assert(view_nodes(out@) =~= view_nodes(old(out)@) + visited(self@, keep));
            }
        }
    }

    /// Walks the token: shows it to `f`, and then, where `f` answers `true`, walks
    /// each of its children, from left to right. The nodes that the walk came to
    /// come back, in the order in which it came to them.
    ///
    /// The first of the nodes is the token itself. Where the answers of `f` are
    /// those of a predicate on the values of tokens, the nodes are those that the
    /// predicate gives.
    pub fn walk<'a, F: Fn(&StraceToken) -> bool>(&'a self, f: &F) -> (r: Vec<&'a StraceToken>)
        requires
            forall|t: &StraceToken| f.requires((t,)),
        ensures
            r.len() > 0 && r[0] == self,
            forall|keep: spec_fn(Token) -> bool| #[trigger]
                computes(f, keep) ==> view_nodes(r@) == visited(self@, keep),
    {
        let mut out: Vec<&'a StraceToken> = Vec::new();
        self.visit_into(f, &mut out);
        proof {
            let first = Seq::<&StraceToken>::empty().push(self);
            assert(first.len() == 1 && first[0] == self);
            assert(out@[0] == first[0]);
            assert forall|keep: spec_fn(Token) -> bool| #[trigger]
                computes(f, keep) implies view_nodes(out@) == visited(self@, keep) by {
                assert(view_nodes(Seq::<&StraceToken>::empty()) + visited(self@, keep) =~= visited(
                    self@,
                    keep,
                ));
            }
        }
        out
    }

    /// Walks `items`, one after the other.
    fn walk_each<V: Visitor>(items: &Vec<StraceToken>, visitor: &mut V)
        ensures
            final(visitor).seen() == walk_tokens::<V>(view_tokens(items@), 0, old(visitor).seen()),
        decreases items,
    {
        let mut k: usize = 0;
        while k < items.len()
            invariant
                k <= items.len(),
                walk_tokens::<V>(view_tokens(items@), k as int, visitor.seen()) == walk_tokens::<V>(
                    view_tokens(items@),
                    0,
                    old(visitor).seen(),
                ),
            decreases items.len() - k,
        {
            items[k].walk_mut(visitor);
            k += 1;
        }
    }

    /// Walks the values of `entries`, one after the other.
    fn walk_values<V: Visitor>(entries: &Vec<(String, StraceToken)>, visitor: &mut V)
        ensures
            final(visitor).seen() == walk_entries::<V>(
                view_entries(entries@),
                0,
                old(visitor).seen(),
            ),
        decreases entries,
    {
        let mut k: usize = 0;
        while k < entries.len()
            invariant
                k <= entries.len(),
                walk_entries::<V>(view_entries(entries@), k as int, visitor.seen())
                    == walk_entries::<V>(view_entries(entries@), 0, old(visitor).seen()),
            decreases entries.len() - k,
        {
            entries[k].1.walk_mut(visitor);
            k += 1;
        }
    }

    /// Walks the token: shows it to `visitor`, and then, where the visitor says
    /// so, walks each of its children, from left to right.
    pub fn walk_mut<V: Visitor>(&self, visitor: &mut V)
        ensures
            final(visitor).seen() == walk_token::<V>(self@, old(visitor).seen()),
        decreases self,
    {
        if !visitor.visit(self) {
            return ;
        }
        match self {
            StraceToken::Call { args, .. } => StraceToken::walk_each(args, visitor),
            StraceToken::Expr(items) => StraceToken::walk_each(items, visitor),
            StraceToken::Hash(entries) => StraceToken::walk_values(entries, visitor),
            StraceToken::Array(items) => StraceToken::walk_each(items, visitor),
            _ => {},
        }
    }

    /// The strings in the token, in the order in which a walk comes to them: from
    /// left to right, a string in a value before those in the values behind it.
    pub fn strs(&self) -> (r: Vec<String>)
        ensures
            r.deep_view() == strings_of(self@),
    {
        let mut collector = StringCollector { found: Vec::new() };
        assert(collector.seen() =~= Seq::<Seq<char>>::empty());
        self.walk_mut(&mut collector);
        proof {
            lemma_collector_walk(self@, Seq::empty());
            assert(Seq::<Seq<char>>::empty() + strings_of(self@) =~= strings_of(self@));
        }
        collector.found
    }
}

impl StraceLine {
    /// Walks the body of the line, and gives the nodes that the walk came to.
    pub fn walk<'a, F: Fn(&StraceToken) -> bool>(&'a self, f: &F) -> (r: Vec<&'a StraceToken>)
        requires
            forall|t: &StraceToken| f.requires((t,)),
        ensures
            r.len() > 0 && r[0] == &self.inner,
            forall|keep: spec_fn(Token) -> bool| #[trigger]
                computes(f, keep) ==> view_nodes(r@) == visited(self@.inner, keep),
    {
        self.inner.walk(f)
    }

}

} // verus!
