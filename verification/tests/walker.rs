//! Walks of token trees.

use strace_parse::line::StraceLine;
use strace_parse::token::{StraceToken, Token};
use strace_parse::walk::{StringCollector, Visitor};

fn st(text: &str) -> StraceToken {
    StraceToken::String(text.to_string())
}

struct Names {
    seen: Vec<String>,
    enter_arrays: bool,
}

impl Visitor for Names {
    type Seen = ();

    fn seen(&self) {}

    fn after(_seen: (), _token: Token) -> ((), bool) {
        ((), true)
    }

    fn visit(&mut self, token: &StraceToken) -> bool {
        let name = match token {
            StraceToken::Call { name, .. } => format!("call {}", name),
            StraceToken::Expr(_) => "expr".to_string(),
            StraceToken::Hash(_) => "hash".to_string(),
            StraceToken::Array(_) => "array".to_string(),
            StraceToken::List(_) => "list".to_string(),
            StraceToken::BitSet(_, _) => "bitset".to_string(),
            StraceToken::String(text) => format!("string {}", text),
            StraceToken::Number(n) => format!("number {}", n),
            StraceToken::Ident(name) => format!("ident {}", name),
            StraceToken::Op(op) => format!("op {}", op),
            StraceToken::Truncated => "truncated".to_string(),
            StraceToken::Null => "null".to_string(),
            other => format!("{:?}", other),
        };
        self.seen.push(name);
        match token {
            StraceToken::Array(_) => self.enter_arrays,
            _ => true,
        }
    }
}

#[test]
fn strings_come_in_the_order_of_the_line() {
    let line = StraceLine::from_str(r#"execve("/bin/ls", ["ls"], ...)"#).unwrap();
    assert_eq!(line.inner.strs(), vec!["/bin/ls".to_string(), "ls".to_string()]);
}

#[test]
fn strings_of_nested_values() {
    let line = StraceLine::from_str(
        r#"f("a", {k="b", l=["c", g("d")], m=...}, ["e", ["f"]], {"in a list"}, "g"...) = 0 "info""#,
    )
    .unwrap();
    assert_eq!(
        line.inner.strs(),
        vec!["a", "b", "c", "d", "e", "f", "g"].into_iter().map(String::from).collect::<Vec<String>>()
    );
    assert_eq!(StraceToken::Null.strs(), Vec::<String>::new());
    assert_eq!(st("x").strs(), vec!["x".to_string()]);
    assert_eq!(StraceToken::List(vec![st("x")]).strs(), Vec::<String>::new());
    assert_eq!(StraceToken::BitSet(false, vec![st("x")]).strs(), Vec::<String>::new());
    assert_eq!(StraceToken::Signal("S".to_string(), vec![st("x")]).strs(), Vec::<String>::new());
}

#[test]
fn walk_shows_each_node_before_its_children() {
    let line = StraceLine::from_str(r#"f(A|1, ["x", [NULL]], {k=...}, {a b}, [P Q])"#).unwrap();
    let mut names = Names { seen: Vec::new(), enter_arrays: true };
    line.inner.walk_mut(&mut names);
    assert_eq!(
        names.seen,
        vec![
            "call f", "expr", "ident A", "op |", "number 1", "array", "string x", "array", "null",
            "hash", "truncated", "list", "bitset",
        ]
    );
}

#[test]
fn walk_passes_over_the_children_of_a_pruned_node() {
    let line = StraceLine::from_str(r#"f(A|1, ["x", [NULL]], {k=...}, {a b}, [P Q])"#).unwrap();
    let mut names = Names { seen: Vec::new(), enter_arrays: false };
    line.inner.walk_mut(&mut names);
    assert_eq!(
        names.seen,
        vec![
            "call f", "expr", "ident A", "op |", "number 1", "array", "hash", "truncated", "list",
            "bitset",
        ]
    );
}

#[test]
fn walk_with_a_predicate_gives_the_nodes() {
    let line = StraceLine::from_str(r#"f("a", ["b", g("c")], {k="d"})"#).unwrap();
    let everywhere = line.walk(&|_token: &StraceToken| true);
    assert_eq!(everywhere.len(), 9);
    assert_eq!(everywhere[0], &line.inner);
    assert_eq!(everywhere[1], &st("a"));
    assert_eq!(everywhere[3], &st("b"));
    assert_eq!(everywhere[6], &st("c"));
    assert_eq!(everywhere[8], &st("d"));

    let not_into_arrays = line.inner.walk(&|token: &StraceToken| !matches!(token, StraceToken::Array(_)));
    let strings: Vec<&StraceToken> = not_into_arrays
        .into_iter()
        .filter(|token| matches!(token, StraceToken::String(_)))
        .collect();
    assert_eq!(strings, vec![&st("a"), &st("d")]);

    let nowhere = line.inner.walk(&|_token: &StraceToken| false);
    assert_eq!(nowhere, vec![&line.inner]);
}

#[test]
fn collector_keeps_what_it_had() {
    let mut collector = StringCollector { found: vec!["before".to_string()] };
    StraceToken::Array(vec![st("x"), st("y")]).walk_mut(&mut collector);
    assert_eq!(collector.found, vec!["before".to_string(), "x".to_string(), "y".to_string()]);
    assert!(collector.visit(&StraceToken::Null));
    assert!(collector.visit(&st("z")));
    assert_eq!(collector.found.len(), 4);
}
