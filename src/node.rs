//! The document tree that configurations and answer stores are read from.

use vstd::prelude::*;

verus! {

/// One node of a structured (YAML-compatible) document.
#[derive(Debug)]
pub enum Node {
    Null,
    Bool(bool),
    Int(i64),
    /// A real number, kept as the text it was written with.
    Real(String),
    Text(String),
    List(Vec<Node>),
    /// A mapping, as its (key, value) pairs in document order.
    Dict(Vec<(Node, Node)>),
    /// A reference to an anchor.
    Alias(usize),
    /// A node the document could not make sense of.
    Bad,
}

/// Whether `key` is the text key `name`.
pub open spec fn key_is(key: Node, name: Seq<char>) -> bool {
    match key {
        Node::Text(s) => s@ == name,
        _ => false,
    }
}

/// The value of the first pair of `pairs` whose key is the text `name`.
pub open spec fn lookup(pairs: Seq<(Node, Node)>, name: Seq<char>) -> Option<Node>
    decreases pairs.len(),
{
    if pairs.len() == 0 {
        None
    } else if key_is(pairs[0].0, name) {
        Some(pairs[0].1)
    } else {
        lookup(pairs.drop_first(), name)
    }
}

proof fn lemma_lookup_step(pairs: Seq<(Node, Node)>, name: Seq<char>, i: int)
    requires
        0 <= i < pairs.len(),
        !key_is(pairs[i].0, name),
    ensures
        lookup(pairs.subrange(i, pairs.len() as int), name) == lookup(
            pairs.subrange(i + 1, pairs.len() as int),
            name,
        ),
{
    assert(pairs.subrange(i, pairs.len() as int).drop_first() =~= pairs.subrange(
        i + 1,
        pairs.len() as int,
    ));
}

/// Whether `key` is the text key `name`.
pub fn is_key(key: &Node, name: &str) -> (r: bool)
    ensures
        r == key_is(*key, name@),
{
    match key {
        Node::Text(s) => text_eq(s.as_str(), name),
        _ => false,
    }
}

/// Character-wise equality of two strings.
pub fn text_eq(a: &str, b: &str) -> (r: bool)
    ensures
        r == (a@ == b@),
{
    let n = a.unicode_len();
    if n != b.unicode_len() {
        return false;
    }
    let mut i: usize = 0;
    while i < n
        invariant
            n == a@.len(),
            n == b@.len(),
            i <= n,
            a@.subrange(0, i as int) == b@.subrange(0, i as int),
        decreases n - i,
    {
        if a.get_char(i) != b.get_char(i) {
            assert(a@[i as int] != b@[i as int]);
            return false;
        }
        assert(a@.subrange(0, i + 1) =~= a@.subrange(0, i as int).push(a@[i as int]));
        assert(b@.subrange(0, i + 1) =~= b@.subrange(0, i as int).push(b@[i as int]));
        i = i + 1;
    }
    assert(a@ =~= a@.subrange(0, n as int));
    assert(b@ =~= b@.subrange(0, n as int));
    true
}

/// The value under the text key `name` in `pairs`, if any.
pub fn find<'a>(pairs: &'a Vec<(Node, Node)>, name: &str) -> (r: Option<&'a Node>)
    ensures
        match r {
            Some(v) => lookup(pairs@, name@) == Some(*v),
            None => lookup(pairs@, name@) is None,
        },
{
    let mut i: usize = 0;
    assert(pairs@.subrange(0, pairs@.len() as int) =~= pairs@);
    while i < pairs.len()
        invariant
            i <= pairs@.len(),
            lookup(pairs@, name@) == lookup(pairs@.subrange(i as int, pairs@.len() as int), name@),
        decreases pairs.len() - i,
    {
        if is_key(&pairs[i].0, name) {
            return Some(&pairs[i].1);
        }
        proof {
            lemma_lookup_step(pairs@, name@, i as int);
        }
        i = i + 1;
    }
    None
}

} // verus!
