//! The structured document tree: a dynamically shaped value made of scalars,
//! sequences and mappings, together with its mathematical model.

use vstd::prelude::*;

verus! {

/// One node of a parsed structured document.
///
/// A mapping is kept as its entries in document order; a real (floating
/// point) scalar is kept as the text it was written as, so that two reals
/// compare equal exactly when their source text does.
pub enum Node {
    /// An explicit null scalar.
    Null,
    /// A boolean scalar.
    Bool(bool),
    /// An integer scalar.
    Int(i64),
    /// A real scalar, kept as its source text.
    Real(String),
    /// A string scalar.
    Str(String),
    /// An ordered sequence of nodes.
    Sequence(Vec<Node>),
    /// An ordered mapping from key nodes to value nodes.
    Mapping(Vec<(Node, Node)>),
    /// The absent value: what indexing a mapping by a missing key yields.
    Bad,
}

/// The mathematical model of a [`Node`].
pub enum Value {
    Null,
    Bool(bool),
    Int(int),
    Real(Seq<char>),
    Str(Seq<char>),
    Sequence(Seq<Value>),
    Mapping(Seq<(Value, Value)>),
    Bad,
}

/// The model of a node: the same tree over mathematical sequences.
pub open spec fn node_view(n: Node) -> Value
    decreases n,
{
    match n {
        Node::Null => Value::Null,
        Node::Bool(b) => Value::Bool(b),
        Node::Int(i) => Value::Int(i as int),
        Node::Real(s) => Value::Real(s@),
        Node::Str(s) => Value::Str(s@),
        Node::Sequence(v) => Value::Sequence(
            Seq::new(
                v@.len(),
                |i: int|
                    if 0 <= i < v@.len() {
                        node_view(v@[i])
                    } else {
                        Value::Bad
                    },
            ),
        ),
        Node::Mapping(v) => Value::Mapping(
            Seq::new(
                v@.len(),
                |i: int|
                    if 0 <= i < v@.len() {
                        (node_view(v@[i].0), node_view(v@[i].1))
                    } else {
                        (Value::Bad, Value::Bad)
                    },
            ),
        ),
        Node::Bad => Value::Bad,
    }
}

impl View for Node {
    type V = Value;

    open spec fn view(&self) -> Value {
        node_view(*self)
    }
}

/// The value bound to the first entry whose key is the string `key`, or the
/// absent value where no entry has that key.
pub open spec fn lookup(entries: Seq<(Value, Value)>, key: Seq<char>) -> Value
    decreases entries.len(),
{
    if entries.len() == 0 {
        Value::Bad
    } else if entries[0].0 == Value::Str(key) {
        entries[0].1
    } else {
        lookup(entries.drop_first(), key)
    }
}

/// Indexing a value by a string key: the entry bound to that key where the
/// value is a mapping that has it, the absent value otherwise.
pub open spec fn index_of(v: Value, key: Seq<char>) -> Value {
    match v {
        Value::Mapping(entries) => lookup(entries, key),
        _ => Value::Bad,
    }
}

/// The keys of the entries that are string scalars, in entry order; keys of
/// any other shape are skipped.
pub open spec fn string_keys(entries: Seq<(Value, Value)>) -> Seq<Seq<char>>
    decreases entries.len(),
{
    if entries.len() == 0 {
        Seq::empty()
    } else {
        string_keys(entries.drop_last()) + (match entries.last().0 {
            Value::Str(s) => seq![s],
            _ => Seq::<Seq<char>>::empty(),
        })
    }
}

/// Whether this node is the absent value.
pub fn is_bad(n: &Node) -> (r: bool)
    ensures
        r == (n@ == Value::Bad),
{
    match n {
        Node::Bad => true,
        Node::Null => false,
        Node::Bool(_) => false,
        Node::Int(_) => false,
        Node::Real(_) => false,
        Node::Str(_) => false,
        Node::Sequence(_) => false,
        Node::Mapping(_) => false,
    }
}

/// Indexes a node by a string key, as [`index_of`] models it; `None` stands
/// for the absent value.
pub fn index_str<'a>(n: &'a Node, key: &str) -> (r: Option<&'a Node>)
    ensures
        match r {
            Some(m) => m@ == index_of(n@, key@),
            None => index_of(n@, key@) == Value::Bad,
        },
{
    match n {
        Node::Mapping(entries) => {
            let key_owned: String = key.to_owned();
            let ghost sentries = (n@)->Mapping_0;
            proof {
                assert(sentries.skip(0) =~= sentries);
            }
            let mut i: usize = 0;
            while i < entries.len()
                invariant
                    i <= entries.len(),
                    n@ == Value::Mapping(sentries),
                    *n == Node::Mapping(*entries),
                    sentries.len() == entries@.len(),
                    forall|j: int|
                        0 <= j < entries@.len() ==> sentries[j] == (
                        entries@[j].0@,
                        entries@[j].1@,
                        ),
                    key_owned@ == key@,
                    lookup(sentries, key@) == lookup(sentries.skip(i as int), key@),
                decreases entries.len() - i,
            {
                let hit = match &entries[i].0 {
                    Node::Str(s) => *s == key_owned,
                    _ => false,
                };
                proof {
                    assert(sentries.skip(i as int)[0] == sentries[i as int]);
                }
                if hit {
                    assert(lookup(sentries.skip(i as int), key@) == sentries[i as int].1);
                    return Some(&entries[i].1);
                }
                proof {
                    assert(sentries[i as int].0 != Value::Str(key@));
                    assert(sentries.skip(i as int).drop_first() =~= sentries.skip(i + 1));
                }
                i = i + 1;
            }
            proof {
                assert(sentries.skip(entries@.len() as int) =~= Seq::<(Value, Value)>::empty());
            }
            None
        },
        _ => None,
    }
}

/// Structural equality of two nodes: whether their models are the same tree.
#[verifier::loop_isolation(false)]
pub fn node_eq(a: &Node, b: &Node) -> (r: bool)
    ensures
        r == (a@ == b@),
    decreases *a,
{
    match (a, b) {
        (Node::Null, Node::Null) => true,
        (Node::Bool(x), Node::Bool(y)) => *x == *y,
        (Node::Int(x), Node::Int(y)) => *x == *y,
        (Node::Real(x), Node::Real(y)) => *x == *y,
        (Node::Str(x), Node::Str(y)) => *x == *y,
        (Node::Bad, Node::Bad) => true,
        (Node::Sequence(x), Node::Sequence(y)) => {
            let ghost sa = (a@)->Sequence_0;
            let ghost sb = (b@)->Sequence_0;
            proof {
                assert(a@ == Value::Sequence(sa));
                assert(b@ == Value::Sequence(sb));
                assert(sa.len() == x@.len());
                assert(sb.len() == y@.len());
                assert(forall|j: int| 0 <= j < x@.len() ==> sa[j] == x@[j]@);
                assert(forall|j: int| 0 <= j < y@.len() ==> sb[j] == y@[j]@);
            }
            if x.len() != y.len() {
                return false;
            }
            let mut i: usize = 0;
            while i < x.len()
                invariant
                    i <= x@.len(),
                    forall|j: int| 0 <= j < i ==> sa[j] == sb[j],
                decreases x@.len() - i,
            {
                if !node_eq(&x[i], &y[i]) {
                    proof {
                        assert(sa[i as int] == x@[i as int]@);
                        assert(sb[i as int] == y@[i as int]@);
                    }
                    return false;
                }
                i = i + 1;
            }
            proof {
                assert(sa =~= sb);
            }
            true
        },
        (Node::Mapping(x), Node::Mapping(y)) => {
            let ghost sa = (a@)->Mapping_0;
            let ghost sb = (b@)->Mapping_0;
            proof {
                assert(a@ == Value::Mapping(sa));
                assert(b@ == Value::Mapping(sb));
                assert(sa.len() == x@.len());
                assert(sb.len() == y@.len());
                assert(forall|j: int| 0 <= j < x@.len() ==> sa[j] == (x@[j].0@, x@[j].1@));
                assert(forall|j: int| 0 <= j < y@.len() ==> sb[j] == (y@[j].0@, y@[j].1@));
            }
            if x.len() != y.len() {
                return false;
            }
            let mut i: usize = 0;
            while i < x.len()
                invariant
                    i <= x@.len(),
                    forall|j: int| 0 <= j < i ==> sa[j] == sb[j],
                decreases x@.len() - i,
            {
                let same_key = node_eq(&x[i].0, &y[i].0);
                let same_val = node_eq(&x[i].1, &y[i].1);
                if !same_key || !same_val {
                    proof {
                        assert(sa[i as int] == (x@[i as int].0@, x@[i as int].1@));
                        assert(sb[i as int] == (y@[i as int].0@, y@[i as int].1@));
                    }
                    return false;
                }
                i = i + 1;
            }
            proof {
                assert(sa =~= sb);
            }
            true
        },
        _ => false,
    }
}

/// An independently owned node with the same model.
#[verifier::loop_isolation(false)]
pub fn clone_node(n: &Node) -> (r: Node)
    ensures
        r@ == n@,
    decreases *n,
{
    match n {
        Node::Null => Node::Null,
        Node::Bool(b) => Node::Bool(*b),
        Node::Int(i) => Node::Int(*i),
        Node::Real(s) => Node::Real(s.clone()),
        Node::Str(s) => Node::Str(s.clone()),
        Node::Bad => Node::Bad,
        Node::Sequence(v) => {
            let ghost sv = (n@)->Sequence_0;
            let mut out: Vec<Node> = Vec::new();
            let mut i: usize = 0;
            while i < v.len()
                invariant
                    i <= v@.len(),
                    out@.len() == i as int,
                    forall|j: int| 0 <= j < i ==> out@[j]@ == sv[j],
                decreases v@.len() - i,
            {
                out.push(clone_node(&v[i]));
                i = i + 1;
            }
            let r = Node::Sequence(out);
            proof {
                assert((r@)->Sequence_0 =~= sv);
            }
            r
        },
        Node::Mapping(v) => {
            let ghost sv = (n@)->Mapping_0;
            let mut out: Vec<(Node, Node)> = Vec::new();
            let mut i: usize = 0;
            while i < v.len()
                invariant
                    i <= v@.len(),
                    out@.len() == i as int,
                    forall|j: int| 0 <= j < i ==> (out@[j].0@, out@[j].1@) == sv[j],
                decreases v@.len() - i,
            {
                let entry = (clone_node(&v[i].0), clone_node(&v[i].1));
                out.push(entry);
                i = i + 1;
            }
            let r = Node::Mapping(out);
            proof {
                assert((r@)->Mapping_0 =~= sv);
            }
            r
        },
    }
}

} // verus!
