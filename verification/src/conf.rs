//! The configuration model: a parsed document, the subtree under the
//! top-level key `programs`, a stable listing of the program names defined
//! there, and a comparison of one named program between two configurations.

use vstd::prelude::*;

use crate::node::{clone_node, index_of, index_str, is_bad, node_eq, string_keys, Node, Value};
use crate::yaml::{load_documents, parsed_documents, views_of};

verus! {

/// Why building or querying a configuration failed.
#[derive(Clone, Copy, Debug, PartialEq, Eq, Structural)]
pub enum ConfError {
    /// The text is not well-formed YAML.
    Parse,
    /// The text parses but holds no top-level document.
    NoDocument,
    /// The `programs` value is not a mapping, so it has no keys to list.
    NotAMapping,
}

/// Two values differ at a named program: the entries that the name resolves
/// to are not the same tree. A missing name resolves to the absent value on
/// either side.
pub open spec fn differs(a: Value, b: Value, name: Seq<char>) -> bool {
    index_of(a, name) != index_of(b, name)
}

/// One configuration snapshot: the whole parsed document plus its own copy
/// of the subtree under the top-level key `programs`.
pub struct Conf {
    dictionary: Node,
    programs: Node,
}

impl Conf {
    /// The model of the whole document.
    pub closed spec fn doc(self) -> Value {
        self.dictionary@
    }

    /// The model of the `programs` subtree.
    pub closed spec fn progs(self) -> Value {
        self.progs_node()@
    }

    #[verifier::inline]
    spec fn progs_node(self) -> Node {
        self.programs
    }

    /// The cached subtree is exactly what indexing the document by
    /// `programs` yields; every constructor establishes this and nothing
    /// mutates a configuration afterwards.
    pub open spec fn wf(self) -> bool {
        self.progs() == index_of(self.doc(), "programs"@)
    }

    /// The last top-level document of the text, parsed; `Parse` where the
    /// text is not well-formed, `NoDocument` where it holds no document.
    pub fn file_to_hashmap(s: &str) -> (r: Result<Node, ConfError>)
        ensures
            match r {
                Ok(doc) => {
                    &&& parsed_documents(s@) matches Some(docs)
                    &&& docs.len() > 0
                    &&& doc@ == docs.last()
                },
                Err(e) => match parsed_documents(s@) {
                    Option::None => e == ConfError::Parse,
                    Option::Some(docs) => docs.len() == 0 && e == ConfError::NoDocument,
                },
            },
    {
        let mut docs = match load_documents(s) {
            Ok(d) => d,
            Err(_) => {
                return Err(ConfError::Parse);
            },
        };
        let ghost models = views_of(docs@);
        match docs.pop() {
            Option::Some(doc) => {
                proof {
                    assert(models.last() == doc@);
                }
                Ok(doc)
            },
            Option::None => Err(ConfError::NoDocument),
        }
    }

    /// Builds a configuration from raw text: the last document of the text
    /// together with a copy of its `programs` subtree.
    pub fn from_text(text: &str) -> (r: Result<Conf, ConfError>)
        ensures
            match r {
                Ok(c) => {
                    &&& parsed_documents(text@) matches Some(docs)
                    &&& docs.len() > 0
                    &&& c.doc() == docs.last()
                    &&& c.wf()
                },
                Err(e) => match parsed_documents(text@) {
                    Option::None => e == ConfError::Parse,
                    Option::Some(docs) => docs.len() == 0 && e == ConfError::NoDocument,
                },
            },
    {
        let doc = match Self::file_to_hashmap(text) {
            Ok(d) => d,
            Err(e) => {
                return Err(e);
            },
        };
        let programs = match index_str(&doc, "programs") {
            Option::Some(p) => clone_node(p),
            Option::None => Node::Bad,
        };
        Ok(Conf { dictionary: doc, programs })
    }

    /// The whole parsed document.
    pub fn document(&self) -> (r: &Node)
        ensures
            r@ == self.doc(),
    {
        &self.dictionary
    }

    /// The cached `programs` subtree.
    pub fn programs(&self) -> (r: &Node)
        ensures
            r@ == self.progs(),
    {
        &self.programs
    }

    /// The names of the programs the configuration defines: the string keys
    /// of the `programs` mapping, in document order; keys of any other shape
    /// are skipped. Errs where that value is not a mapping at all.
    pub fn program_list(&self) -> (r: Result<Vec<String>, ConfError>)
        ensures
            match r {
                Ok(names) => {
                    &&& self.progs() matches Value::Mapping(entries)
                    &&& names.deep_view() == string_keys(entries)
                },
                Err(e) => e == ConfError::NotAMapping && !(self.progs() is Mapping),
            },
    {
        match &self.programs {
            Node::Mapping(entries) => {
                let ghost sentries = self.progs()->Mapping_0;
                proof {
                    assert(self.progs() == Value::Mapping(sentries));
                    assert(sentries.len() == entries@.len());
                    assert(forall|j: int|
                        0 <= j < entries@.len() ==> sentries[j] == (
                        entries@[j].0@,
                        entries@[j].1@,
                        ));
                    assert(sentries.take(0) =~= Seq::<(Value, Value)>::empty());
                }
                let mut names: Vec<String> = Vec::new();
                let mut i: usize = 0;
                while i < entries.len()
                    invariant
                        i <= entries@.len(),
                        self.progs() == Value::Mapping(sentries),
                        self.progs_node() == Node::Mapping(*entries),
                        sentries.len() == entries@.len(),
                        forall|j: int|
                            0 <= j < entries@.len() ==> sentries[j] == (
                            entries@[j].0@,
                            entries@[j].1@,
                            ),
                        names.deep_view() == string_keys(sentries.take(i as int)),
                    decreases entries@.len() - i,
                {
                    proof {
                        assert(sentries.take(i + 1).drop_last() =~= sentries.take(i as int));
                        assert(sentries.take(i + 1).last() == sentries[i as int]);
                    }
                    match &entries[i].0 {
                        Node::Str(s) => {
                            let ghost old_names = names.deep_view();
                            names.push(s.clone());
                            proof {
                                assert(names.deep_view() =~= old_names.push(s@));
                            }
                        },
                        _ => {},
                    }
                    i = i + 1;
                }
                proof {
                    assert(sentries.take(sentries.len() as int) =~= sentries);
                }
                Ok(names)
            },
            Node::Null => Err(ConfError::NotAMapping),
            Node::Bool(_) => Err(ConfError::NotAMapping),
            Node::Int(_) => Err(ConfError::NotAMapping),
            Node::Real(_) => Err(ConfError::NotAMapping),
            Node::Str(_) => Err(ConfError::NotAMapping),
            Node::Sequence(_) => Err(ConfError::NotAMapping),
            Node::Bad => Err(ConfError::NotAMapping),
        }
    }

    /// Whether the named program's settings changed between the two
    /// configurations: `true` exactly where the trees the name resolves to
    /// in the two `programs` subtrees are not structurally equal.
    pub fn diff_program(&self, other: &Conf, program_name: &str) -> (r: bool)
        ensures
            r == differs(self.progs(), other.progs(), program_name@),
    {
        let mine = index_str(&self.programs, program_name);
        let theirs = index_str(&other.programs, program_name);
        match (mine, theirs) {
            (Option::Some(m), Option::Some(t)) => !node_eq(m, t),
            (Option::Some(m), Option::None) => !is_bad(m),
            (Option::None, Option::Some(t)) => !is_bad(t),
            (Option::None, Option::None) => false,
        }
    }
}

/// A configuration never differs from itself: diffing any program name
/// between a configuration and that same configuration reports no change.
pub proof fn lemma_diff_reflexive(c: Conf, name: Seq<char>)
    ensures
        !differs(c.progs(), c.progs(), name),
{
}

/// Diffing is symmetric: the two configurations can be given in either
/// order without changing the answer.
pub proof fn lemma_diff_symmetric(a: Conf, b: Conf, name: Seq<char>)
    ensures
        differs(a.progs(), b.progs(), name) == differs(b.progs(), a.progs(), name),
{
}

/// A program that resolves to a value in one configuration and is absent
/// from the other differs, whichever side holds it.
pub proof fn lemma_diff_absent_one_side(a: Conf, b: Conf, name: Seq<char>)
    requires
        index_of(a.progs(), name) != Value::Bad,
        index_of(b.progs(), name) == Value::Bad,
    ensures
        differs(a.progs(), b.progs(), name),
        differs(b.progs(), a.progs(), name),
{
}

/// A program absent from both configurations does not differ: both sides
/// resolve it to the same absent value.
pub proof fn lemma_diff_both_absent(a: Conf, b: Conf, name: Seq<char>)
    requires
        index_of(a.progs(), name) == Value::Bad,
        index_of(b.progs(), name) == Value::Bad,
    ensures
        !differs(a.progs(), b.progs(), name),
{
}

} // verus!
