//! Structured audit evidence: a JSON-shaped tree of plain values.

use vstd::prelude::*;
use crate::text::str_eq;

verus! {

/// Opaque structured evidence for the audit sink; never raw sensitive values.
///
/// A number is carried as its decimal text, so that evidence passes through unchanged.
#[derive(Debug, PartialEq, Eq)]
pub enum Evidence {
    Null,
    Bool(bool),
    Number(String),
    Text(String),
    List(Vec<Evidence>),
    Object(Vec<(String, Evidence)>),
}

/// What an [`Evidence`] tree says: the same tree over character sequences.
pub enum EvidenceView {
    Null,
    Bool(bool),
    Number(Seq<char>),
    Text(Seq<char>),
    List(Seq<EvidenceView>),
    Object(Seq<(Seq<char>, EvidenceView)>),
}

impl View for Evidence {
    type V = EvidenceView;

    open spec fn view(&self) -> EvidenceView {
        evidence_view(*self)
    }
}

/// The view of an evidence tree, node by node.
pub open spec fn evidence_view(e: Evidence) -> EvidenceView
    decreases e,
{
    match e {
        Evidence::Null => EvidenceView::Null,
        Evidence::Bool(b) => EvidenceView::Bool(b),
        Evidence::Number(n) => EvidenceView::Number(n@),
        Evidence::Text(t) => EvidenceView::Text(t@),
        Evidence::List(items) => EvidenceView::List(
            Seq::new(
                items@.len(),
                |i: int|
                    if 0 <= i < items@.len() {
                        evidence_view(items@[i])
                    } else {
                        EvidenceView::Null
                    },
            ),
        ),
        Evidence::Object(fields) => EvidenceView::Object(
            Seq::new(
                fields@.len(),
                |i: int|
                    if 0 <= i < fields@.len() {
                        (fields@[i].0@, evidence_view(fields@[i].1))
                    } else {
                        (Seq::empty(), EvidenceView::Null)
                    },
            ),
        ),
    }
}

/// The view of an object's fields.
pub open spec fn fields_view(fields: Seq<(String, Evidence)>) -> Seq<(Seq<char>, EvidenceView)> {
    Seq::new(fields.len(), |i: int| (fields[i].0@, evidence_view(fields[i].1)))
}

proof fn lemma_object_view(fields: Vec<(String, Evidence)>)
    ensures
        Evidence::Object(fields)@ == EvidenceView::Object(fields_view(fields@)),
{
    assert(evidence_view(Evidence::Object(fields))->Object_0 =~= fields_view(fields@));
}

/// A copy of a tree.
fn copy(e: &Evidence) -> (res: Evidence)
    ensures
        res@ == e@,
    decreases *e,
{
    match e {
        Evidence::Null => Evidence::Null,
        Evidence::Bool(b) => Evidence::Bool(*b),
        Evidence::Number(n) => Evidence::Number(n.as_str().to_owned()),
        Evidence::Text(s) => Evidence::Text(s.as_str().to_owned()),
        Evidence::List(items) => {
            let mut copies: Vec<Evidence> = Vec::new();
            let n: usize = items.len();
            let mut i: usize = 0;
            while i < n
                invariant
                    n == items@.len(),
                    i <= n,
                    *e == Evidence::List(*items),
                    copies@.len() == i,
                    forall|j: int| 0 <= j < i ==> (#[trigger] copies@[j])@ == items@[j]@,
                decreases n - i,
            {
                assert(decreases_to!(*e => e->List_0));
                assert(decreases_to!(*items => items@));
                assert(decreases_to!(items@ => items@[i as int]));
                copies.push(copy(&items[i]));
                i += 1;
            }
            assert(evidence_view(Evidence::List(copies))->List_0 =~= evidence_view(*e)->List_0);
            Evidence::List(copies)
        },
        Evidence::Object(fields) => {
            let mut copies: Vec<(String, Evidence)> = Vec::new();
            let n: usize = fields.len();
            let mut i: usize = 0;
            while i < n
                invariant
                    n == fields@.len(),
                    i <= n,
                    *e == Evidence::Object(*fields),
                    copies@.len() == i,
                    forall|j: int|
                        0 <= j < i ==> (#[trigger] copies@[j]).0@ == fields@[j].0@
                            && copies@[j].1@ == fields@[j].1@,
                decreases n - i,
            {
                assert(decreases_to!(*e => e->Object_0));
                assert(decreases_to!(*fields => fields@));
                assert(decreases_to!(fields@ => fields@[i as int]));
                assert(decreases_to!(fields@[i as int] => fields@[i as int].1));
                copies.push((fields[i].0.as_str().to_owned(), copy(&fields[i].1)));
                i += 1;
            }
            proof {
                lemma_object_view(*fields);
                lemma_object_view(copies);
                assert(fields_view(copies@) =~= fields_view(fields@));
            }
            Evidence::Object(copies)
        },
    }
}

impl Clone for Evidence {
    fn clone(&self) -> (res: Self)
        ensures
            res@ == self@,
    {
        copy(self)
    }
}

/// The first field of an object under `key`; `None` for any other tree.
pub open spec fn first_field(
    fields: Seq<(Seq<char>, EvidenceView)>,
    key: Seq<char>,
) -> Option<EvidenceView>
    decreases fields.len(),
{
    if fields.len() == 0 {
        None
    } else if fields[0].0 == key {
        Some(fields[0].1)
    } else {
        first_field(fields.drop_first(), key)
    }
}

impl EvidenceView {
    /// The first field under `key` where this is an object.
    pub open spec fn at(self, key: Seq<char>) -> Option<EvidenceView> {
        match self {
            EvidenceView::Object(fields) => first_field(fields, key),
            _ => None,
        }
    }
}

impl Evidence {
    /// The first field under `key` where this is an object.
    pub fn get(&self, key: &str) -> (res: Option<&Evidence>)
        ensures
            match res {
                Some(e) => self@.at(key@) == Some(e@),
                None => self@.at(key@) is None,
            },
    {
        match self {
            Evidence::Object(fields) => {
                let ghost all = fields_view(fields@);
                proof {
                    lemma_object_view(*fields);
                    assert(all.skip(0) =~= all);
                }
                let n: usize = fields.len();
                let mut i: usize = 0;
                while i < n
                    invariant
                        n == fields@.len(),
                        i <= n,
                        all == fields_view(fields@),
                        self@.at(key@) == first_field(all.skip(i as int), key@),
                    decreases n - i,
                {
                    assert(all.skip(i as int)[0] == all[i as int]);
                    if str_eq(fields[i].0.as_str(), key) {
                        return Some(&fields[i].1);
                    }
                    assert(all.skip(i as int).drop_first() =~= all.skip(i + 1));
                    i += 1;
                }
                None
            },
            _ => None,
        }
    }
}

/// An object without fields.
pub fn empty_object() -> (res: Evidence)
    ensures
        res@ == EvidenceView::Object(Seq::empty()),
{
    let fields: Vec<(String, Evidence)> = Vec::new();
    proof {
        lemma_object_view(fields);
        assert(fields_view(fields@) =~= Seq::empty());
    }
    Evidence::Object(fields)
}

/// An object with the further field `key`.
pub fn with_field(object: Vec<(String, Evidence)>, key: &str, value: Evidence) -> (res: Vec<
    (String, Evidence),
>)
    ensures
        fields_view(res@) == fields_view(object@).push((key@, value@)),
{
    let mut res = object;
    res.push((key.to_owned(), value));
    assert(fields_view(res@) =~= fields_view(object@).push((key@, value@)));
    res
}

/// The object with the given fields.
pub fn object(fields: Vec<(String, Evidence)>) -> (res: Evidence)
    ensures
        res@ == EvidenceView::Object(fields_view(fields@)),
{
    proof {
        lemma_object_view(fields);
    }
    Evidence::Object(fields)
}

/// A text node.
pub fn text(value: &str) -> (res: Evidence)
    ensures
        res@ == EvidenceView::Text(value@),
{
    Evidence::Text(value.to_owned())
}

/// An object with one text field.
pub fn text_field(key: &str, value: &str) -> (res: Evidence)
    ensures
        res@ == EvidenceView::Object(seq![(key@, EvidenceView::Text(value@))]),
{
    let none: Vec<(String, Evidence)> = Vec::new();
    let fields = with_field(none, key, text(value));
    assert(fields_view(fields@) =~= seq![(key@, EvidenceView::Text(value@))]);
    object(fields)
}

/// The view of a tree shows every node: leaves as they are, the items of a list and the fields
/// of an object one for one, in order.
pub proof fn law_evidence_shows_every_node(
    b: bool,
    t: String,
    items: Vec<Evidence>,
    fields: Vec<(String, Evidence)>,
)
    ensures
        Evidence::Null@ == EvidenceView::Null,
        Evidence::Bool(b)@ == EvidenceView::Bool(b),
        Evidence::Number(t)@ == EvidenceView::Number(t@),
        Evidence::Text(t)@ == EvidenceView::Text(t@),
        Evidence::List(items)@ is List,
        Evidence::List(items)@->List_0.len() == items@.len(),
        forall|i: int|
            0 <= i < items@.len() ==> (#[trigger] Evidence::List(items)@->List_0[i]) == items@[i]@,
        Evidence::Object(fields)@ is Object,
        Evidence::Object(fields)@->Object_0.len() == fields@.len(),
        forall|i: int|
            0 <= i < fields@.len() ==> (#[trigger] Evidence::Object(fields)@->Object_0[i]) == (
                fields@[i].0@,
                fields@[i].1@,
            ),
{
}

/// Looking a field up finds the first one of that name, and nothing exactly where no field has
/// it. Only objects have fields.
pub proof fn law_lookup_finds_the_first_field(
    fields: Seq<(Seq<char>, EvidenceView)>,
    key: Seq<char>,
    e: EvidenceView,
)
    ensures
        match EvidenceView::Object(fields).at(key) {
            Some(v) => exists|i: int|
                0 <= i < fields.len() && (#[trigger] fields[i]) == (key, v) && forall|j: int|
                    0 <= j < i ==> (#[trigger] fields[j]).0 != key,
            None => forall|j: int| 0 <= j < fields.len() ==> (#[trigger] fields[j]).0 != key,
        },
        !(e is Object) ==> e.at(key) is None,
    decreases fields.len(),
{
    if fields.len() > 0 && fields[0].0 != key {
        let rest = fields.drop_first();
        law_lookup_finds_the_first_field(rest, key, e);
        assert forall|j: int| 0 < j < fields.len() implies (#[trigger] fields[j]) == rest[j
            - 1] by {}
        match EvidenceView::Object(rest).at(key) {
            Some(v) => {
                let i = choose|i: int|
                    0 <= i < rest.len() && (#[trigger] rest[i]) == (key, v) && forall|j: int|
                        0 <= j < i ==> (#[trigger] rest[j]).0 != key;
                assert(fields[i + 1] == (key, v));
                assert forall|j: int| 0 <= j < i + 1 implies (#[trigger] fields[j]).0 != key by {
                    if j > 0 {
                        assert(rest[j - 1].0 != key);
                    }
                }
            },
            None => {
                assert forall|j: int| 0 <= j < fields.len() implies (#[trigger] fields[j]).0
                    != key by {
                    if j > 0 {
                        assert(rest[j - 1].0 != key);
                    }
                }
            },
        }
    } else if fields.len() > 0 {
        assert(fields[0] == (key, fields[0].1));
    }
}

} // verus!
