//! Documents: the trees of values that scenes are written down as.

use crate::scalar::Scalar;
use vstd::prelude::*;
use vstd::string::StringExecFns;

verus! {

/// A document: what a JSON text stands for, with numbers of type `S`.
pub enum Json<S> {
    Null,
    Bool(bool),
    /// A number written without sign, fraction or exponent.
    Natural(u64),
    /// Any other number.
    Real(S),
    Text(String),
    Array(Vec<Json<S>>),
    /// The members of an object, each a name and a value, in their order.
    /// Where a name occurs twice, the first occurrence counts.
    Object(Vec<(String, Json<S>)>),
}

/// What a document holds, as a mathematical value.
pub ghost enum Doc<S> {
    Null,
    Bool(bool),
    Natural(u64),
    Real(S),
    Text(Seq<char>),
    Array(Seq<Doc<S>>),
    Object(Seq<(Seq<char>, Doc<S>)>),
}

impl<S> View for Json<S> {
    type V = Doc<S>;

    open spec fn view(&self) -> Doc<S>
        decreases self,
    {
        match self {
            Json::Null => Doc::Null,
            Json::Bool(b) => Doc::Bool(*b),
            Json::Natural(n) => Doc::Natural(*n),
            Json::Real(x) => Doc::Real(*x),
            Json::Text(s) => Doc::Text(s@),
            Json::Array(items) => Doc::Array(docs_of(items@)),
            Json::Object(members) => Doc::Object(members_of(members@)),
        }
    }
}

/// What each document of `items` holds.
pub open spec fn docs_of<S>(items: Seq<Json<S>>) -> Seq<Doc<S>>
    decreases items,
{
    Seq::new(
        items.len(),
        |i: int|
            if 0 <= i < items.len() {
                items[i]@
            } else {
                Doc::Null
            },
    )
}

/// What each member of `members` holds.
pub open spec fn members_of<S>(members: Seq<(String, Json<S>)>) -> Seq<(Seq<char>, Doc<S>)>
    decreases members,
{
    Seq::new(
        members.len(),
        |i: int|
            if 0 <= i < members.len() {
                (members[i].0@, members[i].1@)
            } else {
                (Seq::empty(), Doc::Null)
            },
    )
}

/// Whether member `i` of `members` is the first one named `key`.
pub open spec fn is_position_of<S>(members: Seq<(Seq<char>, Doc<S>)>, key: Seq<char>, i: int) -> bool {
    &&& 0 <= i < members.len()
    &&& members[i].0 == key
    &&& forall|j: int| 0 <= j < i ==> (#[trigger] members[j]).0 != key
}

/// The index of the first member of `members` named `key`, if there is one.
pub open spec fn position_of<S>(members: Seq<(Seq<char>, Doc<S>)>, key: Seq<char>) -> Option<int> {
    if exists|i: int| is_position_of(members, key, i) {
        Some(choose|i: int| is_position_of(members, key, i))
    } else {
        None
    }
}

/// There is at most one first member of a name.
pub proof fn lemma_position_unique<S>(
    members: Seq<(Seq<char>, Doc<S>)>,
    key: Seq<char>,
    i: int,
)
    requires
        is_position_of(members, key, i),
    ensures
        position_of(members, key) == Some(i),
{
    let w = choose|w: int| is_position_of(members, key, w);
    assert(w == i);
}

impl<S: Scalar> Doc<S> {
    /// The value of the member named `key`, where `self` is an object that
    /// has one.
    pub open spec fn member(self, key: Seq<char>) -> Option<Doc<S>> {
        match self {
            Doc::Object(members) => match position_of(members, key) {
                Some(i) => Some(members[i].1),
                None => None,
            },
            _ => None,
        }
    }

    /// The elements, where `self` is an array.
    pub open spec fn elements(self) -> Option<Seq<Doc<S>>> {
        match self {
            Doc::Array(items) => Some(items),
            _ => None,
        }
    }

    /// The text, where `self` is one.
    pub open spec fn text(self) -> Option<Seq<char>> {
        match self {
            Doc::Text(s) => Some(s),
            _ => None,
        }
    }

    /// The number, where `self` is a natural number.
    pub open spec fn natural(self) -> Option<u64> {
        match self {
            Doc::Natural(n) => Some(n),
            _ => None,
        }
    }

    /// The number, where `self` is one.
    pub open spec fn number(self) -> Option<S> {
        match self {
            Doc::Natural(n) => Some(S::of_natural(n)),
            Doc::Real(x) => Some(x),
            _ => None,
        }
    }

    /// A member of an object is a smaller document than the object.
    pub proof fn lemma_member_decreases(self, key: Seq<char>)
        ensures
            self.member(key) matches Some(value) ==> decreases_to!(self => value),
    {
        if let Doc::Object(members) = self {
            if let Some(i) = position_of(members, key) {
                assert(decreases_to!(self => self->Object_0));
                assert(decreases_to!(members => members[i]));
                assert(decreases_to!(members[i] => members[i].1));
            }
        }
    }

    /// The elements of an array are, together, smaller than the array.
    pub proof fn lemma_elements_decrease(self)
        ensures
            self.elements() matches Some(items) ==> decreases_to!(self => items),
    {
        if let Doc::Array(items) = self {
            assert(decreases_to!(self => self->Array_0));
        }
    }
}

impl<S: Scalar> Json<S> {
    /// The value of the member named `key`, where `self` is an object that
    /// has one.
    #[verifier::loop_isolation(false)]
    pub fn get(&self, key: &str) -> (r: Option<&Json<S>>)
        ensures
            r.is_some() == self@.member(key@).is_some(),
            r matches Some(value) ==> Some(value@) == self@.member(key@) && decreases_to!(
                *self => *value
            ),
    {
        match self {
            Json::Object(members) => {
                let wanted = String::from_str(key);
                let ghost docs = members_of(members@);
                let mut i: usize = 0;
                while i < members.len()
                    invariant
                        i <= members.len(),
                        wanted@ == key@,
                        forall|j: int| 0 <= j < i ==> (#[trigger] docs[j]).0 != key@,
                    decreases members.len() - i,
                {
                    if members[i].0 == wanted {
                        proof {
                            broadcast use vstd::std_specs::vec::axiom_vec_decreases_to_view;

                            assert(docs[i as int] == (members@[i as int].0@, members@[i as int].1@));
                            assert(is_position_of(docs, key@, i as int));
                            lemma_position_unique(docs, key@, i as int);
                            assert(decreases_to!(*self => self->Object_0));
                            assert(decreases_to!(*members => members@));
                            assert(decreases_to!(members@ => members@[i as int]));
                            assert(decreases_to!(members@[i as int] => members@[i as int].1));
                        }
                        return Some(&members[i].1);
                    }
                    assert(docs[i as int].0 == members@[i as int].0@);
                    i += 1;
                }
                None
            },
            _ => None,
        }
    }

    /// The elements, where `self` is an array.
    pub fn as_array(&self) -> (r: Option<&Vec<Json<S>>>)
        ensures
            r.is_some() == self@.elements().is_some(),
            r matches Some(items) ==> Some(docs_of(items@)) == self@.elements() && forall|i: int|
                0 <= i < items@.len() ==> decreases_to!(*self => #[trigger] items@[i]),
    {
        match self {
            Json::Array(items) => {
                proof {
                    broadcast use vstd::std_specs::vec::axiom_vec_decreases_to_view;

                    assert forall|i: int| 0 <= i < items@.len() implies decreases_to!(
                        *self => #[trigger] items@[i]
                    ) by {
                        assert(decreases_to!(*self => self->Array_0));
                        assert(decreases_to!(*items => items@));
                        assert(decreases_to!(items@ => items@[i]));
                    }
                }
                Some(items)
            },
            _ => None,
        }
    }

    /// The text, where `self` is one.
    pub fn as_str(&self) -> (r: Option<&str>)
        ensures
            r.is_some() == self@.text().is_some(),
            r matches Some(s) ==> Some(s@) == self@.text(),
    {
        match self {
            Json::Text(s) => Some(s.as_str()),
            _ => None,
        }
    }

    /// The number, where `self` is a natural number.
    pub fn as_u64(&self) -> (r: Option<u64>)
        ensures
            r == self@.natural(),
    {
        match self {
            Json::Natural(n) => Some(*n),
            _ => None,
        }
    }

    /// The number, where `self` is one.
    pub fn as_real(&self) -> (r: Option<S>)
        ensures
            r == self@.number(),
    {
        match self {
            Json::Natural(n) => Some(S::from_natural(*n)),
            Json::Real(x) => Some(*x),
            _ => None,
        }
    }
}

} // verus!
