//! The names under which the kinds of mirrors are written down.
//!
//! A mirror is written down as its kind's name; a list of mirrors of one
//! kind as that name after `[]`, a list of such lists after `[][]`, and so on.

use vstd::prelude::*;
use vstd::string::{StrSliceExecFns, StringExecFns};

verus! {

/// The kinds of mirrors that have a name.
#[derive(Clone, Copy, Debug, PartialEq, Eq, Structural)]
pub enum Kind {
    Plane,
    Simplex,
    Sphere,
    Cylinder,
    /// A mirror that is written down with its own kind's name beside it.
    Dynamic,
}

impl Kind {
    /// The name of the kind.
    pub open spec fn name(self) -> Seq<char> {
        match self {
            Kind::Plane => "plane"@,
            Kind::Simplex => "simplex"@,
            Kind::Sphere => "sphere"@,
            Kind::Cylinder => "cylinder"@,
            Kind::Dynamic => "dynamic"@,
        }
    }

    /// The name of the kind.
    pub fn as_str(self) -> (r: &'static str)
        ensures
            r@ == self.name(),
    {
        match self {
            Kind::Plane => "plane",
            Kind::Simplex => "simplex",
            Kind::Sphere => "sphere",
            Kind::Cylinder => "cylinder",
            Kind::Dynamic => "dynamic",
        }
    }

    /// The kind named `name`, if there is one.
    pub fn from_name(name: &str) -> (r: Option<Kind>)
        ensures
            r matches Some(kind) ==> name@ == kind.name(),
            r.is_none() ==> forall|kind: Kind| name@ != kind.name(),
    {
        let name = String::from_str(name);
        if name == String::from_str("plane") {
            Some(Kind::Plane)
        } else if name == String::from_str("simplex") {
            Some(Kind::Simplex)
        } else if name == String::from_str("sphere") {
            Some(Kind::Sphere)
        } else if name == String::from_str("cylinder") {
            Some(Kind::Cylinder)
        } else if name == String::from_str("dynamic") {
            Some(Kind::Dynamic)
        } else {
            None
        }
    }

    /// No kind's name begins with a bracket.
    pub proof fn lemma_name_is_plain(self)
        ensures
            self.name().len() > 0,
            self.name()[0] != '[',
    {
        reveal_strlit("plane");
        reveal_strlit("simplex");
        reveal_strlit("sphere");
        reveal_strlit("cylinder");
        reveal_strlit("dynamic");
    }
}

/// `[]`, `depth` times over.
pub open spec fn brackets(depth: nat) -> Seq<char>
    decreases depth,
{
    if depth == 0 {
        Seq::empty()
    } else {
        seq!['[', ']'] + brackets((depth - 1) as nat)
    }
}

/// The name under which lists, nested `depth` deep, of mirrors of kind
/// `kind` are written down.
pub open spec fn tag(depth: nat, kind: Kind) -> Seq<char> {
    brackets(depth) + kind.name()
}

/// Whether `s` begins with `[]`.
pub open spec fn is_list_name(s: Seq<char>) -> bool {
    s.len() >= 2 && s[0] == '[' && s[1] == ']'
}

/// A name says in one way only how deep the lists are nested, and of what.
pub proof fn lemma_tag_unique(text: Seq<char>, depth: nat, rest: Seq<char>, d: nat, kind: Kind)
    requires
        text == brackets(depth) + rest,
        !is_list_name(rest),
        text == tag(d, kind),
    ensures
        d == depth,
        rest == kind.name(),
    decreases depth,
{
    kind.lemma_name_is_plain();
    if depth == 0 {
        assert(text =~= rest);
        if d > 0 {
            assert(text[0] == '[' && text[1] == ']');
        }
        assert(text =~= kind.name());
    } else {
        assert(text[0] == '[' && text[1] == ']');
        if d == 0 {
            assert(text =~= kind.name());
        } else {
            let shorter = text.subrange(2, text.len() as int);
            assert(shorter =~= brackets((depth - 1) as nat) + rest);
            assert(shorter =~= tag((d - 1) as nat, kind));
            lemma_tag_unique(shorter, (depth - 1) as nat, rest, (d - 1) as nat, kind);
        }
    }
}

/// Two names that are the same say the same.
pub proof fn lemma_tag_injective(d1: nat, k1: Kind, d2: nat, k2: Kind)
    requires
        tag(d1, k1) == tag(d2, k2),
    ensures
        d1 == d2,
        k1 == k2,
{
    k1.lemma_name_is_plain();
    lemma_tag_unique(tag(d1, k1), d1, k1.name(), d2, k2);
    reveal_strlit("plane");
    reveal_strlit("simplex");
    reveal_strlit("sphere");
    reveal_strlit("cylinder");
    reveal_strlit("dynamic");
    assert(k1.name().len() == k2.name().len());
    assert(k1.name()[1] == k2.name()[1]);
}

/// What the name `text` says: how deep the lists are nested, and of what
/// kind of mirrors. `None` if `text` is no name.
pub open spec fn parsed_tag(text: Seq<char>) -> Option<(nat, Kind)> {
    if exists|depth: nat, kind: Kind| text == tag(depth, kind) {
        Some(choose|depth: nat, kind: Kind| text == tag(depth, kind))
    } else {
        None
    }
}

/// Reads a name: how deep the lists are nested, and of what kind of
/// mirrors. `None` if `text` is no name.
pub fn parse_tag(text: &str) -> (r: Option<(usize, Kind)>)
    ensures
        r matches Some((depth, kind)) ==> text@ == tag(depth as nat, kind) && parsed_tag(text@)
            == Some((depth as nat, kind)),
        r.is_none() ==> parsed_tag(text@).is_none(),
        r.is_none() ==> forall|depth: nat, kind: Kind| text@ != tag(depth, kind),
{
    let n = text.unicode_len();
    let mut depth: usize = 0;
    let mut pos: usize = 0;
    loop
        invariant
            n == text@.len(),
            pos == 2 * depth,
            pos <= n,
            text@ == brackets(depth as nat) + text@.subrange(pos as int, n as int),
        ensures
            !is_list_name(text@.subrange(pos as int, n as int)),
        decreases n - pos,
    {
        if n - pos < 2 {
            break ;
        }
        if text.get_char(pos) != '[' {
            break ;
        }
        if text.get_char(pos + 1) != ']' {
            break ;
        }
        proof {
            let rest = text@.subrange(pos as int, n as int);
            let shorter = text@.subrange(pos + 2, n as int);
            assert(rest =~= seq!['[', ']'] + shorter);
            lemma_brackets_append(depth as nat);
            assert(text@ =~= brackets((depth + 1) as nat) + shorter);
        }
        depth += 1;
        pos += 2;
    }
    let rest = text.substring_char(pos, n);
    match Kind::from_name(rest) {
        Some(kind) => {
            proof {
                assert(text@ == tag(depth as nat, kind));
                let (d, k) = choose|d: nat, k: Kind| text@ == tag(d, k);
                lemma_tag_injective(d, k, depth as nat, kind);
            }
            Some((depth, kind))
        },
        None => {
            proof {
                assert forall|d: nat, kind: Kind| text@ != tag(d, kind) by {
                    if text@ == tag(d, kind) {
                        lemma_tag_unique(text@, depth as nat, rest@, d, kind);
                    }
                }
            }
            None
        },
    }
}

/// One more `[]` can be put in front or behind.
pub proof fn lemma_brackets_append(depth: nat)
    ensures
        brackets(depth + 1) == brackets(depth) + seq!['[', ']'],
    decreases depth,
{
    if depth == 0 {
        assert(brackets(1) =~= seq!['[', ']'] + brackets(0));
        assert(brackets(1) =~= brackets(0) + seq!['[', ']']);
    } else {
        lemma_brackets_append((depth - 1) as nat);
        assert(brackets(depth + 1) =~= seq!['[', ']'] + brackets(depth));
        assert(brackets(depth + 1) =~= brackets(depth) + seq!['[', ']']);
    }
}

/// The name under which lists, nested `depth` deep, of mirrors of kind
/// `kind` are written down.
pub fn tag_of(depth: usize, kind: Kind) -> (r: String)
    ensures
        r@ == tag(depth as nat, kind),
{
    let mut out = String::new();
    let mut i: usize = 0;
    while i < depth
        invariant
            i <= depth,
            out@ == brackets(i as nat),
        decreases depth - i,
    {
        proof {
            reveal_strlit("[]");
            lemma_brackets_append(i as nat);
            assert("[]"@ =~= seq!['[', ']']);
        }
        out.append("[]");
        i += 1;
    }
    out.append(kind.as_str());
    out
}

/// What has a name to be written down under.
pub trait JsonType {
    /// How deep a list this is: 0 for a mirror.
    spec fn depth() -> nat;

    /// The kind of the mirrors.
    spec fn kind() -> Kind;

    /// The name that values of this type are written down under.
    fn json_type() -> (r: String)
        ensures
            r@ == tag(Self::depth(), Self::kind()),
    ;
}

impl<T: JsonType> JsonType for Vec<T> {
    open spec fn depth() -> nat {
        T::depth() + 1
    }

    open spec fn kind() -> Kind {
        T::kind()
    }

    fn json_type() -> (r: String) {
        let inner = T::json_type();
        let mut out = String::from_str("[]");
        proof {
            reveal_strlit("[]");
            assert("[]"@ =~= seq!['[', ']']);
            assert(tag(T::depth() + 1, T::kind()) =~= seq!['[', ']'] + tag(T::depth(), T::kind()));
        }
        out.append(inner.as_str());
        out
    }
}

} // verus!
