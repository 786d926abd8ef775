//! Sets of flag names.
//!
//! Vulkan knows its extensions and features by name. What is supported and what is enabled are
//! sets of such names.
use vstd::prelude::*;

verus! {

/// Whether `name` is one of the names in `list`.
pub open spec fn listed(list: Seq<&'static str>, name: Seq<char>) -> bool {
    exists|i: int| 0 <= i < list.len() && (#[trigger] list[i])@ == name
}

/// Whether every name in `list` is also in `other`.
pub open spec fn all_in(list: Seq<&'static str>, other: Seq<&'static str>) -> bool {
    forall|i: int| 0 <= i < list.len() ==> listed(other, (#[trigger] list[i])@)
}

/// Whether no name occurs twice in `list`.
pub open spec fn distinct(list: Seq<&'static str>) -> bool {
    forall|i: int, j: int| 0 <= i < j < list.len() ==> (#[trigger] list[i])@ != (#[trigger] list[j])@
}

/// `list` with `name` added at the end, unless it is there already.
pub open spec fn with_name(list: Seq<&'static str>, name: &'static str) -> Seq<&'static str> {
    if listed(list, name@) {
        list
    } else {
        list.push(name)
    }
}

/// Compares two strings.
pub fn same_str(a: &str, b: &str) -> (same: bool)
    ensures
        same == (a@ == b@),
{
    let x = a.as_bytes();
    let y = b.as_bytes();
    proof {
        vstd::utf8::encode_utf8_decode_utf8(a@);
        vstd::utf8::encode_utf8_decode_utf8(b@);
    }
    if x.len() != y.len() {
        return false;
    }
    let mut i: usize = 0;
    while i < x.len()
        invariant
            i <= x.len(),
            x.len() == y.len(),
            x@ == vstd::utf8::encode_utf8(a@),
            y@ == vstd::utf8::encode_utf8(b@),
            forall|j: int| 0 <= j < i ==> x@[j] == y@[j],
        decreases x.len() - i,
    {
        if x[i] != y[i] {
            return false;
        }
        i += 1;
    }
    assert(x@ == y@);
    true
}

/// Whether a string holds a NUL character, so that it cannot be handed over as a C string.
pub fn has_nul(text: &str) -> (found: bool)
    ensures
        found == text@.contains('\0'),
{
    let mut found = false;
    for c in it: text.chars()
        invariant
            it.seq() == text@,
            found == exists|i: int| 0 <= i < it.index() && text@[i] == '\0',
    {
        if c == '\0' {
            assert(text@[it.index() as int] == '\0');
            found = true;
        }
    }
    found
}

/// Whether `name` is one of the names in `list`.
pub fn list_has(list: &[&'static str], name: &str) -> (found: bool)
    ensures
        found == listed(list@, name@),
{
    let mut i: usize = 0;
    while i < list.len()
        invariant
            i <= list.len(),
            forall|j: int| 0 <= j < i ==> (#[trigger] list@[j])@ != name@,
        decreases list.len() - i,
    {
        if same_str(list[i], name) {
            assert(list@[i as int]@ == name@);
            return true;
        }
        i += 1;
    }
    false
}

/// A set of names that remembers the order in which they were added.
#[derive(Debug)]
pub struct NameSet {
    names: Vec<&'static str>,
}

impl View for NameSet {
    type V = Seq<&'static str>;

    closed spec fn view(&self) -> Seq<&'static str> {
        self.names@
    }
}

impl Clone for NameSet {
    fn clone(&self) -> (copy: Self)
        ensures
            copy@ == self@,
    {
        proof {
            use_type_invariant(self);
        }
        let names = self.names.clone();
        assert(names@ =~= self.names@);
        NameSet { names }
    }
}

impl NameSet {
    #[verifier::type_invariant]
    spec fn inv(self) -> bool {
        distinct(self.names@)
    }

    /// The set without any name.
    pub fn none() -> (set: Self)
        ensures
            set@ == Seq::<&'static str>::empty(),
    {
        NameSet { names: Vec::new() }
    }

    /// Whether `name` is in the set.
    pub fn contains(&self, name: &str) -> (found: bool)
        ensures
            found == listed(self@, name@),
    {
        list_has(self.names.as_slice(), name)
    }

    /// Adds `name` to the set.
    pub fn insert(&mut self, name: &'static str)
        ensures
            final(self)@ == with_name(old(self)@, name),
    {
        proof {
            use_type_invariant(&*self);
        }
        if !self.contains(name) {
            let mut names = Vec::new();
            core::mem::swap(&mut names, &mut self.names);
            names.push(name);
            self.names = names;
        }
    }

    /// The names in the set, each once, in the order in which they were added.
    pub fn names(&self) -> (names: &Vec<&'static str>)
        ensures
            names@ == self@,
            distinct(names@),
    {
        proof {
            use_type_invariant(self);
        }
        &self.names
    }

    /// Whether every name of `other` is in this set too.
    pub fn is_superset_of(&self, other: &Self) -> (superset: bool)
        ensures
            superset == all_in(other@, self@),
    {
        let mut i: usize = 0;
        while i < other.names.len()
            invariant
                i <= other.names.len(),
                forall|j: int| 0 <= j < i ==> listed(self@, (#[trigger] other@[j])@),
            decreases other.names.len() - i,
        {
            if !self.contains(other.names[i]) {
                assert(!listed(self@, other@[i as int]@));
                return false;
            }
            i += 1;
        }
        true
    }
}

} // verus!
