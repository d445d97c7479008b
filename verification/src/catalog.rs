//! The catalog: icon sets in the order of their registration, searched as
//! one.

use crate::icons::{is_minified, IconSet, IconSetView};
use vstd::prelude::*;

verus! {

/// The index of the first set at or after `from` that holds `name`; the
/// number of sets if none does.
pub open spec fn first_holder(sets: Seq<IconSetView>, name: Seq<char>, from: int) -> int
    decreases sets.len() - from,
{
    if from < 0 || from >= sets.len() {
        sets.len() as int
    } else if sets[from].icons.contains_key(name) {
        from
    } else {
        first_holder(sets, name, from + 1)
    }
}

/// The markup that a search for `name` finds: what the first set that holds
/// the name has filed under it.
pub open spec fn found_in(sets: Seq<IconSetView>, name: Seq<char>) -> Option<Seq<char>> {
    let i = first_holder(sets, name, 0);
    if i < sets.len() {
        Some(sets[i].icons[name])
    } else {
        None
    }
}

/// What [`first_holder`] returns is the least index from `from` on whose set
/// holds the name, or the number of sets.
pub proof fn lemma_first_holder(sets: Seq<IconSetView>, name: Seq<char>, from: int)
    requires
        0 <= from <= sets.len(),
    ensures
        from <= first_holder(sets, name, from) <= sets.len(),
        first_holder(sets, name, from) < sets.len() ==> sets[first_holder(
            sets,
            name,
            from,
        )].icons.contains_key(name),
        forall|j: int|
            from <= j < first_holder(sets, name, from) ==> !(#[trigger] sets[j]).icons.contains_key(
                name,
            ),
    decreases sets.len() - from,
{
    if from < sets.len() && !sets[from].icons.contains_key(name) {
        lemma_first_holder(sets, name, from + 1);
    }
}

/// Where several sets hold the same name, the search finds what the one
/// registered first has filed under it.
pub proof fn lemma_first_registered_wins(sets: Seq<IconSetView>, name: Seq<char>, i: int)
    requires
        0 <= i < sets.len(),
        sets[i].icons.contains_key(name),
        forall|j: int| 0 <= j < i ==> !(#[trigger] sets[j]).icons.contains_key(name),
    ensures
        found_in(sets, name) == Some(sets[i].icons[name]),
{
    lemma_first_holder(sets, name, 0);
}

/// A name that no set holds is not found.
pub proof fn lemma_missing_is_not_found(sets: Seq<IconSetView>, name: Seq<char>)
    requires
        forall|j: int| 0 <= j < sets.len() ==> !(#[trigger] sets[j]).icons.contains_key(name),
    ensures
        found_in(sets, name) is None,
{
    lemma_first_holder(sets, name, 0);
}

/// Registering one more set changes no search that found something before;
/// a name that was not found before is now looked up in the new set.
pub proof fn lemma_register_then_find(sets: Seq<IconSetView>, set: IconSetView, name: Seq<char>)
    ensures
        found_in(sets.push(set), name) == if found_in(sets, name) is Some {
            found_in(sets, name)
        } else if set.icons.contains_key(name) {
            Some(set.icons[name])
        } else {
            None
        },
{
    let more = sets.push(set);
    lemma_first_holder(sets, name, 0);
    lemma_first_holder(more, name, 0);
    let i = first_holder(sets, name, 0);
    let k = first_holder(more, name, 0);
    let n = sets.len() as int;
    assert(more[n] == set);
    if k < n {
        assert(more[k] == sets[k]);
        assert(sets[k].icons.contains_key(name));
    }
    if i < n {
        assert(more[i] == sets[i]);
        assert(more[i].icons.contains_key(name));
        assert(k == i);
    } else if set.icons.contains_key(name) {
        assert(more[n].icons.contains_key(name));
        assert(k == n);
    } else {
        assert(k == n + 1);
    }
}

/// The icon sets of a program, in the order of their registration.
pub struct IconCatalog {
    sets: Vec<IconSet>,
}

impl View for IconCatalog {
    type V = Seq<IconSetView>;

    closed spec fn view(&self) -> Seq<IconSetView> {
        Seq::new(self.sets.len() as nat, |i: int| self.sets[i]@)
    }
}

impl IconCatalog {
    /// A catalog without sets.
    pub fn new() -> (r: Self)
        ensures
            r@ == Seq::<IconSetView>::empty(),
    {
        let r = IconCatalog { sets: Vec::new() };
        assert(r@ =~= Seq::<IconSetView>::empty());
        r
    }

    /// A catalog of the given sets, registered in the order in which they
    /// stand.
    pub fn from_sets(sets: Vec<IconSet>) -> (r: Self)
        ensures
            r@.len() == sets.len(),
            forall|i: int| 0 <= i < sets.len() ==> r@[i] == (#[trigger] sets[i])@,
    {
        IconCatalog { sets }
    }

    /// Adds a set behind those that are there. Names that earlier sets hold
    /// too stay in both.
    pub fn register(&mut self, set: IconSet)
        ensures
            final(self)@ == old(self)@.push(set@),
    {
        self.sets.push(set);
        assert(self@ =~= old(self)@.push(set@));
    }

    /// The number of sets.
    pub fn len(&self) -> (r: usize)
        ensures
            r == self@.len(),
    {
        self.sets.len()
    }

    /// The set that was registered as number `i`, counting from zero.
    pub fn set_at(&self, i: usize) -> (r: &IconSet)
        requires
            i < self@.len(),
        ensures
            r@ == self@[i as int],
    {
        &self.sets[i]
    }

    /// Searches the sets in the order of their registration and returns the
    /// markup that the first set holding `name` has filed under it; `None`
    /// if no set holds the name.
    pub fn lookup(&self, name: &str) -> (r: Option<&str>)
        ensures
            match r {
                Some(markup) => found_in(self@, name@) == Some(markup@) && is_minified(markup@),
                None => found_in(self@, name@) is None,
            },
    {
        let mut i: usize = 0;
        while i < self.sets.len()
            invariant
                i <= self.sets.len(),
                first_holder(self@, name@, 0) == first_holder(self@, name@, i as int),
            decreases self.sets.len() - i,
        {
            match self.sets[i].get(name) {
                Some(markup) => {
                    return Some(markup);
                },
                None => {},
            }
            i += 1;
        }
        None
    }
}

} // verus!
