//! A finite set of strings in which nothing occurs twice.

use vstd::prelude::*;
use vstd::std_specs::cmp::PartialEqSpecImpl;

verus! {

/// The texts of the strings in `items`.
pub open spec fn texts_of(items: Seq<String>) -> Seq<Seq<char>> {
    items.map_values(|item: String| item@)
}

/// A finite set of strings. The view is the set of their texts.
#[derive(Debug)]
pub struct StringSet {
    items: Vec<String>,
}

impl View for StringSet {
    type V = Set<Seq<char>>;

    closed spec fn view(&self) -> Set<Seq<char>> {
        texts_of(self.items@).to_set()
    }
}

/// Whether one of the strings in `items` has the text `wanted`.
fn holds(items: &Vec<String>, wanted: &String) -> (found: bool)
    ensures
        found == texts_of(items@).contains(wanted@),
{
    let ghost texts = texts_of(items@);
    let mut i: usize = 0;
    while i < items.len()
        invariant
            i <= items.len(),
            texts == texts_of(items@),
            forall|j: int| 0 <= j < i ==> texts[j] != wanted@,
        decreases items.len() - i,
    {
        if items[i] == *wanted {
            assert(texts[i as int] == wanted@);
            return true;
        }
        i += 1;
    }
    false
}

impl StringSet {
    #[verifier::type_invariant]
    spec fn distinct(&self) -> bool {
        texts_of(self.items@).no_duplicates()
    }

    /// The empty set.
    pub fn new() -> (set: StringSet)
        ensures
            set@ == Set::<Seq<char>>::empty(),
    {
        let items: Vec<String> = Vec::new();
        StringSet { items }
    }

    /// Whether `item` is in the set.
    pub fn contains(&self, item: &str) -> (found: bool)
        ensures
            found == self@.contains(item@),
    {
        let wanted = item.to_owned();
        holds(&self.items, &wanted)
    }

    /// Puts `item` into the set and says whether it was new.
    pub fn insert(&mut self, item: String) -> (added: bool)
        ensures
            final(self)@ == old(self)@.insert(item@),
            added == !old(self)@.contains(item@),
    {
        proof {
            use_type_invariant(&*self);
        }
        let ghost before = texts_of(self.items@);
        if holds(&self.items, &item) {
            assert(self@.insert(item@) =~= self@);
            return false;
        }
        let mut items: Vec<String> = Vec::new();
        core::mem::swap(&mut self.items, &mut items);
        items.push(item);
        assert(texts_of(items@) =~= before.push(item@));
        proof {
            before.lemma_push_to_set_commute(item@);
        }
        self.items = items;
        true
    }

    /// How many strings the set holds.
    pub fn len(&self) -> (n: usize)
        ensures
            self@.finite(),
            n == self@.len(),
    {
        proof {
            use_type_invariant(self);
            texts_of(self.items@).unique_seq_to_set();
            vstd::seq_lib::seq_to_set_is_finite(texts_of(self.items@));
        }
        self.items.len()
    }

    /// The strings of the set, each once, in the order in which they came.
    pub fn items(&self) -> (items: &Vec<String>)
        ensures
            texts_of(items@).no_duplicates(),
            texts_of(items@).to_set() == self@,
    {
        proof {
            use_type_invariant(self);
        }
        &self.items
    }
}

impl Clone for StringSet {
    /// A set of the same strings.
    fn clone(&self) -> (copy: Self)
        ensures
            copy@ == self@,
    {
        proof {
            use_type_invariant(self);
        }
        let ghost texts = texts_of(self.items@);
        let mut items: Vec<String> = Vec::new();
        let mut i: usize = 0;
        while i < self.items.len()
            invariant
                i <= self.items.len(),
                texts == texts_of(self.items@),
                texts_of(items@) == texts.take(i as int),
            decreases self.items.len() - i,
        {
            let item = self.items[i].clone();
            items.push(item);
            assert(texts.take(i + 1) =~= texts.take(i as int).push(texts[i as int]));
            i += 1;
        }
        assert(texts.take(i as int) =~= texts);
        StringSet { items }
    }
}

impl PartialEq for StringSet {
    /// Whether both sets hold the same strings.
    fn eq(&self, other: &Self) -> (same: bool) {
        proof {
            use_type_invariant(self);
            use_type_invariant(other);
            texts_of(self.items@).unique_seq_to_set();
            texts_of(other.items@).unique_seq_to_set();
            vstd::seq_lib::seq_to_set_is_finite(texts_of(self.items@));
            vstd::seq_lib::seq_to_set_is_finite(texts_of(other.items@));
        }
        if self.items.len() != other.items.len() {
            return false;
        }
        let ghost mine = texts_of(self.items@);
        let ghost theirs = texts_of(other.items@);
        let mut i: usize = 0;
        while i < self.items.len()
            invariant
                i <= self.items.len(),
                self.items.len() == other.items.len(),
                mine == texts_of(self.items@),
                theirs == texts_of(other.items@),
                forall|j: int| 0 <= j < i ==> theirs.contains(#[trigger] mine[j]),
            decreases self.items.len() - i,
        {
            if !holds(&other.items, &self.items[i]) {
                assert(!theirs.to_set().contains(mine[i as int]));
                return false;
            }
            i += 1;
        }
        proof {
            vstd::set_lib::lemma_subset_equality(mine.to_set(), theirs.to_set());
        }
        true
    }
}

impl PartialEqSpecImpl for StringSet {
    open spec fn obeys_eq_spec() -> bool {
        true
    }

    open spec fn eq_spec(&self, other: &Self) -> bool {
        self@ == other@
    }
}

} // verus!
