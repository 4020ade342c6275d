//! Header maps: header names mapped to values.
//!
//! The view of a [`HeaderMap`] is a `Map` from names to values, both as
//! sequences of characters. Names are told apart character for character;
//! no case folding takes place. A map can be taken apart into a sequence of
//! name/value pairs and put together from one: putting together inserts the
//! pairs in order, so of two pairs with one name the later one stays.

use crate::text::str_eq;
use vstd::prelude::*;
use vstd::std_specs::cmp::PartialEqSpecImpl;
use vstd::std_specs::convert::FromSpecImpl;

verus! {

/// The map that inserting `pairs` one after the other into an empty map
/// gives. Of two pairs with the same name the later one stays.
pub open spec fn fold_pairs(pairs: Seq<(Seq<char>, Seq<char>)>) -> Map<Seq<char>, Seq<char>>
    decreases pairs.len(),
{
    if pairs.len() == 0 {
        Map::empty()
    } else {
        fold_pairs(pairs.drop_last()).insert(pairs.last().0, pairs.last().1)
    }
}

/// No two of `pairs` have the same name.
pub open spec fn distinct_names(pairs: Seq<(Seq<char>, Seq<char>)>) -> bool {
    forall|i: int, j: int| 0 <= i < j < pairs.len() ==> pairs[i].0 != pairs[j].0
}

/// `name` is the name of one of `pairs`.
pub open spec fn has_name(pairs: Seq<(Seq<char>, Seq<char>)>, name: Seq<char>) -> bool {
    exists|i: int| 0 <= i < pairs.len() && #[trigger] pairs[i].0 == name
}

/// The names that `fold_pairs(pairs)` maps are the names of `pairs`, and
/// they are finitely many.
pub proof fn lemma_fold_pairs_names(pairs: Seq<(Seq<char>, Seq<char>)>)
    ensures
        fold_pairs(pairs).dom().finite(),
        forall|name: Seq<char>| #[trigger]
            fold_pairs(pairs).contains_key(name) <==> has_name(pairs, name),
    decreases pairs.len(),
{
    if pairs.len() > 0 {
        let front = pairs.drop_last();
        lemma_fold_pairs_names(front);
        assert forall|name: Seq<char>| #[trigger]
            fold_pairs(pairs).contains_key(name) <==> has_name(pairs, name) by {
            if has_name(pairs, name) {
                let i = choose|i: int| 0 <= i < pairs.len() && #[trigger] pairs[i].0 == name;
                if i < front.len() {
                    assert(front[i].0 == name);
                }
            }
            if fold_pairs(pairs).contains_key(name) {
                if name == pairs.last().0 {
                    assert(pairs[pairs.len() - 1].0 == name);
                } else {
                    let i = choose|i: int| 0 <= i < front.len() && #[trigger] front[i].0 == name;
                    assert(pairs[i].0 == name);
                }
            }
        }
    }
}

/// `fold_pairs(pairs)` maps the name of a pair to that pair's value, where
/// no later pair has the same name.
pub proof fn lemma_fold_pairs_value(pairs: Seq<(Seq<char>, Seq<char>)>, i: int)
    requires
        0 <= i < pairs.len(),
        forall|j: int| i < j < pairs.len() ==> pairs[j].0 != pairs[i].0,
    ensures
        fold_pairs(pairs).contains_key(pairs[i].0),
        fold_pairs(pairs)[pairs[i].0] == pairs[i].1,
    decreases pairs.len(),
{
    if i < pairs.len() - 1 {
        let front = pairs.drop_last();
        assert(front[i] == pairs[i]);
        assert forall|j: int| i < j < front.len() implies front[j].0 != front[i].0 by {
            assert(front[j] == pairs[j]);
        }
        lemma_fold_pairs_value(front, i);
    }
}

/// Inserting the pairs of `first` and then those of `second` gives the
/// union of the two maps, in which `second` decides where both map a name.
pub proof fn lemma_fold_pairs_concat(
    first: Seq<(Seq<char>, Seq<char>)>,
    second: Seq<(Seq<char>, Seq<char>)>,
)
    ensures
        fold_pairs(first + second) == fold_pairs(first).union_prefer_right(fold_pairs(second)),
    decreases second.len(),
{
    if second.len() == 0 {
        assert(first + second =~= first);
        assert(fold_pairs(first).union_prefer_right(fold_pairs(second)) =~= fold_pairs(first));
    } else {
        let front = second.drop_last();
        assert((first + second).drop_last() =~= first + front);
        assert((first + second).last() == second.last());
        lemma_fold_pairs_concat(first, front);
        assert(fold_pairs(first + second) =~= fold_pairs(first).union_prefer_right(
            fold_pairs(second),
        ));
    }
}

/// Giving the pair at `i` another value keeps the names distinct and maps the
/// pair's name to the new value, leaving the other names as they were.
pub proof fn lemma_fold_pairs_update(pairs: Seq<(Seq<char>, Seq<char>)>, i: int, value: Seq<char>)
    requires
        0 <= i < pairs.len(),
        distinct_names(pairs),
    ensures
        distinct_names(pairs.update(i, (pairs[i].0, value))),
        fold_pairs(pairs.update(i, (pairs[i].0, value))) == fold_pairs(pairs).insert(
            pairs[i].0,
            value,
        ),
{
    let updated = pairs.update(i, (pairs[i].0, value));
    let wanted = fold_pairs(pairs).insert(pairs[i].0, value);
    lemma_fold_pairs_names(pairs);
    lemma_fold_pairs_names(updated);
    assert forall|name: Seq<char>| has_name(pairs, name) <==> has_name(updated, name) by {
        if has_name(pairs, name) {
            let k = choose|k: int| 0 <= k < pairs.len() && #[trigger] pairs[k].0 == name;
            assert(updated[k].0 == name);
        }
        if has_name(updated, name) {
            let k = choose|k: int| 0 <= k < updated.len() && #[trigger] updated[k].0 == name;
            assert(pairs[k].0 == name);
        }
    }
    assert(has_name(pairs, pairs[i].0));
    assert forall|name: Seq<char>| #[trigger] wanted.contains_key(name) implies fold_pairs(
        updated,
    )[name] == wanted[name] by {
        let k = choose|k: int| 0 <= k < updated.len() && #[trigger] updated[k].0 == name;
        lemma_fold_pairs_value(updated, k);
        if k != i {
            lemma_fold_pairs_value(pairs, k);
        }
    }
    assert(fold_pairs(updated) =~= wanted);
}

/// Pairs with distinct names give a map of as many names.
pub proof fn lemma_fold_pairs_len(pairs: Seq<(Seq<char>, Seq<char>)>)
    requires
        distinct_names(pairs),
    ensures
        fold_pairs(pairs).len() == pairs.len(),
    decreases pairs.len(),
{
    if pairs.len() > 0 {
        let front = pairs.drop_last();
        lemma_fold_pairs_len(front);
        lemma_fold_pairs_names(front);
        if has_name(front, pairs.last().0) {
            let i = choose|i: int| 0 <= i < front.len() && #[trigger] front[i].0 == pairs.last().0;
            assert(pairs[i].0 == pairs[pairs.len() - 1].0);
        }
    }
}

/// A map from header names to values. Each name occurs once.
#[derive(Debug)]
pub struct HeaderMap {
    entries: Vec<(String, String)>,
}

impl View for HeaderMap {
    type V = Map<Seq<char>, Seq<char>>;

    closed spec fn view(&self) -> Map<Seq<char>, Seq<char>> {
        fold_pairs(self.entries.deep_view())
    }
}

impl HeaderMap {
    #[verifier::type_invariant]
    spec fn names_occur_once(self) -> bool {
        distinct_names(self.entries.deep_view())
    }

    /// A map without entries.
    pub fn new() -> (map: HeaderMap)
        ensures
            map@ == Map::<Seq<char>, Seq<char>>::empty(),
    {
        let entries: Vec<(String, String)> = Vec::new();
        assert(entries.deep_view() =~= Seq::empty());
        HeaderMap { entries }
    }

    /// Where among the entries `name` stands, if it does.
    fn position(&self, name: &str) -> (found: Option<usize>)
        ensures
            match found {
                Some(i) => i < self.entries.len() && self.entries.deep_view()[i as int].0 == name@,
                None => !has_name(self.entries.deep_view(), name@),
            },
    {
        let n: usize = self.entries.len();
        let mut i: usize = 0;
        while i < n
            invariant
                i <= n,
                n == self.entries.len(),
                forall|j: int| 0 <= j < i ==> self.entries.deep_view()[j].0 != name@,
            decreases n - i,
        {
            if str_eq(self.entries[i].0.as_str(), name) {
                return Some(i);
            }
            i += 1;
        }
        None
    }

    /// The value that `name` is mapped to, if any.
    pub fn get(&self, name: &str) -> (value: Option<&String>)
        ensures
            match value {
                Some(v) => self@.contains_key(name@) && v@ == self@[name@],
                None => !self@.contains_key(name@),
            },
    {
        proof {
            use_type_invariant(self);
            lemma_fold_pairs_names(self.entries.deep_view());
        }
        match self.position(name) {
            Some(i) => {
                proof {
                    lemma_fold_pairs_value(self.entries.deep_view(), i as int);
                }
                Some(&self.entries[i].1)
            },
            None => None,
        }
    }

    /// The entry of `name`, if there is one: the stored name and its value.
    pub fn get_key_value(&self, name: &str) -> (entry: Option<(&String, &String)>)
        ensures
            match entry {
                Some((k, v)) => self@.contains_key(name@) && k@ == name@ && v@ == self@[name@],
                None => !self@.contains_key(name@),
            },
    {
        proof {
            use_type_invariant(self);
            lemma_fold_pairs_names(self.entries.deep_view());
        }
        match self.position(name) {
            Some(i) => {
                proof {
                    lemma_fold_pairs_value(self.entries.deep_view(), i as int);
                }
                Some((&self.entries[i].0, &self.entries[i].1))
            },
            None => None,
        }
    }

    /// Maps `name` to `value`. An entry that `name` had is overwritten,
    /// and its value handed back.
    pub fn insert(&mut self, name: String, value: String) -> (previous: Option<String>)
        ensures
            final(self)@ == old(self)@.insert(name@, value@),
            match previous {
                Some(v) => old(self)@.contains_key(name@) && v@ == old(self)@[name@],
                None => !old(self)@.contains_key(name@),
            },
    {
        proof {
            use_type_invariant(&*self);
            lemma_fold_pairs_names(self.entries.deep_view());
        }
        let ghost before = self.entries.deep_view();
        let found = self.position(name.as_str());
        let mut entries: Vec<(String, String)> = Vec::new();
        assert(entries.deep_view() =~= Seq::empty());
        core::mem::swap(&mut self.entries, &mut entries);
        let previous = match found {
            Some(i) => {
                let mut entry = (name, value);
                core::mem::swap(&mut entries[i], &mut entry);
                proof {
                    assert(entries.deep_view() =~= before.update(i as int, (name@, value@)));
                    lemma_fold_pairs_value(before, i as int);
                    lemma_fold_pairs_update(before, i as int, value@);
                }
                Some(entry.1)
            },
            None => {
                entries.push((name, value));
                proof {
                    let after = entries.deep_view();
                    assert(after =~= before.push((name@, value@)));
                    assert(after.drop_last() =~= before);
                    assert forall|i: int, j: int| 0 <= i < j < after.len() implies after[i].0
                        != after[j].0 by {
                        if j == before.len() {
                            assert(before[i].0 == after[i].0);
                        }
                    }
                }
                None
            },
        };
        core::mem::swap(&mut self.entries, &mut entries);
        previous
    }

    /// How many names the map holds.
    pub fn len(&self) -> (n: usize)
        ensures
            n == self@.len(),
    {
        proof {
            use_type_invariant(self);
            lemma_fold_pairs_len(self.entries.deep_view());
        }
        self.entries.len()
    }

    /// Whether the map holds no name.
    pub fn is_empty(&self) -> (empty: bool)
        ensures
            empty == (self@.len() == 0),
    {
        self.len() == 0
    }

    /// The entries as name/value pairs, each name once. Inserted in their
    /// order into an empty map, the pairs give the map back.
    pub fn into_pairs(self) -> (pairs: Vec<(String, String)>)
        ensures
            fold_pairs(pairs.deep_view()) == self@,
            distinct_names(pairs.deep_view()),
    {
        proof {
            use_type_invariant(&self);
        }
        self.entries
    }

    /// The map that inserting `pairs` in their order into an empty map
    /// gives: of two pairs with one name, the later one stays.
    pub fn from_pairs(pairs: Vec<(String, String)>) -> (map: HeaderMap)
        ensures
            map@ == fold_pairs(pairs.deep_view()),
    {
        let ghost all = pairs.deep_view();
        let ghost given = pairs@;
        let mut map = HeaderMap::new();
        for pair in it: pairs
            invariant
                it.seq() == given,
                all.len() == given.len(),
                forall|i: int| 0 <= i < given.len() ==> all[i] == given[i].deep_view(),
                map@ == fold_pairs(all.take(it.index())),
        {
            let ghost done = it.index();
            assert(all.take(done + 1).drop_last() =~= all.take(done));
            let (name, value) = pair;
            map.insert(name, value);
        }
        assert(all.take(all.len() as int) =~= all);
        map
    }
}

impl Clone for HeaderMap {
    fn clone(&self) -> (map: Self)
        ensures
            map@ == self@,
    {
        proof {
            use_type_invariant(self);
        }
        let n: usize = self.entries.len();
        let mut entries: Vec<(String, String)> = Vec::new();
        let mut i: usize = 0;
        while i < n
            invariant
                i <= n,
                n == self.entries.len(),
                entries.len() == i,
                forall|j: int| 0 <= j < i ==> entries@[j].deep_view() == self.entries@[j].deep_view(),
            decreases n - i,
        {
            entries.push((self.entries[i].0.clone(), self.entries[i].1.clone()));
            i += 1;
        }
        assert(entries.deep_view() =~= self.entries.deep_view());
        HeaderMap { entries }
    }
}

impl Default for HeaderMap {
    /// A map without entries.
    fn default() -> (map: Self)
        ensures
            map@ == Map::<Seq<char>, Seq<char>>::empty(),
    {
        HeaderMap::new()
    }
}

impl PartialEq for HeaderMap {
    /// Two maps are equal where they map the same names to the same values,
    /// in whatever order the entries were made.
    fn eq(&self, other: &Self) -> (same: bool) {
        proof {
            use_type_invariant(self);
            use_type_invariant(other);
            lemma_fold_pairs_names(self.entries.deep_view());
            lemma_fold_pairs_names(other.entries.deep_view());
            lemma_fold_pairs_len(self.entries.deep_view());
            lemma_fold_pairs_len(other.entries.deep_view());
        }
        let n: usize = self.entries.len();
        if n != other.entries.len() {
            return false;
        }
        let mut i: usize = 0;
        while i < n
            invariant
                i <= n,
                n == self.entries.len(),
                distinct_names(self.entries.deep_view()),
                forall|j: int|
                    0 <= j < i ==> {
                        &&& other@.contains_key(#[trigger] self.entries.deep_view()[j].0)
                        &&& other@[self.entries.deep_view()[j].0] == self.entries.deep_view()[j].1
                    },
            decreases n - i,
        {
            proof {
                lemma_fold_pairs_value(self.entries.deep_view(), i as int);
            }
            match other.get(self.entries[i].0.as_str()) {
                Some(value) => {
                    if !str_eq(value.as_str(), self.entries[i].1.as_str()) {
                        return false;
                    }
                },
                None => {
                    return false;
                },
            }
            i += 1;
        }
        proof {
            let pairs = self.entries.deep_view();
            assert forall|name: Seq<char>| self@.contains_key(name) implies other@.contains_key(
                name,
            ) && other@[name] == self@[name] by {
                let j = choose|j: int| 0 <= j < pairs.len() && #[trigger] pairs[j].0 == name;
                lemma_fold_pairs_value(pairs, j);
            }
            assert(self@.dom().subset_of(other@.dom()));
            vstd::set_lib::lemma_subset_equality(self@.dom(), other@.dom());
            assert(self@ =~= other@);
        }
        true
    }
}

impl PartialEqSpecImpl for HeaderMap {
    open spec fn obeys_eq_spec() -> bool {
        true
    }

    open spec fn eq_spec(&self, other: &Self) -> bool {
        self@ == other@
    }
}

impl Eq for HeaderMap {

}

/// A named wrapper around one header map.
#[derive(Debug)]
pub struct Header {
    pub map: HeaderMap,
}

impl View for Header {
    type V = Map<Seq<char>, Seq<char>>;

    open spec fn view(&self) -> Map<Seq<char>, Seq<char>> {
        self.map@
    }
}

impl Header {
    /// The map that the header wraps.
    pub fn get_map(&self) -> (map: &HeaderMap)
        ensures
            map@ == self@,
    {
        &self.map
    }
}

impl From<HeaderMap> for Header {
    fn from(map: HeaderMap) -> (header: Header) {
        Header { map }
    }
}

impl FromSpecImpl<HeaderMap> for Header {
    open spec fn obeys_from_spec() -> bool {
        true
    }

    open spec fn from_spec(map: HeaderMap) -> Header {
        Header { map }
    }
}

impl From<Header> for HeaderMap {
    fn from(header: Header) -> (map: HeaderMap) {
        header.map
    }
}

impl FromSpecImpl<Header> for HeaderMap {
    open spec fn obeys_from_spec() -> bool {
        true
    }

    open spec fn from_spec(header: Header) -> HeaderMap {
        header.map
    }
}

impl Clone for Header {
    fn clone(&self) -> (header: Self)
        ensures
            header@ == self@,
    {
        Header { map: self.map.clone() }
    }
}

impl Default for Header {
    /// A header without entries.
    fn default() -> (header: Self)
        ensures
            header@ == Map::<Seq<char>, Seq<char>>::empty(),
    {
        Header { map: HeaderMap::new() }
    }
}

impl PartialEq for Header {
    fn eq(&self, other: &Self) -> (same: bool) {
        self.map == other.map
    }
}

impl PartialEqSpecImpl for Header {
    open spec fn obeys_eq_spec() -> bool {
        true
    }

    open spec fn eq_spec(&self, other: &Self) -> bool {
        self@ == other@
    }
}

impl Eq for Header {

}

} // verus!
