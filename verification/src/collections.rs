//! Sets of texts and maps keyed by texts, held in vectors with no key twice.

use vstd::prelude::*;
use crate::text::text_eq;

verus! {

/// The texts of a sequence of `String`s.
pub open spec fn texts(v: Seq<String>) -> Seq<Seq<char>> {
    v.map_values(|s: String| s@)
}

/// A finite set of texts.
#[derive(Debug)]
pub struct StringSet {
    items: Vec<String>,
}

impl StringSet {
    #[verifier::type_invariant]
    spec fn no_text_twice(self) -> bool {
        texts(self.items@).no_duplicates()
    }

    /// The texts in the order in which they were first inserted.
    pub closed spec fn ordered(self) -> Seq<Seq<char>> {
        texts(self.items@)
    }


    /// Position of `s` among the items, if it is one of them.
    fn position(&self, s: &str) -> (r: Option<usize>)
        ensures
            match r {
                Some(i) => i < self.items.len() && self.items@[i as int]@ == s@,
                None => !self@.contains(s@),
            },
    {
        let mut i: usize = 0;
        while i < self.items.len()
            invariant
                i <= self.items.len(),
                forall|k: int| 0 <= k < i ==> self.items@[k]@ != s@,
            decreases self.items.len() - i,
        {
            if text_eq(self.items[i].as_str(), s) {
                return Some(i);
            }
            i = i + 1;
        }
        assert(!texts(self.items@).contains(s@));
        None
    }

    pub fn new() -> (r: StringSet)
        ensures
            r@ == Set::<Seq<char>>::empty(),
    {
        let r = StringSet { items: Vec::new() };
        assert(r@ =~= Set::<Seq<char>>::empty());
        r
    }

    /// The set of the texts of `keys`.
    pub fn from_keys(keys: &[String]) -> (r: StringSet)
        ensures
            r@ == texts(keys@).to_set(),
    {
        let mut r = StringSet::new();
        let mut i: usize = 0;
        while i < keys.len()
            invariant
                i <= keys.len(),
                r@ == texts(keys@.take(i as int)).to_set(),
            decreases keys.len() - i,
        {
            r.insert(keys[i].clone());
            assert(texts(keys@.take(i + 1)) =~= texts(keys@.take(i as int)).push(keys@[i as int]@));
            proof {
                texts(keys@.take(i as int)).lemma_push_to_set_commute(keys@[i as int]@);
            }
            i = i + 1;
        }
        assert(keys@.take(keys.len() as int) =~= keys@);
        r
    }

    pub fn contains(&self, s: &str) -> (b: bool)
        ensures
            b == self@.contains(s@),
    {
        match self.position(s) {
            Some(i) => {
                assert(texts(self.items@)[i as int] == s@);
                true
            },
            None => false,
        }
    }

    pub fn insert(&mut self, s: String)
        ensures
            final(self)@ == old(self)@.insert(s@),
    {
        proof {
            use_type_invariant(&*self);
        }
        match self.position(s.as_str()) {
            Some(i) => {
                assert(texts(self.items@)[i as int] == s@);
                assert(self@.insert(s@) =~= self@);
            },
            None => {
                let ghost before = self.items@;
                let mut items: Vec<String> = Vec::new();
                std::mem::swap(&mut items, &mut self.items);
                let ghost text = s@;
                items.push(s);
                proof {
                    assert(texts(items@) =~= texts(before).push(text));
                    lemma_push_keeps_distinct(texts(before), text);
                    texts(before).lemma_push_to_set_commute(text);
                }
                self.items = items;
            },
        }
    }

    pub fn remove(&mut self, s: &str)
        ensures
            final(self)@ == old(self)@.remove(s@),
    {
        proof {
            use_type_invariant(&*self);
        }
        match self.position(s) {
            Some(i) => {
                let ghost before = texts(self.items@);
                let mut items: Vec<String> = Vec::new();
                std::mem::swap(&mut items, &mut self.items);
                items.remove(i);
                proof {
                    assert(texts(items@) =~= before.remove(i as int));
                    lemma_remove_keeps_distinct(before, i as int);
                }
                self.items = items;
                let ghost after = texts(self.items@);
                assert(after =~= before.remove(i as int));
                assert forall|t: Seq<char>| #[trigger] after.contains(t) <==> before.contains(t) && t != s@ by {
                    if after.contains(t) {
                        let k = choose|k: int| 0 <= k < after.len() && after[k] == t;
                        let k2 = if k < i { k } else { k + 1 };
                        assert(before[k2] == t);
                        assert(before[i as int] == s@);
                        assert(k2 != i);
                        assert(before[k2] != before[i as int]);
                    }
                    if before.contains(t) && t != s@ {
                        let k = choose|k: int| 0 <= k < before.len() && before[k] == t;
                        assert(k != i);
                        if k < i {
                            assert(after[k] == t);
                        } else {
                            assert(after[k - 1] == t);
                        }
                    }
                }
                assert(self@ =~= old(self)@.remove(s@));
            },
            None => {
                assert(self@.remove(s@) =~= self@);
            },
        }
    }

    pub fn clear(&mut self)
        ensures
            final(self)@ == Set::<Seq<char>>::empty(),
    {
        self.items = Vec::new();
        assert(self@ =~= Set::<Seq<char>>::empty());
    }

    pub fn len(&self) -> (n: usize)
        ensures
            n == self@.len(),
    {
        proof {
            use_type_invariant(self);
            texts(self.items@).unique_seq_to_set();
        }
        self.items.len()
    }

    pub fn is_empty(&self) -> (b: bool)
        ensures
            b == (self@ == Set::<Seq<char>>::empty()),
    {
        proof {
            if self.items.len() > 0 {
                assert(self@.contains(texts(self.items@)[0]));
            } else {
                assert(self@ =~= Set::<Seq<char>>::empty());
            }
        }
        self.items.len() == 0
    }

    /// The texts, each once, in the order of their first insertion.
    pub fn items(&self) -> (r: &[String])
        ensures
            texts(r@) == self.ordered(),
            self.ordered().no_duplicates(),
            self.ordered().to_set() == self@,
    {
        proof {
            use_type_invariant(self);
        }
        self.items.as_slice()
    }
}

/// Appending an entry that is not there yet leaves nothing twice.
pub proof fn lemma_push_keeps_distinct<T>(s: Seq<T>, x: T)
    requires
        s.no_duplicates(),
        !s.contains(x),
    ensures
        s.push(x).no_duplicates(),
{
    let r = s.push(x);
    assert forall|a: int, b: int| 0 <= a < r.len() && 0 <= b < r.len() && a != b implies r[a]
        != r[b] by {
        if a == s.len() {
            assert(s[b] == r[b]);
        } else if b == s.len() {
            assert(s[a] == r[a]);
        }
    }
}

/// Removing one entry from a sequence with nothing twice leaves nothing twice.
pub proof fn lemma_remove_keeps_distinct<T>(s: Seq<T>, i: int)
    requires
        s.no_duplicates(),
        0 <= i < s.len(),
    ensures
        s.remove(i).no_duplicates(),
{
    let r = s.remove(i);
    assert forall|a: int, b: int| 0 <= a < r.len() && 0 <= b < r.len() && a != b implies r[a]
        != r[b] by {
        let a2 = if a < i { a } else { a + 1 };
        let b2 = if b < i { b } else { b + 1 };
        assert(r[a] == s[a2]);
        assert(r[b] == s[b2]);
    }
}

impl View for StringSet {
    type V = Set<Seq<char>>;

    closed spec fn view(&self) -> Set<Seq<char>> {
        texts(self.items@).to_set()
    }
}

/// The keys of a sequence of entries.
pub open spec fn entry_keys<V>(s: Seq<(String, V)>) -> Seq<Seq<char>> {
    s.map_values(|e: (String, V)| e.0@)
}

/// The map that a sequence of entries describes, a later entry for a key winning.
pub open spec fn map_of<V>(s: Seq<(String, V)>) -> Map<Seq<char>, V>
    decreases s.len(),
{
    if s.len() == 0 {
        Map::empty()
    } else {
        map_of(s.drop_last()).insert(s.last().0@, s.last().1)
    }
}

pub proof fn lemma_map_of_dom<V>(s: Seq<(String, V)>)
    ensures
        map_of(s).dom() == entry_keys(s).to_set(),
    decreases s.len(),
{
    if s.len() > 0 {
        lemma_map_of_dom(s.drop_last());
        assert(entry_keys(s) =~= entry_keys(s.drop_last()).push(s.last().0@));
        entry_keys(s.drop_last()).lemma_push_to_set_commute(s.last().0@);
    } else {
        assert(map_of(s).dom() =~= entry_keys(s).to_set());
    }
}

pub proof fn lemma_map_of_at<V>(s: Seq<(String, V)>, i: int)
    requires
        entry_keys(s).no_duplicates(),
        0 <= i < s.len(),
    ensures
        map_of(s).contains_key(s[i].0@),
        map_of(s)[s[i].0@] == s[i].1,
    decreases s.len(),
{
    if i < s.len() - 1 {
        assert(entry_keys(s.drop_last()) =~= entry_keys(s).drop_last());
        assert(entry_keys(s)[i] != entry_keys(s)[s.len() - 1]);
        lemma_map_of_at(s.drop_last(), i);
    }
}

proof fn lemma_map_of_update<V>(s: Seq<(String, V)>, i: int, e: (String, V))
    requires
        entry_keys(s).no_duplicates(),
        0 <= i < s.len(),
        e.0@ == s[i].0@,
    ensures
        map_of(s.update(i, e)) == map_of(s).insert(e.0@, e.1),
    decreases s.len(),
{
    let t = s.update(i, e);
    if i == s.len() - 1 {
        assert(t.drop_last() =~= s.drop_last());
        assert(map_of(t) =~= map_of(s).insert(e.0@, e.1));
    } else {
        assert(t.drop_last() =~= s.drop_last().update(i, e));
        assert(entry_keys(s.drop_last()) =~= entry_keys(s).drop_last());
        assert(entry_keys(s)[i] != entry_keys(s)[s.len() - 1]);
        lemma_map_of_update(s.drop_last(), i, e);
        assert(map_of(t) =~= map_of(s).insert(e.0@, e.1));
    }
}

/// A finite map from texts to values.
#[derive(Debug)]
pub struct TextMap<V> {
    entries: Vec<(String, V)>,
}

impl<V> TextMap<V> {
    #[verifier::type_invariant]
    spec fn no_key_twice(self) -> bool {
        entry_keys(self.entries@).no_duplicates()
    }

    /// The keys in the order in which they were first inserted.
    pub closed spec fn ordered_keys(self) -> Seq<Seq<char>> {
        entry_keys(self.entries@)
    }

    /// The keys, each once, are those of the map.
    pub fn key_facts(&self)
        ensures
            self.ordered_keys().no_duplicates(),
            self.ordered_keys().to_set() == self@.dom(),
    {
        proof {
            use_type_invariant(self);
            lemma_map_of_dom(self.entries@);
        }
    }

    fn position(&self, key: &str) -> (r: Option<usize>)
        ensures
            match r {
                Some(i) => i < self.entries.len() && self.entries@[i as int].0@ == key@,
                None => !self@.contains_key(key@),
            },
    {
        let mut i: usize = 0;
        while i < self.entries.len()
            invariant
                i <= self.entries.len(),
                forall|k: int| 0 <= k < i ==> self.entries@[k].0@ != key@,
            decreases self.entries.len() - i,
        {
            if text_eq(self.entries[i].0.as_str(), key) {
                return Some(i);
            }
            i = i + 1;
        }
        proof {
            lemma_map_of_dom(self.entries@);
            assert(!entry_keys(self.entries@).contains(key@));
        }
        None
    }

    pub fn new() -> (r: TextMap<V>)
        ensures
            r@ == Map::<Seq<char>, V>::empty(),
            r.ordered_keys() == Seq::<Seq<char>>::empty(),
    {
        let r = TextMap { entries: Vec::new() };
        assert(r.ordered_keys() =~= Seq::<Seq<char>>::empty());
        r
    }

    pub fn get(&self, key: &str) -> (r: Option<&V>)
        ensures
            match r {
                Some(v) => self@.contains_key(key@) && *v == self@[key@],
                None => !self@.contains_key(key@),
            },
    {
        proof {
            use_type_invariant(self);
        }
        match self.position(key) {
            Some(i) => {
                proof {
                    lemma_map_of_at(self.entries@, i as int);
                }
                Some(&self.entries[i].1)
            },
            None => None,
        }
    }

    pub fn insert(&mut self, key: String, value: V)
        ensures
            final(self)@ == old(self)@.insert(key@, value),
            final(self).ordered_keys() == if old(self)@.contains_key(key@) {
                old(self).ordered_keys()
            } else {
                old(self).ordered_keys().push(key@)
            },
    {
        proof {
            use_type_invariant(&*self);
            lemma_map_of_dom(self.entries@);
        }
        let ghost before = self.entries@;
        let ghost k = key@;
        let pos = self.position(key.as_str());
        let mut entries: Vec<(String, V)> = Vec::new();
        std::mem::swap(&mut entries, &mut self.entries);
        match pos {
            Some(i) => {
                let ghost e = (key, value);
                entries.set(i, (key, value));
                proof {
                    assert(entries@ == before.update(i as int, e));
                    assert(entry_keys(entries@) =~= entry_keys(before));
                    assert(entry_keys(before)[i as int] == k);
                    lemma_map_of_update(before, i as int, e);
                }
            },
            None => {
                let ghost e = (key, value);
                entries.push((key, value));
                proof {
                    assert(entries@.drop_last() =~= before);
                    assert(entries@.last() == e);
                    lemma_map_of_dom(before);
                    assert(entry_keys(entries@) =~= entry_keys(before).push(k));
                    lemma_push_keeps_distinct(entry_keys(before), k);
                }
            },
        }
        self.entries = entries;
    }

    pub fn len(&self) -> (n: usize)
        ensures
            n == self@.len(),
    {
        proof {
            use_type_invariant(self);
            lemma_map_of_dom(self.entries@);
            entry_keys(self.entries@).unique_seq_to_set();
        }
        self.entries.len()
    }

    pub fn is_empty(&self) -> (b: bool)
        ensures
            b == (self@ == Map::<Seq<char>, V>::empty()),
    {
        proof {
            lemma_map_of_dom(self.entries@);
            if self.entries.len() > 0 {
                assert(entry_keys(self.entries@).contains(entry_keys(self.entries@)[0]));
                assert(self@.contains_key(entry_keys(self.entries@)[0]));
            } else {
                assert(self@ =~= Map::<Seq<char>, V>::empty());
            }
        }
        self.entries.len() == 0
    }

    /// The entries, one for each key, in the order of first insertion.
    pub fn entries(&self) -> (r: &[(String, V)])
        ensures
            map_of(r@) == self@,
            entry_keys(r@) == self.ordered_keys(),
            self.ordered_keys().no_duplicates(),
    {
        proof {
            use_type_invariant(self);
        }
        self.entries.as_slice()
    }
}

impl<V> View for TextMap<V> {
    type V = Map<Seq<char>, V>;

    closed spec fn view(&self) -> Map<Seq<char>, V> {
        map_of(self.entries@)
    }
}

} // verus!
