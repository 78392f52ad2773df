//! A map keyed by text whose entries are kept in ascending key order, the
//! order in which presets, devices and applications are listed. Keys compare
//! character by character by code point, which is the byte order of their
//! UTF-8 form.
use vstd::prelude::*;

use crate::text::{chars_equal, chars_of};

verus! {

/// Strict lexicographic order of texts by code point.
pub open spec fn text_less(a: Seq<char>, b: Seq<char>) -> bool
    decreases a.len(),
{
    if b.len() == 0 {
        false
    } else if a.len() == 0 {
        true
    } else if a[0] != b[0] {
        (a[0] as u32) < (b[0] as u32)
    } else {
        text_less(a.drop_first(), b.drop_first())
    }
}

/// No text is less than itself.
pub proof fn lemma_text_less_irreflexive(a: Seq<char>)
    ensures
        !text_less(a, a),
    decreases a.len(),
{
    if a.len() > 0 {
        lemma_text_less_irreflexive(a.drop_first());
    }
}

/// Two different texts are ordered one way or the other, never both.
pub proof fn lemma_text_less_total(a: Seq<char>, b: Seq<char>)
    ensures
        a != b ==> (text_less(a, b) || text_less(b, a)),
        !(text_less(a, b) && text_less(b, a)),
    decreases a.len(),
{
    if a.len() > 0 && b.len() > 0 {
        lemma_text_less_total(a.drop_first(), b.drop_first());
        if a[0] == b[0] && a != b {
            assert(a.drop_first() != b.drop_first()) by {
                if a.drop_first() == b.drop_first() {
                    assert(a =~= seq![a[0]] + a.drop_first());
                    assert(b =~= seq![b[0]] + b.drop_first());
                }
            }
        }
        vstd::utf8::char_u32_cast(a[0], a[0] as u32);
        vstd::utf8::char_u32_cast(b[0], b[0] as u32);
    } else if a.len() == 0 && b.len() == 0 {
        assert(a =~= b);
    }
}

/// The order is transitive.
pub proof fn lemma_text_less_transitive(a: Seq<char>, b: Seq<char>, c: Seq<char>)
    requires
        text_less(a, b),
        text_less(b, c),
    ensures
        text_less(a, c),
    decreases a.len(),
{
    if a.len() > 0 && b.len() > 0 && c.len() > 0 {
        if a[0] == b[0] && b[0] == c[0] {
            lemma_text_less_transitive(a.drop_first(), b.drop_first(), c.drop_first());
        }
    }
}

/// Executable comparison of two texts given as characters.
pub fn chars_less(a: &[char], b: &[char]) -> (r: bool)
    ensures
        r == text_less(a@, b@),
{
    let mut i: usize = 0;
    assert(a@.skip(0) =~= a@);
    assert(b@.skip(0) =~= b@);
    while i < a.len() && i < b.len() && a[i] == b[i]
        invariant
            i <= a@.len(),
            i <= b@.len(),
            text_less(a@, b@) == text_less(a@.skip(i as int), b@.skip(i as int)),
        decreases a@.len() - i,
    {
        proof {
            let sa = a@.skip(i as int);
            let sb = b@.skip(i as int);
            assert(sa.drop_first() =~= a@.skip(i + 1));
            assert(sb.drop_first() =~= b@.skip(i + 1));
        }
        i += 1;
    }
    proof {
        assert(a@.skip(i as int).len() == a@.len() - i);
        assert(b@.skip(i as int).len() == b@.len() - i);
        if i < a@.len() && i < b@.len() {
            assert(a@.skip(i as int)[0] == a@[i as int]);
            assert(b@.skip(i as int)[0] == b@[i as int]);
        }
    }
    if i == b.len() {
        false
    } else if i == a.len() {
        true
    } else {
        (a[i] as u32) < (b[i] as u32)
    }
}

/// A map from text keys to values, with entries in ascending key order.
#[derive(Debug)]
pub struct StrMap<V> {
    pub entries: Vec<(String, V)>,
}

impl<V> StrMap<V> {
    /// The keys, in the order of the entries.
    pub open spec fn key_list(&self) -> Seq<Seq<char>> {
        self.entries@.map_values(|e: (String, V)| e.0@)
    }

    /// The entries are in strictly ascending key order (so keys are unique).
    pub open spec fn wf(&self) -> bool {
        forall|i: int, j: int|
            0 <= i < j < self.entries@.len() ==> text_less(
                #[trigger] self.entries@[i].0@,
                #[trigger] self.entries@[j].0@,
            )
    }

    /// The position of a key.
    pub open spec fn index_of(&self, key: Seq<char>) -> Option<int> {
        if exists|i: int| 0 <= i < self.entries@.len() && #[trigger] self.entries@[i].0@ == key {
            Some(choose|i: int| 0 <= i < self.entries@.len() && #[trigger] self.entries@[i].0@ == key)
        } else {
            None
        }
    }

    /// The key has an entry.
    pub open spec fn has(&self, key: Seq<char>) -> bool {
        self.index_of(key) is Some
    }

    /// The value stored under a key (meaningful when `has(key)`).
    pub open spec fn value(&self, key: Seq<char>) -> V {
        self.entries@[self.index_of(key)->0].1
    }

    /// The first key in order, if any.
    pub open spec fn first_key(&self) -> Option<Seq<char>> {
        if self.entries@.len() > 0 {
            Some(self.entries@[0].0@)
        } else {
            None
        }
    }

    /// Number of entries.
    pub open spec fn size(&self) -> nat {
        self.entries@.len()
    }

    /// An empty map.
    pub fn new() -> (res: Self)
        ensures
            res.wf(),
            res.size() == 0,
            forall|k: Seq<char>| !res.has(k),
    {
        StrMap { entries: Vec::new() }
    }

    /// Number of entries.
    pub fn len(&self) -> (res: usize)
        ensures
            res == self.size(),
    {
        self.entries.len()
    }

    /// In a well-formed map the key at position `i` has index `i`.
    pub proof fn lemma_index_of(&self, i: int)
        requires
            self.wf(),
            0 <= i < self.entries@.len(),
        ensures
            self.index_of(self.entries@[i].0@) == Some(i),
    {
        let k = self.entries@[i].0@;
        assert(self.entries@[i].0@ == k);
        let j = choose|j: int| 0 <= j < self.entries@.len() && #[trigger] self.entries@[j].0@ == k;
        lemma_text_less_irreflexive(k);
        if j < i {
            assert(text_less(self.entries@[j].0@, self.entries@[i].0@));
        } else if i < j {
            assert(text_less(self.entries@[i].0@, self.entries@[j].0@));
        }
    }

    /// In a well-formed map, the listed keys are exactly the keys with an
    /// entry.
    pub proof fn lemma_key_list(&self, k: Seq<char>)
        requires
            self.wf(),
        ensures
            self.key_list().contains(k) == self.has(k),
    {
        if self.has(k) {
            let i = self.index_of(k)->0;
            assert(self.entries@[i].0@ == k);
            assert(self.key_list()[i] == k);
        }
        if self.key_list().contains(k) {
            let i = choose|i: int| 0 <= i < self.key_list().len() && self.key_list()[i] == k;
            assert(self.entries@[i].0@ == k);
        }
    }

    /// Position of a key.
    pub fn find(&self, key: &str) -> (res: Option<usize>)
        requires
            self.wf(),
        ensures
            match res {
                Some(i) => self.index_of(key@) == Some(i as int) && i < self.entries@.len(),
                None => self.index_of(key@) is None,
            },
    {
        let wanted = chars_of(key);
        let mut i: usize = 0;
        while i < self.entries.len()
            invariant
                self.wf(),
                i <= self.entries@.len(),
                wanted@ == key@,
                forall|j: int| 0 <= j < i ==> (#[trigger] self.entries@[j]).0@ != key@,
            decreases self.entries@.len() - i,
        {
            if chars_equal(chars_of(self.entries[i].0.as_str()).as_slice(), wanted.as_slice()) {
                proof {
                    self.lemma_index_of(i as int);
                }
                return Some(i);
            }
            i += 1;
        }
        None
    }

    /// Whether the key has an entry.
    pub fn contains_key(&self, key: &str) -> (res: bool)
        requires
            self.wf(),
        ensures
            res == self.has(key@),
    {
        self.find(key).is_some()
    }

    /// The value stored under a key.
    pub fn get(&self, key: &str) -> (res: Option<&V>)
        requires
            self.wf(),
        ensures
            match res {
                Some(v) => self.has(key@) && *v == self.value(key@),
                None => !self.has(key@),
            },
    {
        match self.find(key) {
            Some(i) => Some(&self.entries[i].1),
            None => None,
        }
    }

    /// The first key, in order.
    pub fn first(&self) -> (res: Option<&String>)
        ensures
            match res {
                Some(k) => self.first_key() == Some(k@),
                None => self.first_key() is None,
            },
    {
        if self.entries.len() > 0 {
            Some(&self.entries[0].0)
        } else {
            None
        }
    }

    /// The keys, in ascending order.
    pub fn keys(&self) -> (res: Vec<String>)
        ensures
            res@.map_values(|s: String| s@) == self.key_list(),
    {
        let mut out: Vec<String> = Vec::new();
        let mut i: usize = 0;
        while i < self.entries.len()
            invariant
                i <= self.entries@.len(),
                out@.map_values(|s: String| s@) =~= self.key_list().take(i as int),
            decreases self.entries@.len() - i,
        {
            out.push(self.entries[i].0.clone());
            proof {
                assert(self.key_list().take(i + 1) =~= self.key_list().take(i as int).push(
                    self.entries@[i as int].0@,
                ));
            }
            i += 1;
        }
        assert(self.key_list().take(self.entries@.len() as int) =~= self.key_list());
        out
    }

    /// Stores `value` under `key`, replacing the value already there.
    pub fn insert(&mut self, key: String, value: V)
        requires
            old(self).wf(),
        ensures
            final(self).wf(),
            final(self).has(key@),
            final(self).value(key@) == value,
            forall|k: Seq<char>| k != key@ ==> #[trigger] final(self).has(k) == old(self).has(k),
            forall|k: Seq<char>|
                k != key@ && old(self).has(k) ==> #[trigger] final(self).value(k) == old(self).value(k),
            final(self).size() == if old(self).has(key@) {
                old(self).size()
            } else {
                old(self).size() + 1
            },
    {
        let ghost old_entries = self.entries@;
        let wanted = chars_of(key.as_str());
        let mut p: usize = 0;
        while p < self.entries.len() && chars_less(
            chars_of(self.entries[p].0.as_str()).as_slice(),
            wanted.as_slice(),
        )
            invariant
                p <= self.entries@.len(),
                wanted@ == key@,
                self.entries@ == old_entries,
                forall|j: int| 0 <= j < p ==> text_less((#[trigger] old_entries[j]).0@, key@),
            decreases self.entries@.len() - p,
        {
            p += 1;
        }
        let replace = p < self.entries.len() && chars_equal(
            chars_of(self.entries[p].0.as_str()).as_slice(),
            wanted.as_slice(),
        );
        proof {
            // Keys after position p are greater than the new key.
            if p < old_entries.len() {
                lemma_text_less_total(old_entries[p as int].0@, key@);
            }
            assert forall|j: int| p < j < old_entries.len() implies text_less(
                key@,
                (#[trigger] old_entries[j]).0@,
            ) by {
                if old_entries[p as int].0@ == key@ {
                } else {
                    lemma_text_less_transitive(key@, old_entries[p as int].0@, old_entries[j].0@);
                }
            }
            assert forall|j: int| 0 <= j < p implies (#[trigger] old_entries[j]).0@ != key@ by {
                lemma_text_less_irreflexive(key@);
            }
        }
        if replace {
            let _ = self.entries.remove(p);
            self.entries.insert(p, (key, value));
            proof {
                old_entries.remove_ensures(p as int);
                old_entries.remove(p as int).insert_ensures(p as int, self.entries@[p as int]);
                assert(self.entries@ =~= old_entries.update(p as int, self.entries@[p as int]));
                assert forall|i: int, j: int|
                    0 <= i < j < self.entries@.len() implies text_less(
                    #[trigger] self.entries@[i].0@,
                    #[trigger] self.entries@[j].0@,
                ) by {
                    if i == p {
                        assert(self.entries@[j] == old_entries[j]);
                    } else if j == p {
                        assert(self.entries@[i] == old_entries[i]);
                    } else {
                        assert(self.entries@[i] == old_entries[i]);
                        assert(self.entries@[j] == old_entries[j]);
                    }
                }
                self.lemma_index_of(p as int);
                StrMap::lemma_insert_frame(old(self), self, p as int, false);
                if old(self).has(key@) {
                } else {
                    assert(old_entries[p as int].0@ == key@);
                    old(self).lemma_index_of(p as int);
                }
            }
        } else {
            self.entries.insert(p, (key, value));
            proof {
                old_entries.insert_ensures(p as int, self.entries@[p as int]);
                assert forall|i: int, j: int|
                    0 <= i < j < self.entries@.len() implies text_less(
                    #[trigger] self.entries@[i].0@,
                    #[trigger] self.entries@[j].0@,
                ) by {
                    if i < p && j < p {
                        assert(self.entries@[i] == old_entries[i]);
                        assert(self.entries@[j] == old_entries[j]);
                    } else if i < p && j == p {
                        assert(self.entries@[i] == old_entries[i]);
                    } else if i < p {
                        assert(self.entries@[i] == old_entries[i]);
                        assert(self.entries@[j] == old_entries[j - 1]);
                        lemma_text_less_transitive(old_entries[i].0@, key@, old_entries[j - 1].0@);
                    } else if i == p {
                        assert(self.entries@[j] == old_entries[j - 1]);
                    } else {
                        assert(self.entries@[i] == old_entries[i - 1]);
                        assert(self.entries@[j] == old_entries[j - 1]);
                    }
                }
                self.lemma_index_of(p as int);
                assert(!old(self).has(key@)) by {
                    if old(self).has(key@) {
                        let q = old(self).index_of(key@)->0;
                        assert(old_entries[q].0@ == key@);
                        if q > p {
                            lemma_text_less_irreflexive(key@);
                        }
                    }
                }
                StrMap::lemma_insert_frame(old(self), self, p as int, true);
            }
        }
    }


    /// Removes the entry of a key, returning its value.
    pub fn remove(&mut self, key: &str) -> (res: Option<V>)
        requires
            old(self).wf(),
        ensures
            final(self).wf(),
            !final(self).has(key@),
            match res {
                Some(v) => old(self).has(key@) && v == old(self).value(key@) && final(self).size()
                    == old(self).size() - 1,
                None => !old(self).has(key@) && final(self).size() == old(self).size(),
            },
            forall|k: Seq<char>| k != key@ ==> #[trigger] final(self).has(k) == old(self).has(k),
            forall|k: Seq<char>|
                k != key@ && old(self).has(k) ==> #[trigger] final(self).value(k) == old(self).value(k),
    {
        match self.find(key) {
            None => None,
            Some(p) => {
                let ghost oe = self.entries@;
                let (_, v) = self.entries.remove(p);
                proof {
                    oe.remove_ensures(p as int);
                    old(self).lemma_index_of(p as int);
                    StrMap::lemma_remove_frame(old(self), self, p as int);
                }
                Some(v)
            },
        }
    }

    /// Removing the entry at `p` keeps the order, drops exactly its key, and
    /// leaves every other key with its value.
    proof fn lemma_remove_frame(old_map: &StrMap<V>, new_map: &StrMap<V>, p: int)
        requires
            old_map.wf(),
            0 <= p < old_map.entries@.len(),
            new_map.entries@ == old_map.entries@.remove(p),
        ensures
            new_map.wf(),
            !new_map.has(old_map.entries@[p].0@),
            forall|k: Seq<char>| k != old_map.entries@[p].0@ ==> #[trigger] new_map.has(k) == old_map.has(k),
            forall|k: Seq<char>|
                k != old_map.entries@[p].0@ && old_map.has(k) ==> #[trigger] new_map.value(k)
                    == old_map.value(k),
    {
        let key = old_map.entries@[p].0@;
        let oe = old_map.entries@;
        let ne = new_map.entries@;
        oe.remove_ensures(p);
        assert forall|i: int, j: int| 0 <= i < j < ne.len() implies text_less(
            #[trigger] ne[i].0@,
            #[trigger] ne[j].0@,
        ) by {
            let i2 = if i < p { i } else { i + 1 };
            let j2 = if j < p { j } else { j + 1 };
            assert(ne[i] == oe[i2]);
            assert(ne[j] == oe[j2]);
        }
        assert forall|k: Seq<char>| k != key implies #[trigger] new_map.has(k) == old_map.has(k) by {
            Self::lemma_remove_frame_at(old_map, new_map, p, k);
        }
        assert forall|k: Seq<char>| k != key && old_map.has(k) implies #[trigger] new_map.value(k)
            == old_map.value(k) by {
            Self::lemma_remove_frame_at(old_map, new_map, p, k);
        }
        if new_map.has(key) {
            let i = new_map.index_of(key)->0;
            let i2 = if i < p { i } else { i + 1 };
            assert(ne[i] == oe[i2]);
            old_map.lemma_index_of(i2);
            old_map.lemma_index_of(p);
        }
    }

    proof fn lemma_remove_frame_at(old_map: &StrMap<V>, new_map: &StrMap<V>, p: int, k: Seq<char>)
        requires
            old_map.wf(),
            new_map.wf(),
            0 <= p < old_map.entries@.len(),
            new_map.entries@ == old_map.entries@.remove(p),
            k != old_map.entries@[p].0@,
        ensures
            new_map.has(k) == old_map.has(k),
            old_map.has(k) ==> new_map.value(k) == old_map.value(k),
    {
        let oe = old_map.entries@;
        let ne = new_map.entries@;
        oe.remove_ensures(p);
        if old_map.has(k) {
            let q = old_map.index_of(k)->0;
            assert(oe[q].0@ == k);
            let q2 = if q < p { q } else { q - 1 };
            assert(ne[q2] == oe[q]);
            new_map.lemma_index_of(q2);
            old_map.lemma_index_of(q);
        } else if new_map.has(k) {
            let i = new_map.index_of(k)->0;
            let i2 = if i < p { i } else { i + 1 };
            assert(ne[i] == oe[i2]);
            assert(oe[i2].0@ == k);
        }
    }

    /// Other keys keep their presence and values when the entry at `p` is
    /// replaced (`shifted == false`) or a new entry is inserted at `p`.
    proof fn lemma_insert_frame(old_map: &StrMap<V>, new_map: &StrMap<V>, p: int, shifted: bool)
        requires
            old_map.wf(),
            new_map.wf(),
            0 <= p <= old_map.entries@.len(),
            p < new_map.entries@.len(),
            shifted ==> new_map.entries@ == old_map.entries@.insert(p, new_map.entries@[p]),
            !shifted ==> p < old_map.entries@.len() && new_map.entries@ == old_map.entries@.update(
                p,
                new_map.entries@[p],
            ),
            !shifted ==> old_map.entries@[p].0@ == new_map.entries@[p].0@,
        ensures
            forall|k: Seq<char>| k != new_map.entries@[p].0@ ==> #[trigger] new_map.has(k) == old_map.has(k),
            forall|k: Seq<char>|
                k != new_map.entries@[p].0@ && old_map.has(k) ==> #[trigger] new_map.value(k)
                    == old_map.value(k),
    {
        let key = new_map.entries@[p].0@;
        assert forall|k: Seq<char>| k != key implies #[trigger] new_map.has(k) == old_map.has(k) by {
            Self::lemma_insert_frame_at(old_map, new_map, p, shifted, k);
        }
        assert forall|k: Seq<char>| k != key && old_map.has(k) implies #[trigger] new_map.value(k)
            == old_map.value(k) by {
            Self::lemma_insert_frame_at(old_map, new_map, p, shifted, k);
        }
    }

    proof fn lemma_insert_frame_at(old_map: &StrMap<V>, new_map: &StrMap<V>, p: int, shifted: bool, k: Seq<char>)
        requires
            old_map.wf(),
            new_map.wf(),
            0 <= p <= old_map.entries@.len(),
            p < new_map.entries@.len(),
            shifted ==> new_map.entries@ == old_map.entries@.insert(p, new_map.entries@[p]),
            !shifted ==> p < old_map.entries@.len() && new_map.entries@ == old_map.entries@.update(
                p,
                new_map.entries@[p],
            ),
            !shifted ==> old_map.entries@[p].0@ == new_map.entries@[p].0@,
            k != new_map.entries@[p].0@,
        ensures
            new_map.has(k) == old_map.has(k),
            old_map.has(k) ==> new_map.value(k) == old_map.value(k),
    {
        let oe = old_map.entries@;
        let ne = new_map.entries@;
        if shifted {
            oe.insert_ensures(p, ne[p]);
        }
        if old_map.has(k) {
            let q = old_map.index_of(k)->0;
            assert(oe[q].0@ == k);
            assert(!shifted ==> q != p);
            let q2 = if shifted && q >= p {
                q + 1
            } else {
                q
            };
            assert(ne[q2] == oe[q]);
            new_map.lemma_index_of(q2);
            old_map.lemma_index_of(q);
        } else {
            if new_map.has(k) {
                let i = new_map.index_of(k)->0;
                assert(ne[i].0@ == k);
                if i != p {
                    let i2 = if shifted && i > p {
                        i - 1
                    } else {
                        i
                    };
                    assert(ne[i] == oe[i2]);
                    assert(oe[i2].0@ == k);
                }
            }
        }
    }
}

} // verus!
