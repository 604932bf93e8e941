use crate::text::chars_of;
use vstd::prelude::*;

verus! {

/// The order of `String`: lexicographic by characters (as by UTF-8 bytes), a proper
/// prefix coming first.
pub open spec fn text_less(a: Seq<char>, b: Seq<char>) -> bool
    decreases a.len(),
{
    if a.len() == 0 {
        b.len() > 0
    } else if b.len() == 0 {
        false
    } else if a[0] != b[0] {
        (a[0] as int) < (b[0] as int)
    } else {
        text_less(a.drop_first(), b.drop_first())
    }
}

/// No text comes before itself.
pub proof fn lemma_text_less_irreflexive(a: Seq<char>)
    ensures
        !text_less(a, a),
    decreases a.len(),
{
    if a.len() > 0 {
        lemma_text_less_irreflexive(a.drop_first());
    }
}

/// Of two different texts exactly one comes first.
pub proof fn lemma_text_less_total(a: Seq<char>, b: Seq<char>)
    ensures
        a != b ==> text_less(a, b) || text_less(b, a),
        !(text_less(a, b) && text_less(b, a)),
    decreases a.len(),
{
    if a.len() > 0 && b.len() > 0 && a[0] == b[0] {
        lemma_text_less_total(a.drop_first(), b.drop_first());
        if a.drop_first() == b.drop_first() {
            assert(a =~= seq![a[0]] + a.drop_first());
            assert(b =~= seq![b[0]] + b.drop_first());
        }
    } else if a.len() == 0 && b.len() == 0 {
        assert(a =~= b);
    }
}

/// The order of texts is transitive.
pub proof fn lemma_text_less_transitive(a: Seq<char>, b: Seq<char>, c: Seq<char>)
    requires
        text_less(a, b),
        text_less(b, c),
    ensures
        text_less(a, c),
    decreases a.len(),
{
    if a.len() > 0 && b.len() > 0 && c.len() > 0 && a[0] == b[0] && b[0] == c[0] {
        lemma_text_less_transitive(a.drop_first(), b.drop_first(), c.drop_first());
    }
}

/// Compares two texts in the order of `String`.
pub fn chars_less(a: &Vec<char>, b: &Vec<char>) -> (r: bool)
    ensures
        r == text_less(a@, b@),
{
    let mut i: usize = 0;
    proof {
        assert(a@.skip(0) =~= a@);
        assert(b@.skip(0) =~= b@);
    }
    while i < a.len() && i < b.len() && a[i] == b[i]
        invariant
            i <= a.len(),
            i <= b.len(),
            text_less(a@, b@) == text_less(a@.skip(i as int), b@.skip(i as int)),
        decreases a.len() - i,
    {
        proof {
            assert(a@.skip(i as int).drop_first() =~= a@.skip(i + 1));
            assert(b@.skip(i as int).drop_first() =~= b@.skip(i + 1));
        }
        i = i + 1;
    }
    if i == a.len() {
        i < b.len()
    } else if i == b.len() {
        false
    } else {
        a[i] < b[i]
    }
}

/// Whether two texts are the same characters.
pub fn chars_equal(a: &Vec<char>, b: &Vec<char>) -> (r: bool)
    ensures
        r == (a@ == b@),
{
    if a.len() != b.len() {
        proof {
            assert(a@.len() != b@.len());
        }
        return false;
    }
    let mut i: usize = 0;
    while i < a.len()
        invariant
            i <= a.len() == b.len(),
            forall|j: int| 0 <= j < i ==> a@[j] == b@[j],
        decreases a.len() - i,
    {
        if a[i] != b[i] {
            return false;
        }
        i = i + 1;
    }
    proof {
        assert(a@ =~= b@);
    }
    true
}

/// The map that a list of entries with distinct keys stands for.
pub open spec fn map_of<W>(s: Seq<(Seq<char>, W)>) -> Map<Seq<char>, W>
    decreases s.len(),
{
    if s.len() == 0 {
        Map::empty()
    } else {
        map_of(s.drop_last()).insert(s.last().0, s.last().1)
    }
}

/// Whether the keys of `s` are in strictly increasing order (so no key occurs twice).
pub open spec fn keys_increasing<W>(s: Seq<(Seq<char>, W)>) -> bool {
    forall|i: int, j: int| 0 <= i < j < s.len() ==> text_less(#[trigger] s[i].0, #[trigger] s[j].0)
}

/// Where the keys increase, entries at different positions have different keys.
pub proof fn lemma_keys_distinct<W>(s: Seq<(Seq<char>, W)>, i: int, j: int)
    requires
        keys_increasing(s),
        0 <= i < s.len(),
        0 <= j < s.len(),
        i != j,
    ensures
        s[i].0 != s[j].0,
{
    if i < j {
        lemma_text_less_irreflexive(s[i].0);
    } else {
        lemma_text_less_irreflexive(s[j].0);
    }
}

/// Each entry of a list with increasing keys is in its map, and the map has no other key.
pub proof fn lemma_map_of<W>(s: Seq<(Seq<char>, W)>)
    requires
        keys_increasing(s),
    ensures
        forall|i: int|
            0 <= i < s.len() ==> #[trigger] map_of(s).dom().contains(s[i].0) && map_of(s)[s[i].0]
                == s[i].1,
        forall|k: Seq<char>|
            #[trigger] map_of(s).dom().contains(k) ==> exists|i: int|
                0 <= i < s.len() && s[i].0 == k,
        map_of(s).dom().finite(),
    decreases s.len(),
{
    if s.len() > 0 {
        let t = s.drop_last();
        assert(keys_increasing(t)) by {
            assert forall|i: int, j: int| 0 <= i < j < t.len() implies text_less(
                #[trigger] t[i].0,
                #[trigger] t[j].0,
            ) by {
                assert(t[i] == s[i] && t[j] == s[j]);
            }
        }
        lemma_map_of(t);
        assert forall|i: int| 0 <= i < s.len() implies #[trigger] map_of(s).dom().contains(s[i].0)
            && map_of(s)[s[i].0] == s[i].1 by {
            if i < s.len() - 1 {
                assert(t[i] == s[i]);
                lemma_keys_distinct(s, i, s.len() - 1);
            }
        }
        assert forall|k: Seq<char>| #[trigger] map_of(s).dom().contains(k) implies exists|i: int|
            0 <= i < s.len() && s[i].0 == k by {
            if k != s.last().0 {
                assert(map_of(t).dom().contains(k));
                let i = choose|i: int| 0 <= i < t.len() && t[i].0 == k;
                assert(s[i] == t[i]);
            } else {
                assert(s[s.len() - 1].0 == k);
            }
        }
    }
}

/// Inserting a new key anywhere in the list inserts it in the map.
pub proof fn lemma_map_of_insert<W>(s: Seq<(Seq<char>, W)>, p: int, e: (Seq<char>, W))
    requires
        0 <= p <= s.len(),
        forall|i: int| 0 <= i < s.len() ==> #[trigger] s[i].0 != e.0,
    ensures
        map_of(s.insert(p, e)) == map_of(s).insert(e.0, e.1),
    decreases s.len(),
{
    if p == s.len() {
        assert(s.insert(p, e).drop_last() =~= s);
    } else {
        let t = s.drop_last();
        assert forall|i: int| 0 <= i < t.len() implies #[trigger] t[i].0 != e.0 by {
            assert(t[i] == s[i]);
        }
        lemma_map_of_insert(t, p, e);
        assert(s.insert(p, e).drop_last() =~= t.insert(p, e));
        assert(s.insert(p, e).last() == s.last());
        assert(s[s.len() - 1].0 != e.0);
        assert(map_of(s.insert(p, e)) =~= map_of(s).insert(e.0, e.1));
    }
}

/// Replacing the value of an entry replaces it in the map.
pub proof fn lemma_map_of_update<W>(s: Seq<(Seq<char>, W)>, p: int, e: (Seq<char>, W))
    requires
        0 <= p < s.len(),
        s[p].0 == e.0,
        forall|i: int| 0 <= i < s.len() && i != p ==> #[trigger] s[i].0 != e.0,
    ensures
        map_of(s.update(p, e)) == map_of(s).insert(e.0, e.1),
    decreases s.len(),
{
    let t = s.drop_last();
    if p == s.len() - 1 {
        assert(s.update(p, e).drop_last() =~= t);
        assert(map_of(s.update(p, e)) =~= map_of(s).insert(e.0, e.1));
    } else {
        assert forall|i: int| 0 <= i < t.len() && i != p implies #[trigger] t[i].0 != e.0 by {
            assert(t[i] == s[i]);
        }
        lemma_map_of_update(t, p, e);
        assert(s.update(p, e).drop_last() =~= t.update(p, e));
        assert(s[s.len() - 1].0 != e.0);
        assert(map_of(s.update(p, e)) =~= map_of(s).insert(e.0, e.1));
    }
}

/// A map from texts to values, kept as a list of entries in increasing key order.
#[derive(Debug)]
pub struct TextMap<V: View> {
    entries: Vec<(String, V)>,
}

impl<V: View> TextMap<V> {
    /// The entries, taken by their views, in increasing key order.
    pub closed spec fn entry_views(&self) -> Seq<(Seq<char>, V::V)> {
        self.entries@.map_values(|e: (String, V)| (e.0@, e.1@))
    }

    /// The keys increase strictly, so no key occurs twice.
    #[verifier::type_invariant]
    closed spec fn keys_in_order(&self) -> bool {
        keys_increasing(self.entry_views())
    }

    /// The map the entries stand for.
    pub open spec fn map_view(&self) -> Map<Seq<char>, V::V> {
        map_of(self.entry_views())
    }

    /// An empty map.
    pub fn new() -> (m: Self)
        ensures
            m.entry_views() == Seq::<(Seq<char>, V::V)>::empty(),
            m.map_view() == Map::<Seq<char>, V::V>::empty(),
    {
        let m = TextMap { entries: Vec::new() };
        proof {
            assert(m.entry_views() =~= Seq::<(Seq<char>, V::V)>::empty());
        }
        m
    }

    /// The number of keys.
    pub fn len(&self) -> (n: usize)
        ensures
            n == self.entry_views().len(),
    {
        self.entries.len()
    }

    /// The entries, in increasing key order.
    pub fn entries(&self) -> (e: &Vec<(String, V)>)
        ensures
            e@.map_values(|x: (String, V)| (x.0@, x.1@)) == self.entry_views(),
            keys_increasing(self.entry_views()),
    {
        proof {
            use_type_invariant(self);
        }
        &self.entries
    }

    /// The position of the first entry whose key is not below `key`.
    fn position(&self, key: &Vec<char>) -> (p: usize)
        ensures
            p <= self.entry_views().len(),
            forall|i: int| 0 <= i < p ==> text_less(#[trigger] self.entry_views()[i].0, key@),
            p < self.entry_views().len() ==> !text_less(self.entry_views()[p as int].0, key@),
    {
        let ghost ev = self.entry_views();
        let mut p: usize = 0;
        while p < self.entries.len()
            invariant
                p <= self.entries.len(),
                ev == self.entry_views(),
                ev.len() == self.entries.len(),
                forall|i: int| 0 <= i < p ==> text_less(#[trigger] ev[i].0, key@),
            decreases self.entries.len() - p,
        {
            let k = chars_of(self.entries[p].0.as_str());
            proof {
                assert(ev[p as int].0 == k@);
            }
            if !chars_less(&k, key) {
                return p;
            }
            p = p + 1;
        }
        p
    }

    /// Sets the value of `key`, adding the key where it is new.
    pub fn insert(&mut self, key: String, value: V)
        ensures
            final(self).map_view() == old(self).map_view().insert(key@, value@),
    {
        proof {
            use_type_invariant(&*self);
        }
        let ghost ev = self.entry_views();
        let kc = chars_of(key.as_str());
        let p = self.position(&kc);
        let ghost e = (key@, value@);
        proof {
            lemma_map_of(ev);
        }
        let same = if p < self.entries.len() {
            let k = chars_of(self.entries[p].0.as_str());
            chars_equal(&k, &kc)
        } else {
            false
        };
        let mut entries: Vec<(String, V)> = Vec::new();
        std::mem::swap(&mut entries, &mut self.entries);
        proof {
            assert(entries@.map_values(|x: (String, V)| (x.0@, x.1@)) == ev);
        }
        if same {
            proof {
                assert forall|i: int| 0 <= i < ev.len() && i != p implies #[trigger] ev[i].0
                    != e.0 by {
                    lemma_keys_distinct(ev, i, p as int);
                }
                lemma_map_of_update(ev, p as int, e);
            }
            entries.set(p, (key, value));
            proof {
                let nv = ev.update(p as int, e);
                assert(entries@.map_values(|x: (String, V)| (x.0@, x.1@)) =~= nv);
                assert forall|i: int, j: int| 0 <= i < j < nv.len() implies text_less(
                    #[trigger] nv[i].0,
                    #[trigger] nv[j].0,
                ) by {
                    assert(nv[i].0 == ev[i].0 && nv[j].0 == ev[j].0);
                }
            }
            self.entries = entries;
        } else {
            proof {
                assert forall|i: int| 0 <= i < ev.len() implies #[trigger] ev[i].0 != e.0 by {
                    if i < p {
                        lemma_text_less_irreflexive(e.0);
                    } else {
                        lemma_text_less_total(ev[p as int].0, e.0);
                        if i > p {
                            if ev[i].0 == e.0 {
                                lemma_text_less_total(ev[p as int].0, ev[i].0);
                            }
                        }
                    }
                }
                lemma_map_of_insert(ev, p as int, e);
            }
            entries.insert(p, (key, value));
            proof {
                let nv = ev.insert(p as int, e);
                assert(entries@.map_values(|x: (String, V)| (x.0@, x.1@)) =~= nv);
                assert forall|i: int, j: int| 0 <= i < j < nv.len() implies text_less(
                    #[trigger] nv[i].0,
                    #[trigger] nv[j].0,
                ) by {
                    if j < p {
                    } else if j == p {
                    } else if i < p {
                        assert(nv[j] == ev[j - 1]);
                        if j - 1 > p {
                            lemma_text_less_total(ev[p as int].0, e.0);
                            lemma_text_less_transitive(ev[i].0, e.0, ev[p as int].0);
                            lemma_text_less_transitive(ev[i].0, ev[p as int].0, ev[j - 1].0);
                        } else {
                            lemma_text_less_total(ev[p as int].0, e.0);
                            lemma_text_less_transitive(ev[i].0, e.0, ev[p as int].0);
                        }
                    } else if i == p {
                        assert(nv[j] == ev[j - 1]);
                        lemma_text_less_total(ev[p as int].0, e.0);
                        if j - 1 > p {
                            lemma_text_less_transitive(e.0, ev[p as int].0, ev[j - 1].0);
                        }
                    } else {
                        assert(nv[i] == ev[i - 1] && nv[j] == ev[j - 1]);
                    }
                }
            }
            self.entries = entries;
        }
    }

    /// The value of `key`, if it has one.
    pub fn get(&self, key: &str) -> (r: Option<&V>)
        ensures
            match r {
                Some(v) => self.map_view().dom().contains(key@) && self.map_view()[key@] == v@,
                None => !self.map_view().dom().contains(key@),
            },
    {
        proof {
            use_type_invariant(self);
        }
        let ghost ev = self.entry_views();
        proof {
            lemma_map_of(ev);
        }
        let kc = chars_of(key);
        let p = self.position(&kc);
        if p < self.entries.len() {
            let k = chars_of(self.entries[p].0.as_str());
            if chars_equal(&k, &kc) {
                proof {
                    assert(ev[p as int] == (self.entries@[p as int].0@, self.entries@[
                        p as int].1@));
                    assert(self.map_view().dom().contains(ev[p as int].0));
                }
                return Some(&self.entries[p].1);
            }
        }
        proof {
            if self.map_view().dom().contains(key@) {
                let i = choose|i: int| 0 <= i < ev.len() && ev[i].0 == key@;
                if i < p {
                    lemma_text_less_irreflexive(key@);
                } else if i > p {
                    lemma_text_less_total(ev[p as int].0, key@);
                    lemma_text_less_transitive(ev[p as int].0, ev[i].0, ev[p as int].0);
                    lemma_text_less_irreflexive(ev[p as int].0);
                }
            }
        }
        None
    }
}

impl<V: View + Clone> Clone for TextMap<V> {
    /// A copy with the same keys, in the same order; each value is cloned.
    fn clone(&self) -> (r: Self)
        ensures
            r.entry_views().len() == self.entry_views().len(),
            forall|i: int|
                0 <= i < self.entry_views().len() ==> (#[trigger] r.entry_views()[i]).0
                    == self.entry_views()[i].0,
    {
        proof {
            use_type_invariant(self);
        }
        let ghost ev = self.entry_views();
        let mut out: Vec<(String, V)> = Vec::new();
        let mut i: usize = 0;
        while i < self.entries.len()
            invariant
                i <= self.entries@.len(),
                out@.len() == i,
                ev == self.entry_views(),
                keys_increasing(ev),
                forall|j: int| 0 <= j < i ==> (#[trigger] out@[j]).0@ == ev[j].0,
            decreases self.entries@.len() - i,
        {
            let key = self.entries[i].0.clone();
            let value = self.entries[i].1.clone();
            out.push((key, value));
            i = i + 1;
        }
        let ghost nv = out@.map_values(|e: (String, V)| (e.0@, e.1@));
        proof {
            assert forall|a: int, b: int| 0 <= a < b < nv.len() implies text_less(
                #[trigger] nv[a].0,
                #[trigger] nv[b].0,
            ) by {
                assert(nv[a].0 == ev[a].0);
                assert(nv[b].0 == ev[b].0);
            }
        }
        TextMap { entries: out }
    }
}

/// What a read gives back of a write: after writing `v` under `k`, reading `k` gives `v`,
/// and reading any other key gives what it gave before.
pub proof fn lemma_read_after_write<W>(m: Map<Seq<char>, W>, k: Seq<char>, v: W, other: Seq<char>)
    requires
        other != k,
    ensures
        m.insert(k, v).dom().contains(k),
        m.insert(k, v)[k] == v,
        m.insert(k, v).dom().contains(other) == m.dom().contains(other),
        m.dom().contains(other) ==> m.insert(k, v)[other] == m[other],
{
}

} // verus!
