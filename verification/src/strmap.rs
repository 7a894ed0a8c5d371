//! A map from text keys to values that keeps its entries in ascending key
//! order (code-point order, which is also the byte order of UTF-8 text).
//! Iteration and "first entry" therefore do not depend on insertion history.

use vstd::prelude::*;

verus! {

/// `a` sorts strictly before `b`, comparing characters by code point.
pub open spec fn lex_lt(a: Seq<char>, b: Seq<char>) -> bool
    decreases a.len(),
{
    if a.len() == 0 {
        b.len() > 0
    } else if b.len() == 0 {
        false
    } else if a[0] != b[0] {
        (a[0] as u32) < (b[0] as u32)
    } else {
        lex_lt(a.drop_first(), b.drop_first())
    }
}

/// No text sorts before itself.
pub proof fn lemma_lex_irreflexive(a: Seq<char>)
    ensures
        !lex_lt(a, a),
    decreases a.len(),
{
    if a.len() > 0 {
        lemma_lex_irreflexive(a.drop_first());
    }
}

/// Two different texts are ordered one way or the other, never both.
pub proof fn lemma_lex_total(a: Seq<char>, b: Seq<char>)
    ensures
        a != b ==> (lex_lt(a, b) || lex_lt(b, a)),
        !(lex_lt(a, b) && lex_lt(b, a)),
    decreases a.len(),
{
    if a.len() > 0 && b.len() > 0 {
        if a[0] == b[0] {
            lemma_lex_total(a.drop_first(), b.drop_first());
            if a != b {
                assert(a.drop_first() != b.drop_first()) by {
                    if a.drop_first() == b.drop_first() {
                        assert(a =~= seq![a[0]] + a.drop_first());
                        assert(b =~= seq![b[0]] + b.drop_first());
                    }
                }
            }
        } else {
            vstd::utf8::char_u32_cast(a[0], a[0] as u32);
            vstd::utf8::char_u32_cast(b[0], b[0] as u32);
            assert((a[0] as u32) != (b[0] as u32));
        }
    } else if a.len() == 0 && b.len() == 0 {
        assert(a =~= b);
    }
}

/// The order is transitive.
pub proof fn lemma_lex_transitive(a: Seq<char>, b: Seq<char>, c: Seq<char>)
    requires
        lex_lt(a, b),
        lex_lt(b, c),
    ensures
        lex_lt(a, c),
    decreases a.len(),
{
    if a.len() > 0 && b.len() > 0 && c.len() > 0 {
        if a[0] == b[0] && b[0] == c[0] {
            lemma_lex_transitive(a.drop_first(), b.drop_first(), c.drop_first());
        }
    }
}

/// Keys of the entries are strictly ascending.
pub open spec fn sorted<V>(s: Seq<(String, V)>) -> bool {
    forall|i: int, j: int| 0 <= i < j < s.len() ==> lex_lt(#[trigger] s[i].0@, #[trigger] s[j].0@)
}

/// Value of the first entry whose key is `k`.
pub open spec fn lookup<V>(s: Seq<(String, V)>, k: Seq<char>) -> Option<V>
    decreases s.len(),
{
    if s.len() == 0 {
        None
    } else if s[0].0@ == k {
        Some(s[0].1)
    } else {
        lookup(s.drop_first(), k)
    }
}

/// Some entry has key `k`.
pub open spec fn has_key<V>(s: Seq<(String, V)>, k: Seq<char>) -> bool {
    exists|i: int| 0 <= i < s.len() && s[i].0@ == k
}

/// The keys, in entry order.
pub open spec fn keys_of<V>(s: Seq<(String, V)>) -> Seq<Seq<char>> {
    s.map_values(|e: (String, V)| e.0@)
}

/// In a sorted sequence, `lookup` finds the value stored under a key, and
/// nothing for an absent key.
pub proof fn lemma_lookup<V>(s: Seq<(String, V)>, k: Seq<char>)
    requires
        sorted(s),
    ensures
        forall|i: int| 0 <= i < s.len() && s[i].0@ == k ==> lookup(s, k) == Some(s[i].1),
        !has_key(s, k) ==> lookup(s, k) is None,
        has_key(s, k) ==> lookup(s, k) is Some,
    decreases s.len(),
{
    if s.len() > 0 {
        let t = s.drop_first();
        assert(sorted(t)) by {
            assert forall|i: int, j: int| 0 <= i < j < t.len() implies lex_lt(
                #[trigger] t[i].0@,
                #[trigger] t[j].0@,
            ) by {
                assert(t[i] == s[i + 1] && t[j] == s[j + 1]);
            }
        }
        lemma_lookup(t, k);
        assert forall|i: int| 0 <= i < s.len() && s[i].0@ == k implies lookup(s, k) == Some(
            s[i].1,
        ) by {
            if i > 0 {
                if s[0].0@ == k {
                    assert(lex_lt(s[0].0@, s[i].0@));
                    lemma_lex_irreflexive(k);
                }
                assert(t[i - 1] == s[i]);
            }
        }
        if has_key(s, k) {
            let i = choose|i: int| 0 <= i < s.len() && s[i].0@ == k;
            assert(lookup(s, k) == Some(s[i].1));
        }
        if !has_key(s, k) {
            assert(!has_key(t, k)) by {
                if has_key(t, k) {
                    let i = choose|i: int| 0 <= i < t.len() && t[i].0@ == k;
                    assert(s[i + 1].0@ == k);
                }
            }
        }
    }
}

/// A map with text keys kept in ascending order.
#[derive(Debug)]
pub struct StrMap<V> {
    entries: Vec<(String, V)>,
}

impl<V> View for StrMap<V> {
    type V = Seq<(String, V)>;

    closed spec fn view(&self) -> Seq<(String, V)> {
        self.entries@
    }
}

impl<V> StrMap<V> {
    /// Entries are kept strictly ascending by key.
    #[verifier::type_invariant]
    spec fn wf(&self) -> bool {
        sorted(self.entries@)
    }

    /// An empty map.
    pub fn new() -> (r: Self)
        ensures
            r@ == Seq::<(String, V)>::empty(),
    {
        StrMap { entries: Vec::new() }
    }

    /// Number of entries.
    pub fn len(&self) -> (r: usize)
        ensures
            r == self@.len(),
    {
        self.entries.len()
    }

    /// Whether the map is empty.
    pub fn is_empty(&self) -> (r: bool)
        ensures
            r == (self@.len() == 0),
    {
        self.entries.len() == 0
    }

    /// The entries, in ascending key order.
    pub fn entries(&self) -> (r: &Vec<(String, V)>)
        ensures
            r@ == self@,
            sorted(self@),
    {
        proof {
            use_type_invariant(self);
        }
        &self.entries
    }

    /// Position of the entry with key `k`, if any.
    fn position(&self, k: &str) -> (r: Option<usize>)
        ensures
            match r {
                Some(i) => i < self@.len() && self@[i as int].0@ == k@,
                None => !has_key(self@, k@),
            },
    {
        let mut i: usize = 0;
        while i < self.entries.len()
            invariant
                i <= self@.len(),
                forall|j: int| 0 <= j < i ==> self@[j].0@ != k@,
            decreases self@.len() - i,
        {
            if crate::json::same_text(self.entries[i].0.as_str(), k) {
                return Some(i);
            }
            i = i + 1;
        }
        None
    }

    /// The value stored under `k`.
    pub fn get(&self, k: &str) -> (r: Option<&V>)
        ensures
            match r {
                Some(v) => lookup(self@, k@) == Some(*v),
                None => lookup(self@, k@) is None,
            },
    {
        proof {
            use_type_invariant(self);
            lemma_lookup(self@, k@);
        }
        match self.position(k) {
            Some(i) => Some(&self.entries[i].1),
            None => None,
        }
    }

    /// Whether some entry has key `k`.
    pub fn contains_key(&self, k: &str) -> (r: bool)
        ensures
            r == has_key(self@, k@),
    {
        match self.position(k) {
            Some(_) => true,
            None => false,
        }
    }

    /// The entry with the least key.
    pub fn first(&self) -> (r: Option<&(String, V)>)
        ensures
            match r {
                Some(e) => self@.len() > 0 && *e == self@[0],
                None => self@.len() == 0,
            },
    {
        if self.entries.len() == 0 {
            None
        } else {
            Some(&self.entries[0])
        }
    }

    /// Stores `v` under `k`, returning the value it replaces.
    pub fn insert(&mut self, k: String, v: V) -> (r: Option<V>)
        ensures
            sorted(old(self)@),
            sorted(final(self)@),
            r == lookup(old(self)@, k@),
            lookup(final(self)@, k@) == Some(v),
            forall|q: Seq<char>| q != k@ ==> #[trigger] lookup(final(self)@, q) == lookup(
                old(self)@,
                q,
            ),
            forall|q: Seq<char>| #[trigger] has_key(final(self)@, q) == (q == k@ || has_key(old(self)@, q)),
            has_key(old(self)@, k@) ==> exists|i: int|
                0 <= i < old(self)@.len() && old(self)@[i].0@ == k@ && #[trigger] old(self)@.update(i, (k, v))
                    == final(self)@,
            !has_key(old(self)@, k@) ==> exists|i: int|
                0 <= i <= old(self)@.len() && #[trigger] old(self)@.insert(i, (k, v)) == final(self)@,
    {
        proof {
            use_type_invariant(&*self);
        }
        let ghost s0 = self@;
        proof {
            lemma_lookup(s0, k@);
        }
        let mut es: Vec<(String, V)> = Vec::new();
        std::mem::swap(&mut es, &mut self.entries);
        let mut i: usize = 0;
        while i < es.len()
            invariant
                es@ == s0,
                sorted(s0),
                i <= s0.len(),
                forall|j: int| 0 <= j < i ==> lex_lt(#[trigger] s0[j].0@, k@),
            ensures
                es@ == s0,
                i <= s0.len(),
                forall|j: int| 0 <= j < i ==> lex_lt(#[trigger] s0[j].0@, k@),
                i < s0.len() ==> !lex_lt(s0[i as int].0@, k@),
            decreases s0.len() - i,
        {
            if !key_less(es[i].0.as_str(), k.as_str()) {
                break;
            }
            i = i + 1;
        }
        if i < es.len() && crate::json::same_text(es[i].0.as_str(), k.as_str()) {
            let ghost s1 = s0.update(i as int, (k, v));
            assert(has_key(s0, k@));
            let mut old_entry = (k, v);
            std::mem::swap(&mut es[i], &mut old_entry);
            proof {
                assert(es@ == s1);
                assert(sorted(s1)) by {
                    assert forall|a: int, b: int| 0 <= a < b < s1.len() implies lex_lt(
                        #[trigger] s1[a].0@,
                        #[trigger] s1[b].0@,
                    ) by {
                        assert(s1[a].0@ == s0[a].0@ && s1[b].0@ == s0[b].0@);
                    }
                }
                lemma_lookup(s1, k@);
                assert forall|q: Seq<char>| q != k@ implies #[trigger] lookup(s1, q) == lookup(s0, q) by {
                    lemma_lookup(s1, q);
                    lemma_lookup(s0, q);
                    if has_key(s0, q) {
                        let j = choose|j: int| 0 <= j < s0.len() && s0[j].0@ == q;
                        assert(s1[j].0@ == q);
                    }
                    if has_key(s1, q) {
                        let j = choose|j: int| 0 <= j < s1.len() && s1[j].0@ == q;
                        assert(s0[j].0@ == q);
                    }
                }
                assert forall|q: Seq<char>| #[trigger] has_key(s1, q) == (q == k@ || has_key(s0, q)) by {
                    if has_key(s0, q) {
                        let j = choose|j: int| 0 <= j < s0.len() && s0[j].0@ == q;
                        assert(s1[j].0@ == q);
                    }
                    if has_key(s1, q) {
                        let j = choose|j: int| 0 <= j < s1.len() && s1[j].0@ == q;
                        assert(s0[j].0@ == q);
                    }
                    if q == k@ {
                        assert(s1[i as int].0@ == q);
                    }
                }
            }
            self.entries = es;
            Some(old_entry.1)
        } else {
            let ghost kv = k@;
            proof {
                if i < s0.len() {
                    lemma_lex_total(s0[i as int].0@, kv);
                }
            }
            let ghost s1 = s0.insert(i as int, (k, v));
            es.insert(i, (k, v));
            proof {
                assert(es@ == s1);
                assert(!has_key(s0, kv)) by {
                    if has_key(s0, kv) {
                        let j = choose|j: int| 0 <= j < s0.len() && s0[j].0@ == kv;
                        if j < i {
                            lemma_lex_irreflexive(kv);
                        } else if j > i {
                            lemma_lex_total(s0[i as int].0@, kv);
                            assert(lex_lt(kv, s0[i as int].0@));
                            assert(lex_lt(s0[i as int].0@, s0[j].0@));
                            lemma_lex_transitive(kv, s0[i as int].0@, kv);
                            lemma_lex_irreflexive(kv);
                        }
                    }
                }
                assert forall|j: int| i < j < s1.len() implies lex_lt(kv, #[trigger] s1[j].0@) by {
                    assert(s1[j] == s0[j - 1]);
                    if j - 1 > i {
                        assert(lex_lt(s0[i as int].0@, s0[j - 1].0@));
                        lemma_lex_transitive(kv, s0[i as int].0@, s0[j - 1].0@);
                    }
                }
                assert(sorted(s1)) by {
                    assert forall|a: int, b: int| 0 <= a < b < s1.len() implies lex_lt(
                        #[trigger] s1[a].0@,
                        #[trigger] s1[b].0@,
                    ) by {
                        if a < i && b < i {
                            assert(s1[a] == s0[a] && s1[b] == s0[b]);
                        } else if a < i && b == i {
                        } else if a < i && b > i {
                            assert(s1[a] == s0[a]);
                            assert(lex_lt(kv, s1[b].0@));
                            lemma_lex_transitive(s1[a].0@, kv, s1[b].0@);
                        } else if a == i {
                        } else {
                            assert(s1[a] == s0[a - 1] && s1[b] == s0[b - 1]);
                        }
                    }
                }
                lemma_lookup(s1, kv);
                assert(s1[i as int].0@ == kv);
                assert forall|q: Seq<char>| q != kv implies #[trigger] lookup(s1, q) == lookup(s0, q) by {
                    lemma_lookup(s1, q);
                    lemma_lookup(s0, q);
                    if has_key(s0, q) {
                        let j = choose|j: int| 0 <= j < s0.len() && s0[j].0@ == q;
                        if j < i {
                            assert(s1[j] == s0[j]);
                        } else {
                            assert(s1[j + 1] == s0[j]);
                        }
                    }
                    if has_key(s1, q) {
                        let j = choose|j: int| 0 <= j < s1.len() && s1[j].0@ == q;
                        if j < i {
                            assert(s0[j] == s1[j]);
                        } else if j > i {
                            assert(s0[j - 1] == s1[j]);
                        }
                    }
                }
                assert forall|q: Seq<char>| #[trigger] has_key(s1, q) == (q == kv || has_key(s0, q)) by {
                    if has_key(s0, q) {
                        let j = choose|j: int| 0 <= j < s0.len() && s0[j].0@ == q;
                        if j < i {
                            assert(s1[j] == s0[j]);
                        } else {
                            assert(s1[j + 1] == s0[j]);
                        }
                    }
                    if has_key(s1, q) {
                        let j = choose|j: int| 0 <= j < s1.len() && s1[j].0@ == q;
                        if j < i {
                            assert(s0[j] == s1[j]);
                        } else if j > i {
                            assert(s0[j - 1] == s1[j]);
                        }
                    }
                    if q == kv {
                        assert(s1[i as int].0@ == q);
                    }
                }
            }
            self.entries = es;
            None
        }
    }
}

impl<V: Clone> Clone for StrMap<V> {
    /// A copy with the same keys, in the same order, and cloned values.
    fn clone(&self) -> (r: Self)
        ensures
            keys_of(r@) == keys_of(self@),
    {
        proof {
            use_type_invariant(self);
        }
        let mut es: Vec<(String, V)> = Vec::new();
        let mut i: usize = 0;
        while i < self.entries.len()
            invariant
                i <= self@.len(),
                es@.len() == i,
                forall|j: int| 0 <= j < i ==> (#[trigger] es@[j]).0@ == self@[j].0@,
            decreases self@.len() - i,
        {
            let k = self.entries[i].0.clone();
            let v = self.entries[i].1.clone();
            es.push((k, v));
            i = i + 1;
        }
        proof {
            assert(sorted(es@)) by {
                assert forall|a: int, b: int| 0 <= a < b < es@.len() implies lex_lt(
                    #[trigger] es@[a].0@,
                    #[trigger] es@[b].0@,
                ) by {
                    assert(es@[a].0@ == self@[a].0@ && es@[b].0@ == self@[b].0@);
                }
            }
            assert(keys_of(es@) =~= keys_of(self@));
        }
        StrMap { entries: es }
    }
}

/// `a` sorts strictly before `b`.
pub fn key_less(a: &str, b: &str) -> (r: bool)
    ensures
        r == lex_lt(a@, b@),
{
    let x = crate::text::chars_of(a);
    let y = crate::text::chars_of(b);
    assert(x@.skip(0) =~= x@);
    assert(y@.skip(0) =~= y@);
    let mut i: usize = 0;
    while i < x.len() && i < y.len()
        invariant
            i <= x@.len(),
            i <= y@.len(),
            lex_lt(a@, b@) == lex_lt(x@.skip(i as int), y@.skip(i as int)),
            x@ == a@,
            y@ == b@,
        decreases x@.len() - i,
    {
        assert(x@.skip(i as int)[0] == x@[i as int]);
        assert(y@.skip(i as int)[0] == y@[i as int]);
        if x[i] != y[i] {
            return (x[i] as u32) < (y[i] as u32);
        }
        assert(x@.skip(i as int).drop_first() =~= x@.skip(i + 1));
        assert(y@.skip(i as int).drop_first() =~= y@.skip(i + 1));
        i = i + 1;
    }
    i == x.len() && i < y.len()
}

} // verus!
