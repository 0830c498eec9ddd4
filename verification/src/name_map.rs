//! An ordered map from names to values: entries kept in ascending name order (comparing
//! characters by code point, which is also the byte order of their UTF-8 encoding), each
//! name at most once. Iteration follows name order.
use vstd::prelude::*;

verus! {

/// Strict lexicographic order on character sequences, comparing code points.
pub open spec fn chars_lt(a: Seq<char>, b: Seq<char>) -> bool
    decreases a.len(),
{
    if a.len() == 0 {
        b.len() > 0
    } else if b.len() == 0 {
        false
    } else if a[0] != b[0] {
        (a[0] as int) < (b[0] as int)
    } else {
        chars_lt(a.drop_first(), b.drop_first())
    }
}

pub proof fn lemma_chars_lt_irreflexive(a: Seq<char>)
    ensures
        !chars_lt(a, a),
    decreases a.len(),
{
    if a.len() > 0 {
        lemma_chars_lt_irreflexive(a.drop_first());
    }
}

pub proof fn lemma_chars_lt_transitive(a: Seq<char>, b: Seq<char>, c: Seq<char>)
    requires
        chars_lt(a, b),
        chars_lt(b, c),
    ensures
        chars_lt(a, c),
    decreases a.len(),
{
    if a.len() > 0 && b.len() > 0 && c.len() > 0 {
        if a[0] == b[0] && b[0] == c[0] {
            lemma_chars_lt_transitive(a.drop_first(), b.drop_first(), c.drop_first());
        }
    }
}

pub proof fn lemma_chars_lt_total(a: Seq<char>, b: Seq<char>)
    ensures
        a == b || chars_lt(a, b) || chars_lt(b, a),
    decreases a.len(),
{
    if a.len() > 0 && b.len() > 0 {
        if a[0] == b[0] {
            lemma_chars_lt_total(a.drop_first(), b.drop_first());
            if a.drop_first() == b.drop_first() {
                assert(a =~= seq![a[0]] + a.drop_first());
                assert(b =~= seq![b[0]] + b.drop_first());
            }
        } else {
            assert((a[0] as int) != (b[0] as int));
        }
    } else if a.len() == 0 && b.len() == 0 {
        assert(a =~= b);
    }
}

/// The value of the first entry named `k`, if any.
pub open spec fn lookup<V>(s: Seq<(String, V)>, k: Seq<char>) -> Option<V>
    decreases s.len(),
{
    if s.len() == 0 {
        None
    } else if s[0].0@ == k {
        Some(s[0].1)
    } else {
        lookup(s.drop_first(), k)
    }
}

/// Whether some entry is named `k`.
pub open spec fn has_name<V>(s: Seq<(String, V)>, k: Seq<char>) -> bool {
    exists|i: int| 0 <= i < s.len() && #[trigger] s[i].0@ == k
}

/// Entries in strictly ascending name order.
pub open spec fn names_sorted<V>(s: Seq<(String, V)>) -> bool {
    forall|i: int, j: int| 0 <= i < j < s.len() ==> chars_lt(#[trigger] s[i].0@, #[trigger] s[j].0@)
}

/// Entries with pairwise distinct names.
pub open spec fn names_distinct<V>(s: Seq<(String, V)>) -> bool {
    forall|i: int, j: int| 0 <= i < s.len() && 0 <= j < s.len() && i != j ==> #[trigger] s[i].0@ != #[trigger] s[j].0@
}

pub proof fn lemma_sorted_distinct<V>(s: Seq<(String, V)>)
    requires
        names_sorted(s),
    ensures
        names_distinct(s),
{
    assert forall|i: int, j: int| 0 <= i < s.len() && 0 <= j < s.len() && i != j implies #[trigger] s[i].0@ != #[trigger] s[j].0@ by {
        if i < j {
            lemma_chars_lt_irreflexive(s[i].0@);
        } else {
            lemma_chars_lt_irreflexive(s[j].0@);
        }
    }
}

/// `lookup` finds nothing exactly when no entry has the name.
pub proof fn lemma_lookup_none<V>(s: Seq<(String, V)>, k: Seq<char>)
    ensures
        lookup(s, k) is None <==> !has_name(s, k),
    decreases s.len(),
{
    if s.len() > 0 {
        lemma_lookup_none(s.drop_first(), k);
        if has_name(s, k) && s[0].0@ != k {
            let i = choose|i: int| 0 <= i < s.len() && #[trigger] s[i].0@ == k;
            assert(s.drop_first()[i - 1].0@ == k);
        }
        if has_name(s.drop_first(), k) {
            let i = choose|i: int| 0 <= i < s.drop_first().len() && #[trigger] s.drop_first()[i].0@ == k;
            assert(s[i + 1].0@ == k);
        }
    }
}

/// With distinct names, the entry at `i` is the one `lookup` finds for its name.
pub proof fn lemma_lookup_at<V>(s: Seq<(String, V)>, i: int)
    requires
        names_distinct(s),
        0 <= i < s.len(),
    ensures
        lookup(s, s[i].0@) == Some(s[i].1),
    decreases s.len(),
{
    if i > 0 {
        let t = s.drop_first();
        assert(names_distinct(t)) by {
            assert forall|a: int, b: int| 0 <= a < t.len() && 0 <= b < t.len() && a != b implies #[trigger] t[a].0@ != #[trigger] t[b].0@ by {
                assert(s[a + 1].0@ != s[b + 1].0@);
            }
        }
        assert(s[0].0@ != s[i].0@);
        lemma_lookup_at(t, i - 1);
    }
}

/// An ordered map from names to values.
#[derive(Debug, Clone, PartialEq, Eq)]
pub struct NameMap<V> {
    entries: Vec<(String, V)>,
}

impl<V> View for NameMap<V> {
    type V = Seq<(String, V)>;

    closed spec fn view(&self) -> Seq<(String, V)> {
        self.entries@
    }
}

impl<V> NameMap<V> {
    /// Entries in ascending name order, each name once.
    pub open spec fn wf(&self) -> bool {
        names_sorted(self@)
    }

    /// The value stored under `k`, if any.
    pub open spec fn spec_get(&self, k: Seq<char>) -> Option<V> {
        lookup(self@, k)
    }

    /// An empty map.
    pub fn new() -> (m: Self)
        ensures
            m@ == Seq::<(String, V)>::empty(),
            m.wf(),
    {
        NameMap { entries: Vec::new() }
    }

    /// Number of entries.
    pub fn len(&self) -> (n: usize)
        ensures
            n == self@.len(),
    {
        self.entries.len()
    }

    /// The entries, in name order.
    pub fn as_slice(&self) -> (r: &[(String, V)])
        ensures
            r@ == self@,
    {
        self.entries.as_slice()
    }

    /// The value stored under `k`, if any.
    pub fn get(&self, k: &str) -> (r: Option<&V>)
        ensures
            r is None <==> lookup(self@, k@) is None,
            r matches Some(v) ==> lookup(self@, k@) == Some(*v),
    {
        let mut i: usize = 0;
        assert(self@.subrange(0, self@.len() as int) =~= self@);
        while i < self.entries.len()
            invariant
                i <= self@.len(),
                lookup(self@, k@) == lookup(self@.subrange(i as int, self@.len() as int), k@),
            decreases self@.len() - i,
        {
            let ghost rest = self@.subrange(i as int, self@.len() as int);
            assert(rest.drop_first() =~= self@.subrange(i + 1, self@.len() as int));
            if str_eq(self.entries[i].0.as_str(), k) {
                return Some(&self.entries[i].1);
            }
            i = i + 1;
        }
        None
    }

    /// Whether some entry is named `k`.
    pub fn contains_key(&self, k: &str) -> (r: bool)
        ensures
            r == lookup(self@, k@) is Some,
    {
        self.get(k).is_some()
    }

    /// Stores `v` under `k`, replacing any previous value, keeping name order: the entry
    /// lands after every name that sorts before `k`; it replaces the entry named `k` when
    /// there is one (the length stays), and is inserted there otherwise (the length grows
    /// by one).
    pub fn insert(&mut self, k: String, v: V)
        requires
            old(self).wf(),
        ensures
            final(self).wf(),
            lookup(final(self)@, k@) == Some(v),
            forall|n: Seq<char>| n != k@ ==> lookup(final(self)@, n) == lookup(old(self)@, n),
            final(self)@.len() == old(self)@.len() + (if lookup(old(self)@, k@) is Some {
                0int
            } else {
                1int
            }),
            exists|i: int|
                0 <= i <= old(self)@.len() && (forall|j: int|
                    0 <= j < i ==> chars_lt(#[trigger] old(self)@[j].0@, k@)) && (if lookup(
                    old(self)@,
                    k@,
                ) is Some {
                    final(self)@ == old(self)@.update(i, (k, v))
                } else {
                    final(self)@ == old(self)@.insert(i, (k, v))
                }),
    {
        let ghost s0 = self@;
        let mut i: usize = 0;
        while i < self.entries.len() && str_lt(self.entries[i].0.as_str(), k.as_str())
            invariant
                self@ == s0,
                names_sorted(s0),
                i <= s0.len(),
                forall|j: int| 0 <= j < i ==> chars_lt(#[trigger] s0[j].0@, k@),
            decreases s0.len() - i,
        {
            i = i + 1;
        }
        let replace = i < self.entries.len() && str_eq(self.entries[i].0.as_str(), k.as_str());
        let ghost kv = k@;
        if replace {
            let ghost old_entry = s0[i as int];
            self.entries.set(i, (k, v));
            proof {
                let s1 = self@;
                assert(s1 == s0.update(i as int, (s1[i as int].0, v)));
                assert(names_sorted(s1)) by {
                    assert forall|a: int, b: int| 0 <= a < b < s1.len() implies chars_lt(#[trigger] s1[a].0@, #[trigger] s1[b].0@) by {
                        assert(s0[a].0@ == s1[a].0@);
                        assert(s0[b].0@ == s1[b].0@);
                    }
                }
                lemma_sorted_distinct(s1);
                lemma_lookup_at(s1, i as int);
                assert forall|n: Seq<char>| n != kv implies lookup(s1, n) == lookup(s0, n) by {
                    lemma_lookup_same_except(s0, s1, i as int, n);
                }
                lemma_sorted_distinct(s0);
                lemma_lookup_at(s0, i as int);
                assert(s1 =~= s0.update(i as int, (k, v)));
            }
        } else {
            self.entries.insert(i, (k, v));
            proof {
                let s1 = self@;
                assert(s1[i as int].0@ == kv);
                if i < s0.len() {
                    lemma_chars_lt_total(s0[i as int].0@, kv);
                }
                assert forall|j: int| i <= j < s0.len() implies chars_lt(kv, #[trigger] s0[j].0@) by {
                    if j > i {
                        lemma_chars_lt_transitive(kv, s0[i as int].0@, s0[j].0@);
                    }
                }
                lemma_insert_sorted(s0, i as int, s1[i as int]);
                lemma_sorted_distinct(s1);
                lemma_lookup_at(s1, i as int);
                assert forall|n: Seq<char>| n != kv implies lookup(s1, n) == lookup(s0, n) by {
                    lemma_lookup_insert_other(s0, i as int, s1[i as int], n);
                }
                assert(!has_name(s0, kv)) by {
                    if has_name(s0, kv) {
                        let j = choose|j: int| 0 <= j < s0.len() && #[trigger] s0[j].0@ == kv;
                        lemma_chars_lt_irreflexive(kv);
                        if j >= i {
                            assert(chars_lt(kv, s0[j].0@));
                        }
                    }
                }
                lemma_lookup_none(s0, kv);
                assert(s1 =~= s0.insert(i as int, (k, v)));
            }
        }
    }
}

/// Inserting a name that sorts after everything before position `i` and before everything
/// from `i` on keeps the entries sorted.
#[verifier::spinoff_prover]
proof fn lemma_insert_sorted<V>(s0: Seq<(String, V)>, i: int, e: (String, V))
    requires
        names_sorted(s0),
        0 <= i <= s0.len(),
        forall|j: int| 0 <= j < i ==> chars_lt(#[trigger] s0[j].0@, e.0@),
        forall|j: int| i <= j < s0.len() ==> chars_lt(e.0@, #[trigger] s0[j].0@),
    ensures
        names_sorted(s0.insert(i, e)),
{
    let s1 = s0.insert(i, e);
    assert forall|a: int, b: int| 0 <= a < b < s1.len() implies chars_lt(#[trigger] s1[a].0@, #[trigger] s1[b].0@) by {
        if b < i {
            assert(s1[a] == s0[a] && s1[b] == s0[b]);
            assert(chars_lt(s0[a].0@, s0[b].0@));
        } else if b == i {
            assert(s1[a] == s0[a]);
            assert(s1[b] == e);
            assert(chars_lt(s0[a].0@, e.0@));
        } else if a > i {
            assert(s1[a] == s0[a - 1] && s1[b] == s0[b - 1]);
            assert(chars_lt(s0[a - 1].0@, s0[b - 1].0@));
        } else if a == i {
            assert(s1[a] == e);
            assert(s1[b] == s0[b - 1]);
            assert(chars_lt(e.0@, s0[b - 1].0@));
        } else {
            assert(s1[a] == s0[a] && s1[b] == s0[b - 1]);
            assert(chars_lt(s0[a].0@, e.0@));
            assert(chars_lt(e.0@, s0[b - 1].0@));
            lemma_chars_lt_transitive(s0[a].0@, e.0@, s0[b - 1].0@);
        }
    }
}

/// Changing one entry to another with a different name leaves lookups of other names alone.
proof fn lemma_lookup_same_except<V>(s0: Seq<(String, V)>, s1: Seq<(String, V)>, i: int, n: Seq<char>)
    requires
        s0.len() == s1.len(),
        0 <= i < s0.len(),
        forall|j: int| 0 <= j < s0.len() && j != i ==> s0[j] == s1[j],
        s0[i].0@ != n,
        s1[i].0@ != n,
    ensures
        lookup(s1, n) == lookup(s0, n),
    decreases s0.len(),
{
    if s0.len() > 0 && i > 0 {
        lemma_lookup_same_except(s0.drop_first(), s1.drop_first(), i - 1, n);
    } else if s0.len() > 0 {
        assert(s0.drop_first() =~= s1.drop_first());
    }
}

/// Inserting an entry with another name leaves lookups of other names alone.
proof fn lemma_lookup_insert_other<V>(s0: Seq<(String, V)>, i: int, e: (String, V), n: Seq<char>)
    requires
        0 <= i <= s0.len(),
        e.0@ != n,
    ensures
        lookup(s0.insert(i, e), n) == lookup(s0, n),
    decreases s0.len(),
{
    let s1 = s0.insert(i, e);
    if i == 0 {
        assert(s1.drop_first() =~= s0);
    } else {
        assert(s1.drop_first() =~= s0.drop_first().insert(i - 1, e));
        lemma_lookup_insert_other(s0.drop_first(), i - 1, e, n);
    }
}

/// Whether two strings hold the same characters.
pub fn str_eq(a: &str, b: &str) -> (r: bool)
    ensures
        r == (a@ == b@),
{
    let n = a.unicode_len();
    if n != b.unicode_len() {
        return false;
    }
    let mut i: usize = 0;
    while i < n
        invariant
            n == a@.len(),
            n == b@.len(),
            i <= n,
            forall|j: int| 0 <= j < i ==> a@[j] == b@[j],
        decreases n - i,
    {
        if a.get_char(i) != b.get_char(i) {
            return false;
        }
        i = i + 1;
    }
    proof {
        assert(a@ =~= b@);
    }
    true
}

/// Whether `a` sorts strictly before `b` in code-point order.
pub fn str_lt(a: &str, b: &str) -> (r: bool)
    ensures
        r == chars_lt(a@, b@),
{
    let na = a.unicode_len();
    let nb = b.unicode_len();
    let mut i: usize = 0;
    assert(a@.subrange(0, na as int) =~= a@);
    assert(b@.subrange(0, nb as int) =~= b@);
    while i < na && i < nb
        invariant
            na == a@.len(),
            nb == b@.len(),
            i <= na,
            i <= nb,
            chars_lt(a@, b@) == chars_lt(a@.subrange(i as int, na as int), b@.subrange(i as int, nb as int)),
        decreases na - i,
    {
        let ca = a.get_char(i);
        let cb = b.get_char(i);
        let ghost ra = a@.subrange(i as int, na as int);
        let ghost rb = b@.subrange(i as int, nb as int);
        assert(ra[0] == ca && rb[0] == cb);
        if ca != cb {
            return (ca as u32) < (cb as u32);
        }
        assert(ra.drop_first() =~= a@.subrange(i + 1, na as int));
        assert(rb.drop_first() =~= b@.subrange(i + 1, nb as int));
        i = i + 1;
    }
    i == na && i < nb
}

} // verus!
