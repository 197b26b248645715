//! Free-form property maps: string keys to string values, kept sorted
//! lexicographically by key so that rendering a configuration is
//! reproducible whatever order the properties were written in.

use vstd::prelude::*;
use vstd::string::*;

verus! {

/// Lexicographic order on character sequences: `a` comes strictly before `b`.
pub open spec fn str_lt(a: Seq<char>, b: Seq<char>) -> bool
    decreases a.len(),
{
    if b.len() == 0 {
        false
    } else if a.len() == 0 {
        true
    } else if a[0] != b[0] {
        (a[0] as u32) < (b[0] as u32)
    } else {
        str_lt(a.skip(1), b.skip(1))
    }
}

/// Strict lexicographic order is asymmetric.
pub proof fn lemma_str_lt_asymmetric(a: Seq<char>, b: Seq<char>)
    requires
        str_lt(a, b),
    ensures
        !str_lt(b, a),
    decreases a.len(),
{
    if b.len() == 0 {
    } else if a.len() == 0 {
    } else if a[0] != b[0] {
    } else {
        lemma_str_lt_asymmetric(a.skip(1), b.skip(1));
    }
}

/// Nothing precedes itself.
pub proof fn lemma_str_lt_irreflexive(a: Seq<char>)
    ensures
        !str_lt(a, a),
    decreases a.len(),
{
    if a.len() > 0 {
        lemma_str_lt_irreflexive(a.skip(1));
    }
}

/// Two sequences neither of which precedes the other are equal.
pub proof fn lemma_str_lt_connected(a: Seq<char>, b: Seq<char>)
    requires
        !str_lt(a, b),
        !str_lt(b, a),
    ensures
        a == b,
    decreases a.len(),
{
    if a.len() == 0 && b.len() == 0 {
        assert(a =~= b);
    } else if b.len() == 0 {
        assert(str_lt(b, a));
    } else if a.len() == 0 {
        assert(str_lt(a, b));
    } else if a[0] != b[0] {
        assert((a[0] as u32) == (b[0] as u32));
        vstd::utf8::char_u32_cast(a[0], a[0] as u32);
        vstd::utf8::char_u32_cast(b[0], b[0] as u32);
    } else {
        lemma_str_lt_connected(a.skip(1), b.skip(1));
        assert(a =~= seq![a[0]] + a.skip(1));
        assert(b =~= seq![b[0]] + b.skip(1));
    }
}

/// Compares two strings in lexicographic order of their characters.
pub fn string_lt(a: &str, b: &str) -> (r: bool)
    ensures
        r == str_lt(a@, b@),
{
    let a_len = a.unicode_len();
    let b_len = b.unicode_len();
    let mut i: usize = 0;
    proof {
        assert(a@.skip(0) =~= a@);
        assert(b@.skip(0) =~= b@);
    }
    loop
        invariant
            i <= a_len,
            i <= b_len,
            a_len == a@.len(),
            b_len == b@.len(),
            str_lt(a@, b@) == str_lt(a@.skip(i as int), b@.skip(i as int)),
        decreases a_len - i,
    {
        if i == b_len {
            assert(b@.skip(i as int).len() == 0);
            return false;
        }
        if i == a_len {
            assert(a@.skip(i as int).len() == 0);
            return true;
        }
        let ca = a.get_char(i);
        let cb = b.get_char(i);
        assert(a@.skip(i as int)[0] == a@[i as int]);
        assert(b@.skip(i as int)[0] == b@[i as int]);
        if ca != cb {
            return (ca as u32) < (cb as u32);
        }
        assert(a@.skip(i as int).skip(1) =~= a@.skip(i + 1));
        assert(b@.skip(i as int).skip(1) =~= b@.skip(i + 1));
        i = i + 1;
    }
}

/// Tests two strings for equality of their character sequences.
pub fn string_eq(a: &str, b: &str) -> (r: bool)
    ensures
        r == (a@ == b@),
{
    let lt = string_lt(a, b);
    let gt = string_lt(b, a);
    proof {
        if !lt && !gt {
            lemma_str_lt_connected(a@, b@);
        }
        if a@ == b@ {
            lemma_str_lt_irreflexive(a@);
        }
    }
    !lt && !gt
}

/// The views of a sequence of owned entries.
pub open spec fn entry_views(s: Seq<(String, String)>) -> Seq<(Seq<char>, Seq<char>)> {
    s.map_values(|p: (String, String)| (p.0@, p.1@))
}

/// Entries stand in strictly increasing key order (keys unique by force).
pub open spec fn entries_sorted(s: Seq<(Seq<char>, Seq<char>)>) -> bool {
    forall|i: int, j: int| 0 <= i < j < s.len() ==> str_lt(s[i].0, s[j].0)
}

/// The key-to-value map an entry sequence denotes; later entries win.
pub open spec fn map_of(s: Seq<(Seq<char>, Seq<char>)>) -> Map<Seq<char>, Seq<char>>
    decreases s.len(),
{
    if s.len() == 0 {
        Map::empty()
    } else {
        map_of(s.drop_last()).insert(s.last().0, s.last().1)
    }
}

/// A key is in the denoted map exactly when some entry carries it.
pub proof fn lemma_map_of_domain(s: Seq<(Seq<char>, Seq<char>)>, k: Seq<char>)
    ensures
        map_of(s).contains_key(k) <==> exists|i: int| 0 <= i < s.len() && s[i].0 == k,
    decreases s.len(),
{
    if s.len() > 0 {
        lemma_map_of_domain(s.drop_last(), k);
        if s.last().0 == k {
            assert(s[s.len() - 1].0 == k);
        } else if map_of(s).contains_key(k) {
            let i = choose|i: int| 0 <= i < s.drop_last().len() && s.drop_last()[i].0 == k;
            assert(s[i].0 == k);
        } else {
            if exists|i: int| 0 <= i < s.len() && s[i].0 == k {
                let i = choose|i: int| 0 <= i < s.len() && s[i].0 == k;
                assert(s.drop_last()[i].0 == k);
            }
        }
    }
}

/// In a sorted entry sequence, dropping the last entry removes exactly the
/// greatest key from the denoted map.
pub proof fn lemma_map_of_drop_last(s: Seq<(Seq<char>, Seq<char>)>)
    requires
        entries_sorted(s),
        s.len() > 0,
    ensures
        !map_of(s.drop_last()).contains_key(s.last().0),
        map_of(s.drop_last()) == map_of(s).remove(s.last().0),
{
    lemma_map_of_domain(s.drop_last(), s.last().0);
    if map_of(s.drop_last()).contains_key(s.last().0) {
        let i = choose|i: int|
            0 <= i < s.drop_last().len() && s.drop_last()[i].0 == s.last().0;
        assert(str_lt(s[i].0, s.last().0));
        lemma_str_lt_irreflexive(s.last().0);
    }
    assert(map_of(s.drop_last()) =~= map_of(s).remove(s.last().0));
}

/// Sorted entry sequences are a canonical form: two that denote the same
/// key-to-value map are the same sequence.  This is what makes rendering a
/// property map deterministic however it was put together.
pub proof fn lemma_sorted_entries_canonical(
    a: Seq<(Seq<char>, Seq<char>)>,
    b: Seq<(Seq<char>, Seq<char>)>,
)
    requires
        entries_sorted(a),
        entries_sorted(b),
        map_of(a) == map_of(b),
    ensures
        a == b,
    decreases a.len(),
{
    if a.len() == 0 {
        if b.len() > 0 {
            lemma_map_of_domain(a, b.last().0);
            lemma_map_of_domain(b, b.last().0);
            assert(b[b.len() - 1].0 == b.last().0);
        }
        assert(a =~= b);
    } else if b.len() == 0 {
        lemma_map_of_domain(a, a.last().0);
        lemma_map_of_domain(b, a.last().0);
        assert(a[a.len() - 1].0 == a.last().0);
    } else {
        let ka = a.last().0;
        let kb = b.last().0;
        // The greatest key of each sequence occurs in the other.
        lemma_map_of_domain(a, ka);
        lemma_map_of_domain(b, ka);
        lemma_map_of_domain(a, kb);
        lemma_map_of_domain(b, kb);
        assert(a[a.len() - 1].0 == ka);
        assert(b[b.len() - 1].0 == kb);
        let ia = choose|i: int| 0 <= i < b.len() && b[i].0 == ka;
        let ib = choose|i: int| 0 <= i < a.len() && a[i].0 == kb;
        if ka != kb {
            // Each would then be strictly below the other's last key.
            assert(ia < b.len() - 1);
            assert(ib < a.len() - 1);
            assert(str_lt(ka, kb));
            assert(str_lt(kb, ka));
            lemma_str_lt_asymmetric(ka, kb);
        }
        assert(ka == kb);
        assert(map_of(a)[ka] == a.last().1);
        assert(map_of(b)[kb] == b.last().1);
        lemma_map_of_drop_last(a);
        lemma_map_of_drop_last(b);
        lemma_sorted_entries_canonical(a.drop_last(), b.drop_last());
        assert(a =~= a.drop_last().push(a.last()));
        assert(b =~= b.drop_last().push(b.last()));
    }
}

/// Two well-formed property maps that denote the same key-to-value map
/// hold the same entries in the same order.
pub proof fn lemma_prop_map_canonical(a: PropMap, b: PropMap)
    requires
        a.wf(),
        b.wf(),
        a.as_map() == b.as_map(),
    ensures
        a@ == b@,
{
    lemma_sorted_entries_canonical(a@, b@);
}

/// A string-to-string map with its entries held in strictly increasing key
/// order.  Rendering it walks the entries as stored, so equal maps render
/// equally.
#[derive(Clone, Debug, PartialEq)]
pub struct PropMap {
    entries: Vec<(String, String)>,
}

impl PropMap {
    /// The entries, by view, in stored order.
    pub closed spec fn view(&self) -> Seq<(Seq<char>, Seq<char>)> {
        entry_views(self.entries@)
    }

    /// The key-to-value map the entries denote.
    pub open spec fn as_map(&self) -> Map<Seq<char>, Seq<char>> {
        map_of(self@)
    }

    /// Well-formed: strictly sorted by key.
    pub open spec fn wf(&self) -> bool {
        entries_sorted(self@)
    }

    pub fn new() -> (r: Self)
        ensures
            r.wf(),
            r@ =~= Seq::<(Seq<char>, Seq<char>)>::empty(),
    {
        Self { entries: Vec::new() }
    }

    /// A copy of the map with the same entries.
    pub fn duplicate(&self) -> (r: Self)
        ensures
            r@ == self@,
    {
        let n = self.entries.len();
        let mut entries: Vec<(String, String)> = Vec::new();
        let mut i: usize = 0;
        while i < n
            invariant
                n == self.entries@.len(),
                i <= n,
                entries@ =~= self.entries@.subrange(0, i as int),
            decreases n - i,
        {
            entries.push((self.entries[i].0.clone(), self.entries[i].1.clone()));
            proof {
                assert(entries@ =~= self.entries@.subrange(0, i + 1));
            }
            i = i + 1;
        }
        proof {
            assert(self.entries@.subrange(0, n as int) =~= self.entries@);
        }
        PropMap { entries }
    }

    pub fn len(&self) -> (r: usize)
        ensures
            r == self@.len(),
    {
        self.entries.len()
    }

    pub fn is_empty(&self) -> (r: bool)
        ensures
            r == (self@.len() == 0),
    {
        self.entries.len() == 0
    }

    /// The entry at a position, for walking the map in key order.
    pub fn entry_at(&self, i: usize) -> (r: (&String, &String))
        requires
            i < self@.len(),
        ensures
            r.0@ == self@[i as int].0,
            r.1@ == self@[i as int].1,
    {
        let p = &self.entries[i];
        (&p.0, &p.1)
    }

    /// Looks a key up.
    pub fn get(&self, key: &str) -> (r: Option<&String>)
        requires
            self.wf(),
        ensures
            match r {
                Some(v) => self.as_map().contains_key(key@) && self.as_map()[key@] == v@,
                None => !self.as_map().contains_key(key@),
            },
    {
        let n = self.entries.len();
        let mut i: usize = 0;
        while i < n
            invariant
                self.wf(),
                n == self@.len(),
                i <= n,
                forall|j: int| 0 <= j < i ==> self@[j].0 != key@,
            decreases n - i,
        {
            if string_eq(self.entries[i].0.as_str(), key) {
                proof {
                    lemma_key_position_value(self@, i as int);
                }
                return Some(&self.entries[i].1);
            }
            i = i + 1;
        }
        proof {
            lemma_map_of_domain(self@, key@);
        }
        None
    }

    /// Puts a key-value pair in, keeping the order; an existing entry for
    /// the same key is overwritten.
    pub fn insert(&mut self, key: String, value: String)
        requires
            old(self).wf(),
        ensures
            final(self).wf(),
            final(self).as_map() == old(self).as_map().insert(key@, value@),
    {
        let ghost prior = self@;
        let n = self.entries.len();
        let mut i: usize = 0;
        while i < n && string_lt(self.entries[i].0.as_str(), key.as_str())
            invariant
                *self == *old(self),
                n == self@.len(),
                i <= n,
                forall|j: int| 0 <= j < i ==> str_lt(self@[j].0, key@),
            decreases n - i,
        {
            i = i + 1;
        }
        if i < n && string_eq(self.entries[i].0.as_str(), key.as_str()) {
            self.entries[i] = (key, value);
            proof {
                assert(self@ =~= prior.update(i as int, (key@, value@)));
                lemma_update_entry_map(prior, i as int, key@, value@);
            }
        } else {
            proof {
                if i < n {
                    assert(!str_lt(prior[i as int].0, key@));
                    assert(prior[i as int].0 != key@);
                    lemma_str_lt_connected_not_eq(key@, prior[i as int].0);
                }
            }
            self.entries.insert(i, (key, value));
            proof {
                assert(self@ =~= prior.subrange(0, i as int) + seq![(key@, value@)]
                    + prior.subrange(i as int, prior.len() as int));
                lemma_insert_entry_sorted(prior, i as int, key@, value@);
                lemma_insert_entry_map(prior, i as int, key@, value@);
            }
        }
    }
}

/// At a well-formed map's first occurrence of a key, the denoted map holds
/// that entry's value.
proof fn lemma_key_position_value(s: Seq<(Seq<char>, Seq<char>)>, i: int)
    requires
        entries_sorted(s),
        0 <= i < s.len(),
    ensures
        map_of(s).contains_key(s[i].0),
        map_of(s)[s[i].0] == s[i].1,
    decreases s.len(),
{
    if i == s.len() - 1 {
    } else {
        lemma_key_position_value(s.drop_last(), i);
        assert(str_lt(s[i].0, s.last().0));
        if s[i].0 == s.last().0 {
            lemma_str_lt_irreflexive(s.last().0);
        }
    }
}

/// Unequal sequences are ordered one way or the other.
proof fn lemma_str_lt_connected_not_eq(a: Seq<char>, b: Seq<char>)
    requires
        a != b,
        !str_lt(b, a),
    ensures
        str_lt(a, b),
{
    if !str_lt(a, b) {
        lemma_str_lt_connected(a, b);
    }
}

/// Overwriting the entry that already carries a key re-inserts that key.
proof fn lemma_update_entry_map(s: Seq<(Seq<char>, Seq<char>)>, i: int, k: Seq<char>, v: Seq<char>)
    requires
        entries_sorted(s),
        0 <= i < s.len(),
        s[i].0 == k,
    ensures
        entries_sorted(s.update(i, (k, v))),
        map_of(s.update(i, (k, v))) == map_of(s).insert(k, v),
    decreases s.len(),
{
    let t = s.update(i, (k, v));
    assert forall|p: int, q: int| 0 <= p < q < t.len() implies str_lt(t[p].0, t[q].0) by {
        assert(t[p].0 == s[p].0);
        assert(t[q].0 == s[q].0);
    }
    if i == s.len() - 1 {
        assert(t.drop_last() =~= s.drop_last());
        assert(map_of(t) =~= map_of(s).insert(k, v));
    } else {
        lemma_update_entry_map(s.drop_last(), i, k, v);
        assert(t.drop_last() =~= s.drop_last().update(i, (k, v)));
        assert(t.last() == s.last());
        // The last key differs from k, so the two inserts commute.
        assert(str_lt(s[i].0, s.last().0));
        if s[i].0 == s.last().0 {
            lemma_str_lt_irreflexive(s.last().0);
        }
        assert(map_of(t) =~= map_of(s).insert(k, v));
    }
}

/// Splicing a fresh key into its sorted position keeps the order.
proof fn lemma_insert_entry_sorted(
    s: Seq<(Seq<char>, Seq<char>)>,
    i: int,
    k: Seq<char>,
    v: Seq<char>,
)
    requires
        entries_sorted(s),
        0 <= i <= s.len(),
        forall|j: int| 0 <= j < i ==> str_lt(s[j].0, k),
        i < s.len() ==> str_lt(k, s[i].0),
    ensures
        entries_sorted(s.subrange(0, i) + seq![(k, v)] + s.subrange(i, s.len() as int)),
{
    let t = s.subrange(0, i) + seq![(k, v)] + s.subrange(i, s.len() as int);
    assert forall|p: int, q: int| 0 <= p < q < t.len() implies str_lt(t[p].0, t[q].0) by {
        if p < i {
            assert(t[p] == s[p]);
        } else if p == i {
            assert(t[p] == (k, v));
        } else {
            assert(t[p] == s[p - 1]);
        }
        if q < i {
            assert(t[q] == s[q]);
        } else if q == i {
            assert(t[q] == (k, v));
        } else {
            assert(t[q] == s[q - 1]);
        }
        if q == i {
            assert(str_lt(t[p].0, k));
        } else if p == i {
            assert(str_lt(k, s[i].0));
            if q > i + 1 {
                lemma_str_lt_transitive(k, s[i].0, s[q - 1].0);
            }
        }
    }
}

/// Strict lexicographic order is transitive.
pub proof fn lemma_str_lt_transitive(a: Seq<char>, b: Seq<char>, c: Seq<char>)
    requires
        str_lt(a, b),
        str_lt(b, c),
    ensures
        str_lt(a, c),
    decreases a.len() + b.len() + c.len(),
{
    if c.len() == 0 {
    } else if b.len() == 0 {
    } else if a.len() == 0 {
    } else {
        if a[0] == b[0] && b[0] == c[0] {
            lemma_str_lt_transitive(a.skip(1), b.skip(1), c.skip(1));
        }
    }
}

/// Splicing a fresh key into a sorted sequence inserts it into the map.
proof fn lemma_insert_entry_map(
    s: Seq<(Seq<char>, Seq<char>)>,
    i: int,
    k: Seq<char>,
    v: Seq<char>,
)
    requires
        entries_sorted(s),
        0 <= i <= s.len(),
        forall|j: int| 0 <= j < i ==> str_lt(s[j].0, k),
        i < s.len() ==> str_lt(k, s[i].0),
    ensures
        map_of(s.subrange(0, i) + seq![(k, v)] + s.subrange(i, s.len() as int)) == map_of(
            s,
        ).insert(k, v),
    decreases s.len(),
{
    let t = s.subrange(0, i) + seq![(k, v)] + s.subrange(i, s.len() as int);
    if i == s.len() {
        assert(t.drop_last() =~= s);
        assert(t.last() == (k, v));
        assert(map_of(t) =~= map_of(s).insert(k, v));
    } else {
        lemma_insert_entry_map(s.drop_last(), i, k, v);
        assert(t.drop_last() =~= s.drop_last().subrange(0, i) + seq![(k, v)]
            + s.drop_last().subrange(i, s.drop_last().len() as int));
        assert(t.last() == s.last());
        // k differs from the last key, so the two inserts commute.
        assert(str_lt(k, s[i].0));
        if i < s.len() - 1 {
            lemma_str_lt_transitive(k, s[i].0, s.last().0);
        }
        assert(str_lt(k, s.last().0));
        if k == s.last().0 {
            lemma_str_lt_irreflexive(k);
        }
        assert(map_of(t) =~= map_of(s).insert(k, v));
    }
}

} // verus!
