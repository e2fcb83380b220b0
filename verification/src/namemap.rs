//! A map from names to values, kept sorted by name.
//!
//! This is the library's keyed collection: names are compared character by
//! character (code point order, which is the order of `String`'s `Ord`), the
//! entries are strictly increasing by name, so no name occurs twice, and every
//! listing comes out in name order.

use vstd::prelude::*;
use crate::text::chars_of;

verus! {

/// Strict lexicographic order on character sequences by code point.
pub open spec fn str_lt(a: Seq<char>, b: Seq<char>) -> bool
    decreases a.len(),
{
    if b.len() == 0 {
        false
    } else if a.len() == 0 {
        true
    } else if a[0] < b[0] {
        true
    } else if a[0] == b[0] {
        str_lt(a.skip(1), b.skip(1))
    } else {
        false
    }
}

pub proof fn lemma_str_lt_irrefl(a: Seq<char>)
    ensures
        !str_lt(a, a),
    decreases a.len(),
{
    if a.len() > 0 {
        lemma_str_lt_irrefl(a.skip(1));
    }
}

pub proof fn lemma_str_lt_trans(a: Seq<char>, b: Seq<char>, c: Seq<char>)
    requires
        str_lt(a, b),
        str_lt(b, c),
    ensures
        str_lt(a, c),
    decreases a.len(),
{
    if a.len() > 0 && b.len() > 0 && c.len() > 0 {
        if a[0] == b[0] && b[0] == c[0] {
            lemma_str_lt_trans(a.skip(1), b.skip(1), c.skip(1));
        }
    }
}

pub proof fn lemma_str_lt_total(a: Seq<char>, b: Seq<char>)
    ensures
        a == b || str_lt(a, b) || str_lt(b, a),
    decreases a.len(),
{
    if a.len() > 0 && b.len() > 0 {
        if a[0] == b[0] {
            lemma_str_lt_total(a.skip(1), b.skip(1));
            if a.skip(1) == b.skip(1) {
                assert(a =~= seq![a[0]] + a.skip(1));
                assert(b =~= seq![b[0]] + b.skip(1));
                assert(a == b);
            }
        } else {
            assert(a[0] < b[0] || b[0] < a[0]);
        }
    } else if a.len() == 0 && b.len() == 0 {
        assert(a =~= b);
    }
}

pub proof fn lemma_str_lt_asym(a: Seq<char>, b: Seq<char>)
    requires
        str_lt(a, b),
    ensures
        !str_lt(b, a),
{
    if str_lt(b, a) {
        lemma_str_lt_trans(a, b, a);
        lemma_str_lt_irrefl(a);
    }
}

/// Compares two character sequences: negative, zero or positive as `a` is
/// below, equal to or above `b`.
pub fn compare_chars(a: &[char], b: &[char]) -> (r: i8)
    ensures
        r < 0 <==> str_lt(a@, b@),
        r == 0 <==> a@ == b@,
        r > 0 <==> str_lt(b@, a@),
{
    let mut i: usize = 0;
    assert(a@.skip(0) =~= a@);
    assert(b@.skip(0) =~= b@);
    assert(a@.take(0) =~= b@.take(0));
    while i < a.len() && i < b.len() && a[i] == b[i]
        invariant
            i <= a@.len(),
            i <= b@.len(),
            a@.take(i as int) == b@.take(i as int),
            str_lt(a@, b@) == str_lt(a@.skip(i as int), b@.skip(i as int)),
            str_lt(b@, a@) == str_lt(b@.skip(i as int), a@.skip(i as int)),
        decreases a.len() - i,
    {
        proof {
            let sa = a@.skip(i as int);
            let sb = b@.skip(i as int);
            assert(sa.skip(1) =~= a@.skip(i + 1));
            assert(sb.skip(1) =~= b@.skip(i + 1));
            assert(a@.take(i + 1) =~= a@.take(i as int).push(a@[i as int]));
            assert(b@.take(i + 1) =~= b@.take(i as int).push(b@[i as int]));
        }
        i = i + 1;
    }
    proof {
        lemma_str_lt_total(a@, b@);
        lemma_str_lt_irrefl(a@);
        if str_lt(a@, b@) {
            lemma_str_lt_asym(a@, b@);
        }
    }
    if i == a.len() && i == b.len() {
        assert(a@ =~= a@.take(i as int));
        assert(b@ =~= b@.take(i as int));
        0
    } else if i == a.len() {
        assert(a@.skip(i as int).len() == 0);
        -1
    } else if i == b.len() {
        assert(b@.skip(i as int).len() == 0);
        1
    } else if a[i] < b[i] {
        -1
    } else {
        1
    }
}

/// Compares two string slices by character.
pub fn compare_str(a: &str, b: &str) -> (r: i8)
    ensures
        r < 0 <==> str_lt(a@, b@),
        r == 0 <==> a@ == b@,
        r > 0 <==> str_lt(b@, a@),
{
    let va = chars_of(a);
    let vb = chars_of(b);
    compare_chars(va.as_slice(), vb.as_slice())
}

/// String slice equality.
pub fn str_eq(a: &str, b: &str) -> (r: bool)
    ensures
        r == (a@ == b@),
{
    compare_str(a, b) == 0
}

/// Names strictly increasing.
pub open spec fn sorted_names(s: Seq<Seq<char>>) -> bool {
    forall|i: int, j: int| 0 <= i < j < s.len() ==> str_lt(#[trigger] s[i], #[trigger] s[j])
}

/// First index of `k` in `s`, or `s.len()`.
pub open spec fn name_index(s: Seq<Seq<char>>, k: Seq<char>) -> int
    decreases s.len(),
{
    if s.len() == 0 {
        0
    } else if s[0] == k {
        0
    } else {
        1 + name_index(s.skip(1), k)
    }
}

pub proof fn lemma_name_index(s: Seq<Seq<char>>, k: Seq<char>)
    ensures
        0 <= name_index(s, k) <= s.len(),
        name_index(s, k) < s.len() <==> s.contains(k),
        name_index(s, k) < s.len() ==> s[name_index(s, k)] == k,
        forall|j: int| 0 <= j < name_index(s, k) ==> s[j] != k,
    decreases s.len(),
{
    if s.len() > 0 && s[0] != k {
        lemma_name_index(s.skip(1), k);
        if s.contains(k) {
            let j = choose|j: int| 0 <= j < s.len() && s[j] == k;
            assert(s.skip(1)[j - 1] == k);
        }
        if s.skip(1).contains(k) {
            let j = choose|j: int| 0 <= j < s.skip(1).len() && s.skip(1)[j] == k;
            assert(s[j + 1] == k);
        }
        assert forall|j: int| 0 <= j < name_index(s, k) implies s[j] != k by {
            if j > 0 {
                assert(s[j] == s.skip(1)[j - 1]);
            }
        }
    }
    if s.len() > 0 && s[0] == k {
        assert(s.contains(k));
    }
}

pub proof fn lemma_sorted_index(s: Seq<Seq<char>>, i: int)
    requires
        sorted_names(s),
        0 <= i < s.len(),
    ensures
        name_index(s, s[i]) == i,
{
    lemma_name_index(s, s[i]);
    assert(s.contains(s[i]));
    let p = name_index(s, s[i]);
    if p < i {
        lemma_str_lt_irrefl(s[i]);
    }
    if p > i {
        assert(s[i] != s[i]);
    }
}

/// The names of a sequence of entries.
pub open spec fn names_of<V>(e: Seq<(String, V)>) -> Seq<Seq<char>> {
    e.map_values(|x: (String, V)| x.0@)
}

/// A map from names to values with names strictly increasing.
#[derive(Debug)]
pub struct NameMap<V> {
    entries: Vec<(String, V)>,
}

impl<V> NameMap<V> {
    /// The names in order.
    pub closed spec fn names(self) -> Seq<Seq<char>> {
        names_of(self.entries@)
    }

    /// The values in name order.
    pub closed spec fn values(self) -> Seq<V> {
        self.entries@.map_values(|e: (String, V)| e.1)
    }

    #[verifier::type_invariant]
    closed spec fn inv(self) -> bool {
        sorted_names(self.names())
    }

    /// The value stored under a name (meaningful when the name is present).
    pub open spec fn value_of(self, k: Seq<char>) -> V {
        self.values()[name_index(self.names(), k)]
    }

    /// A name is present.
    pub open spec fn has(self, k: Seq<char>) -> bool {
        self.names().contains(k)
    }

    /// An empty map.
    pub fn new() -> (m: Self)
        ensures
            m.names() == Seq::<Seq<char>>::empty(),
            m.values() == Seq::<V>::empty(),
    {
        let m = NameMap { entries: Vec::new() };
        assert(m.names() =~= Seq::<Seq<char>>::empty());
        assert(m.values() =~= Seq::<V>::empty());
        m
    }

    /// Number of entries.
    pub fn len(&self) -> (n: usize)
        ensures
            n == self.names().len(),
            n == self.values().len(),
            sorted_names(self.names()),
    {
        proof {
            use_type_invariant(self);
        }
        self.entries.len()
    }

    /// No entries.
    pub fn is_empty(&self) -> (b: bool)
        ensures
            b == (self.names().len() == 0),
    {
        self.entries.len() == 0
    }

    /// Position of a name, if present.
    pub fn position(&self, k: &str) -> (r: Option<usize>)
        ensures
            r is Some <==> self.has(k@),
            r matches Some(i) ==> i < self.names().len() && self.names()[i as int] == k@ && i
                == name_index(self.names(), k@),
    {
        proof {
            use_type_invariant(self);
            lemma_name_index(self.names(), k@);
        }
        let mut i: usize = 0;
        while i < self.entries.len()
            invariant
                i <= self.entries@.len(),
                self.names().len() == self.entries@.len(),
                forall|j: int| 0 <= j < i ==> self.names()[j] != k@,
                0 <= name_index(self.names(), k@) <= self.names().len(),
                name_index(self.names(), k@) < self.names().len() <==> self.has(k@),
                name_index(self.names(), k@) < self.names().len() ==> self.names()[name_index(
                    self.names(),
                    k@,
                )] == k@,
                forall|j: int| 0 <= j < name_index(self.names(), k@) ==> self.names()[j] != k@,
            decreases self.entries.len() - i,
        {
            assert(self.names()[i as int] == self.entries@[i as int].0@);
            if str_eq(self.entries[i].0.as_str(), k) {
                return Some(i);
            }
            i = i + 1;
        }
        None
    }

    /// Whether a name is present.
    pub fn contains_key(&self, k: &str) -> (b: bool)
        ensures
            b == self.has(k@),
    {
        self.position(k).is_some()
    }

    /// The value under a name.
    pub fn get(&self, k: &str) -> (r: Option<&V>)
        ensures
            r is Some <==> self.has(k@),
            r matches Some(v) ==> *v == self.value_of(k@),
    {
        match self.position(k) {
            Some(i) => {
                proof {
                    use_type_invariant(self);
                }
                assert(self.values()[i as int] == self.entries@[i as int].1);
                Some(&self.entries[i].1)
            },
            None => None,
        }
    }

    /// The name at a position.
    pub fn name_at(&self, i: usize) -> (r: &String)
        requires
            i < self.names().len(),
        ensures
            r@ == self.names()[i as int],
    {
        &self.entries[i].0
    }

    /// The value at a position.
    pub fn value_at(&self, i: usize) -> (r: &V)
        requires
            i < self.names().len(),
        ensures
            *r == self.values()[i as int],
            self.has(self.names()[i as int]),
            *r == self.value_of(self.names()[i as int]),
    {
        proof {
            use_type_invariant(self);
            lemma_sorted_index(self.names(), i as int);
        }
        &self.entries[i].1
    }


    /// The entries in name order, consuming the map.
    pub fn into_entries(self) -> (r: Vec<(String, V)>)
        ensures
            r@.len() == self.names().len(),
            r@.len() == self.values().len(),
            sorted_names(self.names()),
            forall|j: int| 0 <= j < r@.len() ==> (#[trigger] r@[j]).0@ == self.names()[j] && r@[j].1 == self.values()[j],
    {
        proof {
            use_type_invariant(&self);
        }
        self.entries
    }

    /// Inserts or replaces the value under a name, keeping names in order.
    pub fn insert(&mut self, k: String, v: V)
        ensures
            final(self).has(k@),
            final(self).value_of(k@) == v,
            forall|n: Seq<char>| n != k@ ==> (#[trigger] final(self).has(n) == old(self).has(n)),
            forall|n: Seq<char>|
                n != k@ && old(self).has(n) ==> #[trigger] final(self).value_of(n) == old(
                    self,
                ).value_of(n),
    {
        proof {
            use_type_invariant(&*self);
        }
        let ghost old_names = self.names();
        let ghost old_values = self.values();
        let kc = chars_of(k.as_str());
        let mut p: usize = 0;
        while p < self.entries.len() && compare_str(self.entries[p].0.as_str(), k.as_str()) < 0
            invariant
                p <= self.entries@.len(),
                old_names == self.names(),
                old_names.len() == self.entries@.len(),
                forall|j: int| 0 <= j < p ==> str_lt(#[trigger] old_names[j], k@),
            decreases self.entries.len() - p,
        {
            assert(old_names[p as int] == self.entries@[p as int].0@);
            p = p + 1;
        }
        if p < self.entries.len() && str_eq(self.entries[p].0.as_str(), k.as_str()) {
            assert(old_names[p as int] == self.entries@[p as int].0@);
            let mut entries: Vec<(String, V)> = Vec::new();
            std::mem::swap(&mut entries, &mut self.entries);
            entries.set(p, (k, v));
            proof {
                assert(names_of(entries@) =~= old_names);
            }
            self.entries = entries;
            proof {
                assert(self.names() =~= old_names);
                assert(self.values() =~= old_values.update(p as int, v));
                lemma_sorted_index(old_names, p as int);
                assert forall|n: Seq<char>| n != k@ && old_names.contains(n) implies
                    #[trigger] self.value_of(n) == old_values[name_index(old_names, n)] by {
                    lemma_name_index(old_names, n);
                }
                assert(self.names()[p as int] == k@);
            }
        } else {
            proof {
                if p < old_names.len() {
                    assert(old_names[p as int] == self.entries@[p as int].0@);
                    lemma_str_lt_total(old_names[p as int], k@);
                    assert(str_lt(k@, old_names[p as int]));
                }
            }
            let mut entries: Vec<(String, V)> = Vec::new();
            std::mem::swap(&mut entries, &mut self.entries);
            entries.insert(p, (k, v));
            proof {
                let nn = names_of(entries@);
                assert(nn =~= old_names.insert(p as int, k@));
                assert forall|i: int, j: int| 0 <= i < j < nn.len() implies str_lt(
                    #[trigger] nn[i],
                    #[trigger] nn[j],
                ) by {
                    if i < p && j == p {
                    } else if i < p && j > p {
                        assert(nn[j] == old_names[j - 1]);
                        if j - 1 > i {
                            assert(str_lt(old_names[i], old_names[j - 1]));
                        }
                        if p < old_names.len() {
                            assert(str_lt(k@, old_names[p as int]));
                            if j - 1 > p {
                                assert(str_lt(old_names[p as int], old_names[j - 1]));
                                lemma_str_lt_trans(k@, old_names[p as int], old_names[j - 1]);
                            }
                            lemma_str_lt_trans(old_names[i], k@, old_names[j - 1]);
                        }
                    } else if i == p && j > p {
                        assert(nn[j] == old_names[j - 1]);
                        assert(str_lt(k@, old_names[p as int]));
                        if j - 1 > p {
                            lemma_str_lt_trans(k@, old_names[p as int], old_names[j - 1]);
                        }
                    } else if i > p {
                        assert(nn[i] == old_names[i - 1]);
                        assert(nn[j] == old_names[j - 1]);
                    }
                }
            }
            self.entries = entries;
            proof {
                let nn = self.names();
                assert(self.values() =~= old_values.insert(p as int, v));
                assert(nn[p as int] == k@);
                lemma_sorted_index(nn, p as int);
                assert forall|n: Seq<char>| n != k@ implies (#[trigger] nn.contains(n)
                    == old_names.contains(n)) by {
                    if nn.contains(n) {
                        let j = choose|j: int| 0 <= j < nn.len() && nn[j] == n;
                        if j < p {
                            assert(old_names[j] == n);
                        } else if j > p {
                            assert(old_names[j - 1] == n);
                        }
                    }
                    if old_names.contains(n) {
                        let j = choose|j: int| 0 <= j < old_names.len() && old_names[j] == n;
                        if j < p {
                            assert(nn[j] == n);
                        } else {
                            assert(nn[j + 1] == n);
                        }
                    }
                }
                assert forall|n: Seq<char>| n != k@ && old_names.contains(n) implies
                    #[trigger] self.value_of(n) == old_values[name_index(old_names, n)] by {
                    lemma_name_index(old_names, n);
                    let j = name_index(old_names, n);
                    lemma_sorted_index(old_names, j);
                    if j < p {
                        assert(nn[j] == n);
                        lemma_sorted_index(nn, j);
                    } else {
                        assert(nn[j + 1] == n);
                        lemma_sorted_index(nn, j + 1);
                    }
                }
            }
        }
    }

    /// The names in order, as strings.
    pub fn keys(&self) -> (r: Vec<String>)
        ensures
            r@.len() == self.names().len(),
            forall|i: int| 0 <= i < r@.len() ==> #[trigger] r@[i]@ == self.names()[i],
            sorted_names(self.names()),
    {
        proof {
            use_type_invariant(self);
        }
        let mut r: Vec<String> = Vec::new();
        let mut i: usize = 0;
        while i < self.entries.len()
            invariant
                i <= self.entries@.len(),
                r@.len() == i,
                forall|j: int| 0 <= j < i ==> #[trigger] r@[j]@ == self.names()[j],
            decreases self.entries.len() - i,
        {
            r.push(self.entries[i].0.clone());
            i = i + 1;
        }
        r
    }
}

} // verus!

verus! {

/// Last index in `e` whose name is `k`, or -1.
pub open spec fn last_name_index<V>(e: Seq<(String, V)>, k: Seq<char>) -> int
    decreases e.len(),
{
    if e.len() == 0 {
        -1
    } else if e.last().0@ == k {
        e.len() - 1
    } else {
        last_name_index(e.drop_last(), k)
    }
}

pub proof fn lemma_last_name_index<V>(e: Seq<(String, V)>, k: Seq<char>)
    ensures
        -1 <= last_name_index(e, k) < e.len(),
        last_name_index(e, k) >= 0 ==> e[last_name_index(e, k)].0@ == k,
        last_name_index(e, k) == -1 <==> forall|j: int| 0 <= j < e.len() ==> (#[trigger] e[j]).0@ != k,
    decreases e.len(),
{
    if e.len() > 0 && e.last().0@ != k {
        lemma_last_name_index(e.drop_last(), k);
        if last_name_index(e, k) == -1 {
            assert forall|j: int| 0 <= j < e.len() implies (#[trigger] e[j]).0@ != k by {
                if j < e.len() - 1 {
                    assert(e[j] == e.drop_last()[j]);
                }
            }
        }
    }
}

impl<V> NameMap<V> {
    /// A map holding the entries, a later entry replacing an earlier one with
    /// the same name.
    pub fn from_entries(entries: Vec<(String, V)>) -> (m: Self)
        ensures
            forall|k: Seq<char>| #[trigger] m.has(k) <==> last_name_index(entries@, k) >= 0,
            forall|k: Seq<char>|
                #[trigger] m.has(k) ==> m.value_of(k) == entries@[last_name_index(entries@, k)].1,
            sorted_names(m.names()),
    {
        let ghost all = entries@;
        let mut m: NameMap<V> = NameMap::new();
        let mut rest = entries;
        let ghost mut i: int = 0;
        let ghost total = all.len();
        assert(all.skip(0) =~= rest@);
        while rest.len() > 0
            invariant
                0 <= i <= total,
                total == all.len(),
                rest@ == all.skip(i as int),
                forall|k: Seq<char>| #[trigger] m.has(k) <==> last_name_index(all.take(i as int), k) >= 0,
                forall|k: Seq<char>| #[trigger] m.has(k) ==> m.value_of(k) == all.take(i as int)[last_name_index(all.take(i as int), k)].1,
            decreases rest.len(),
        {
            let (key, val) = rest.remove(0);
            let ghost kk = key@;
            proof {
                assert(all.take(i + 1).drop_last() =~= all.take(i as int));
                assert(all.take(i + 1).last() == all[i as int]);
                assert(all[i as int] == (key, val));
            }
            m.insert(key, val);
            proof {
                assert forall|k: Seq<char>| #[trigger] m.has(k) <==> last_name_index(all.take(i + 1), k) >= 0 by {
                    if k != kk {
                        lemma_last_name_index(all.take(i as int), k);
                    }
                }
                assert forall|k: Seq<char>| #[trigger] m.has(k) implies m.value_of(k) == all.take(i + 1)[last_name_index(all.take(i + 1), k)].1 by {
                    if k != kk {
                        lemma_last_name_index(all.take(i as int), k);
                        assert(all.take(i + 1)[last_name_index(all.take(i as int), k)] == all.take(i as int)[last_name_index(all.take(i as int), k)]);
                    }
                }
            }
            proof {
                i = i + 1;
            }
            assert(rest@ =~= all.skip(i as int));
        }
        assert(all.take(i as int) =~= all);
        proof {
            use_type_invariant(&m);
        }
        m
    }
}

} // verus!
