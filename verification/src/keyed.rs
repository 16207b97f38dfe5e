//! Lists of records kept in the order of their string keys, one record per
//! key: the shape of a `BTreeMap<String, _>` walked in key order.
use vstd::prelude::*;
use crate::text::chars_of;

verus! {

/// Lexicographic order of character sequences by code point. Since UTF-8
/// preserves code point order, this is the byte order in which `String`s
/// (and so the keys of a `BTreeMap<String, _>`) are ordered.
pub open spec fn key_less(a: Seq<char>, b: Seq<char>) -> bool
    decreases a.len(),
{
    if a.len() == 0 {
        b.len() > 0
    } else if b.len() == 0 {
        false
    } else if a[0] != b[0] {
        a[0] < b[0]
    } else {
        key_less(a.drop_first(), b.drop_first())
    }
}

pub proof fn lemma_key_less_irreflexive(a: Seq<char>)
    ensures
        !key_less(a, a),
    decreases a.len(),
{
    if a.len() > 0 {
        lemma_key_less_irreflexive(a.drop_first());
    }
}

pub proof fn lemma_key_less_asymmetric(a: Seq<char>, b: Seq<char>)
    ensures
        key_less(a, b) ==> !key_less(b, a),
    decreases a.len(),
{
    if a.len() > 0 && b.len() > 0 && a[0] == b[0] {
        lemma_key_less_asymmetric(a.drop_first(), b.drop_first());
    }
}

pub proof fn lemma_key_less_transitive(a: Seq<char>, b: Seq<char>, c: Seq<char>)
    requires
        key_less(a, b),
        key_less(b, c),
    ensures
        key_less(a, c),
    decreases a.len(),
{
    if a.len() > 0 && b.len() > 0 && c.len() > 0 && a[0] == b[0] && b[0] == c[0] {
        lemma_key_less_transitive(a.drop_first(), b.drop_first(), c.drop_first());
    }
}

pub proof fn lemma_key_less_total(a: Seq<char>, b: Seq<char>)
    ensures
        a != b ==> key_less(a, b) || key_less(b, a),
    decreases a.len(),
{
    if a.len() > 0 && b.len() > 0 && a[0] == b[0] {
        lemma_key_less_total(a.drop_first(), b.drop_first());
        if a.drop_first() == b.drop_first() {
            assert(a =~= seq![a[0]] + a.drop_first());
            assert(b =~= seq![b[0]] + b.drop_first());
        }
    } else if a.len() == 0 && b.len() == 0 {
        assert(a =~= b);
    }
}

/// Whether `a` comes before `b` in key order.
pub fn key_lt(a: &String, b: &String) -> (r: bool)
    ensures
        r == key_less(a@, b@),
{
    let x = chars_of(a.as_str());
    let y = chars_of(b.as_str());
    let mut i: usize = 0;
    assert(x@.skip(0) =~= x@);
    assert(y@.skip(0) =~= y@);
    while i < x.len() && i < y.len() && x[i] == y[i]
        invariant
            i <= x@.len(),
            i <= y@.len(),
            x@ == a@,
            y@ == b@,
            key_less(a@, b@) == key_less(x@.skip(i as int), y@.skip(i as int)),
        decreases x.len() - i,
    {
        assert(x@.skip(i as int).drop_first() =~= x@.skip(i + 1));
        assert(y@.skip(i as int).drop_first() =~= y@.skip(i + 1));
        i += 1;
    }
    if i == x.len() {
        assert(x@.skip(i as int).len() == 0);
        assert(key_less(a@, b@) == (y@.skip(i as int).len() > 0));
        i < y.len()
    } else if i == y.len() {
        assert(y@.skip(i as int).len() == 0);
        false
    } else {
        assert(x@.skip(i as int)[0] == x@[i as int]);
        assert(y@.skip(i as int)[0] == y@[i as int]);
        assert(x@[i as int] != y@[i as int]);
        let c1 = x[i];
        let c2 = y[i];
        let r = c1 < c2;
        r
    }
}

/// A record with a string key.
pub trait Keyed {
    spec fn key_view(&self) -> Seq<char>;

    fn key(&self) -> (r: &String)
        ensures
            r@ == self.key_view(),
    ;
}

/// Keys strictly increasing along the sequence: sorted, and no key twice.
pub open spec fn keys_sorted<T: Keyed>(s: Seq<T>) -> bool {
    forall|i: int, j: int|
        0 <= i < j < s.len() ==> key_less(#[trigger] s[i].key_view(), #[trigger] s[j].key_view())
}

pub open spec fn has_key<T: Keyed>(s: Seq<T>, k: Seq<char>) -> bool {
    exists|i: int| 0 <= i < s.len() && #[trigger] s[i].key_view() == k
}

/// An index of `s` whose record has key `k`.
pub open spec fn index_of<T: Keyed>(s: Seq<T>, k: Seq<char>) -> int {
    choose|i: int| 0 <= i < s.len() && #[trigger] s[i].key_view() == k
}

/// The record of `s` with key `k`.
pub open spec fn record_for<T: Keyed>(s: Seq<T>, k: Seq<char>) -> T {
    s[index_of(s, k)]
}

/// The records of `s`, found by key.
pub open spec fn as_map<T: Keyed>(s: Seq<T>) -> Map<Seq<char>, T> {
    Map::new(|k: Seq<char>| has_key(s, k), |k: Seq<char>| record_for(s, k))
}

/// In a key-sorted sequence, the record at `i` is the one found by its key.
pub proof fn lemma_record_at<T: Keyed>(s: Seq<T>, i: int)
    requires
        keys_sorted(s),
        0 <= i < s.len(),
    ensures
        has_key(s, s[i].key_view()),
        record_for(s, s[i].key_view()) == s[i],
        as_map(s).contains_key(s[i].key_view()),
        as_map(s)[s[i].key_view()] == s[i],
{
    let k = s[i].key_view();
    assert(has_key(s, k));
    let j = index_of(s, k);
    if j < i {
        assert(key_less(s[j].key_view(), s[i].key_view()));
        lemma_key_less_irreflexive(k);
    } else if i < j {
        assert(key_less(s[i].key_view(), s[j].key_view()));
        lemma_key_less_irreflexive(k);
    }
}

proof fn lemma_has_key_drop_first<T: Keyed>(a: Seq<T>, k: Seq<char>)
    requires
        keys_sorted(a),
        a.len() > 0,
    ensures
        has_key(a.drop_first(), k) <==> (has_key(a, k) && k != a[0].key_view()),
{
    let t = a.drop_first();
    if has_key(t, k) {
        let j = choose|j: int| 0 <= j < t.len() && #[trigger] t[j].key_view() == k;
        assert(a[j + 1].key_view() == k);
        assert(key_less(a[0].key_view(), a[j + 1].key_view()));
        lemma_key_less_irreflexive(k);
    }
    if has_key(a, k) && k != a[0].key_view() {
        let j = choose|j: int| 0 <= j < a.len() && #[trigger] a[j].key_view() == k;
        assert(j > 0);
        assert(t[j - 1].key_view() == k);
    }
}

/// Two key-sorted sequences with the same keys list them in the same order.
pub proof fn lemma_same_keys_same_order<T: Keyed>(a: Seq<T>, b: Seq<T>)
    requires
        keys_sorted(a),
        keys_sorted(b),
        forall|k: Seq<char>| has_key(a, k) <==> has_key(b, k),
    ensures
        a.len() == b.len(),
        forall|i: int| 0 <= i < a.len() ==> #[trigger] a[i].key_view() == b[i].key_view(),
    decreases a.len(),
{
    if a.len() == 0 {
        if b.len() > 0 {
            assert(has_key(b, b[0].key_view()));
        }
    } else if b.len() == 0 {
        assert(has_key(a, a[0].key_view()));
    } else {
        let ka = a[0].key_view();
        let kb = b[0].key_view();
        assert(has_key(a, ka));
        assert(has_key(b, kb));
        if ka != kb {
            let j = choose|j: int| 0 <= j < b.len() && #[trigger] b[j].key_view() == ka;
            let m = choose|m: int| 0 <= m < a.len() && #[trigger] a[m].key_view() == kb;
            assert(j > 0);
            assert(m > 0);
            assert(key_less(kb, ka));
            assert(key_less(ka, kb));
            lemma_key_less_asymmetric(ka, kb);
        }
        assert forall|k: Seq<char>| has_key(a.drop_first(), k) <==> has_key(b.drop_first(), k) by {
            lemma_has_key_drop_first(a, k);
            lemma_has_key_drop_first(b, k);
        }
        assert(keys_sorted(a.drop_first()));
        assert(keys_sorted(b.drop_first()));
        lemma_same_keys_same_order(a.drop_first(), b.drop_first());
        assert forall|i: int| 0 <= i < a.len() implies #[trigger] a[i].key_view()
            == b[i].key_view() by {
            if i > 0 {
                assert(a.drop_first()[i - 1].key_view() == b.drop_first()[i - 1].key_view());
            }
        }
    }
}

/// Records kept sorted by key, at most one per key.
pub struct KeyedList<T> {
    items: Vec<T>,
}

impl<T> View for KeyedList<T> {
    type V = Seq<T>;

    closed spec fn view(&self) -> Seq<T> {
        self.items@
    }
}

impl<T: Keyed> KeyedList<T> {
    pub open spec fn wf(&self) -> bool {
        keys_sorted(self@)
    }

    /// The records found by key.
    pub open spec fn map(&self) -> Map<Seq<char>, T> {
        as_map(self@)
    }

    /// An empty list.
    pub fn new() -> (r: Self)
        ensures
            r.wf(),
            r@ == Seq::<T>::empty(),
    {
        KeyedList { items: Vec::new() }
    }

    /// The records in key order.
    pub fn items(&self) -> (r: &Vec<T>)
        ensures
            r@ == self@,
    {
        &self.items
    }

    /// The number of records.
    pub fn len(&self) -> (r: usize)
        ensures
            r == self@.len(),
    {
        self.items.len()
    }

    /// Where the key `k` stands: `Ok(i)` when record `i` has it, else
    /// `Err(p)`, the place where a record with that key belongs.
    pub fn position(&self, k: &String) -> (r: Result<usize, usize>)
        requires
            self.wf(),
        ensures
            r matches Ok(i) ==> i < self@.len() && self@[i as int].key_view() == k@,
            r matches Err(p) ==> p <= self@.len() && (forall|i: int|
                0 <= i < p ==> key_less(#[trigger] self@[i].key_view(), k@)) && (forall|i: int|
                p <= i < self@.len() ==> key_less(k@, #[trigger] self@[i].key_view())),
    {
        let mut i: usize = 0;
        while i < self.items.len() && key_lt(self.items[i].key(), k)
            invariant
                i <= self.items@.len(),
                self.wf(),
                forall|j: int| 0 <= j < i ==> key_less(#[trigger] self@[j].key_view(), k@),
            decreases self.items.len() - i,
        {
            i += 1;
        }
        if i < self.items.len() && str_equal(self.items[i].key(), k) {
            return Ok(i);
        }
        proof {
            if i < self@.len() {
                lemma_key_less_total(self@[i as int].key_view(), k@);
                assert forall|j: int| i <= j < self@.len() implies key_less(
                    k@,
                    #[trigger] self@[j].key_view(),
                ) by {
                    if j > i {
                        lemma_key_less_transitive(
                            k@,
                            self@[i as int].key_view(),
                            self@[j].key_view(),
                        );
                    }
                }
            }
        }
        Err(i)
    }

    /// The record with key `k`, if any.
    pub fn get(&self, k: &String) -> (r: Option<&T>)
        requires
            self.wf(),
        ensures
            r is Some <==> self.map().contains_key(k@),
            r matches Some(x) ==> *x == self.map()[k@],
    {
        match self.position(k) {
            Ok(i) => {
                proof {
                    lemma_record_at(self@, i as int);
                }
                Some(&self.items[i])
            },
            Err(p) => {
                proof {
                    if has_key(self@, k@) {
                        let j = choose|j: int| 0 <= j < self@.len() && #[trigger] self@[j].key_view() == k@;
                        lemma_key_less_irreflexive(k@);
                        if j < p {
                            assert(key_less(self@[j].key_view(), k@));
                        } else {
                            assert(key_less(k@, self@[j].key_view()));
                        }
                    }
                }
                None
            },
        }
    }

    /// Adds `item`, replacing the record with the same key if there is one.
    pub fn upsert(&mut self, item: T)
        requires
            old(self).wf(),
        ensures
            final(self).wf(),
            final(self).map() == old(self).map().insert(item.key_view(), item),
    {
        let ghost k = item.key_view();
        let ghost it = item;
        let ghost s0 = self@;
        match self.position(item.key()) {
            Ok(i) => {
                self.items.set(i, item);
                let ghost s1 = self@;
                assert(s1 == s0.update(i as int, it));
                assert forall|a: int, b: int| 0 <= a < b < s1.len() implies key_less(
                    #[trigger] s1[a].key_view(),
                    #[trigger] s1[b].key_view(),
                ) by {
                    assert(s0[a].key_view() == s1[a].key_view() || a == i);
                    assert(s0[b].key_view() == s1[b].key_view() || b == i);
                    assert(key_less(s0[a].key_view(), s0[b].key_view()));
                }
                proof {
                    self.lemma_map_after_replace(s0, i as int, it);
                }
            },
            Err(p) => {
                proof {
                    if has_key(s0, k) {
                        let j = choose|j: int| 0 <= j < s0.len() && #[trigger] s0[j].key_view() == k;
                        lemma_key_less_irreflexive(k);
                        if j < p {
                            assert(key_less(s0[j].key_view(), k));
                        } else {
                            assert(key_less(k, s0[j].key_view()));
                        }
                    }
                }
                self.items.insert(p, item);
                let ghost s1 = self@;
                assert(s1 =~= s0.insert(p as int, it));
                assert forall|a: int, b: int| 0 <= a < b < s1.len() implies key_less(
                    #[trigger] s1[a].key_view(),
                    #[trigger] s1[b].key_view(),
                ) by {
                    if a < p && b < p {
                        assert(s1[a] == s0[a] && s1[b] == s0[b]);
                    } else if a < p && b == p {
                        assert(s1[a] == s0[a]);
                    } else if a < p {
                        assert(s1[a] == s0[a] && s1[b] == s0[b - 1]);
                        lemma_key_less_transitive(s0[a].key_view(), k, s0[b - 1].key_view());
                    } else if a == p {
                        assert(s1[b] == s0[b - 1]);
                    } else {
                        assert(s1[a] == s0[a - 1] && s1[b] == s0[b - 1]);
                    }
                }
                proof {
                    self.lemma_map_after_insert(s0, p as int, it);
                }
            },
        }
    }

    proof fn lemma_map_after_replace(&self, s0: Seq<T>, i: int, item: T)
        requires
            keys_sorted(s0),
            keys_sorted(self@),
            0 <= i < s0.len(),
            s0[i].key_view() == item.key_view(),
            self@ == s0.update(i, item),
        ensures
            as_map(self@) == as_map(s0).insert(item.key_view(), item),
    {
        let s1 = self@;
        let k = item.key_view();
        lemma_record_at(s1, i);
        assert forall|q: Seq<char>| #[trigger] as_map(s1).contains_key(q) == as_map(s0).insert(
            k,
            item,
        ).contains_key(q) by {
            if has_key(s1, q) {
                let j = choose|j: int| 0 <= j < s1.len() && #[trigger] s1[j].key_view() == q;
                assert(s0[j].key_view() == q || j == i);
            }
            if has_key(s0, q) {
                let j = choose|j: int| 0 <= j < s0.len() && #[trigger] s0[j].key_view() == q;
                assert(s1[j].key_view() == q || j == i);
            }
        }
        assert forall|q: Seq<char>| #[trigger] as_map(s1).contains_key(q) implies as_map(s1)[q]
            == as_map(s0).insert(k, item)[q] by {
            let j = choose|j: int| 0 <= j < s1.len() && #[trigger] s1[j].key_view() == q;
            lemma_record_at(s1, j);
            if j != i {
                assert(s0[j] == s1[j]);
                lemma_record_at(s0, j);
            }
        }
        assert(as_map(s1) =~= as_map(s0).insert(k, item));
    }

    proof fn lemma_map_after_insert(&self, s0: Seq<T>, p: int, item: T)
        requires
            keys_sorted(s0),
            keys_sorted(self@),
            0 <= p <= s0.len(),
            self@ == s0.insert(p, item),
            !has_key(s0, item.key_view()),
        ensures
            as_map(self@) == as_map(s0).insert(item.key_view(), item),
    {
        let s1 = self@;
        let k = item.key_view();
        lemma_record_at(s1, p);
        assert forall|q: Seq<char>| #[trigger] as_map(s1).contains_key(q) == as_map(s0).insert(
            k,
            item,
        ).contains_key(q) by {
            if has_key(s1, q) {
                let j = choose|j: int| 0 <= j < s1.len() && #[trigger] s1[j].key_view() == q;
                if j < p {
                    assert(s0[j] == s1[j]);
                } else if j > p {
                    assert(s0[j - 1] == s1[j]);
                }
            }
            if has_key(s0, q) {
                let j = choose|j: int| 0 <= j < s0.len() && #[trigger] s0[j].key_view() == q;
                if j < p {
                    assert(s0[j] == s1[j]);
                } else {
                    assert(s0[j] == s1[j + 1]);
                }
            }
        }
        assert forall|q: Seq<char>| #[trigger] as_map(s1).contains_key(q) implies as_map(s1)[q]
            == as_map(s0).insert(k, item)[q] by {
            let j = choose|j: int| 0 <= j < s1.len() && #[trigger] s1[j].key_view() == q;
            lemma_record_at(s1, j);
            if j < p {
                assert(s0[j] == s1[j]);
                lemma_record_at(s0, j);
            } else if j > p {
                assert(s0[j - 1] == s1[j]);
                lemma_record_at(s0, j - 1);
            }
        }
        assert(as_map(s1) =~= as_map(s0).insert(k, item));
    }

    /// Takes out the record with key `k`, if there is one.
    pub fn remove(&mut self, k: &String) -> (r: Option<T>)
        requires
            old(self).wf(),
        ensures
            final(self).wf(),
            final(self).map() == old(self).map().remove(k@),
            r is Some <==> old(self).map().contains_key(k@),
            r matches Some(x) ==> x == old(self).map()[k@],
    {
        let ghost s0 = self@;
        match self.position(k) {
            Ok(i) => {
                proof {
                    lemma_record_at(s0, i as int);
                }
                let x = self.items.remove(i);
                let ghost s1 = self@;
                assert(s1 =~= s0.remove(i as int));
                assert forall|a: int, b: int| 0 <= a < b < s1.len() implies key_less(
                    #[trigger] s1[a].key_view(),
                    #[trigger] s1[b].key_view(),
                ) by {
                    if a < i && b < i {
                        assert(s1[a] == s0[a] && s1[b] == s0[b]);
                    } else if a < i {
                        assert(s1[a] == s0[a] && s1[b] == s0[b + 1]);
                    } else {
                        assert(s1[a] == s0[a + 1] && s1[b] == s0[b + 1]);
                    }
                }
                proof {
                    self.lemma_map_after_remove(s0, i as int);
                }
                Some(x)
            },
            Err(p) => {
                proof {
                    if has_key(s0, k@) {
                        let j = choose|j: int| 0 <= j < s0.len() && #[trigger] s0[j].key_view() == k@;
                        lemma_key_less_irreflexive(k@);
                        if j < p {
                            assert(key_less(s0[j].key_view(), k@));
                        } else {
                            assert(key_less(k@, s0[j].key_view()));
                        }
                    }
                    assert(as_map(s0).remove(k@) =~= as_map(s0));
                }
                None
            },
        }
    }

    proof fn lemma_map_after_remove(&self, s0: Seq<T>, i: int)
        requires
            keys_sorted(s0),
            keys_sorted(self@),
            0 <= i < s0.len(),
            self@ == s0.remove(i),
        ensures
            as_map(self@) == as_map(s0).remove(s0[i].key_view()),
    {
        let s1 = self@;
        let k = s0[i].key_view();
        assert forall|q: Seq<char>| #[trigger] as_map(s1).contains_key(q) == as_map(s0).remove(
            k,
        ).contains_key(q) by {
            if has_key(s1, q) {
                let j = choose|j: int| 0 <= j < s1.len() && #[trigger] s1[j].key_view() == q;
                if j < i {
                    assert(s0[j] == s1[j]);
                    assert(key_less(s0[j].key_view(), k));
                    lemma_key_less_irreflexive(k);
                } else {
                    assert(s0[j + 1] == s1[j]);
                    assert(key_less(k, s0[j + 1].key_view()));
                    lemma_key_less_irreflexive(k);
                }
            }
            if has_key(s0, q) && q != k {
                let j = choose|j: int| 0 <= j < s0.len() && #[trigger] s0[j].key_view() == q;
                if j < i {
                    assert(s0[j] == s1[j]);
                } else {
                    assert(j != i);
                    assert(s0[j] == s1[j - 1]);
                }
            }
        }
        assert forall|q: Seq<char>| #[trigger] as_map(s1).contains_key(q) implies as_map(s1)[q]
            == as_map(s0).remove(k)[q] by {
            let j = choose|j: int| 0 <= j < s1.len() && #[trigger] s1[j].key_view() == q;
            lemma_record_at(s1, j);
            if j < i {
                assert(s0[j] == s1[j]);
                lemma_record_at(s0, j);
            } else {
                assert(s0[j + 1] == s1[j]);
                lemma_record_at(s0, j + 1);
            }
        }
        assert(as_map(s1) =~= as_map(s0).remove(k));
    }

    /// Removes every record.
    pub fn clear(&mut self)
        ensures
            final(self).wf(),
            final(self)@ == Seq::<T>::empty(),
    {
        self.items = Vec::new();
    }
}

/// Whether two strings hold the same characters.
pub fn str_equal(a: &String, b: &String) -> (r: bool)
    ensures
        r == (a@ == b@),
{
    a.eq(b)
}

} // verus!
