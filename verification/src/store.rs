use vstd::prelude::*;

verus! {

/// Strict byte-lexicographic order on keys: the iteration order of every
/// persisted bucket, and the order pagination answers in.
pub open spec fn lex_lt(a: Seq<u8>, b: Seq<u8>) -> bool
    decreases a.len(),
{
    if b.len() == 0 {
        false
    } else if a.len() == 0 {
        true
    } else if a[0] < b[0] {
        true
    } else if a[0] > b[0] {
        false
    } else {
        lex_lt(a.skip(1), b.skip(1))
    }
}

pub proof fn lemma_lex_irrefl(a: Seq<u8>)
    ensures
        !lex_lt(a, a),
    decreases a.len(),
{
    if a.len() > 0 {
        lemma_lex_irrefl(a.skip(1));
    }
}

pub proof fn lemma_lex_connex(a: Seq<u8>, b: Seq<u8>)
    ensures
        lex_lt(a, b) || lex_lt(b, a) || a == b,
    decreases a.len(),
{
    if b.len() == 0 {
        if a.len() == 0 {
            assert(a =~= b);
        }
    } else if a.len() == 0 {
    } else if a[0] < b[0] {
    } else if a[0] > b[0] {
    } else {
        lemma_lex_connex(a.skip(1), b.skip(1));
        if !lex_lt(a, b) && !lex_lt(b, a) {
            assert(a.skip(1) == b.skip(1));
            assert(a.len() == b.len());
            assert forall|k: int| 0 <= k < a.len() implies a[k] == b[k] by {
                if k > 0 {
                    assert(a.skip(1)[k - 1] == a[k]);
                    assert(b.skip(1)[k - 1] == b[k]);
                }
            };
            assert(a =~= b);
        }
    }
}

pub proof fn lemma_lex_trans(a: Seq<u8>, b: Seq<u8>, c: Seq<u8>)
    requires
        lex_lt(a, b),
        lex_lt(b, c),
    ensures
        lex_lt(a, c),
    decreases a.len(),
{
    if a.len() == 0 {
    } else {
        if a[0] == b[0] && b[0] == c[0] {
            lemma_lex_trans(a.skip(1), b.skip(1), c.skip(1));
        }
    }
}

/// Cutting an equal prefix off both keys does not change their order.
pub proof fn lemma_lex_skip(a: Seq<u8>, b: Seq<u8>, i: int)
    requires
        0 <= i <= a.len(),
        i <= b.len(),
        forall|j: int| 0 <= j < i ==> a[j] == b[j],
    ensures
        lex_lt(a, b) == lex_lt(a.skip(i), b.skip(i)),
    decreases i,
{
    if i > 0 {
        assert(a[0] == b[0]);
        lemma_lex_skip(a.skip(1), b.skip(1), i - 1);
        assert(a.skip(1).skip(i - 1) =~= a.skip(i));
        assert(b.skip(1).skip(i - 1) =~= b.skip(i));
    } else {
        assert(a.skip(0) =~= a);
        assert(b.skip(0) =~= b);
    }
}

/// Exact byte-lexicographic comparison, the executable side of `lex_lt`.
pub fn bytes_lt(a: &Vec<u8>, b: &Vec<u8>) -> (r: bool)
    ensures
        r == lex_lt(a@, b@),
{
    let alen = a.len();
    let blen = b.len();
    let mut i: usize = 0;
    while i < alen && i < blen
        invariant
            i <= alen,
            i <= blen,
            alen == a@.len(),
            blen == b@.len(),
            forall|j: int| 0 <= j < i ==> a@[j] == b@[j],
        decreases alen - i,
    {
        let x = a[i];
        let y = b[i];
        if x < y {
            proof {
                lemma_lex_skip(a@, b@, i as int);
                assert(a@.skip(i as int)[0] == a@[i as int]);
                assert(b@.skip(i as int)[0] == b@[i as int]);
            }
            return true;
        }
        if x > y {
            proof {
                lemma_lex_skip(a@, b@, i as int);
                assert(a@.skip(i as int)[0] == a@[i as int]);
                assert(b@.skip(i as int)[0] == b@[i as int]);
            }
            return false;
        }
        i = i + 1;
    }
    proof {
        lemma_lex_skip(a@, b@, i as int);
    }
    alen < blen
}

/// Exact byte equality.
pub fn bytes_eq(a: &Vec<u8>, b: &Vec<u8>) -> (r: bool)
    ensures
        r == (a@ == b@),
{
    let alen = a.len();
    if alen != b.len() {
        return false;
    }
    let mut i: usize = 0;
    while i < alen
        invariant
            i <= alen,
            alen == a@.len(),
            alen == b@.len(),
            forall|j: int| 0 <= j < i ==> a@[j] == b@[j],
        decreases alen - i,
    {
        if a[i] != b[i] {
            return false;
        }
        i = i + 1;
    }
    proof {
        assert(a@ =~= b@);
    }
    true
}

/// A fresh owned copy of a byte key.
pub fn copy_bytes(a: &Vec<u8>) -> (r: Vec<u8>)
    ensures
        r@ == a@,
{
    let mut out: Vec<u8> = Vec::new();
    let alen = a.len();
    let mut i: usize = 0;
    while i < alen
        invariant
            i <= alen,
            alen == a@.len(),
            out@.len() == i,
            forall|j: int| 0 <= j < i ==> out@[j] == a@[j],
        decreases alen - i,
    {
        out.push(a[i]);
        i = i + 1;
    }
    proof {
        assert(out@ =~= a@);
    }
    out
}

/// Entries stand in strictly ascending key order, so every key occurs once.
pub open spec fn keys_sorted<V>(s: Seq<(Seq<u8>, V)>) -> bool {
    forall|i: int, j: int| 0 <= i < j < s.len() ==> lex_lt(#[trigger] s[i].0, #[trigger] s[j].0)
}

pub open spec fn has_key<V>(s: Seq<(Seq<u8>, V)>, k: Seq<u8>) -> bool {
    exists|i: int| 0 <= i < s.len() && (#[trigger] s[i].0) == k
}

/// A typed key-value bucket with byte-string keys, persisted in ascending
/// byte-lexicographic key order. The view is the entry sequence in that order.
pub struct Bucket<V> {
    entries: Vec<(Vec<u8>, V)>,
}

impl<V> View for Bucket<V> {
    type V = Seq<(Seq<u8>, V)>;

    closed spec fn view(&self) -> Seq<(Seq<u8>, V)> {
        self.entries@.map_values(|e: (Vec<u8>, V)| (e.0@, e.1))
    }
}

impl<V> Bucket<V> {
    pub fn new() -> (b: Self)
        ensures
            b@.len() == 0,
            keys_sorted(b@),
    {
        Bucket { entries: Vec::new() }
    }

    pub fn len(&self) -> (n: usize)
        ensures
            n == self@.len(),
    {
        self.entries.len()
    }

    pub fn key_at(&self, i: usize) -> (k: &Vec<u8>)
        requires
            i < self@.len(),
        ensures
            k@ == self@[i as int].0,
    {
        &self.entries[i].0
    }

    pub fn val_at(&self, i: usize) -> (v: &V)
        requires
            i < self@.len(),
        ensures
            *v == self@[i as int].1,
    {
        &self.entries[i].1
    }

    pub fn get(&self, key: &Vec<u8>) -> (r: Option<&V>)
        ensures
            match r {
                Some(v) => exists|i: int|
                    0 <= i < self@.len() && (#[trigger] self@[i]).0 == key@ && self@[i].1 == *v,
                None => !has_key(self@, key@),
            },
    {
        let n = self.entries.len();
        let mut i: usize = 0;
        while i < n
            invariant
                i <= n,
                n == self@.len(),
                forall|j: int| 0 <= j < i ==> (#[trigger] self@[j]).0 != key@,
            decreases n - i,
        {
            if bytes_eq(&self.entries[i].0, key) {
                proof {
                    assert(self@[i as int] == (self.entries@[i as int].0@, self.entries@[i as int].1));
                }
                return Some(&self.entries[i].1);
            }
            i = i + 1;
        }
        None
    }

    pub fn contains(&self, key: &Vec<u8>) -> (r: bool)
        ensures
            r == has_key(self@, key@),
    {
        match self.get(key) {
            Some(_) => true,
            None => false,
        }
    }

    /// Insert or replace under `key`, keeping ascending key order.
    pub fn save(&mut self, key: Vec<u8>, value: V)
        requires
            keys_sorted(old(self)@),
        ensures
            keys_sorted(final(self)@),
            has_key(final(self)@, key@),
            has_key(old(self)@, key@) ==> exists|i: int|
                0 <= i < old(self)@.len() && (#[trigger] old(self)@[i]).0 == key@ && final(self)@
                    =~= old(self)@.update(i, (key@, value)),
            !has_key(old(self)@, key@) ==> exists|i: int|
                0 <= i <= old(self)@.len() && (forall|j: int|
                    0 <= j < i ==> lex_lt(#[trigger] old(self)@[j].0, key@)) && (forall|j: int|
                    i <= j < old(self)@.len() ==> lex_lt(key@, #[trigger] old(self)@[j].0))
                    && final(self)@ =~= old(self)@.insert(i, (key@, value)),
    {
        let ghost old_view = self@;
        let n = self.entries.len();
        let mut i: usize = 0;
        while i < n && bytes_lt(&self.entries[i].0, &key)
            invariant
                i <= n,
                n == self@.len(),
                *self == *old(self),
                forall|j: int| 0 <= j < i ==> lex_lt((#[trigger] self@[j]).0, key@),
            decreases n - i,
        {
            proof {
                assert(self@[i as int].0 == self.entries@[i as int].0@);
            }
            i = i + 1;
        }
        // i is the first index whose key is not below `key`
        let is_match: bool = if i < n {
            bytes_eq(&self.entries[i].0, &key)
        } else {
            false
        };
        if is_match {
            self.entries.remove(i);
            self.entries.insert(i, (key, value));
            proof {
                assert(self@ =~= old_view.update(i as int, (old_view[i as int].0, value)));
                assert(forall|p: int, q: int|
                    0 <= p < q < self@.len() ==> lex_lt(
                        #[trigger] self@[p].0,
                        #[trigger] self@[q].0,
                    )) by {
                    assert(forall|p: int|
                        0 <= p < self@.len() ==> (#[trigger] self@[p]).0 == old_view[p].0);
                };
                assert(self@[i as int].0 == key@);
                assert(has_key(self@, key@));
            }
        } else {
            proof {
                if i < n {
                    assert(self@[i as int].0 == self.entries@[i as int].0@);
                    lemma_lex_connex(self@[i as int].0, key@);
                    assert(lex_lt(key@, self@[i as int].0));
                    assert(forall|j: int|
                        i <= j < n ==> lex_lt(key@, (#[trigger] self@[j]).0)) by {
                        assert forall|j: int| i < j < n implies lex_lt(
                            key@,
                            (#[trigger] self@[j]).0,
                        ) by {
                            lemma_lex_trans(key@, self@[i as int].0, self@[j].0);
                        };
                    };
                }
                assert(!has_key(old_view, key@)) by {
                    assert forall|j: int| 0 <= j < n implies (#[trigger] old_view[j]).0 != key@ by {
                        if j < i {
                            lemma_lex_irrefl(key@);
                            if old_view[j].0 == key@ {
                                assert(lex_lt(key@, key@));
                            }
                        } else {
                            lemma_lex_irrefl(key@);
                            if old_view[j].0 == key@ {
                                assert(lex_lt(key@, key@));
                            }
                        }
                    };
                };
            }
            self.entries.insert(i, (key, value));
            proof {
                assert(self@ =~= old_view.insert(i as int, (key@, value)));
                assert(forall|p: int, q: int|
                    0 <= p < q < self@.len() ==> lex_lt(
                        #[trigger] self@[p].0,
                        #[trigger] self@[q].0,
                    )) by {
                    assert(forall|p: int| 0 <= p < i ==> (#[trigger] self@[p]).0 == old_view[p].0);
                    assert(self@[i as int].0 == key@);
                    assert(forall|p: int|
                        i < p < self@.len() ==> (#[trigger] self@[p]).0 == old_view[p - 1].0);
                };
                assert(self@[i as int].0 == key@);
                assert(has_key(self@, key@));
            }
        }
    }

    /// The index of the first entry whose key is strictly greater than
    /// `start`: where a page that starts strictly after `start` begins.
    pub fn first_index_after(&self, start: &Vec<u8>) -> (lo: usize)
        requires
            keys_sorted(self@),
        ensures
            lo <= self@.len(),
            forall|j: int| 0 <= j < lo ==> !lex_lt(start@, (#[trigger] self@[j]).0),
            forall|j: int| lo <= j < self@.len() ==> lex_lt(start@, (#[trigger] self@[j]).0),
    {
        let n = self.entries.len();
        let mut i: usize = 0;
        while i < n
            invariant
                i <= n,
                n == self@.len(),
                keys_sorted(self@),
                forall|j: int| 0 <= j < i ==> !lex_lt(start@, (#[trigger] self@[j]).0),
            decreases n - i,
        {
            if bytes_lt(start, &self.entries[i].0) {
                proof {
                    assert forall|j: int| i <= j < n implies lex_lt(
                        start@,
                        (#[trigger] self@[j]).0,
                    ) by {
                        if j > i {
                            lemma_lex_trans(start@, self@[i as int].0, self@[j].0);
                        }
                    };
                }
                return i;
            }
            i = i + 1;
        }
        i
    }
}

/// The number of entries one page answers: the requested limit, default 10,
/// capped at 30, and never more than what remains.
pub open spec fn page_len(limit: Option<u32>, remaining: int) -> int {
    let lim = match limit {
        Option::Some(l) => if l <= 30 { l as int } else { 30 },
        Option::None => 10,
    };
    if lim <= remaining {
        lim
    } else {
        remaining
    }
}

/// `lo` is where a page answering "strictly after `start`" begins: at the
/// front when no start key is given, else at the first key above `start`.
pub open spec fn page_start_ok<V>(s: Seq<(Seq<u8>, V)>, start: Option<Seq<u8>>, lo: int) -> bool {
    &&& 0 <= lo <= s.len()
    &&& match start {
        Option::None => lo == 0,
        Option::Some(k) => (forall|j: int| 0 <= j < lo ==> !lex_lt(k, (#[trigger] s[j]).0)) && (
        forall|j: int| lo <= j < s.len() ==> lex_lt(k, (#[trigger] s[j]).0)),
    }
}

/// Pagination law: in a sorted bucket, the page that starts strictly after
/// the key at index `i` begins exactly at index `i + 1` — so successive pages
/// chained by "start after the last returned key" walk the entries in
/// ascending key order without gap or overlap.
pub proof fn lemma_page_after_key<V>(s: Seq<(Seq<u8>, V)>, i: int, lo: int)
    requires
        keys_sorted(s),
        0 <= i < s.len(),
        page_start_ok(s, Option::Some(s[i].0), lo),
    ensures
        lo == i + 1,
{
    lemma_lex_irrefl(s[i].0);
    assert(!(lo <= i));
    if lo > i + 1 {
        assert(lex_lt(s[i].0, s[i + 1].0));
    }
}



} // verus!
