//! Adaptive keyed collection used as the route table of every protocol
//! router: a mapping from string match keys to handler values, built once
//! from a sequence of pairs and never mutated afterwards.
//!
//! Below a fixed cutoff the collection is a plain ordered sequence of pairs
//! searched linearly; above it, a hash index from a 64-bit key hash to the
//! positions bearing that hash is built once at construction time.  The
//! representation is invisible to callers: every operation is specified
//! against the abstract map view alone.

use crate::text::string_eq;
use std::collections::HashMap;
use vstd::prelude::*;

verus! {

broadcast use vstd::std_specs::hash::group_hash_axioms, vstd::std_specs::vec::axiom_spec_len;

/// Entry count above which a freshly built collection carries a hash index
/// instead of being scanned linearly.  A performance tuning knob, not a
/// correctness-affecting value.
pub const ROUTE_CUTOFF: usize = 15;

/// Offset basis of the 64-bit FNV-1a hash.
pub const FNV_OFFSET_BASIS: u64 = 0xcbf29ce484222325;

/// Prime of the 64-bit FNV-1a hash.
pub const FNV_PRIME: u64 = 0x100000001b3;

/// 64-bit FNV-1a over a byte sequence.
pub open spec fn fnv1a(bytes: Seq<u8>) -> u64
    decreases bytes.len(),
{
    if bytes.len() == 0 {
        FNV_OFFSET_BASIS
    } else {
        vstd::wrapping::u64_specs::wrapping_mul(
            fnv1a(bytes.drop_last()) ^ (bytes.last() as u64),
            FNV_PRIME,
        )
    }
}

/// The hash under which a match key is indexed: FNV-1a of its UTF-8 bytes.
pub open spec fn key_hash(k: Seq<char>) -> u64 {
    fnv1a(vstd::utf8::encode_utf8(k))
}

/// No two pairs share a key.
pub open spec fn distinct_keys<V>(s: Seq<(String, V)>) -> bool {
    forall|i: int, j: int| 0 <= i < j < s.len() ==> (#[trigger] s[i].0@) != (#[trigger] s[j].0@)
}

/// The map described by a pair sequence, later pairs overwriting earlier
/// ones (last-write-wins).
pub open spec fn pairs_map<V>(s: Seq<(String, V)>) -> Map<Seq<char>, V>
    decreases s.len(),
{
    if s.len() == 0 {
        Map::empty()
    } else {
        pairs_map(s.drop_last()).insert(s.last().0@, s.last().1)
    }
}

/// Every position stored in bucket `b` is a valid position of `s` whose key
/// hashes to `h`.
spec fn bucket_ok<V>(s: Seq<(String, V)>, h: u64, b: Seq<usize>) -> bool {
    forall|p: int|
        0 <= p < b.len() ==> (#[trigger] b[p]) < s.len() && key_hash(s[b[p] as int].0@) == h
}

/// The hash index is sound for all of `s` and complete for positions below
/// `upto`.
spec fn index_ok<V>(s: Seq<(String, V)>, ix: Map<u64, Vec<usize>>, upto: int) -> bool {
    &&& forall|h: u64| #[trigger] ix.contains_key(h) ==> bucket_ok(s, h, ix[h]@)
    &&& forall|e: int|
        0 <= e < upto ==> ix.contains_key(#[trigger] key_hash(s[e].0@)) && ix[key_hash(
            s[e].0@,
        )]@.contains(e as usize)
}

/// A keyed collection from string match keys to values, scanned linearly
/// while small and hash-indexed once large.
pub struct TinyMap<V> {
    entries: Vec<(String, V)>,
    index: Option<HashMap<u64, Vec<usize>>>,
}

impl<V> View for TinyMap<V> {
    type V = Map<Seq<char>, V>;

    closed spec fn view(&self) -> Map<Seq<char>, V> {
        pairs_map(self.entries@)
    }
}

/// A pair sequence contains `k` exactly when the map it describes does.
pub proof fn lemma_pairs_map_contains<V>(s: Seq<(String, V)>, k: Seq<char>)
    ensures
        pairs_map(s).contains_key(k) <==> (exists|i: int|
            0 <= i < s.len() && (#[trigger] s[i].0@) == k),
    decreases s.len(),
{
    if s.len() == 0 {
    } else {
        lemma_pairs_map_contains(s.drop_last(), k);
        if s.last().0@ == k {
            assert(s[s.len() - 1].0@ == k);
        } else {
            if exists|i: int| 0 <= i < s.len() && (#[trigger] s[i].0@) == k {
                let i = choose|i: int| 0 <= i < s.len() && (#[trigger] s[i].0@) == k;
                assert(i < s.len() - 1);
                assert(s.drop_last()[i].0@ == k);
            }
        }
    }
}

/// In a pair sequence with distinct keys, the described map associates each
/// key with the value it was paired with.
pub proof fn lemma_pairs_map_at<V>(s: Seq<(String, V)>, i: int)
    requires
        distinct_keys(s),
        0 <= i < s.len(),
    ensures
        pairs_map(s).contains_key(s[i].0@),
        pairs_map(s)[s[i].0@] == s[i].1,
    decreases s.len(),
{
    if i == s.len() - 1 {
    } else {
        lemma_pairs_map_at(s.drop_last(), i);
        assert(s.drop_last()[i] == s[i]);
        assert(s.last().0@ != s[i].0@);
    }
}

/// Replacing the value at the position of key `p.0` acts on the described
/// map as inserting `p`.
proof fn lemma_pairs_map_update<V>(s: Seq<(String, V)>, i: int, p: (String, V))
    requires
        distinct_keys(s),
        0 <= i < s.len(),
        s[i].0@ == p.0@,
    ensures
        pairs_map(s.update(i, p)) == pairs_map(s).insert(p.0@, p.1),
    decreases s.len(),
{
    let t = s.update(i, p);
    if i == s.len() - 1 {
        assert(t.drop_last() =~= s.drop_last());
        assert(t.last() == p);
        assert(pairs_map(s.drop_last()).insert(p.0@, p.1) =~= pairs_map(s).insert(p.0@, p.1));
    } else {
        assert(t.drop_last() =~= s.drop_last().update(i, p));
        lemma_pairs_map_update(s.drop_last(), i, p);
        assert(t.last() == s.last());
        assert(s.last().0@ != p.0@);
        assert(pairs_map(s.drop_last()).insert(p.0@, p.1).insert(s.last().0@, s.last().1)
            =~= pairs_map(s.drop_last()).insert(s.last().0@, s.last().1).insert(p.0@, p.1));
    }
}

/// The FNV-1a hash of a key, as executable code.
fn hash_string(key: &String) -> (h: u64)
    ensures
        h == key_hash(key@),
{
    let bytes: &[u8] = key.as_str().as_bytes();
    assert(bytes@ == vstd::utf8::encode_utf8(key@));
    let n: usize = bytes.len();
    let mut h: u64 = FNV_OFFSET_BASIS;
    let mut i: usize = 0;
    while i < n
        invariant
            n == bytes@.len(),
            i <= n,
            h == fnv1a(bytes@.subrange(0, i as int)),
        decreases n - i,
    {
        let b: u8 = bytes[i];
        h = (h ^ (b as u64)).wrapping_mul(FNV_PRIME);
        proof {
            assert(bytes@.subrange(0, i + 1).drop_last() =~= bytes@.subrange(0, i as int));
            assert(bytes@.subrange(0, i + 1).last() == b);
        }
        i = i + 1;
    }
    assert(bytes@.subrange(0, n as int) =~= bytes@);
    h
}

impl<V> TinyMap<V> {
    #[verifier::type_invariant]
    closed spec fn wf(self) -> bool {
        &&& distinct_keys(self.entries@)
        &&& match self.index {
            None => self.entries@.len() <= ROUTE_CUTOFF,
            Some(ix) => self.entries@.len() > ROUTE_CUTOFF && index_ok(
                self.entries@,
                ix@,
                self.entries@.len() as int,
            ),
        }
    }

    /// Builds the collection from an ordered pair sequence; duplicate keys
    /// silently overwrite earlier entries (last-write-wins).  When the final
    /// entry count exceeds the cutoff, the hash index is built here, once.
    pub fn from_pairs(pairs: Vec<(String, V)>) -> (r: TinyMap<V>)
        ensures
            r@ == pairs_map(pairs@),
    {
        let ghost orig: Seq<(String, V)> = pairs@;
        let ghost n: int = pairs@.len() as int;
        let mut stack = pairs;
        let mut rev: Vec<(String, V)> = Vec::new();
        while stack.len() > 0
            invariant
                stack@ =~= orig.subrange(0, stack@.len() as int),
                rev@.len() == n - stack@.len(),
                n == orig.len(),
                forall|q: int| 0 <= q < rev@.len() ==> (#[trigger] rev@[q]) == orig[n - 1 - q],
            decreases stack@.len(),
        {
            let ghost pre: Seq<(String, V)> = stack@;
            let p = stack.pop().unwrap();
            proof {
                assert(pre.last() == orig[pre.len() - 1]);
                assert(stack@ =~= orig.subrange(0, stack@.len() as int));
            }
            rev.push(p);
        }
        let mut entries: Vec<(String, V)> = Vec::new();
        while rev.len() > 0
            invariant
                n == orig.len(),
                rev@.len() <= n,
                forall|q: int| 0 <= q < rev@.len() ==> (#[trigger] rev@[q]) == orig[n - 1 - q],
                distinct_keys(entries@),
                pairs_map(entries@) == pairs_map(orig.subrange(0, n - rev@.len())),
            decreases rev@.len(),
        {
            let ghost t: int = n - rev@.len();
            let p = rev.pop().unwrap();
            proof {
                assert(orig[t] == p);
            }
            let mut found: bool = false;
            let mut fi: usize = 0;
            let mut i: usize = 0;
            while i < entries.len()
                invariant
                    i <= entries@.len(),
                    !found ==> forall|j: int| 0 <= j < i ==> (#[trigger] entries@[j].0@) != p.0@,
                    found ==> fi < entries@.len() && entries@[fi as int].0@ == p.0@,
                decreases entries@.len() - i,
            {
                if !found && string_eq(&entries[i].0, &p.0) {
                    found = true;
                    fi = i;
                }
                i = i + 1;
            }
            proof {
                assert(orig.subrange(0, t + 1).drop_last() =~= orig.subrange(0, t));
                assert(orig.subrange(0, t + 1).last() == orig[t]);
            }
            if found {
                proof {
                    lemma_pairs_map_update(entries@, fi as int, p);
                }
                entries.set(fi, p);
            } else {
                proof {
                    assert(entries@.push(p).drop_last() =~= entries@);
                }
                entries.push(p);
            }
        }
        assert(orig.subrange(0, n) =~= orig);
        let index: Option<HashMap<u64, Vec<usize>>> = if entries.len() > ROUTE_CUTOFF {
            let mut ix: HashMap<u64, Vec<usize>> = HashMap::new();
            let mut e: usize = 0;
            while e < entries.len()
                invariant
                    e <= entries@.len(),
                    index_ok(entries@, ix@, e as int),
                decreases entries@.len() - e,
            {
                let ghost ix0: Map<u64, Vec<usize>> = ix@;
                let h: u64 = hash_string(&entries[e].0);
                let mut bucket: Vec<usize> = match ix.remove(&h) {
                    Some(b) => b,
                    None => Vec::new(),
                };
                let ghost b0: Seq<usize> = bucket@;
                proof {
                    assert(ix0.contains_key(h) ==> b0 == ix0[h]@);
                    assert(!ix0.contains_key(h) ==> b0.len() == 0);
                }
                bucket.push(e);
                ix.insert(h, bucket);
                proof {
                    assert(bucket@ =~= b0.push(e));
                    assert forall|h2: u64| #[trigger] ix@.contains_key(h2) implies bucket_ok(
                        entries@,
                        h2,
                        ix@[h2]@,
                    ) by {
                        if h2 == h {
                            assert(ix@[h2] == bucket);
                            assert forall|q: int| 0 <= q < bucket@.len() implies (
                            #[trigger] bucket@[q]) < entries@.len() && key_hash(
                                entries@[bucket@[q] as int].0@,
                            ) == h2 by {
                                if q < b0.len() {
                                    assert(ix0.contains_key(h));
                                    assert(bucket_ok(entries@, h, ix0[h]@));
                                    assert(b0[q] == ix0[h]@[q]);
                                } else {
                                    assert(bucket@[q] == e);
                                }
                            }
                        } else {
                            assert(ix@[h2] == ix0[h2]);
                            assert(ix0.contains_key(h2));
                        }
                    }
                    assert forall|e2: int| 0 <= e2 < e + 1 implies ix@.contains_key(
                        #[trigger] key_hash(entries@[e2].0@),
                    ) && ix@[key_hash(entries@[e2].0@)]@.contains(e2 as usize) by {
                        let h2 = key_hash(entries@[e2].0@);
                        if e2 == e {
                            assert(h2 == h);
                            assert(bucket@[b0.len() as int] == e as usize);
                        } else {
                            if h2 == h {
                                assert(ix0.contains_key(h2) && ix0[h2]@.contains(e2 as usize));
                                let q = choose|q: int|
                                    0 <= q < b0.len() && (#[trigger] b0[q]) == e2 as usize;
                                assert(bucket@[q] == e2 as usize);
                            } else {
                                assert(ix@[h2] == ix0[h2]);
                                assert(ix0.contains_key(h2) && ix0[h2]@.contains(e2 as usize));
                            }
                        }
                    }
                }
                e = e + 1;
            }
            Some(ix)
        } else {
            None
        };
        TinyMap { entries, index }
    }

    /// Looks the key up in the route table.  The result is determined by the
    /// abstract map contents alone, whichever representation is in use.
    #[verifier::rlimit(60)]
    pub fn get<'a>(&'a self, key: &String) -> (r: Option<&'a V>)
        ensures
            match r {
                Some(v) => self@.contains_key(key@) && *v == self@[key@],
                None => !self@.contains_key(key@),
            },
    {
        proof {
            use_type_invariant(self);
            lemma_pairs_map_contains(self.entries@, key@);
            assert(self.entries@.len() <= usize::MAX) by {
                assert(self.entries.len() == self.entries@.len());
            }
        }
        match &self.index {
            None => {
                let mut i: usize = 0;
                while i < self.entries.len()
                    invariant
                        i <= self.entries@.len(),
                        distinct_keys(self.entries@),
                        self@ == pairs_map(self.entries@),
                        forall|j: int| 0 <= j < i ==> (#[trigger] self.entries@[j].0@) != key@,
                    decreases self.entries@.len() - i,
                {
                    if string_eq(&self.entries[i].0, key) {
                        proof {
                            lemma_pairs_map_at(self.entries@, i as int);
                        }
                        return Some(&self.entries[i].1);
                    }
                    i = i + 1;
                }
                proof {
                    lemma_pairs_map_contains(self.entries@, key@);
                }
                None
            },
            Some(ix) => {
                let h: u64 = hash_string(key);
                match ix.get(&h) {
                    None => {
                        proof {
                            if self@.contains_key(key@) {
                                let w = choose|i: int|
                                    0 <= i < self.entries@.len() && (#[trigger] self.entries@[i].0@)
                                        == key@;
                                assert(ix@.contains_key(key_hash(self.entries@[w].0@)));
                            }
                        }
                        None
                    },
                    Some(bucket) => {
                        let m: usize = bucket.len();
                        let mut p: usize = 0;
                        while p < m
                            invariant
                                p <= m,
                                m == bucket@.len(),
                                distinct_keys(self.entries@),
                                self@ == pairs_map(self.entries@),
                                bucket_ok(self.entries@, h, bucket@),
                                forall|q: int|
                                    0 <= q < p ==> (#[trigger] self.entries@[bucket@[q] as int].0@)
                                        != key@,
                            decreases m - p,
                        {
                            let e: usize = bucket[p];
                            if string_eq(&self.entries[e].0, key) {
                                proof {
                                    lemma_pairs_map_at(self.entries@, e as int);
                                }
                                return Some(&self.entries[e].1);
                            }
                            p = p + 1;
                        }
                        proof {
                            if self@.contains_key(key@) {
                                let w = choose|i: int|
                                    0 <= i < self.entries@.len() && (#[trigger] self.entries@[i].0@)
                                        == key@;
                                assert(key_hash(self.entries@[w].0@) == h);
                                assert(ix@[h]@.contains(w as usize));
                                let q = choose|q: int|
                                    0 <= q < bucket@.len() && (#[trigger] bucket@[q]) == w as usize;
                                assert(self.entries@[bucket@[q] as int].0@ != key@);
                            }
                        }
                        None
                    },
                }
            },
        }
    }

    /// The stored pairs, in order: each key once, bearing the last value it
    /// was paired with at construction.
    pub fn entries(&self) -> (r: &Vec<(String, V)>)
        ensures
            distinct_keys(r@),
            pairs_map(r@) == self@,
    {
        proof {
            use_type_invariant(self);
        }
        &self.entries
    }

    /// Applies `f` to every stored value, keeping every key: the new
    /// collection has exactly the old key set, and each new value is an
    /// output of `f` on the old value under that key.
    pub fn map_values<T, F: Fn(V) -> T>(self, f: F) -> (r: TinyMap<T>)
        requires
            forall|v: V| call_requires(f, (v,)),
        ensures
            r@.dom() == self@.dom(),
            forall|k: Seq<char>|
                self@.contains_key(k) ==> call_ensures(f, (self@[k],), #[trigger] r@[k]),
    {
        proof {
            use_type_invariant(&self);
        }
        let TinyMap { entries, index } = self;
        let ghost orig: Seq<(String, V)> = entries@;
        let ghost n: int = entries@.len() as int;
        let mut stack = entries;
        let mut rev: Vec<(String, V)> = Vec::new();
        while stack.len() > 0
            invariant
                stack@ =~= orig.subrange(0, stack@.len() as int),
                rev@.len() == n - stack@.len(),
                n == orig.len(),
                forall|q: int| 0 <= q < rev@.len() ==> (#[trigger] rev@[q]) == orig[n - 1 - q],
            decreases stack@.len(),
        {
            let ghost pre: Seq<(String, V)> = stack@;
            let p = stack.pop().unwrap();
            proof {
                assert(pre.last() == orig[pre.len() - 1]);
                assert(stack@ =~= orig.subrange(0, stack@.len() as int));
            }
            rev.push(p);
        }
        let mut mapped: Vec<(String, T)> = Vec::new();
        while rev.len() > 0
            invariant
                n == orig.len(),
                rev@.len() <= n,
                forall|q: int| 0 <= q < rev@.len() ==> (#[trigger] rev@[q]) == orig[n - 1 - q],
                mapped@.len() == n - rev@.len(),
                forall|j: int|
                    0 <= j < mapped@.len() ==> (#[trigger] mapped@[j].0@) == orig[j].0@
                        && call_ensures(f, (orig[j].1,), mapped@[j].1),
                forall|v: V| call_requires(f, (v,)),
            decreases rev@.len(),
        {
            let ghost t: int = n - rev@.len();
            let p = rev.pop().unwrap();
            proof {
                assert(orig[t] == p);
            }
            let (k, v) = p;
            let w = f(v);
            mapped.push((k, w));
        }
        proof {
            lemma_mapped_pairs_view(f, orig, mapped@);
            assert(distinct_keys(mapped@)) by {
                assert forall|i: int, j: int| 0 <= i < j < mapped@.len() implies (
                #[trigger] mapped@[i].0@) != (#[trigger] mapped@[j].0@) by {
                    assert(orig[i].0@ != orig[j].0@);
                }
            }
            if index is Some {
                let ix = index->0;
                assert(index_ok(mapped@, ix@, mapped@.len() as int)) by {
                    assert forall|h: u64| #[trigger] ix@.contains_key(h) implies bucket_ok(
                        mapped@,
                        h,
                        ix@[h]@,
                    ) by {
                        assert(bucket_ok(orig, h, ix@[h]@));
                        assert forall|q: int| 0 <= q < ix@[h]@.len() implies (#[trigger] ix@[h]@[q])
                            < mapped@.len() && key_hash(mapped@[ix@[h]@[q] as int].0@) == h by {
                            assert(mapped@[ix@[h]@[q] as int].0@ == orig[ix@[h]@[q] as int].0@);
                        }
                    }
                    assert forall|e: int| 0 <= e < mapped@.len() implies ix@.contains_key(
                        #[trigger] key_hash(mapped@[e].0@),
                    ) && ix@[key_hash(mapped@[e].0@)]@.contains(e as usize) by {
                        assert(mapped@[e].0@ == orig[e].0@);
                    }
                }
            }
        }
        TinyMap { entries: mapped, index }
    }
}

/// The representation is invisible to callers: lookup results are fully
/// determined by the abstract contents, so two collections with equal
/// views — one scanned, one hash-indexed — answer every key alike, as
/// `get`'s contract is stated over the view alone.
pub proof fn lemma_lookup_representation_invisible<V>(a: TinyMap<V>, b: TinyMap<V>, k: Seq<char>)
    requires
        a@ == b@,
    ensures
        a@.contains_key(k) == b@.contains_key(k),
        a@.contains_key(k) ==> a@[k] == b@[k],
{
}

/// Pointwise-related pair sequences with distinct keys describe maps with
/// the same key set and pointwise-related values.
proof fn lemma_mapped_pairs_view<V, T, F: Fn(V) -> T>(f: F, a: Seq<(String, V)>, b: Seq<(String, T)>)
    requires
        distinct_keys(a),
        b.len() == a.len(),
        forall|j: int|
            0 <= j < a.len() ==> (#[trigger] b[j].0@) == a[j].0@ && call_ensures(
                f,
                (a[j].1,),
                b[j].1,
            ),
    ensures
        pairs_map(b).dom() == pairs_map(a).dom(),
        forall|k: Seq<char>|
            pairs_map(a).contains_key(k) ==> call_ensures(
                f,
                (pairs_map(a)[k],),
                #[trigger] pairs_map(b)[k],
            ),
{
    assert(distinct_keys(b)) by {
        assert forall|i: int, j: int| 0 <= i < j < b.len() implies (#[trigger] b[i].0@) != (
        #[trigger] b[j].0@) by {
            assert(a[i].0@ != a[j].0@);
        }
    }
    assert(pairs_map(b).dom() =~= pairs_map(a).dom()) by {
        assert forall|k: Seq<char>| #[trigger]
            pairs_map(a).dom().contains(k) implies pairs_map(b).dom().contains(k) by {
            lemma_pairs_map_contains(a, k);
            lemma_pairs_map_contains(b, k);
            let i = choose|i: int| 0 <= i < a.len() && (#[trigger] a[i].0@) == k;
            assert(b[i].0@ == k);
        }
        assert forall|k: Seq<char>| #[trigger]
            pairs_map(b).dom().contains(k) implies pairs_map(a).dom().contains(k) by {
            lemma_pairs_map_contains(a, k);
            lemma_pairs_map_contains(b, k);
            let i = choose|i: int| 0 <= i < b.len() && (#[trigger] b[i].0@) == k;
            assert(a[i].0@ == k);
        }
    }
    assert forall|k: Seq<char>| pairs_map(a).contains_key(k) implies call_ensures(
        f,
        (pairs_map(a)[k],),
        #[trigger] pairs_map(b)[k],
    ) by {
        lemma_pairs_map_contains(a, k);
        let i = choose|i: int| 0 <= i < a.len() && (#[trigger] a[i].0@) == k;
        lemma_pairs_map_at(a, i);
        lemma_pairs_map_at(b, i);
        assert(b[i].0@ == k);
    }
}

} // verus!
