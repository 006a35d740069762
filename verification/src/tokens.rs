//! The token pool: a read-only, non-empty pool of address strings with
//! uniform random sampling, with and without replacement. Randomness comes
//! from the process RNG behind two trusted wrappers; everything downstream
//! of the drawn indices is verified.

use vstd::prelude::*;
use vstd::seq_lib::group_to_multiset_ensures;
use crate::bytes::{ascii_bytes, bytes_eq, spec_hex_digit};

verus! {

/// Relies on rand::Rng::random_range over `0..n`: it returns a uniformly
/// drawn index strictly below `n`, and panics only on an empty range.
#[verifier::external_body]
fn random_index(n: usize) -> (r: usize)
    requires
        n > 0,
    ensures
        r < n,
{
    rand::Rng::random_range(&mut rand::rng(), 0..n)
}

/// Relies on rand::seq::SliceRandom::shuffle, a Fisher–Yates shuffle that
/// permutes the slice in place.
#[verifier::external_body]
fn shuffle_indices(v: &mut Vec<usize>)
    ensures
        final(v)@.len() == old(v)@.len(),
        final(v)@.to_multiset() == old(v)@.to_multiset(),
{
    rand::seq::SliceRandom::shuffle(v.as_mut_slice(), &mut rand::rng());
}

/// The byte sequences held by a vector of byte vectors.
pub open spec fn views_of(s: Seq<Vec<u8>>) -> Seq<Seq<u8>> {
    Seq::new(s.len(), |i: int| s[i]@)
}

/// A nibble of `i`, most significant first (`j` ranges over `0..8`).
pub open spec fn spec_nibble(i: u32, j: int) -> u32 {
    (i >> (((7 - j) * 4) as u32)) & 0xF
}

/// The synthetic pool entry for index `i`: `token_` followed by the eight
/// hex digits of `i`.
pub open spec fn spec_fake_token(i: u32) -> Seq<u8> {
    seq!['t' as u8, 'o' as u8, 'k' as u8, 'e' as u8, 'n' as u8, '_' as u8] + Seq::new(
        8,
        |j: int| spec_hex_digit(spec_nibble(i, j)),
    )
}

/// Distinct indices yield distinct synthetic entries.
pub proof fn lemma_fake_token_inject(a: u32, b: u32)
    requires
        spec_fake_token(a) == spec_fake_token(b),
    ensures
        a == b,
{
    assert forall|j: int| 0 <= j < 8 implies spec_nibble(a, j) == spec_nibble(b, j) by {
        let s: u32 = ((7 - j) * 4) as u32;
        let da = spec_nibble(a, j);
        let db = spec_nibble(b, j);
        assert((a >> s) & 0xF < 16) by (bit_vector);
        assert((b >> s) & 0xF < 16) by (bit_vector);
        assert(spec_fake_token(a)[6 + j] == spec_hex_digit(da));
        assert(spec_fake_token(b)[6 + j] == spec_hex_digit(db));
        assert(spec_hex_digit(da) == spec_hex_digit(db));
    }
    assert(spec_nibble(a, 0) == (a >> 28u32) & 0xF);
    assert(spec_nibble(a, 1) == (a >> 24u32) & 0xF);
    assert(spec_nibble(a, 2) == (a >> 20u32) & 0xF);
    assert(spec_nibble(a, 3) == (a >> 16u32) & 0xF);
    assert(spec_nibble(a, 4) == (a >> 12u32) & 0xF);
    assert(spec_nibble(a, 5) == (a >> 8u32) & 0xF);
    assert(spec_nibble(a, 6) == (a >> 4u32) & 0xF);
    assert(spec_nibble(a, 7) == (a >> 0u32) & 0xF);
    assert(spec_nibble(b, 0) == (b >> 28u32) & 0xF);
    assert(spec_nibble(b, 1) == (b >> 24u32) & 0xF);
    assert(spec_nibble(b, 2) == (b >> 20u32) & 0xF);
    assert(spec_nibble(b, 3) == (b >> 16u32) & 0xF);
    assert(spec_nibble(b, 4) == (b >> 12u32) & 0xF);
    assert(spec_nibble(b, 5) == (b >> 8u32) & 0xF);
    assert(spec_nibble(b, 6) == (b >> 4u32) & 0xF);
    assert(spec_nibble(b, 7) == (b >> 0u32) & 0xF);
    assert(a == b) by (bit_vector)
        requires
            (a >> 28u32) & 0xF == (b >> 28u32) & 0xF,
            (a >> 24u32) & 0xF == (b >> 24u32) & 0xF,
            (a >> 20u32) & 0xF == (b >> 20u32) & 0xF,
            (a >> 16u32) & 0xF == (b >> 16u32) & 0xF,
            (a >> 12u32) & 0xF == (b >> 12u32) & 0xF,
            (a >> 8u32) & 0xF == (b >> 8u32) & 0xF,
            (a >> 4u32) & 0xF == (b >> 4u32) & 0xF,
            (a >> 0u32) & 0xF == (b >> 0u32) & 0xF,
    ;
}

/// The synthetic entry for one index.
fn fake_token(i: u32) -> (r: Vec<u8>)
    ensures
        r@ == spec_fake_token(i),
{
    proof {
        reveal_strlit("token_");
    }
    let mut r = ascii_bytes("token_");
    proof {
        assert(r@ =~= spec_fake_token(i).take(6));
    }
    let mut j: usize = 0;
    while j < 8
        invariant
            0 <= j <= 8,
            r@ =~= spec_fake_token(i).take(6 + j),
        decreases 8 - j,
    {
        let shift: u32 = ((7 - j) as u32) * 4;
        let d: u32 = (i >> shift) & 0xF;
        proof {
            assert((i >> shift) & 0xF < 16) by (bit_vector);
        }
        let b: u8 = if d < 10 {
            0x30 + (d as u8)
        } else {
            0x57 + (d as u8)
        };
        r.push(b);
        proof {
            assert(shift == ((7 - j as int) * 4) as u32);
            assert(d == spec_nibble(i, j as int));
            assert(b == spec_hex_digit(spec_nibble(i, j as int)));
            assert(spec_fake_token(i)[6 + j as int] == spec_hex_digit(spec_nibble(i, j as int)));
            assert(r@ =~= spec_fake_token(i).take(6 + j as int + 1));
        }
        j = j + 1;
    }
    proof {
        assert(spec_fake_token(i).take(14) =~= spec_fake_token(i));
    }
    r
}

/// An ordered pool of opaque address strings, immutably shared by every
/// client. Invariant: non-empty and duplicate-free after construction.
pub struct TokenPool {
    addresses: Vec<Vec<u8>>,
}

impl View for TokenPool {
    type V = Seq<Seq<u8>>;

    closed spec fn view(&self) -> Seq<Seq<u8>> {
        views_of(self.addresses@)
    }
}

impl TokenPool {
    /// The pool's invariant: it holds at least one address, and no
    /// address twice. Filters drawn from a pool therefore carry
    /// pairwise-distinct addresses outright.
    pub open spec fn wf(&self) -> bool {
        self@.len() > 0 && self@.no_duplicates()
    }

    /// Wrap a loaded address list, keeping the first occurrence of each
    /// address so that the pool's invariant holds whatever the file
    /// held; an empty list is a configuration error. Every given address
    /// is in the pool, and the pool holds nothing else.
    pub fn new(addresses: Vec<Vec<u8>>) -> (r: Option<TokenPool>)
        ensures
            r is Some <==> addresses@.len() > 0,
            r matches Some(p) ==> {
                &&& p.wf()
                &&& forall|k: int|
                    0 <= k < addresses@.len() ==> p@.contains((#[trigger] addresses@[k])@)
                &&& forall|j: int|
                    0 <= j < p@.len() ==> views_of(addresses@).contains(#[trigger] p@[j])
            },
    {
        if addresses.len() == 0 {
            return None;
        }
        let mut kept: Vec<Vec<u8>> = Vec::new();
        let mut i: usize = 0;
        while i < addresses.len()
            invariant
                0 <= i <= addresses@.len(),
                addresses@.len() > 0,
                i > 0 ==> kept@.len() > 0,
                views_of(kept@).no_duplicates(),
                forall|k: int|
                    0 <= k < i ==> views_of(kept@).contains((#[trigger] addresses@[k])@),
                forall|j: int|
                    0 <= j < kept@.len() ==> views_of(addresses@).contains(
                        (#[trigger] kept@[j])@,
                    ),
            decreases addresses@.len() - i,
        {
            let mut found = false;
            let mut j: usize = 0;
            while j < kept.len()
                invariant
                    0 <= j <= kept@.len(),
                    i < addresses@.len(),
                    found <==> exists|t: int|
                        0 <= t < j && (#[trigger] kept@[t])@ == addresses@[i as int]@,
                decreases kept@.len() - j,
            {
                if bytes_eq(&kept[j], &addresses[i]) {
                    found = true;
                    proof {
                        assert((kept@[j as int])@ == addresses@[i as int]@);
                    }
                }
                j = j + 1;
            }
            let ghost kv = kept@;
            if !found {
                let a = addresses[i].clone();
                proof {
                    assert(a@ =~= addresses@[i as int]@);
                    assert(forall|t: int|
                        0 <= t < kv.len() ==> (#[trigger] kv[t])@ != addresses@[i as int]@);
                }
                kept.push(a);
                proof {
                    assert(views_of(kept@) =~= views_of(kv).push(addresses@[i as int]@));
                    assert forall|t1: int, t2: int|
                        0 <= t1 < t2 < views_of(kept@).len() implies #[trigger] views_of(kept@)[t1]
                        != #[trigger] views_of(kept@)[t2] by {
                        if t2 < kv.len() as int {
                            assert(views_of(kv)[t1] != views_of(kv)[t2]);
                        } else {
                            assert(views_of(kept@)[t2] == addresses@[i as int]@);
                            assert(views_of(kept@)[t1] == kv[t1]@);
                        }
                    }
                }
            } else {
                proof {
                    let t = choose|t: int|
                        0 <= t < kv.len() && (#[trigger] kv[t])@ == addresses@[i as int]@;
                    assert(views_of(kv)[t] == addresses@[i as int]@);
                }
            }
            proof {
                assert forall|k: int| 0 <= k <= i implies views_of(kept@).contains(
                    (#[trigger] addresses@[k])@,
                ) by {
                    if k < i {
                        let t = choose|t: int|
                            0 <= t < views_of(kv).len() && views_of(kv)[t] == addresses@[k]@;
                        assert(views_of(kept@)[t] == addresses@[k]@);
                    } else if !found {
                        assert(views_of(kept@)[kv.len() as int] == addresses@[i as int]@);
                    }
                }
                assert forall|j2: int| 0 <= j2 < kept@.len() implies views_of(
                    addresses@,
                ).contains((#[trigger] kept@[j2])@) by {
                    if j2 >= kv.len() {
                        assert(kept@[j2]@ == addresses@[i as int]@);
                        assert(views_of(addresses@)[i as int] == addresses@[i as int]@);
                    }
                }
            }
            i = i + 1;
        }
        let pool = TokenPool { addresses: kept };
        proof {
            assert forall|k: int| 0 <= k < addresses@.len() implies pool@.contains(
                (#[trigger] addresses@[k])@,
            ) by {
                assert(views_of(kept@).contains(addresses@[k]@));
            }
        }
        Some(pool)
    }

    /// How many addresses the pool holds.
    pub fn len(&self) -> (r: usize)
        ensures
            r == self@.len(),
    {
        self.addresses.len()
    }

    /// The address at a given position.
    pub fn at(&self, i: usize) -> (r: &Vec<u8>)
        requires
            i < self@.len(),
        ensures
            r@ == self@[i as int],
    {
        &self.addresses[i]
    }

    /// A deterministic synthetic pool of `count` entries, used when no
    /// token file is present. Entries are pairwise distinct.
    pub fn generate_fake(count: usize) -> (r: TokenPool)
        requires
            1 <= count <= 0x1_0000_0000,
        ensures
            r.wf(),
            r@.len() == count,
            forall|i: int| 0 <= i < count ==> r@[i] == spec_fake_token(i as u32),
            r@.no_duplicates(),
    {
        let mut addresses: Vec<Vec<u8>> = Vec::new();
        let mut i: usize = 0;
        while i < count
            invariant
                0 <= i <= count,
                count <= 0x1_0000_0000,
                addresses@.len() == i,
                forall|k: int| 0 <= k < i ==> (#[trigger] addresses@[k])@ == spec_fake_token(
                    k as u32,
                ),
            decreases count - i,
        {
            let t = fake_token(i as u32);
            addresses.push(t);
            i = i + 1;
        }
        let pool = TokenPool { addresses };
        proof {
            assert forall|i1: int, i2: int|
                0 <= i1 < count && 0 <= i2 < count && i1 != i2 implies #[trigger] pool@[i1]
                != #[trigger] pool@[i2] by {
                if pool@[i1] == pool@[i2] {
                    lemma_fake_token_inject(i1 as u32, i2 as u32);
                }
            }
        }
        pool
    }

    /// One address drawn uniformly from the pool.
    pub fn get_random(&self) -> (r: Vec<u8>)
        requires
            self.wf(),
        ensures
            exists|i: int| 0 <= i < self@.len() && r@ == self@[i],
    {
        let i = random_index(self.addresses.len());
        let r = self.addresses[i].clone();
        proof {
            assert(r@ =~= self@[i as int]);
        }
        r
    }

    /// `count` addresses drawn without replacement: an ordered sequence
    /// of pairwise-distinct addresses from the pool. If `count` exceeds
    /// the pool size, the whole pool comes back in a random order.
    pub fn get_random_unique(&self, count: usize) -> (r: Vec<Vec<u8>>)
        requires
            self.wf(),
        ensures
            views_of(r@).len() == if count <= self@.len() {
                count as int
            } else {
                self@.len() as int
            },
            forall|k: int| 0 <= k < r@.len() ==> self@.contains(#[trigger] views_of(r@)[k]),
            views_of(r@).no_duplicates(),
    {
        broadcast use group_to_multiset_ensures;

        let n = self.addresses.len();
        let mut idx: Vec<usize> = Vec::new();
        let mut i: usize = 0;
        while i < n
            invariant
                0 <= i <= n,
                idx@.len() == i,
                forall|k: int| 0 <= k < i ==> idx@[k] == k,
            decreases n - i,
        {
            idx.push(i);
            i = i + 1;
        }
        let ghost orig = idx@;
        shuffle_indices(&mut idx);
        proof {
            assert(orig.no_duplicates());
            orig.lemma_multiset_has_no_duplicates();
            idx@.lemma_multiset_has_no_duplicates_conv();
            assert forall|k: int| 0 <= k < idx@.len() implies #[trigger] idx@[k] < n by {
                assert(idx@.to_multiset().count(idx@[k]) > 0);
                assert(orig.to_multiset().count(idx@[k]) > 0);
                assert(orig.contains(idx@[k]));
            }
        }
        let take_n = if count <= n {
            count
        } else {
            n
        };
        let mut out: Vec<Vec<u8>> = Vec::new();
        let mut k: usize = 0;
        while k < take_n
            invariant
                0 <= k <= take_n,
                take_n <= idx@.len(),
                idx@.len() == self@.len(),
                idx@.no_duplicates(),
                forall|j: int| 0 <= j < idx@.len() ==> #[trigger] idx@[j] < self@.len(),
                out@.len() == k,
                forall|j: int| 0 <= j < k ==> (#[trigger] out@[j])@ == self@[idx@[j] as int],
            decreases take_n - k,
    {
            let a = self.addresses[idx[k]].clone();
            proof {
                assert(a@ =~= self@[idx@[k as int] as int]);
            }
            out.push(a);
            k = k + 1;
        }
        proof {
            assert forall|j: int| 0 <= j < out@.len() implies self@.contains(
                #[trigger] views_of(out@)[j],
            ) by {
                assert(views_of(out@)[j] == self@[idx@[j] as int]);
            }
            assert forall|j1: int, j2: int|
                0 <= j1 < out@.len() && 0 <= j2 < out@.len() && j1 != j2
                implies #[trigger] views_of(out@)[j1] != #[trigger] views_of(out@)[j2] by {
                assert(idx@[j1] != idx@[j2]);
                assert(views_of(out@)[j1] == self@[idx@[j1] as int]);
                assert(views_of(out@)[j2] == self@[idx@[j2] as int]);
            }
        }
        out
    }
}

} // verus!
