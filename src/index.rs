//! A ledger of requests, indexed by nonce and by hash.  Nonces start at 1 and
//! each new request takes the next one; requests are never removed, only
//! their mutable fields change.
use vstd::prelude::*;

use crate::page::{effective_limit, limit_of};

verus! {

/// The requests in order of their nonces, and the hash of each.  The request
/// at position `i` holds nonce `i + 1`.
pub struct RequestIndex<T> {
    hashes: Vec<Vec<u8>>,
    requests: Vec<T>,
}

/// The position of the first element of `s` equal to `h`, if any.
pub open spec fn first_position(s: Seq<Seq<u8>>, h: Seq<u8>) -> Option<int> {
    if exists|i: int| 0 <= i < s.len() && #[trigger] s[i] == h && forall|k: int| 0 <= k < i ==> #[trigger] s[k] != h {
        Some(choose|i: int| 0 <= i < s.len() && #[trigger] s[i] == h && forall|k: int| 0 <= k < i ==> #[trigger] s[k] != h)
    } else {
        None
    }
}

/// The first element equal to `h` is found where it stands.
pub proof fn lemma_first_position(s: Seq<Seq<u8>>, h: Seq<u8>, p: int)
    requires
        0 <= p < s.len(),
        s[p] == h,
        forall|k: int| 0 <= k < p ==> #[trigger] s[k] != h,
    ensures
        first_position(s, h) == Some(p),
{
    let j = first_position(s, h)->Some_0;
    if j < p {
        assert(s[j] != h);
    }
    if j > p {
        assert(s[p] != h);
    }
}

/// The first `n` nonces after the cursor `start_after`: the positions
/// `lo .. hi` of a ledger of `len` entries.
pub open spec fn window(len: nat, start_after: Option<u64>, n: nat) -> (int, int) {
    let s: int = match start_after {
        Some(k) => k as int,
        None => 0,
    };
    let lo = if s < len {
        s
    } else {
        len as int
    };
    let hi = if lo + n < len {
        lo + n
    } else {
        len as int
    };
    (lo, hi)
}

/// The bytes of `v`, copied.
pub fn copy_bytes(v: &Vec<u8>) -> (r: Vec<u8>)
    ensures
        r@ == v@,
{
    let mut r: Vec<u8> = Vec::new();
    let mut i: usize = 0;
    while i < v.len()
        invariant
            i <= v@.len(),
            r@ == v@.take(i as int),
        decreases v@.len() - i,
    {
        r.push(v[i]);
        i = i + 1;
        assert(r@ =~= v@.take(i as int));
    }
    assert(v@.take(i as int) =~= v@);
    r
}

/// Whether `a` and `b` hold the same bytes.
pub fn bytes_eq(a: &Vec<u8>, b: &Vec<u8>) -> (r: bool)
    ensures
        r == (a@ == b@),
{
    if a.len() != b.len() {
        return false;
    }
    let mut i: usize = 0;
    while i < a.len()
        invariant
            a@.len() == b@.len(),
            i <= a@.len(),
            forall|k: int| 0 <= k < i ==> a@[k] == b@[k],
        decreases a@.len() - i,
    {
        if a[i] != b[i] {
            return false;
        }
        i = i + 1;
    }
    assert(a@ =~= b@);
    true
}

impl<T> RequestIndex<T> {
    pub closed spec fn requests(&self) -> Seq<T> {
        self.requests@
    }

    pub closed spec fn hashes(&self) -> Seq<Seq<u8>> {
        self.hashes@.map_values(|h: Vec<u8>| h@)
    }

    pub closed spec fn wf(&self) -> bool {
        self.hashes@.len() == self.requests@.len()
    }

    pub open spec fn len_spec(&self) -> nat {
        self.requests().len()
    }

    /// The nonce that the next request will take.
    pub open spec fn next_nonce_spec(&self) -> int {
        self.len_spec() as int + 1
    }

    /// The position of the first request with hash `h`, if any.
    pub open spec fn hash_position(&self, h: Seq<u8>) -> Option<int> {
        first_position(self.hashes(), h)
    }

    pub fn new() -> (r: RequestIndex<T>)
        ensures
            r.wf(),
            r.len_spec() == 0,
            r.hashes().len() == 0,
    {
        let r = RequestIndex { hashes: Vec::new(), requests: Vec::new() };
        r
    }

    pub fn len(&self) -> (r: usize)
        ensures
            r == self.len_spec(),
    {
        self.requests.len()
    }

    /// The nonce that the next request will take.
    pub fn next_nonce(&self) -> (r: u64)
        requires
            self.len_spec() < u64::MAX,
        ensures
            r == self.next_nonce_spec(),
    {
        self.requests.len() as u64 + 1
    }

    /// Appends `request` under the next nonce and `hash`; returns the nonce.
    pub fn insert(&mut self, hash: Vec<u8>, request: T) -> (r: u64)
        requires
            old(self).wf(),
            old(self).len_spec() < u64::MAX,
        ensures
            final(self).wf(),
            r == old(self).next_nonce_spec(),
            final(self).requests() == old(self).requests().push(request),
            final(self).hashes() == old(self).hashes().push(hash@),
    {
        let nonce = self.next_nonce();
        let ghost h = hash@;
        self.hashes.push(hash);
        self.requests.push(request);
        assert(self.hashes() =~= old(self).hashes().push(h));
        nonce
    }

    /// The request at position `i`.
    pub fn request_at(&self, i: usize) -> (r: &T)
        requires
            i < self.len_spec(),
        ensures
            *r == self.requests()[i as int],
    {
        &self.requests[i]
    }

    /// The hash of the request at position `i`.
    pub fn hash_at(&self, i: usize) -> (r: Vec<u8>)
        requires
            self.wf(),
            i < self.len_spec(),
        ensures
            r@ == self.hashes()[i as int],
    {
        copy_bytes(&self.hashes[i])
    }

    /// The position of the first request with hash `hash`, if any.
    pub fn position_of_hash(&self, hash: &Vec<u8>) -> (r: Option<usize>)
        requires
            self.wf(),
        ensures
            match r {
                Some(i) => i < self.len_spec() && self.hashes()[i as int] == hash@ && self.hash_position(hash@)
                    == Some(i as int),
                None => self.hash_position(hash@) is None && forall|k: int|
                    0 <= k < self.len_spec() ==> #[trigger] self.hashes()[k] != hash@,
            },
    {
        let mut i: usize = 0;
        while i < self.hashes.len()
            invariant
                self.wf(),
                i <= self.len_spec(),
                forall|k: int| 0 <= k < i ==> #[trigger] self.hashes()[k] != hash@,
            decreases self.len_spec() - i,
        {
            if bytes_eq(&self.hashes[i], hash) {
                proof {
                    lemma_first_position(self.hashes(), hash@, i as int);
                }
                return Some(i);
            }
            i = i + 1;
        }
        None
    }

    /// The position of the request with nonce `nonce`, if any.
    pub fn position_of_nonce(&self, nonce: u64) -> (r: Option<usize>)
        ensures
            match r {
                Some(i) => i < self.len_spec() && i + 1 == nonce,
                None => nonce == 0 || nonce > self.len_spec(),
            },
    {
        if nonce == 0 || nonce as u128 > self.requests.len() as u128 {
            None
        } else {
            Some((nonce - 1) as usize)
        }
    }

    /// Replaces the request at position `i`; its nonce and hash stay.
    pub fn set_request(&mut self, i: usize, request: T)
        requires
            old(self).wf(),
            i < old(self).len_spec(),
        ensures
            final(self).wf(),
            final(self).requests() == old(self).requests().update(i as int, request),
            final(self).hashes() == old(self).hashes(),
    {
        self.requests.set(i, request);
    }

    /// The positions of the page after `start_after`, of the size that
    /// `limit` gives.
    pub fn page(&self, start_after: Option<u64>, limit: Option<u32>) -> (r: (usize, usize))
        ensures
            (r.0 as int, r.1 as int) == window(self.len_spec(), start_after, limit_of(limit)),
    {
        let n = effective_limit(limit);
        let len = self.requests.len();
        let lo: usize = match start_after {
            Some(k) => if (k as u128) < (len as u128) {
                k as usize
            } else {
                len
            },
            None => 0,
        };
        let hi: usize = if n < len - lo {
            lo + n
        } else {
            len
        };
        (lo, hi)
    }
}

} // verus!

verus! {

/// The positions `lo, lo + 1, .., hi - 1`.
pub open spec fn positions(lo: int, hi: int) -> Seq<int> {
    Seq::new((hi - lo) as nat, |k: int| lo + k)
}

pub proof fn lemma_filter_push(s: Seq<int>, x: int, pred: spec_fn(int) -> bool)
    ensures
        s.push(x).filter(pred) == (if pred(x) {
            s.filter(pred).push(x)
        } else {
            s.filter(pred)
        }),
{
    reveal(Seq::filter);
    assert(s.push(x).drop_last() =~= s);
}

pub proof fn lemma_filter_all(s: Seq<int>, pred: spec_fn(int) -> bool)
    requires
        forall|i: int| #[trigger] pred(i),
    ensures
        s.filter(pred) == s,
    decreases s.len(),
{
    reveal(Seq::filter);
    if s.len() > 0 {
        lemma_filter_all(s.drop_last(), pred);
        assert(s.drop_last().push(s.last()) =~= s);
    }
}

pub proof fn lemma_positions_extend(lo: int, hi: int)
    requires
        lo <= hi,
    ensures
        positions(lo, hi + 1) == positions(lo, hi).push(hi),
{
    assert(positions(lo, hi + 1) =~= positions(lo, hi).push(hi));
}

} // verus!
