//! Page sizes of the listing queries.
use vstd::prelude::*;

verus! {

/// Entries returned when a listing names no limit.
pub const DEFAULT_LIMIT: u32 = 10;

/// Most entries that one listing returns, whatever limit it names.
pub const MAX_LIMIT: u32 = 100;

/// The page size of a listing: the limit asked for, by default
/// `DEFAULT_LIMIT`, and never more than `MAX_LIMIT`.
pub open spec fn limit_of(limit: Option<u32>) -> nat {
    let l = match limit {
        Some(l) => l,
        None => DEFAULT_LIMIT,
    };
    if l < MAX_LIMIT {
        l as nat
    } else {
        MAX_LIMIT as nat
    }
}

/// The first `n` elements of `s`, or all of `s` where it is shorter.
pub open spec fn prefix<A>(s: Seq<A>, n: nat) -> Seq<A> {
    if n < s.len() {
        s.take(n as int)
    } else {
        s
    }
}

pub fn effective_limit(limit: Option<u32>) -> (r: usize)
    ensures
        r == limit_of(limit),
{
    let l = match limit {
        Some(l) => l,
        None => DEFAULT_LIMIT,
    };
    if l < MAX_LIMIT {
        l as usize
    } else {
        MAX_LIMIT as usize
    }
}

} // verus!
