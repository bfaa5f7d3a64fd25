//! Mint requests: a merchant proposes, and the custodian approves or rejects,
//! or the merchant cancels.  `Pending` is the one state that a request leaves.
use vstd::prelude::*;

use crate::auth::{allow_only, Role, RoleRegistry};
use crate::deposit::{get_custodian_deposit_address, DepositAddressRegistry};
use crate::digest::{hash_mint_request, mint_hash};
use crate::error::{ContractError, MessageInfo};
use crate::index::{copy_bytes, first_position, lemma_filter_all, lemma_filter_push, lemma_positions_extend, positions, window, RequestIndex};
use crate::page::limit_of;

verus! {

#[derive(Clone, Copy, Debug, PartialEq, Eq, Structural)]
pub enum MintRequestStatus {
    Pending,
    Approved,
    Rejected,
    Cancelled,
}

/// A request to issue `amount` of the token to `requester`.
#[derive(Clone, Debug, PartialEq, Eq)]
pub struct MintRequest {
    pub requester: String,
    pub amount: u128,
    pub tx_id: String,
    pub deposit_address: String,
    pub status: MintRequestStatus,
}

impl MintRequest {
    /// An equal request.
    pub fn copied(&self) -> (r: MintRequest)
        ensures
            r == *self,
    {
        MintRequest {
            requester: self.requester.clone(),
            amount: self.amount,
            tx_id: self.tx_id.clone(),
            deposit_address: self.deposit_address.clone(),
            status: self.status,
        }
    }
}

/// A mint request as a query returns it, with its identifiers.
#[derive(Clone, Debug, PartialEq, Eq)]
pub struct MintRecord {
    pub nonce: u64,
    pub hash: Vec<u8>,
    pub request: MintRequest,
}

/// The mint requests, by nonce and by hash.
pub struct MintLedger {
    index: RequestIndex<MintRequest>,
}

pub open spec fn has_fields(
    r: MintRequest,
    requester: Seq<char>,
    amount: u128,
    tx_id: Seq<char>,
    deposit_address: Seq<char>,
    status: MintRequestStatus,
) -> bool {
    &&& r.requester@ == requester
    &&& r.amount == amount
    &&& r.tx_id@ == tx_id
    &&& r.deposit_address@ == deposit_address
    &&& r.status == status
}

/// `r` with status `status`, its other fields kept.
pub open spec fn with_status(r: MintRequest, status: MintRequestStatus) -> MintRequest {
    MintRequest { status, ..r }
}

/// What an issue by `info` with these arguments needs to succeed.
pub open spec fn may_issue(
    roles: &RoleRegistry,
    dep: &DepositAddressRegistry,
    sender: Seq<char>,
    amount: u128,
    deposit_address: Seq<char>,
) -> bool {
    &&& roles.has_role(Role::Merchant, sender)
    &&& dep.custodian_map().contains_key(sender)
    &&& dep.custodian_map()[sender] == deposit_address
    &&& amount > 0
}

pub open spec fn is_status_error<T>(r: Result<T, ContractError>, hash: Seq<u8>) -> bool {
    match r {
        Err(ContractError::UpdatableStatusExpected { request_hash }) => request_hash@ == hash,
        _ => false,
    }
}

impl MintLedger {
    pub closed spec fn requests(&self) -> Seq<MintRequest> {
        self.index.requests()
    }

    pub closed spec fn hashes(&self) -> Seq<Seq<u8>> {
        self.index.hashes()
    }

    /// The nonce that the next request will take.
    pub open spec fn next_nonce_spec(&self) -> int {
        self.requests().len() as int + 1
    }

    /// The request with hash `h`: the first one, were two to share it.
    pub open spec fn hash_position(&self, h: Seq<u8>) -> Option<int> {
        first_position(self.hashes(), h)
    }

    /// Each request's hash is that of its immutable fields and its nonce.
    pub closed spec fn wf(&self) -> bool {
        &&& self.index.wf()
        &&& self.hashes().len() == self.requests().len()
        &&& self.requests().len() <= u64::MAX
        &&& forall|i: int|
            0 <= i < self.requests().len() ==> #[trigger] self.hashes()[i] == mint_hash(
                (i + 1) as u64,
                self.requests()[i].requester@,
                self.requests()[i].amount,
                self.requests()[i].tx_id@,
                self.requests()[i].deposit_address@,
            )
    }

    /// `rec` is the request at position `i`, with its identifiers.
    pub open spec fn is_record(&self, rec: MintRecord, i: int) -> bool {
        &&& 0 <= i < self.requests().len()
        &&& rec.nonce == i + 1
        &&& rec.hash@ == self.hashes()[i]
        &&& rec.request == self.requests()[i]
    }

    /// The other requests are kept, and the one at `i` has status `s`.
    pub open spec fn only_status_changed(&self, old: &MintLedger, i: int, s: MintRequestStatus) -> bool {
        &&& self.hashes() == old.hashes()
        &&& self.requests() == old.requests().update(i, with_status(old.requests()[i], s))
    }

    /// `self` is `old` with one request more, under nonce `nonce`.
    pub open spec fn appended(&self, old: &MintLedger, nonce: u64) -> bool {
        &&& nonce == old.next_nonce_spec()
        &&& self.requests().len() == old.requests().len() + 1
        &&& self.requests().drop_last() == old.requests()
    }

    /// The positions that a listing returns, in order.
    pub open spec fn listed(&self, status: Option<MintRequestStatus>, start_after_nonce: Option<u64>, limit: Option<u32>) -> Seq<int> {
        let (lo, hi) = window(self.requests().len(), start_after_nonce, limit_of(limit));
        positions(lo, hi).filter(|i: int| status_matches(self.requests()[i], status))
    }

    pub fn new() -> (r: MintLedger)
        ensures
            r.wf(),
            r.requests().len() == 0,
            r.hashes().len() == 0,
    {
        let r = MintLedger { index: RequestIndex::new() };
        r
    }

    /// A merchant asks for `amount` to be issued to it, against the deposit
    /// `tx_id` to the address that the custodian assigned to it.  The request
    /// takes the next nonce and is `Pending`; returns its nonce and hash.
    pub fn issue_mint_request(
        &mut self,
        roles: &RoleRegistry,
        dep: &DepositAddressRegistry,
        info: &MessageInfo,
        amount: u128,
        tx_id: &str,
        deposit_address: &str,
    ) -> (r: Result<(u64, Vec<u8>), ContractError>)
        requires
            old(self).wf(),
            roles.wf(),
            dep.wf(),
            old(self).requests().len() < u64::MAX,
        ensures
            final(self).wf(),
            r is Ok <==> may_issue(roles, dep, info.sender@, amount, deposit_address@),
            !roles.has_role(Role::Merchant, info.sender@) ==> r == Err::<(u64, Vec<u8>), ContractError>(
                ContractError::Unauthorized {},
            ),
            roles.has_role(Role::Merchant, info.sender@) && !(dep.custodian_map().contains_key(info.sender@)
                && dep.custodian_map()[info.sender@] == deposit_address@) ==> (r matches Err(
                ContractError::CustodianDepositAddressNotFound { merchant },
            ) && merchant@ == info.sender@),
            r matches Ok((nonce, hash)) ==> {
                &&& final(self).appended(old(self), nonce)
                &&& nonce == old(self).next_nonce_spec()
                &&& hash@ == mint_hash(nonce, info.sender@, amount, tx_id@, deposit_address@)
                &&& final(self).hashes() == old(self).hashes().push(hash@)
                &&& final(self).requests().len() == old(self).requests().len() + 1
                &&& final(self).requests().drop_last() == old(self).requests()
                &&& has_fields(
                    final(self).requests().last(),
                    info.sender@,
                    amount,
                    tx_id@,
                    deposit_address@,
                    MintRequestStatus::Pending,
                )
            },
            r is Err ==> *final(self) == *old(self),
    {
        allow_only(&[Role::Merchant], &info.sender, roles)?;
        let expected = match get_custodian_deposit_address(dep, info.sender.as_str()) {
            Ok(a) => a,
            Err(e) => return Err(e),
        };
        let given = deposit_address.to_owned();
        if !(expected == given) {
            return Err(ContractError::CustodianDepositAddressNotFound { merchant: info.sender.clone() });
        }
        if amount == 0 {
            return Err(ContractError::ZeroAmount {});
        }
        let nonce = self.index.next_nonce();
        let tx = tx_id.to_owned();
        let hash = hash_mint_request(nonce, &info.sender, amount, &tx, &given);
        let request = MintRequest {
            requester: info.sender.clone(),
            amount,
            tx_id: tx,
            deposit_address: given,
            status: MintRequestStatus::Pending,
        };
        self.index.insert(copy_bytes(&hash), request);
        assert(self.requests().drop_last() =~= old(self).requests());
        Ok((nonce, hash))
    }

    /// Moves the request with hash `hash` from `Pending` to `s`; returns the
    /// request as it now stands.
    fn conclude(&mut self, hash: &Vec<u8>, s: MintRequestStatus) -> (r: Result<MintRequest, ContractError>)
        requires
            old(self).wf(),
        ensures
            final(self).wf(),
            match old(self).hash_position(hash@) {
                None => r == Err::<MintRequest, ContractError>(ContractError::RequestNotFound {}) && *final(self)
                    == *old(self),
                Some(i) => if old(self).requests()[i].status == MintRequestStatus::Pending {
                    r == Ok::<MintRequest, ContractError>(with_status(old(self).requests()[i], s))
                        && final(self).only_status_changed(old(self), i, s)
                } else {
                    is_status_error(r, hash@) && *final(self) == *old(self)
                },
            },
    {
        let i = match self.index.position_of_hash(hash) {
            Some(i) => i,
            None => return Err(ContractError::RequestNotFound {}),
        };
        let current = self.index.request_at(i).copied();
        if current.status != MintRequestStatus::Pending {
            return Err(ContractError::UpdatableStatusExpected { request_hash: copy_bytes(hash) });
        }
        let updated = MintRequest {
            requester: current.requester,
            amount: current.amount,
            tx_id: current.tx_id,
            deposit_address: current.deposit_address,
            status: s,
        };
        self.index.set_request(i, updated.copied());
        Ok(updated)
    }

    /// The custodian approves a pending request; returns it, now `Approved`.
    /// The caller then issues its amount to its requester.
    pub fn approve_mint_request(&mut self, roles: &RoleRegistry, info: &MessageInfo, hash: &Vec<u8>) -> (r: Result<
        MintRequest,
        ContractError,
    >)
        requires
            old(self).wf(),
            roles.wf(),
        ensures
            final(self).wf(),
            !roles.has_role(Role::Custodian, info.sender@) ==> r == Err::<MintRequest, ContractError>(
                ContractError::Unauthorized {},
            ) && *final(self) == *old(self),
            roles.has_role(Role::Custodian, info.sender@) ==> match old(self).hash_position(hash@) {
                None => r == Err::<MintRequest, ContractError>(ContractError::RequestNotFound {}) && *final(self)
                    == *old(self),
                Some(i) => if old(self).requests()[i].status == MintRequestStatus::Pending {
                    r == Ok::<MintRequest, ContractError>(
                        with_status(old(self).requests()[i], MintRequestStatus::Approved),
                    ) && final(self).only_status_changed(old(self), i, MintRequestStatus::Approved)
                } else {
                    is_status_error(r, hash@) && *final(self) == *old(self)
                },
            },
    {
        allow_only(&[Role::Custodian], &info.sender, roles)?;
        self.conclude(hash, MintRequestStatus::Approved)
    }

    /// The custodian rejects a pending request.
    pub fn reject_mint_request(&mut self, roles: &RoleRegistry, info: &MessageInfo, hash: &Vec<u8>) -> (r: Result<
        (),
        ContractError,
    >)
        requires
            old(self).wf(),
            roles.wf(),
        ensures
            final(self).wf(),
            !roles.has_role(Role::Custodian, info.sender@) ==> r == Err::<(), ContractError>(
                ContractError::Unauthorized {},
            ) && *final(self) == *old(self),
            roles.has_role(Role::Custodian, info.sender@) ==> match old(self).hash_position(hash@) {
                None => r == Err::<(), ContractError>(ContractError::RequestNotFound {}) && *final(self) == *old(self),
                Some(i) => if old(self).requests()[i].status == MintRequestStatus::Pending {
                    r is Ok && final(self).only_status_changed(old(self), i, MintRequestStatus::Rejected)
                } else {
                    is_status_error(r, hash@) && *final(self) == *old(self)
                },
            },
    {
        allow_only(&[Role::Custodian], &info.sender, roles)?;
        match self.conclude(hash, MintRequestStatus::Rejected) {
            Ok(_) => Ok(()),
            Err(e) => Err(e),
        }
    }

    /// The merchant that made a pending request withdraws it.
    pub fn cancel_mint_request(&mut self, info: &MessageInfo, hash: &Vec<u8>) -> (r: Result<(), ContractError>)
        requires
            old(self).wf(),
        ensures
            final(self).wf(),
            match old(self).hash_position(hash@) {
                None => r == Err::<(), ContractError>(ContractError::RequestNotFound {}) && *final(self) == *old(self),
                Some(i) => if old(self).requests()[i].requester@ != info.sender@ {
                    r == Err::<(), ContractError>(ContractError::Unauthorized {}) && *final(self) == *old(self)
                } else if old(self).requests()[i].status == MintRequestStatus::Pending {
                    r is Ok && final(self).only_status_changed(old(self), i, MintRequestStatus::Cancelled)
                } else {
                    is_status_error(r, hash@) && *final(self) == *old(self)
                },
            },
    {
        let i = match self.index.position_of_hash(hash) {
            Some(i) => i,
            None => return Err(ContractError::RequestNotFound {}),
        };
        if !(self.index.request_at(i).requester == info.sender) {
            return Err(ContractError::Unauthorized {});
        }
        match self.conclude(hash, MintRequestStatus::Cancelled) {
            Ok(_) => Ok(()),
            Err(e) => Err(e),
        }
    }

    fn record(&self, i: usize) -> (r: MintRecord)
        requires
            self.wf(),
            i < self.requests().len(),
        ensures
            self.is_record(r, i as int),
    {
        MintRecord { nonce: i as u64 + 1, hash: self.index.hash_at(i), request: self.index.request_at(i).copied() }
    }

    /// The request with hash `hash`.
    pub fn get_mint_request_by_hash(&self, hash: &Vec<u8>) -> (r: Result<MintRecord, ContractError>)
        requires
            self.wf(),
        ensures
            match self.hash_position(hash@) {
                Some(i) => r matches Ok(rec) && self.is_record(rec, i),
                None => r == Err::<MintRecord, ContractError>(ContractError::RequestNotFound {}),
            },
    {
        match self.index.position_of_hash(hash) {
            Some(i) => Ok(self.record(i)),
            None => Err(ContractError::RequestNotFound {}),
        }
    }

    /// The request with nonce `nonce`.
    pub fn get_mint_request_by_nonce(&self, nonce: u64) -> (r: Result<MintRecord, ContractError>)
        requires
            self.wf(),
        ensures
            1 <= nonce <= self.requests().len() ==> (r matches Ok(rec) && self.is_record(rec, nonce - 1)),
            !(1 <= nonce <= self.requests().len()) ==> r == Err::<MintRecord, ContractError>(
                ContractError::RequestNotFound {},
            ),
    {
        match self.index.position_of_nonce(nonce) {
            Some(i) => Ok(self.record(i)),
            None => Err(ContractError::RequestNotFound {}),
        }
    }

    /// The requests with nonces after `start_after_nonce`, a page of the
    /// size that `limit` gives, and of these the ones with status `status`,
    /// in order of nonce.
    pub fn list_mint_requests(
        &self,
        status: Option<MintRequestStatus>,
        start_after_nonce: Option<u64>,
        limit: Option<u32>,
    ) -> (r: Vec<MintRecord>)
        requires
            self.wf(),
        ensures
            r@.len() == self.listed(status, start_after_nonce, limit).len(),
            forall|k: int|
                0 <= k < r@.len() ==> self.is_record(#[trigger] r@[k], self.listed(status, start_after_nonce, limit)[k]),
    {
        let (lo, hi) = self.index.page(start_after_nonce, limit);
        let ghost pred = |i: int| status_matches(self.requests()[i], status);
        let mut out: Vec<MintRecord> = Vec::new();
        let mut i: usize = lo;
        assert(positions(lo as int, lo as int) =~= Seq::<int>::empty());
        while i < hi
            invariant
                lo <= i <= hi,
                hi <= self.requests().len(),
                pred == (|i: int| status_matches(self.requests()[i], status)),
                self.wf(),
                out@.len() == positions(lo as int, i as int).filter(pred).len(),
                forall|k: int|
                    0 <= k < out@.len() ==> self.is_record(#[trigger] out@[k], positions(lo as int, i as int).filter(pred)[k]),
            decreases hi - i,
        {
            proof {
                lemma_positions_extend(lo as int, i as int);
                lemma_filter_push(positions(lo as int, i as int), i as int, pred);
            }
            let keep = match status {
                Some(s) => self.index.request_at(i).status == s,
                None => true,
            };
            if keep {
                out.push(self.record(i));
            }
            i = i + 1;
        }
        out
    }
}

/// Successive successful issues take consecutive nonces: each one the
/// nonce after the one before, so that none is taken twice.
pub proof fn lemma_mint_nonces_consecutive(a: &MintLedger, b: &MintLedger, c: &MintLedger, n1: u64, n2: u64)
    requires
        b.appended(a, n1),
        c.appended(b, n2),
    ensures
        n2 == n1 + 1,
        n1 < n2,
{
}

/// The stored requests hold the nonces 1, 2, .. in order, so that no two
/// of them share one.
pub proof fn lemma_mint_record_nonces(l: &MintLedger, r1: MintRecord, i: int, r2: MintRecord, j: int)
    requires
        l.is_record(r1, i),
        l.is_record(r2, j),
        i < j,
    ensures
        r1.nonce < r2.nonce,
{
}

/// A request's hash is fixed by its nonce and its immutable fields alone:
/// two stored requests, in this ledger or another, that agree on them have
/// the same hash, whatever their status.
pub proof fn lemma_mint_hash_of_fields(l1: &MintLedger, i: int, l2: &MintLedger, j: int)
    requires
        l1.wf(),
        l2.wf(),
        0 <= i < l1.requests().len(),
        0 <= j < l2.requests().len(),
        i == j,
        l1.requests()[i].requester@ == l2.requests()[j].requester@,
        l1.requests()[i].amount == l2.requests()[j].amount,
        l1.requests()[i].tx_id@ == l2.requests()[j].tx_id@,
        l1.requests()[i].deposit_address@ == l2.requests()[j].deposit_address@,
    ensures
        l1.hashes()[i] == l2.hashes()[j],
        l1.hashes()[i] == mint_hash(
            (i + 1) as u64,
            l1.requests()[i].requester@,
            l1.requests()[i].amount,
            l1.requests()[i].tx_id@,
            l1.requests()[i].deposit_address@,
        ),
{
}

/// Once an approval, rejection or cancellation has moved a request out of
/// `Pending`, its hash still finds it, and it is no longer `Pending`: any of
/// the three on the same hash then fails with `UpdatableStatusExpected`.
pub proof fn lemma_mint_conclusion_is_final(l0: &MintLedger, l1: &MintLedger, h: Seq<u8>, i: int, s: MintRequestStatus)
    requires
        l0.wf(),
        l1.wf(),
        l0.hash_position(h) == Some(i),
        s != MintRequestStatus::Pending,
        l1.only_status_changed(l0, i, s),
    ensures
        l1.hash_position(h) == Some(i),
        l1.requests()[i].status != MintRequestStatus::Pending,
{
    assert(l1.index.len_spec() == l0.index.len_spec());
}

/// A listing from the start with page size `n` returns the first `n`
/// requests by nonce, or all where fewer are stored; one after the cursor
/// `k` returns only requests with nonces above `k`.
pub proof fn lemma_mint_listing_pages(l: &MintLedger, start_after_nonce: Option<u64>, limit: Option<u32>)
    ensures
        start_after_nonce is None ==> l.listed(None, start_after_nonce, limit) == positions(
            0,
            if limit_of(limit) < l.requests().len() { limit_of(limit) as int } else { l.requests().len() as int },
        ),
        forall|k: int|
            #![trigger l.listed(None, start_after_nonce, limit)[k]]
            0 <= k < l.listed(None, start_after_nonce, limit).len() ==> (start_after_nonce matches Some(c)
                ==> l.listed(None, start_after_nonce, limit)[k] + 1 > c),
{
    let (lo, hi) = window(l.requests().len(), start_after_nonce, limit_of(limit));
    let ps = positions(lo, hi);
    lemma_filter_all(ps, |i: int| status_matches(l.requests()[i], None));
}

/// Whether `r` passes the status filter `status`.
pub open spec fn status_matches(r: MintRequest, status: Option<MintRequestStatus>) -> bool {
    match status {
        Some(s) => r.status == s,
        None => true,
    }
}

} // verus!
