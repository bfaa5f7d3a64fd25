//! Burn requests: a merchant burns tokens at once, and the custodian later
//! confirms the release of the asset outside with its transaction id.
use vstd::prelude::*;

use crate::auth::{allow_only, Role, RoleRegistry};
use crate::digest::{burn_hash, hash_burn_request};
use crate::error::{Coin, ContractError, MessageInfo};
use crate::index::{copy_bytes, first_position, lemma_filter_all, lemma_filter_push, lemma_positions_extend, positions, window, RequestIndex};
use crate::mint::is_status_error;
use crate::page::limit_of;

verus! {

#[derive(Clone, Copy, Debug, PartialEq, Eq, Structural)]
pub enum BurnRequestStatus {
    Executed,
}

/// Whether the custodian has confirmed a burn, and with which transaction.
#[derive(Clone, Debug, PartialEq, Eq)]
pub enum TxId {
    Pending,
    Confirmed(String),
}

/// A record of `amount` burnt by `requester`.
#[derive(Clone, Debug, PartialEq, Eq)]
pub struct BurnRequest {
    pub requester: String,
    pub amount: u128,
    pub status: BurnRequestStatus,
    pub tx_id: TxId,
}

impl TxId {
    /// An equal transaction state.
    pub fn copied(&self) -> (r: TxId)
        ensures
            r == *self,
    {
        match self {
            TxId::Pending => TxId::Pending,
            TxId::Confirmed(t) => TxId::Confirmed(t.clone()),
        }
    }
}

impl BurnRequest {
    /// An equal request.
    pub fn copied(&self) -> (r: BurnRequest)
        ensures
            r == *self,
    {
        BurnRequest {
            requester: self.requester.clone(),
            amount: self.amount,
            status: self.status,
            tx_id: self.tx_id.copied(),
        }
    }
}

/// A burn request as a query returns it, with its identifiers.
#[derive(Clone, Debug, PartialEq, Eq)]
pub struct BurnRecord {
    pub nonce: u64,
    pub hash: Vec<u8>,
    pub request: BurnRequest,
}

/// The burn requests, by nonce and by hash, with the rules that a burn
/// passes: the token it burns, whether transfers are paused, and the least
/// amount that one burn may take.
pub struct BurnLedger {
    index: RequestIndex<BurnRequest>,
    denom: String,
    paused: bool,
    min_burn_amount: u128,
}

/// The funds are exactly `amount` of `denom`.
pub open spec fn funds_match(funds: Seq<Coin>, denom: Seq<char>, amount: u128) -> bool {
    funds.len() == 1 && funds[0].denom@ == denom && funds[0].amount == amount
}

/// Whether `r` passes the status filter `status`.
pub open spec fn burn_status_matches(r: BurnRequest, status: Option<BurnRequestStatus>) -> bool {
    match status {
        Some(s) => r.status == s,
        None => true,
    }
}

impl BurnLedger {
    pub closed spec fn requests(&self) -> Seq<BurnRequest> {
        self.index.requests()
    }

    pub closed spec fn hashes(&self) -> Seq<Seq<u8>> {
        self.index.hashes()
    }

    pub closed spec fn denom_view(&self) -> Seq<char> {
        self.denom@
    }

    pub closed spec fn paused_view(&self) -> bool {
        self.paused
    }

    pub closed spec fn min_burn_amount_view(&self) -> u128 {
        self.min_burn_amount
    }

    /// The nonce that the next request will take.
    pub open spec fn next_nonce_spec(&self) -> int {
        self.requests().len() as int + 1
    }

    /// The request with hash `h`: the first one, were two to share it.
    pub open spec fn hash_position(&self, h: Seq<u8>) -> Option<int> {
        first_position(self.hashes(), h)
    }

    /// Each request's hash is that of its immutable fields and its nonce.
    pub closed spec fn wf(&self) -> bool {
        &&& self.index.wf()
        &&& self.hashes().len() == self.requests().len()
        &&& self.requests().len() <= u64::MAX
        &&& forall|i: int|
            0 <= i < self.requests().len() ==> #[trigger] self.hashes()[i] == burn_hash(
                (i + 1) as u64,
                self.requests()[i].requester@,
                self.requests()[i].amount,
            )
    }

    /// The rules of burning are those of `old`.
    pub open spec fn same_rules(&self, old: &BurnLedger) -> bool {
        &&& self.denom_view() == old.denom_view()
        &&& self.paused_view() == old.paused_view()
        &&& self.min_burn_amount_view() == old.min_burn_amount_view()
    }

    /// `rec` is the request at position `i`, with its identifiers.
    pub open spec fn is_record(&self, rec: BurnRecord, i: int) -> bool {
        &&& 0 <= i < self.requests().len()
        &&& rec.nonce == i + 1
        &&& rec.hash@ == self.hashes()[i]
        &&& rec.request == self.requests()[i]
    }

    /// `self` is `old` with one request more, under nonce `nonce`.
    pub open spec fn appended(&self, old: &BurnLedger, nonce: u64) -> bool {
        &&& nonce == old.next_nonce_spec()
        &&& self.requests().len() == old.requests().len() + 1
        &&& self.requests().drop_last() == old.requests()
    }

    /// The positions that a listing returns, in order.
    pub open spec fn listed(&self, status: Option<BurnRequestStatus>, start_after_nonce: Option<u64>, limit: Option<u32>) -> Seq<int> {
        let (lo, hi) = window(self.requests().len(), start_after_nonce, limit_of(limit));
        positions(lo, hi).filter(|i: int| burn_status_matches(self.requests()[i], status))
    }

    /// An empty ledger for burns of `denom`, not paused, in which a burn
    /// must take at least `min_burn_amount`.
    pub fn new(denom: &str, min_burn_amount: u128) -> (r: BurnLedger)
        ensures
            r.wf(),
            r.requests().len() == 0,
            r.hashes().len() == 0,
            r.denom_view() == denom@,
            !r.paused_view(),
            r.min_burn_amount_view() == min_burn_amount,
    {
        let r = BurnLedger { index: RequestIndex::new(), denom: denom.to_owned(), paused: false, min_burn_amount };
        r
    }

    /// The owner pauses or resumes transfers, and with them burns.
    pub fn set_token_transfer_paused(&mut self, roles: &RoleRegistry, info: &MessageInfo, paused: bool) -> (r: Result<
        (),
        ContractError,
    >)
        requires
            old(self).wf(),
            roles.wf(),
        ensures
            final(self).wf(),
            r is Ok <==> roles.has_role(Role::Owner, info.sender@),
            r is Ok ==> {
                &&& final(self).paused_view() == paused
                &&& final(self).requests() == old(self).requests()
                &&& final(self).hashes() == old(self).hashes()
                &&& final(self).denom_view() == old(self).denom_view()
                &&& final(self).min_burn_amount_view() == old(self).min_burn_amount_view()
            },
            r is Err ==> r == Err::<(), ContractError>(ContractError::Unauthorized {}) && *final(self) == *old(self),
    {
        allow_only(&[Role::Owner], &info.sender, roles)?;
        self.paused = paused;
        Ok(())
    }

    /// The owner sets the least amount that one burn may take.
    pub fn set_min_burn_amount(&mut self, roles: &RoleRegistry, info: &MessageInfo, amount: u128) -> (r: Result<
        (),
        ContractError,
    >)
        requires
            old(self).wf(),
            roles.wf(),
        ensures
            final(self).wf(),
            r is Ok <==> roles.has_role(Role::Owner, info.sender@),
            r is Ok ==> {
                &&& final(self).min_burn_amount_view() == amount
                &&& final(self).requests() == old(self).requests()
                &&& final(self).hashes() == old(self).hashes()
                &&& final(self).denom_view() == old(self).denom_view()
                &&& final(self).paused_view() == old(self).paused_view()
            },
            r is Err ==> r == Err::<(), ContractError>(ContractError::Unauthorized {}) && *final(self) == *old(self),
    {
        allow_only(&[Role::Owner], &info.sender, roles)?;
        self.min_burn_amount = amount;
        Ok(())
    }

    /// Whether burns are paused.
    pub fn is_paused(&self) -> (r: bool)
        ensures
            r == self.paused_view(),
    {
        self.paused
    }

    /// The least amount that one burn may take.
    pub fn min_burn_amount(&self) -> (r: u128)
        ensures
            r == self.min_burn_amount_view(),
    {
        self.min_burn_amount
    }

    /// A merchant burns `amount` of the token, attached to the call.  The
    /// burn is recorded under the next nonce as `Executed`, its confirmation
    /// `Pending`; returns its nonce and hash.  The caller then burns the
    /// attached funds.
    pub fn burn(&mut self, roles: &RoleRegistry, info: &MessageInfo, amount: u128) -> (r: Result<
        (u64, Vec<u8>),
        ContractError,
    >)
        requires
            old(self).wf(),
            roles.wf(),
            old(self).requests().len() < u64::MAX,
        ensures
            final(self).wf(),
            final(self).same_rules(old(self)),
            r is Ok <==> {
                &&& roles.has_role(Role::Merchant, info.sender@)
                &&& !old(self).paused_view()
                &&& amount >= old(self).min_burn_amount_view()
                &&& funds_match(info.funds@, old(self).denom_view(), amount)
            },
            !roles.has_role(Role::Merchant, info.sender@) ==> r == Err::<(u64, Vec<u8>), ContractError>(
                ContractError::Unauthorized {},
            ),
            roles.has_role(Role::Merchant, info.sender@) && old(self).paused_view() ==> r == Err::<
                (u64, Vec<u8>),
                ContractError,
            >(ContractError::TokenTransferPaused {}),
            roles.has_role(Role::Merchant, info.sender@) && !old(self).paused_view() && amount
                < old(self).min_burn_amount_view() ==> r == Err::<(u64, Vec<u8>), ContractError>(
                ContractError::BurnAmountTooSmall {
                    requested_burn_amount: amount,
                    min_burn_amount: old(self).min_burn_amount_view(),
                },
            ),
            roles.has_role(Role::Merchant, info.sender@) && !old(self).paused_view() && amount
                >= old(self).min_burn_amount_view() && !funds_match(info.funds@, old(self).denom_view(), amount)
                ==> r == Err::<(u64, Vec<u8>), ContractError>(
                ContractError::BurnFundsMismatch { requested_burn_amount: amount },
            ),
            r matches Ok((nonce, hash)) ==> {
                &&& final(self).appended(old(self), nonce)
                &&& nonce == old(self).next_nonce_spec()
                &&& hash@ == burn_hash(nonce, info.sender@, amount)
                &&& final(self).hashes() == old(self).hashes().push(hash@)
                &&& final(self).requests().len() == old(self).requests().len() + 1
                &&& final(self).requests().drop_last() == old(self).requests()
                &&& final(self).requests().last().requester@ == info.sender@
                &&& final(self).requests().last().amount == amount
                &&& final(self).requests().last().status == BurnRequestStatus::Executed
                &&& final(self).requests().last().tx_id == TxId::Pending
            },
            r is Err ==> *final(self) == *old(self),
    {
        allow_only(&[Role::Merchant], &info.sender, roles)?;
        if self.paused {
            return Err(ContractError::TokenTransferPaused {});
        }
        if amount < self.min_burn_amount {
            return Err(
                ContractError::BurnAmountTooSmall {
                    requested_burn_amount: amount,
                    min_burn_amount: self.min_burn_amount,
                },
            );
        }
        if !(info.funds.len() == 1 && info.funds[0].denom == self.denom && info.funds[0].amount == amount) {
            return Err(ContractError::BurnFundsMismatch { requested_burn_amount: amount });
        }
        let nonce = self.index.next_nonce();
        let hash = hash_burn_request(nonce, &info.sender, amount);
        let request = BurnRequest {
            requester: info.sender.clone(),
            amount,
            status: BurnRequestStatus::Executed,
            tx_id: TxId::Pending,
        };
        self.index.insert(copy_bytes(&hash), request);
        assert(self.requests().drop_last() =~= old(self).requests());
        Ok((nonce, hash))
    }

    /// The custodian confirms a burn with the transaction `tx_id` that
    /// released the asset outside.
    pub fn confirm_burn_request(
        &mut self,
        roles: &RoleRegistry,
        info: &MessageInfo,
        hash: &Vec<u8>,
        tx_id: &str,
    ) -> (r: Result<(), ContractError>)
        requires
            old(self).wf(),
            roles.wf(),
        ensures
            final(self).wf(),
            !roles.has_role(Role::Custodian, info.sender@) ==> r == Err::<(), ContractError>(
                ContractError::Unauthorized {},
            ) && *final(self) == *old(self),
            roles.has_role(Role::Custodian, info.sender@) ==> match old(self).hash_position(hash@) {
                None => r == Err::<(), ContractError>(ContractError::RequestNotFound {}) && *final(self) == *old(self),
                Some(i) => if old(self).requests()[i].tx_id == TxId::Pending {
                    &&& r is Ok
                    &&& final(self).same_rules(old(self))
                    &&& final(self).hashes() == old(self).hashes()
                    &&& final(self).requests().len() == old(self).requests().len()
                    &&& forall|j: int|
                        0 <= j < old(self).requests().len() && j != i ==> #[trigger] final(self).requests()[j]
                            == old(self).requests()[j]
                    &&& final(self).requests()[i].requester == old(self).requests()[i].requester
                    &&& final(self).requests()[i].amount == old(self).requests()[i].amount
                    &&& final(self).requests()[i].status == old(self).requests()[i].status
                    &&& final(self).requests()[i].tx_id matches TxId::Confirmed(t) && t@ == tx_id@
                } else {
                    is_status_error(r, hash@) && *final(self) == *old(self)
                },
            },
    {
        allow_only(&[Role::Custodian], &info.sender, roles)?;
        let i = match self.index.position_of_hash(hash) {
            Some(i) => i,
            None => return Err(ContractError::RequestNotFound {}),
        };
        let current = self.index.request_at(i).copied();
        match current.tx_id {
            TxId::Pending => {},
            TxId::Confirmed(_) => {
                return Err(ContractError::UpdatableStatusExpected { request_hash: copy_bytes(hash) });
            },
        }
        let updated = BurnRequest {
            requester: current.requester,
            amount: current.amount,
            status: current.status,
            tx_id: TxId::Confirmed(tx_id.to_owned()),
        };
        self.index.set_request(i, updated);
        Ok(())
    }

    fn record(&self, i: usize) -> (r: BurnRecord)
        requires
            self.wf(),
            i < self.requests().len(),
        ensures
            self.is_record(r, i as int),
    {
        BurnRecord { nonce: i as u64 + 1, hash: self.index.hash_at(i), request: self.index.request_at(i).copied() }
    }

    /// The request with hash `hash`.
    pub fn get_burn_request_by_hash(&self, hash: &Vec<u8>) -> (r: Result<BurnRecord, ContractError>)
        requires
            self.wf(),
        ensures
            match self.hash_position(hash@) {
                Some(i) => r matches Ok(rec) && self.is_record(rec, i),
                None => r == Err::<BurnRecord, ContractError>(ContractError::RequestNotFound {}),
            },
    {
        match self.index.position_of_hash(hash) {
            Some(i) => Ok(self.record(i)),
            None => Err(ContractError::RequestNotFound {}),
        }
    }

    /// The request with nonce `nonce`.
    pub fn get_burn_request_by_nonce(&self, nonce: u64) -> (r: Result<BurnRecord, ContractError>)
        requires
            self.wf(),
        ensures
            1 <= nonce <= self.requests().len() ==> (r matches Ok(rec) && self.is_record(rec, nonce - 1)),
            !(1 <= nonce <= self.requests().len()) ==> r == Err::<BurnRecord, ContractError>(
                ContractError::RequestNotFound {},
            ),
    {
        match self.index.position_of_nonce(nonce) {
            Some(i) => Ok(self.record(i)),
            None => Err(ContractError::RequestNotFound {}),
        }
    }

    /// The requests with nonces after `start_after_nonce`, a page of the
    /// size that `limit` gives, and of these the ones with status `status`,
    /// in order of nonce.
    pub fn list_burn_requests(
        &self,
        status: Option<BurnRequestStatus>,
        start_after_nonce: Option<u64>,
        limit: Option<u32>,
    ) -> (r: Vec<BurnRecord>)
        requires
            self.wf(),
        ensures
            r@.len() == self.listed(status, start_after_nonce, limit).len(),
            forall|k: int|
                0 <= k < r@.len() ==> self.is_record(#[trigger] r@[k], self.listed(status, start_after_nonce, limit)[k]),
    {
        let (lo, hi) = self.index.page(start_after_nonce, limit);
        let ghost pred = |i: int| burn_status_matches(self.requests()[i], status);
        let mut out: Vec<BurnRecord> = Vec::new();
        let mut i: usize = lo;
        assert(positions(lo as int, lo as int) =~= Seq::<int>::empty());
        while i < hi
            invariant
                lo <= i <= hi,
                hi <= self.requests().len(),
                pred == (|i: int| burn_status_matches(self.requests()[i], status)),
                self.wf(),
                out@.len() == positions(lo as int, i as int).filter(pred).len(),
                forall|k: int|
                    0 <= k < out@.len() ==> self.is_record(#[trigger] out@[k], positions(lo as int, i as int).filter(pred)[k]),
            decreases hi - i,
        {
            proof {
                lemma_positions_extend(lo as int, i as int);
                lemma_filter_push(positions(lo as int, i as int), i as int, pred);
            }
            let keep = match status {
                Some(s) => self.index.request_at(i).status == s,
                None => true,
            };
            if keep {
                out.push(self.record(i));
            }
            i = i + 1;
        }
        out
    }
}

/// Successive successful burns take consecutive nonces: each one the nonce
/// after the one before, so that none is taken twice.
pub proof fn lemma_burn_nonces_consecutive(a: &BurnLedger, b: &BurnLedger, c: &BurnLedger, n1: u64, n2: u64)
    requires
        b.appended(a, n1),
        c.appended(b, n2),
    ensures
        n2 == n1 + 1,
        n1 < n2,
{
}

/// The stored burns hold the nonces 1, 2, .. in order, so that no two of
/// them share one.
pub proof fn lemma_burn_record_nonces(l: &BurnLedger, r1: BurnRecord, i: int, r2: BurnRecord, j: int)
    requires
        l.is_record(r1, i),
        l.is_record(r2, j),
        i < j,
    ensures
        r1.nonce < r2.nonce,
{
}

/// A burn's hash is fixed by its nonce and its immutable fields alone: two
/// stored burns, in this ledger or another, that agree on them have the same
/// hash, whether confirmed or not.
pub proof fn lemma_burn_hash_of_fields(l1: &BurnLedger, i: int, l2: &BurnLedger, j: int)
    requires
        l1.wf(),
        l2.wf(),
        0 <= i < l1.requests().len(),
        0 <= j < l2.requests().len(),
        i == j,
        l1.requests()[i].requester@ == l2.requests()[j].requester@,
        l1.requests()[i].amount == l2.requests()[j].amount,
    ensures
        l1.hashes()[i] == l2.hashes()[j],
        l1.hashes()[i] == burn_hash((i + 1) as u64, l1.requests()[i].requester@, l1.requests()[i].amount),
{
}

/// Once a burn is confirmed, its hash still finds it and it is no longer
/// pending: a second confirmation fails with `UpdatableStatusExpected`.
pub proof fn lemma_burn_confirmation_is_final(l0: &BurnLedger, l1: &BurnLedger, h: Seq<u8>, i: int)
    requires
        l0.wf(),
        l1.wf(),
        l0.hash_position(h) == Some(i),
        l1.hashes() == l0.hashes(),
        l1.requests().len() == l0.requests().len(),
        l1.requests()[i].tx_id is Confirmed,
    ensures
        l1.hash_position(h) == Some(i),
        l1.requests()[i].tx_id != TxId::Pending,
{
    assert(l1.index.len_spec() == l0.index.len_spec());
}

/// A listing from the start with page size `n` returns the first `n` burns
/// by nonce, or all where fewer are stored; one after the cursor `k`
/// returns only burns with nonces above `k`.
pub proof fn lemma_burn_listing_pages(l: &BurnLedger, start_after_nonce: Option<u64>, limit: Option<u32>)
    ensures
        start_after_nonce is None ==> l.listed(None, start_after_nonce, limit) == positions(
            0,
            if limit_of(limit) < l.requests().len() { limit_of(limit) as int } else { l.requests().len() as int },
        ),
        forall|k: int|
            #![trigger l.listed(None, start_after_nonce, limit)[k]]
            0 <= k < l.listed(None, start_after_nonce, limit).len() ==> (start_after_nonce matches Some(c)
                ==> l.listed(None, start_after_nonce, limit)[k] + 1 > c),
{
    let (lo, hi) = window(l.requests().len(), start_after_nonce, limit_of(limit));
    let ps = positions(lo, hi);
    lemma_filter_all(ps, |i: int| burn_status_matches(l.requests()[i], None));
}

} // verus!
