use sha2::{Digest, Sha256};
use wbtc_controller::deposit::{
    get_custodian_deposit_address, get_merchant_deposit_address, set_custodian_deposit_address,
    set_merchant_deposit_address, DepositAddressRegistry,
};
use wbtc_controller::digest::{hash_burn_request, hash_mint_request};
use wbtc_controller::{
    add_merchant, get_custodian, remove_merchant, set_custodian, BurnLedger, BurnRequestStatus, Coin,
    ContractError, MessageInfo, MintLedger, MintRequestStatus, RoleRegistry, TxId,
};

const OWNER: &str = "osmo1owner";
const CUSTODIAN: &str = "osmo1custodian";
const MERCHANT: &str = "osmo1merchant";
const DENOM: &str = "factory/osmo1contract/wbtc";

fn info(sender: &str) -> MessageInfo {
    MessageInfo { sender: sender.to_string(), funds: vec![] }
}

fn paying(sender: &str, denom: &str, amount: u128) -> MessageInfo {
    MessageInfo { sender: sender.to_string(), funds: vec![Coin { denom: denom.to_string(), amount }] }
}

fn deposit_of(merchant: &str) -> String {
    format!("bc1{}", merchant)
}

/// Owner, custodian and one merchant, with both deposit addresses set.
fn setup() -> (RoleRegistry, DepositAddressRegistry) {
    let mut roles = RoleRegistry::new(OWNER);
    set_custodian(&mut roles, &info(OWNER), CUSTODIAN).unwrap();
    add_merchant(&mut roles, &info(OWNER), MERCHANT).unwrap();
    let mut dep = DepositAddressRegistry::new();
    set_custodian_deposit_address(&mut dep, &roles, &info(CUSTODIAN), MERCHANT, &deposit_of(MERCHANT)).unwrap();
    set_merchant_deposit_address(&mut dep, &roles, &info(MERCHANT), &deposit_of(MERCHANT)).unwrap();
    (roles, dep)
}

fn expected_mint_preimage(nonce: u64, requester: &str, amount: u128, tx_id: &str, deposit: &str) -> Vec<u8> {
    let mut v = nonce.to_be_bytes().to_vec();
    for (i, s) in [requester, tx_id, deposit].iter().enumerate() {
        if i == 1 {
            v.extend_from_slice(&amount.to_be_bytes());
        }
        v.extend_from_slice(&(s.len() as u64).to_be_bytes());
        v.extend_from_slice(s.as_bytes());
    }
    v
}

#[test]
fn test_mint_and_burn() {
    let (roles, dep) = setup();
    let mut mint = MintLedger::new();
    let mut burn = BurnLedger::new(DENOM, 0);
    let amount: u128 = 100000000;

    let (nonce, hash) = mint
        .issue_mint_request(&roles, &dep, &info(MERCHANT), amount, "tx_id_1", &deposit_of(MERCHANT))
        .unwrap();
    assert_eq!(nonce, 1);

    let listed = mint.list_mint_requests(None, None, None);
    let req = listed[0].clone();
    assert_eq!(req.hash, hash);
    assert_eq!(mint.get_mint_request_by_hash(&req.hash).unwrap(), req);
    assert_eq!(mint.get_mint_request_by_nonce(req.nonce).unwrap(), req);
    assert_eq!(req.request.status, MintRequestStatus::Pending);

    let approved = mint.approve_mint_request(&roles, &info(CUSTODIAN), &req.hash).unwrap();
    assert_eq!(approved.requester, MERCHANT);
    assert_eq!(approved.amount, amount);
    assert_eq!(mint.get_mint_request_by_hash(&req.hash).unwrap().request.status, MintRequestStatus::Approved);

    let (burn_nonce, burn_hash) = burn.burn(&roles, &paying(MERCHANT, DENOM, amount), amount).unwrap();
    assert_eq!(burn_nonce, 1);
    let listed = burn.list_burn_requests(None, None, None);
    let breq = listed[0].clone();
    assert_eq!(breq.hash, burn_hash);
    assert_eq!(burn.get_burn_request_by_hash(&breq.hash).unwrap(), breq);
    assert_eq!(burn.get_burn_request_by_nonce(breq.nonce).unwrap(), breq);
    assert_eq!(breq.request.status, BurnRequestStatus::Executed);
    assert_eq!(breq.request.tx_id, TxId::Pending);

    burn.confirm_burn_request(&roles, &info(CUSTODIAN), &breq.hash, "tx_id_2").unwrap();
    assert_eq!(
        burn.get_burn_request_by_hash(&breq.hash).unwrap().request.tx_id,
        TxId::Confirmed("tx_id_2".to_string())
    );
}

#[test]
fn issue_then_approve() {
    let d = "bc1qdeposit";
    let mut roles = RoleRegistry::new(OWNER);
    set_custodian(&mut roles, &info(OWNER), CUSTODIAN).unwrap();
    add_merchant(&mut roles, &info(OWNER), MERCHANT).unwrap();
    let mut dep = DepositAddressRegistry::new();
    set_custodian_deposit_address(&mut dep, &roles, &info(CUSTODIAN), MERCHANT, d).unwrap();
    set_merchant_deposit_address(&mut dep, &roles, &info(MERCHANT), d).unwrap();
    let mut mint = MintLedger::new();
    let (nonce, hash) = mint.issue_mint_request(&roles, &dep, &info(MERCHANT), 100000000, "tx1", d).unwrap();
    assert_eq!(nonce, 1);
    let rec = mint.get_mint_request_by_hash(&hash).unwrap();
    assert_eq!(rec.request.status, MintRequestStatus::Pending);
    assert_eq!(rec.request.tx_id, "tx1");
    assert_eq!(rec.request.deposit_address, d);
    let credit = mint.approve_mint_request(&roles, &info(CUSTODIAN), &hash).unwrap();
    assert_eq!(credit.status, MintRequestStatus::Approved);
    assert_eq!((credit.requester.as_str(), credit.amount), (MERCHANT, 100000000));
    assert_eq!(mint.get_mint_request_by_nonce(1).unwrap().request.status, MintRequestStatus::Approved);
}

#[test]
fn burn_then_confirm() {
    let (roles, _dep) = setup();
    let mut burn = BurnLedger::new(DENOM, 0);
    let (nonce, hash) = burn.burn(&roles, &paying(MERCHANT, DENOM, 100000000), 100000000).unwrap();
    assert_eq!(nonce, 1);
    let rec = burn.get_burn_request_by_hash(&hash).unwrap();
    assert_eq!(rec.request.status, BurnRequestStatus::Executed);
    assert_eq!(rec.request.tx_id, TxId::Pending);
    assert_eq!(rec.request.amount, 100000000);
    burn.confirm_burn_request(&roles, &info(CUSTODIAN), &hash, "tx2").unwrap();
    assert_eq!(burn.get_burn_request_by_nonce(1).unwrap().request.tx_id, TxId::Confirmed("tx2".to_string()));
    // a second confirmation fails
    assert_eq!(
        burn.confirm_burn_request(&roles, &info(CUSTODIAN), &hash, "tx3"),
        Err(ContractError::UpdatableStatusExpected { request_hash: hash.clone() })
    );
    assert_eq!(burn.get_burn_request_by_nonce(1).unwrap().request.tx_id, TxId::Confirmed("tx2".to_string()));
}

#[test]
fn burn_below_minimum() {
    let (roles, _dep) = setup();
    let mut burn = BurnLedger::new(DENOM, 0);
    burn.set_min_burn_amount(&roles, &info(OWNER), 1000).unwrap();
    let err = burn.burn(&roles, &paying(MERCHANT, DENOM, 999), 999).unwrap_err();
    assert_eq!(err, ContractError::BurnAmountTooSmall { requested_burn_amount: 999, min_burn_amount: 1000 });
    assert!(burn.list_burn_requests(None, None, None).is_empty());
    assert_eq!(burn.get_burn_request_by_nonce(1), Err(ContractError::RequestNotFound {}));
    // at the minimum it goes through and takes nonce 1
    assert_eq!(burn.burn(&roles, &paying(MERCHANT, DENOM, 1000), 1000).unwrap().0, 1);
}

#[test]
fn non_owner_cannot_set_custodian() {
    let mut roles = RoleRegistry::new(OWNER);
    assert_eq!(set_custodian(&mut roles, &info("osmo1other"), CUSTODIAN), Err(ContractError::Unauthorized {}));
    assert_eq!(get_custodian(&roles), Err(ContractError::CustodianNotFound {}));
    set_custodian(&mut roles, &info(OWNER), CUSTODIAN).unwrap();
    assert_eq!(set_custodian(&mut roles, &info(CUSTODIAN), "osmo1other"), Err(ContractError::Unauthorized {}));
    assert_eq!(get_custodian(&roles).unwrap(), CUSTODIAN);
}

#[test]
fn nonces_count_up_from_one() {
    let (roles, dep) = setup();
    let mut mint = MintLedger::new();
    let mut burn = BurnLedger::new(DENOM, 0);
    for expected in 1..=5u64 {
        let (n, _) = mint.issue_mint_request(&roles, &dep, &info(MERCHANT), 7, "tx", &deposit_of(MERCHANT)).unwrap();
        assert_eq!(n, expected);
    }
    // a failed issue takes no nonce
    assert!(mint.issue_mint_request(&roles, &dep, &info(MERCHANT), 0, "tx", &deposit_of(MERCHANT)).is_err());
    let (n, _) = mint.issue_mint_request(&roles, &dep, &info(MERCHANT), 7, "tx", &deposit_of(MERCHANT)).unwrap();
    assert_eq!(n, 6);
    // burn nonces are a sequence of their own
    assert_eq!(burn.burn(&roles, &paying(MERCHANT, DENOM, 3), 3).unwrap().0, 1);
    assert_eq!(burn.burn(&roles, &paying(MERCHANT, DENOM, 3), 3).unwrap().0, 2);
}

#[test]
fn same_fields_other_nonce_other_hash() {
    let (roles, dep) = setup();
    let mut mint = MintLedger::new();
    let (_, h1) = mint.issue_mint_request(&roles, &dep, &info(MERCHANT), 5, "tx", &deposit_of(MERCHANT)).unwrap();
    let (_, h2) = mint.issue_mint_request(&roles, &dep, &info(MERCHANT), 5, "tx", &deposit_of(MERCHANT)).unwrap();
    assert_ne!(h1, h2);
    // the hash depends on the fields alone: a fresh ledger gives the same one
    let mut other = MintLedger::new();
    let (_, h3) = other.issue_mint_request(&roles, &dep, &info(MERCHANT), 5, "tx", &deposit_of(MERCHANT)).unwrap();
    assert_eq!(h1, h3);
    // and its status does not enter it
    mint.reject_mint_request(&roles, &info(CUSTODIAN), &h1).unwrap();
    assert_eq!(mint.get_mint_request_by_nonce(1).unwrap().hash, h1);
}

#[test]
fn mint_hash_is_sha256_of_the_fields() {
    let requester = MERCHANT.to_string();
    let tx = "tx_id_1".to_string();
    let d = deposit_of(MERCHANT);
    let h = hash_mint_request(3, &requester, 100000000, &tx, &d);
    let expected = Sha256::digest(expected_mint_preimage(3, MERCHANT, 100000000, "tx_id_1", &d)).to_vec();
    assert_eq!(h.len(), 32);
    assert_eq!(h, expected);
}

#[test]
fn burn_hash_is_sha256_of_the_fields() {
    let requester = MERCHANT.to_string();
    let h = hash_burn_request(2, &requester, 42);
    let mut pre = 2u64.to_be_bytes().to_vec();
    pre.extend_from_slice(&(MERCHANT.len() as u64).to_be_bytes());
    pre.extend_from_slice(MERCHANT.as_bytes());
    pre.extend_from_slice(&42u128.to_be_bytes());
    assert_eq!(h, Sha256::digest(&pre).to_vec());
    assert_ne!(h, hash_burn_request(3, &requester, 42));
}

#[test]
fn each_conclusion_only_from_pending() {
    let (roles, dep) = setup();
    let mut mint = MintLedger::new();
    let mut hashes = vec![];
    for _ in 0..3 {
        hashes.push(mint.issue_mint_request(&roles, &dep, &info(MERCHANT), 9, "tx", &deposit_of(MERCHANT)).unwrap().1);
    }
    mint.approve_mint_request(&roles, &info(CUSTODIAN), &hashes[0]).unwrap();
    mint.reject_mint_request(&roles, &info(CUSTODIAN), &hashes[1]).unwrap();
    mint.cancel_mint_request(&info(MERCHANT), &hashes[2]).unwrap();
    for h in &hashes {
        let status_err = Err(ContractError::UpdatableStatusExpected { request_hash: h.clone() });
        assert_eq!(mint.approve_mint_request(&roles, &info(CUSTODIAN), h).map(|_| ()), status_err);
        assert_eq!(mint.reject_mint_request(&roles, &info(CUSTODIAN), h), status_err);
        assert_eq!(mint.cancel_mint_request(&info(MERCHANT), h), status_err);
    }
    let statuses: Vec<MintRequestStatus> =
        mint.list_mint_requests(None, None, None).into_iter().map(|r| r.request.status).collect();
    assert_eq!(
        statuses,
        vec![MintRequestStatus::Approved, MintRequestStatus::Rejected, MintRequestStatus::Cancelled]
    );
}

#[test]
fn listing_pages_by_nonce() {
    let (roles, dep) = setup();
    let mut mint = MintLedger::new();
    for i in 0..150u128 {
        mint.issue_mint_request(&roles, &dep, &info(MERCHANT), i + 1, "tx", &deposit_of(MERCHANT)).unwrap();
    }
    let nonces = |v: Vec<wbtc_controller::MintRecord>| v.into_iter().map(|r| r.nonce).collect::<Vec<u64>>();
    assert_eq!(nonces(mint.list_mint_requests(None, None, None)), (1..=10).collect::<Vec<u64>>());
    assert_eq!(nonces(mint.list_mint_requests(None, None, Some(3))), vec![1, 2, 3]);
    assert_eq!(nonces(mint.list_mint_requests(None, None, Some(500))), (1..=100).collect::<Vec<u64>>());
    assert_eq!(nonces(mint.list_mint_requests(None, Some(7), Some(3))), vec![8, 9, 10]);
    assert_eq!(nonces(mint.list_mint_requests(None, Some(148), None)), vec![149, 150]);
    assert_eq!(nonces(mint.list_mint_requests(None, Some(150), None)), Vec::<u64>::new());
    // the filter applies within the page
    mint.approve_mint_request(&roles, &info(CUSTODIAN), &mint.get_mint_request_by_nonce(2).unwrap().hash).unwrap();
    assert_eq!(nonces(mint.list_mint_requests(Some(MintRequestStatus::Approved), None, Some(5))), vec![2]);
    assert_eq!(nonces(mint.list_mint_requests(Some(MintRequestStatus::Pending), None, Some(5))), vec![1, 3, 4, 5]);
    assert_eq!(mint.get_mint_request_by_nonce(0), Err(ContractError::RequestNotFound {}));
    assert_eq!(mint.get_mint_request_by_nonce(151), Err(ContractError::RequestNotFound {}));
}

#[test]
fn burn_listing_pages_by_nonce() {
    let (roles, _dep) = setup();
    let mut burn = BurnLedger::new(DENOM, 0);
    for _ in 0..12 {
        burn.burn(&roles, &paying(MERCHANT, DENOM, 5), 5).unwrap();
    }
    let nonces: Vec<u64> = burn.list_burn_requests(None, Some(9), None).into_iter().map(|r| r.nonce).collect();
    assert_eq!(nonces, vec![10, 11, 12]);
    let first: Vec<u64> = burn.list_burn_requests(Some(BurnRequestStatus::Executed), None, None).into_iter().map(|r| r.nonce).collect();
    assert_eq!(first, (1..=10).collect::<Vec<u64>>());
}

#[test]
fn role_gate_on_every_mutation() {
    let (roles, mut dep) = setup();
    let mut mint = MintLedger::new();
    let mut burn = BurnLedger::new(DENOM, 0);
    let stranger = "osmo1stranger";
    let unauthorized = Err(ContractError::Unauthorized {});

    assert_eq!(
        set_custodian_deposit_address(&mut dep, &roles, &info(stranger), MERCHANT, "bc1x"),
        unauthorized
    );
    assert_eq!(get_custodian_deposit_address(&dep, MERCHANT).unwrap(), deposit_of(MERCHANT));
    assert_eq!(set_merchant_deposit_address(&mut dep, &roles, &info(stranger), "bc1x"), unauthorized);
    assert_eq!(get_merchant_deposit_address(&dep, stranger), None);
    assert_eq!(
        mint.issue_mint_request(&roles, &dep, &info(stranger), 1, "tx", &deposit_of(MERCHANT)).map(|_| ()),
        unauthorized
    );
    let (_, h) = mint.issue_mint_request(&roles, &dep, &info(MERCHANT), 1, "tx", &deposit_of(MERCHANT)).unwrap();
    assert_eq!(mint.approve_mint_request(&roles, &info(MERCHANT), &h).map(|_| ()), unauthorized);
    assert_eq!(mint.reject_mint_request(&roles, &info(OWNER), &h), unauthorized);
    assert_eq!(mint.cancel_mint_request(&info(CUSTODIAN), &h), unauthorized);
    assert_eq!(mint.get_mint_request_by_hash(&h).unwrap().request.status, MintRequestStatus::Pending);
    assert_eq!(burn.burn(&roles, &paying(stranger, DENOM, 5), 5).map(|_| ()), unauthorized);
    assert_eq!(burn.set_token_transfer_paused(&roles, &info(MERCHANT), true), unauthorized);
    assert_eq!(burn.set_min_burn_amount(&roles, &info(CUSTODIAN), 5), unauthorized);
    assert!(!burn.is_paused());
    assert_eq!(burn.min_burn_amount(), 0);
    let (_, bh) = burn.burn(&roles, &paying(MERCHANT, DENOM, 5), 5).unwrap();
    assert_eq!(burn.confirm_burn_request(&roles, &info(MERCHANT), &bh, "tx"), unauthorized);
    assert_eq!(burn.get_burn_request_by_hash(&bh).unwrap().request.tx_id, TxId::Pending);
}

#[test]
fn deposit_address_errors() {
    let (mut roles, mut dep) = setup();
    let mut mint = MintLedger::new();
    assert_eq!(
        set_custodian_deposit_address(&mut dep, &roles, &info(CUSTODIAN), "osmo1nobody", "bc1x"),
        Err(ContractError::DepositAddressAssociatedByNonMerchant { address: "osmo1nobody".to_string() })
    );
    add_merchant(&mut roles, &info(OWNER), "osmo1second").unwrap();
    assert_eq!(
        get_custodian_deposit_address(&dep, "osmo1second"),
        Err(ContractError::CustodianDepositAddressNotFound { merchant: "osmo1second".to_string() })
    );
    assert_eq!(
        mint.issue_mint_request(&roles, &dep, &info("osmo1second"), 1, "tx", "bc1x").map(|_| ()),
        Err(ContractError::CustodianDepositAddressNotFound { merchant: "osmo1second".to_string() })
    );
    // a deposit address other than the custodian's is refused as well
    assert_eq!(
        mint.issue_mint_request(&roles, &dep, &info(MERCHANT), 1, "tx", "bc1other").map(|_| ()),
        Err(ContractError::CustodianDepositAddressNotFound { merchant: MERCHANT.to_string() })
    );
    assert_eq!(
        mint.issue_mint_request(&roles, &dep, &info(MERCHANT), 0, "tx", &deposit_of(MERCHANT)).map(|_| ()),
        Err(ContractError::ZeroAmount {})
    );
    // the custodian's assignment can be replaced
    set_custodian_deposit_address(&mut dep, &roles, &info(CUSTODIAN), MERCHANT, "bc1new").unwrap();
    assert_eq!(get_custodian_deposit_address(&dep, MERCHANT).unwrap(), "bc1new");
    assert_eq!(get_merchant_deposit_address(&dep, MERCHANT).unwrap(), deposit_of(MERCHANT));
    // a removed merchant can no longer issue
    remove_merchant(&mut roles, &info(OWNER), MERCHANT).unwrap();
    assert_eq!(
        mint.issue_mint_request(&roles, &dep, &info(MERCHANT), 1, "tx", "bc1new").map(|_| ()),
        Err(ContractError::Unauthorized {})
    );
}

#[test]
fn burn_errors() {
    let (roles, _dep) = setup();
    let mut burn = BurnLedger::new(DENOM, 0);
    assert_eq!(
        burn.burn(&roles, &paying(MERCHANT, DENOM, 4), 5).map(|_| ()),
        Err(ContractError::BurnFundsMismatch { requested_burn_amount: 5 })
    );
    assert_eq!(
        burn.burn(&roles, &paying(MERCHANT, "uosmo", 5), 5).map(|_| ()),
        Err(ContractError::BurnFundsMismatch { requested_burn_amount: 5 })
    );
    assert_eq!(
        burn.burn(&roles, &info(MERCHANT), 5).map(|_| ()),
        Err(ContractError::BurnFundsMismatch { requested_burn_amount: 5 })
    );
    burn.set_token_transfer_paused(&roles, &info(OWNER), true).unwrap();
    assert_eq!(
        burn.burn(&roles, &paying(MERCHANT, DENOM, 5), 5).map(|_| ()),
        Err(ContractError::TokenTransferPaused {})
    );
    burn.set_token_transfer_paused(&roles, &info(OWNER), false).unwrap();
    assert_eq!(burn.burn(&roles, &paying(MERCHANT, DENOM, 5), 5).unwrap().0, 1);
    assert_eq!(
        burn.confirm_burn_request(&roles, &info(CUSTODIAN), &vec![0u8; 32], "tx"),
        Err(ContractError::RequestNotFound {})
    );
    assert_eq!(burn.get_burn_request_by_hash(&vec![1u8; 32]), Err(ContractError::RequestNotFound {}));
}

#[test]
fn unknown_mint_hash() {
    let (roles, _dep) = setup();
    let mut mint = MintLedger::new();
    assert_eq!(mint.approve_mint_request(&roles, &info(CUSTODIAN), &vec![7u8; 32]).map(|_| ()), Err(ContractError::RequestNotFound {}));
    assert_eq!(mint.cancel_mint_request(&info(MERCHANT), &vec![7u8; 32]), Err(ContractError::RequestNotFound {}));
}
