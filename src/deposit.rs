//! Deposit addresses of the merchants on the outside chain: the one that the
//! custodian assigns to each merchant, and the one that each merchant declares.
use vstd::prelude::*;

use crate::auth::{allow_only, is_merchant, Role, RoleRegistry};
use crate::error::{ContractError, MessageInfo};

verus! {

/// A map from addresses to addresses, each key once.
pub struct AddressMap {
    keys: Vec<String>,
    values: Vec<String>,
    model: Ghost<Map<Seq<char>, Seq<char>>>,
}

impl AddressMap {
    pub closed spec fn map(&self) -> Map<Seq<char>, Seq<char>> {
        self.model@
    }

    pub closed spec fn wf(&self) -> bool {
        &&& self.keys@.len() == self.values@.len()
        &&& forall|i: int, j: int|
            0 <= i < j < self.keys@.len() ==> #[trigger] self.keys@[i]@ != #[trigger] self.keys@[j]@
        &&& forall|i: int|
            0 <= i < self.keys@.len() ==> self.model@.contains_key(#[trigger] self.keys@[i]@)
                && self.model@[self.keys@[i]@] == self.values@[i]@
        &&& forall|k: Seq<char>|
            #[trigger] self.model@.contains_key(k) ==> exists|i: int|
                0 <= i < self.keys@.len() && #[trigger] self.keys@[i]@ == k
    }

    pub fn new() -> (r: AddressMap)
        ensures
            r.wf(),
            r.map() == Map::<Seq<char>, Seq<char>>::empty(),
    {
        AddressMap { keys: Vec::new(), values: Vec::new(), model: Ghost(Map::empty()) }
    }

    fn find(&self, key: &String) -> (r: Option<usize>)
        requires
            self.wf(),
        ensures
            match r {
                Some(i) => i < self.keys@.len() && self.keys@[i as int]@ == key@,
                None => !self.map().contains_key(key@),
            },
    {
        let mut i: usize = 0;
        while i < self.keys.len()
            invariant
                self.wf(),
                i <= self.keys@.len(),
                forall|k: int| 0 <= k < i ==> #[trigger] self.keys@[k]@ != key@,
            decreases self.keys@.len() - i,
        {
            if self.keys[i] == *key {
                return Some(i);
            }
            i = i + 1;
        }
        None
    }

    /// The value stored under `key`.
    pub fn get(&self, key: &String) -> (r: Option<String>)
        requires
            self.wf(),
        ensures
            match r {
                Some(v) => self.map().contains_key(key@) && v@ == self.map()[key@],
                None => !self.map().contains_key(key@),
            },
    {
        match self.find(key) {
            Some(i) => Some(self.values[i].clone()),
            None => None,
        }
    }

    /// Stores `value` under `key`, in place of any earlier value.
    pub fn set(&mut self, key: String, value: String)
        requires
            old(self).wf(),
        ensures
            final(self).wf(),
            final(self).map() == old(self).map().insert(key@, value@),
    {
        let ghost new_model = self.model@.insert(key@, value@);
        match self.find(&key) {
            Some(i) => {
                self.values.set(i, value);
            },
            None => {
                self.keys.push(key);
                self.values.push(value);
            },
        }
        self.model = Ghost(new_model);
        assert forall|k: Seq<char>| #[trigger] self.model@.contains_key(k) implies exists|i: int|
            0 <= i < self.keys@.len() && #[trigger] self.keys@[i]@ == k by {
            if k == key@ {
                let i = if self.keys@.len() > 0 && self.keys@.last()@ == k {
                    self.keys@.len() - 1
                } else {
                    choose|i: int| 0 <= i < self.keys@.len() && #[trigger] self.keys@[i]@ == k
                };
                assert(self.keys@[i]@ == k);
            } else {
                let i = choose|i: int| 0 <= i < old(self).keys@.len() && #[trigger] old(self).keys@[i]@ == k;
                assert(self.keys@[i]@ == k);
            }
        }
    }
}

/// The deposit addresses of each merchant.
pub struct DepositAddressRegistry {
    custodian_addresses: AddressMap,
    merchant_addresses: AddressMap,
}

impl DepositAddressRegistry {
    /// The address that the custodian assigned to each merchant.
    pub closed spec fn custodian_map(&self) -> Map<Seq<char>, Seq<char>> {
        self.custodian_addresses.map()
    }

    /// The address that each merchant declared for itself.
    pub closed spec fn merchant_map(&self) -> Map<Seq<char>, Seq<char>> {
        self.merchant_addresses.map()
    }

    pub closed spec fn wf(&self) -> bool {
        self.custodian_addresses.wf() && self.merchant_addresses.wf()
    }

    pub fn new() -> (r: DepositAddressRegistry)
        ensures
            r.wf(),
            r.custodian_map() == Map::<Seq<char>, Seq<char>>::empty(),
            r.merchant_map() == Map::<Seq<char>, Seq<char>>::empty(),
    {
        DepositAddressRegistry { custodian_addresses: AddressMap::new(), merchant_addresses: AddressMap::new() }
    }
}

pub open spec fn is_non_merchant_error(r: Result<(), ContractError>, merchant: Seq<char>) -> bool {
    match r {
        Err(ContractError::DepositAddressAssociatedByNonMerchant { address }) => address@ == merchant,
        _ => false,
    }
}

/// The custodian assigns `deposit_address` to `merchant`, in place of any
/// earlier one.
pub fn set_custodian_deposit_address(
    dep: &mut DepositAddressRegistry,
    roles: &RoleRegistry,
    info: &MessageInfo,
    merchant: &str,
    deposit_address: &str,
) -> (r: Result<(), ContractError>)
    requires
        old(dep).wf(),
        roles.wf(),
    ensures
        final(dep).wf(),
        !roles.has_role(Role::Custodian, info.sender@) ==> r == Err::<(), ContractError>(
            ContractError::Unauthorized {},
        ),
        roles.has_role(Role::Custodian, info.sender@) && !roles.is_merchant_spec(merchant@)
            ==> is_non_merchant_error(r, merchant@),
        r is Ok <==> roles.has_role(Role::Custodian, info.sender@) && roles.is_merchant_spec(merchant@),
        r is Ok ==> final(dep).custodian_map() == old(dep).custodian_map().insert(
            merchant@,
            deposit_address@,
        ) && final(dep).merchant_map() == old(dep).merchant_map(),
        r is Err ==> *final(dep) == *old(dep),
{
    allow_only(&[Role::Custodian], &info.sender, roles)?;
    if !is_merchant(roles, merchant) {
        return Err(ContractError::DepositAddressAssociatedByNonMerchant { address: merchant.to_owned() });
    }
    dep.custodian_addresses.set(merchant.to_owned(), deposit_address.to_owned());
    Ok(())
}

/// A merchant declares `deposit_address` as its own, in place of any earlier
/// one.
pub fn set_merchant_deposit_address(
    dep: &mut DepositAddressRegistry,
    roles: &RoleRegistry,
    info: &MessageInfo,
    deposit_address: &str,
) -> (r: Result<(), ContractError>)
    requires
        old(dep).wf(),
        roles.wf(),
    ensures
        final(dep).wf(),
        r is Ok <==> roles.has_role(Role::Merchant, info.sender@),
        r is Ok ==> final(dep).merchant_map() == old(dep).merchant_map().insert(
            info.sender@,
            deposit_address@,
        ) && final(dep).custodian_map() == old(dep).custodian_map(),
        r is Err ==> r == Err::<(), ContractError>(ContractError::Unauthorized {}) && *final(dep) == *old(dep),
{
    allow_only(&[Role::Merchant], &info.sender, roles)?;
    dep.merchant_addresses.set(info.sender.clone(), deposit_address.to_owned());
    Ok(())
}

/// The address that the custodian assigned to `merchant`.
pub fn get_custodian_deposit_address(dep: &DepositAddressRegistry, merchant: &str) -> (r: Result<
    String,
    ContractError,
>)
    requires
        dep.wf(),
    ensures
        match r {
            Ok(a) => dep.custodian_map().contains_key(merchant@) && a@ == dep.custodian_map()[merchant@],
            Err(ContractError::CustodianDepositAddressNotFound { merchant: m }) => m@ == merchant@
                && !dep.custodian_map().contains_key(merchant@),
            Err(_) => false,
        },
{
    let m = merchant.to_owned();
    match dep.custodian_addresses.get(&m) {
        Some(a) => Ok(a),
        None => Err(ContractError::CustodianDepositAddressNotFound { merchant: m }),
    }
}

/// The address that `merchant` declared for itself, if any.
pub fn get_merchant_deposit_address(dep: &DepositAddressRegistry, merchant: &str) -> (r: Option<String>)
    requires
        dep.wf(),
    ensures
        match r {
            Some(a) => dep.merchant_map().contains_key(merchant@) && a@ == dep.merchant_map()[merchant@],
            None => !dep.merchant_map().contains_key(merchant@),
        },
{
    let m = merchant.to_owned();
    dep.merchant_addresses.get(&m)
}

} // verus!
