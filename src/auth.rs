//! Who holds which role, and the check that each change of state makes
//! before anything else.
use vstd::prelude::*;

use crate::error::{ContractError, MessageInfo};
use crate::order::{lemma_lex_irreflexive, lemma_lex_total, lemma_lex_transitive, lex_lt, str_lt};
use crate::page::{effective_limit, limit_of, prefix};

verus! {

#[derive(Clone, Copy, Debug, PartialEq, Eq, Structural)]
pub enum Role {
    Owner,
    Custodian,
    Merchant,
}

/// The holders of the three roles.  The merchants are kept in ascending
/// order, each once.
pub struct RoleRegistry {
    owner: String,
    custodian: Option<String>,
    merchants: Vec<String>,
}

/// Each element of `s` comes strictly before every later one.
pub open spec fn strictly_sorted(s: Seq<Seq<char>>) -> bool {
    forall|i: int, j: int| 0 <= i < j < s.len() ==> lex_lt(#[trigger] s[i], #[trigger] s[j])
}

/// The elements of `s` that come strictly after `start`; all of them where
/// there is no `start`.
pub open spec fn after(s: Seq<Seq<char>>, start: Option<Seq<char>>) -> Seq<Seq<char>> {
    match start {
        Some(b) => s.filter(|m: Seq<char>| lex_lt(b, m)),
        None => s,
    }
}

pub open spec fn opt_view(s: Option<String>) -> Option<Seq<char>> {
    match s {
        Some(x) => Some(x@),
        None => None,
    }
}

impl RoleRegistry {
    pub closed spec fn owner_view(&self) -> Seq<char> {
        self.owner@
    }

    pub closed spec fn custodian_view(&self) -> Option<Seq<char>> {
        opt_view(self.custodian)
    }

    /// The merchants, in ascending order.
    pub closed spec fn merchant_seq(&self) -> Seq<Seq<char>> {
        self.merchants@.map_values(|m: String| m@)
    }

    pub open spec fn wf(&self) -> bool {
        strictly_sorted(self.merchant_seq())
    }

    pub open spec fn is_merchant_spec(&self, a: Seq<char>) -> bool {
        self.merchant_seq().contains(a)
    }

    /// Whether the address `a` holds `role`.
    pub open spec fn has_role(&self, role: Role, a: Seq<char>) -> bool {
        match role {
            Role::Owner => self.owner_view() == a,
            Role::Custodian => self.custodian_view() == Some(a),
            Role::Merchant => self.is_merchant_spec(a),
        }
    }

    /// A registry in which `owner` is the owner, with no custodian and no
    /// merchant.
    pub fn new(owner: &str) -> (r: RoleRegistry)
        ensures
            r.wf(),
            r.owner_view() == owner@,
            r.custodian_view() is None,
            r.merchant_seq().len() == 0,
    {
        let r = RoleRegistry { owner: owner.to_owned(), custodian: None, merchants: Vec::new() };
        assert(r.merchant_seq() =~= Seq::<Seq<char>>::empty());
        r
    }

    /// Where `a` stands among the merchants, or where it would stand.
    fn locate(&self, a: &String) -> (r: Result<usize, usize>)
        requires
            self.wf(),
        ensures
            match r {
                Ok(i) => i < self.merchant_seq().len() && self.merchant_seq()[i as int] == a@,
                Err(p) => {
                    &&& p <= self.merchant_seq().len()
                    &&& forall|k: int| 0 <= k < p ==> lex_lt(#[trigger] self.merchant_seq()[k], a@)
                    &&& forall|k: int|
                        p <= k < self.merchant_seq().len() ==> lex_lt(a@, #[trigger] self.merchant_seq()[k])
                    &&& !self.merchant_seq().contains(a@)
                },
            },
    {
        let ghost ms = self.merchant_seq();
        let mut i: usize = 0;
        while i < self.merchants.len() && str_lt(&self.merchants[i], a)
            invariant
                ms == self.merchant_seq(),
                ms.len() == self.merchants@.len(),
                i <= ms.len(),
                forall|k: int| 0 <= k < i ==> lex_lt(#[trigger] ms[k], a@),
            decreases ms.len() - i,
        {
            i = i + 1;
        }
        if i < self.merchants.len() && self.merchants[i] == *a {
            return Ok(i);
        }
        proof {
            if i < ms.len() {
                lemma_lex_total(ms[i as int], a@);
                assert forall|k: int| i <= k < ms.len() implies lex_lt(a@, #[trigger] ms[k]) by {
                    if k > i {
                        lemma_lex_transitive(a@, ms[i as int], ms[k]);
                    }
                }
            }
            assert forall|k: int| 0 <= k < ms.len() implies #[trigger] ms[k] != a@ by {
                lemma_lex_irreflexive(a@);
            }
        }
        Err(i)
    }
}

/// Succeeds exactly when `sender` holds at least one of `roles`.
pub fn allow_only(roles: &[Role], sender: &String, reg: &RoleRegistry) -> (r: Result<(), ContractError>)
    requires
        reg.wf(),
    ensures
        r is Ok <==> exists|i: int| 0 <= i < roles@.len() && reg.has_role(#[trigger] roles@[i], sender@),
        r is Err ==> r == Err::<(), ContractError>(ContractError::Unauthorized {}),
{
    let mut i: usize = 0;
    while i < roles.len()
        invariant
            reg.wf(),
            i <= roles@.len(),
            forall|k: int| 0 <= k < i ==> !reg.has_role(#[trigger] roles@[k], sender@),
        decreases roles@.len() - i,
    {
        let held = match roles[i] {
            Role::Owner => reg.owner == *sender,
            Role::Custodian => match &reg.custodian {
                Some(c) => *c == *sender,
                None => false,
            },
            Role::Merchant => reg.locate(sender).is_ok(),
        };
        if held {
            return Ok(());
        }
        i = i + 1;
    }
    Err(ContractError::Unauthorized {})
}

/// The owner makes `address` the custodian, in place of any earlier one.
pub fn set_custodian(reg: &mut RoleRegistry, info: &MessageInfo, address: &str) -> (r: Result<(), ContractError>)
    requires
        old(reg).wf(),
    ensures
        final(reg).wf(),
        r is Ok <==> old(reg).owner_view() == info.sender@,
        r is Ok ==> {
            &&& final(reg).custodian_view() == Some(address@)
            &&& final(reg).owner_view() == old(reg).owner_view()
            &&& final(reg).merchant_seq() == old(reg).merchant_seq()
        },
        r is Err ==> r == Err::<(), ContractError>(ContractError::Unauthorized {}) && *final(reg) == *old(reg),
{
    allow_only(&[Role::Owner], &info.sender, reg)?;
    reg.custodian = Some(address.to_owned());
    Ok(())
}

/// Whether `address` is the custodian; fails where none was ever set.
pub fn is_custodian(reg: &RoleRegistry, address: &str) -> (r: Result<bool, ContractError>)
    ensures
        match reg.custodian_view() {
            Some(c) => r == Ok::<bool, ContractError>(c == address@),
            None => r == Err::<bool, ContractError>(ContractError::CustodianNotFound {}),
        },
{
    match &reg.custodian {
        Some(c) => {
            let a = address.to_owned();
            Ok(*c == a)
        },
        None => Err(ContractError::CustodianNotFound {}),
    }
}

/// The custodian; fails where none was ever set.
pub fn get_custodian(reg: &RoleRegistry) -> (r: Result<String, ContractError>)
    ensures
        match reg.custodian_view() {
            Some(c) => r is Ok && r->Ok_0@ == c,
            None => r == Err::<String, ContractError>(ContractError::CustodianNotFound {}),
        },
{
    match &reg.custodian {
        Some(c) => Ok(c.clone()),
        None => Err(ContractError::CustodianNotFound {}),
    }
}

/// The owner adds `address` to the merchants.  Adding one that is already
/// there changes nothing.
pub fn add_merchant(reg: &mut RoleRegistry, info: &MessageInfo, address: &str) -> (r: Result<(), ContractError>)
    requires
        old(reg).wf(),
    ensures
        final(reg).wf(),
        r is Ok <==> old(reg).owner_view() == info.sender@,
        r is Ok ==> {
            &&& forall|m: Seq<char>|
                final(reg).is_merchant_spec(m) <==> (old(reg).is_merchant_spec(m) || m == address@)
            &&& final(reg).owner_view() == old(reg).owner_view()
            &&& final(reg).custodian_view() == old(reg).custodian_view()
        },
        r is Err ==> r == Err::<(), ContractError>(ContractError::Unauthorized {}) && *final(reg) == *old(reg),
{
    allow_only(&[Role::Owner], &info.sender, reg)?;
    let a = address.to_owned();
    match reg.locate(&a) {
        Ok(_) => {},
        Err(p) => {
            let ghost ms = reg.merchant_seq();
            reg.merchants.insert(p, a);
            proof {
                let ns = reg.merchant_seq();
                assert(ns =~= ms.insert(p as int, address@));
                assert forall|i: int, j: int| 0 <= i < j < ns.len() implies lex_lt(
                    #[trigger] ns[i],
                    #[trigger] ns[j],
                ) by {
                    if i < p && j > p {
                        lemma_lex_transitive(ns[i], address@, ns[j]);
                    }
                }
                assert forall|m: Seq<char>| ns.contains(m) <==> (ms.contains(m) || m == address@) by {
                    if ns.contains(m) {
                        let k = choose|k: int| 0 <= k < ns.len() && ns[k] == m;
                        if k < p {
                            assert(ms[k] == m);
                        } else if k > p {
                            assert(ms[k - 1] == m);
                        }
                    }
                    if ms.contains(m) {
                        let k = choose|k: int| 0 <= k < ms.len() && ms[k] == m;
                        if k < p {
                            assert(ns[k] == m);
                        } else {
                            assert(ns[k + 1] == m);
                        }
                    }
                    if m == address@ {
                        assert(ns[p as int] == m);
                    }
                }
            }
        },
    }
    Ok(())
}

/// The owner removes `address` from the merchants.  Removing one that is
/// not there changes nothing.
pub fn remove_merchant(reg: &mut RoleRegistry, info: &MessageInfo, address: &str) -> (r: Result<(), ContractError>)
    requires
        old(reg).wf(),
    ensures
        final(reg).wf(),
        r is Ok <==> old(reg).owner_view() == info.sender@,
        r is Ok ==> {
            &&& forall|m: Seq<char>|
                final(reg).is_merchant_spec(m) <==> (old(reg).is_merchant_spec(m) && m != address@)
            &&& final(reg).owner_view() == old(reg).owner_view()
            &&& final(reg).custodian_view() == old(reg).custodian_view()
        },
        r is Err ==> r == Err::<(), ContractError>(ContractError::Unauthorized {}) && *final(reg) == *old(reg),
{
    allow_only(&[Role::Owner], &info.sender, reg)?;
    let a = address.to_owned();
    match reg.locate(&a) {
        Ok(p) => {
            let ghost ms = reg.merchant_seq();
            reg.merchants.remove(p);
            proof {
                let ns = reg.merchant_seq();
                assert(ns =~= ms.remove(p as int));
                assert forall|i: int, j: int| 0 <= i < j < ns.len() implies lex_lt(
                    #[trigger] ns[i],
                    #[trigger] ns[j],
                ) by {
                    if i >= p {
                        assert(ns[i] == ms[i + 1]);
                    }
                    if j >= p {
                        assert(ns[j] == ms[j + 1]);
                    }
                }
                assert forall|m: Seq<char>| ns.contains(m) <==> (ms.contains(m) && m != address@) by {
                    if ns.contains(m) {
                        let k = choose|k: int| 0 <= k < ns.len() && ns[k] == m;
                        if k < p {
                            assert(ms[k] == m);
                            assert(lex_lt(ms[k], ms[p as int]));
                            lemma_lex_irreflexive(m);
                        } else {
                            assert(ms[k + 1] == m);
                            assert(lex_lt(ms[p as int], ms[k + 1]));
                            lemma_lex_irreflexive(m);
                        }
                    }
                    if ms.contains(m) && m != address@ {
                        let k = choose|k: int| 0 <= k < ms.len() && ms[k] == m;
                        if k < p {
                            assert(ns[k] == m);
                        } else {
                            assert(ns[k - 1] == m);
                        }
                    }
                }
            }
        },
        Err(_) => {},
    }
    Ok(())
}

/// Whether `address` is a merchant.
pub fn is_merchant(reg: &RoleRegistry, address: &str) -> (r: bool)
    requires
        reg.wf(),
    ensures
        r == reg.is_merchant_spec(address@),
{
    let a = address.to_owned();
    reg.locate(&a).is_ok()
}

/// The merchants that come after `start_after`, in ascending order, at most
/// as many as the page size that `limit` gives.
pub fn list_merchants(reg: &RoleRegistry, start_after: Option<String>, limit: Option<u32>) -> (r: Vec<String>)
    requires
        reg.wf(),
    ensures
        r@.map_values(|m: String| m@) == prefix(after(reg.merchant_seq(), opt_view(start_after)), limit_of(limit)),
{
    let n = effective_limit(limit);
    let ghost ms = reg.merchant_seq();
    let ghost sa = opt_view(start_after);
    let ghost full = after(ms, sa);
    let mut out: Vec<String> = Vec::new();
    let mut i: usize = 0;
    while i < reg.merchants.len() && out.len() < n
        invariant
            ms == reg.merchant_seq(),
            ms.len() == reg.merchants@.len(),
            sa == opt_view(start_after),
            full == after(ms, sa),
            n == limit_of(limit),
            i <= ms.len(),
            out@.map_values(|m: String| m@) == after(ms.take(i as int), opt_view(start_after)),
            out@.len() <= n,
        decreases ms.len() - i,
    {
        let m = &reg.merchants[i];
        let keep = match &start_after {
            Some(b) => str_lt(b, m),
            None => true,
        };
        proof {
            assert(ms.take(i + 1) =~= ms.take(i as int) + seq![ms[i as int]]);
            if let Some(b) = sa {
                let pred = |m: Seq<char>| lex_lt(b, m);
                Seq::filter_distributes_over_add(ms.take(i as int), seq![ms[i as int]], pred);
                reveal_with_fuel(Seq::filter, 2);
            }
        }
        if keep {
            out.push(m.clone());
        }
        i = i + 1;
        assert(out@.map_values(|m: String| m@) =~= after(ms.take(i as int), opt_view(start_after)));
    }
    proof {
        assert(ms =~= ms.take(i as int) + ms.skip(i as int));
        if let Some(b) = sa {
            let pred = |m: Seq<char>| lex_lt(b, m);
            Seq::filter_distributes_over_add(ms.take(i as int), ms.skip(i as int), pred);
        }
        if i == ms.len() {
            assert(ms.take(i as int) =~= ms);
        }
        assert(out@.map_values(|m: String| m@) =~= prefix(full, n as nat));
    }
    out
}

/// A page of merchants after a cursor holds only merchants that come after
/// it, and never more than the page size.
pub proof fn lemma_merchant_page_after(reg: &RoleRegistry, start_after: Option<Seq<char>>, limit: Option<u32>)
    ensures
        prefix(after(reg.merchant_seq(), start_after), limit_of(limit)).len() <= limit_of(limit),
        forall|k: int|
            0 <= k < prefix(after(reg.merchant_seq(), start_after), limit_of(limit)).len() ==> (start_after matches Some(
                b,
            ) ==> lex_lt(b, #[trigger] prefix(after(reg.merchant_seq(), start_after), limit_of(limit))[k])),
{
    if let Some(b) = start_after {
        let pred = |m: Seq<char>| lex_lt(b, m);
        let f = reg.merchant_seq().filter(pred);
        assert forall|k: int| 0 <= k < prefix(f, limit_of(limit)).len() implies lex_lt(
            b,
            #[trigger] prefix(f, limit_of(limit))[k],
        ) by {
            reg.merchant_seq().lemma_filter_pred(pred, k);
        }
    }
}

} // verus!
