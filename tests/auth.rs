use wbtc_controller::{
    add_merchant, allow_only, get_custodian, is_custodian, is_merchant, list_merchants, non_payable,
    remove_merchant, set_custodian, Coin, ContractError, MessageInfo, Role, RoleRegistry,
};

fn info(sender: &str) -> MessageInfo {
    MessageInfo { sender: sender.to_string(), funds: vec![] }
}

#[test]
fn test_manage_custodian() {
    let owner = "osmo1owner";
    let non_owner = "osmo1nonowner";
    let custodian_address = "osmo1custodian";
    let non_custodian_address = "osmo1noncustodian";

    let mut reg = RoleRegistry::new(owner);

    // before any custodian is set, both queries fail
    assert_eq!(is_custodian(&reg, custodian_address).unwrap_err(), ContractError::CustodianNotFound {});
    assert_eq!(get_custodian(&reg).unwrap_err(), ContractError::CustodianNotFound {});

    // only the owner may set the custodian
    let err = set_custodian(&mut reg, &info(non_owner), custodian_address).unwrap_err();
    assert_eq!(err, ContractError::Unauthorized {});
    assert_eq!(get_custodian(&reg).unwrap_err(), ContractError::CustodianNotFound {});

    set_custodian(&mut reg, &info(owner), custodian_address).unwrap();

    assert_eq!(get_custodian(&reg).unwrap(), custodian_address);
    assert_eq!(is_custodian(&reg, custodian_address).unwrap(), true);
    assert_eq!(is_custodian(&reg, non_custodian_address).unwrap(), false);
}

#[test]
fn test_manage_merchant() {
    let owner = "osmo1owner";
    let non_owner = "osmo1nonowner";
    let merchant_address_1 = "osmo1merchant1";
    let merchant_address_2 = "osmo1merchant2";

    let mut reg = RoleRegistry::new(owner);

    assert!(!is_merchant(&reg, owner));
    assert!(!is_merchant(&reg, merchant_address_1));
    assert!(!is_merchant(&reg, merchant_address_2));

    let err = add_merchant(&mut reg, &info(non_owner), merchant_address_1).unwrap_err();
    assert_eq!(err, ContractError::Unauthorized {});
    assert!(!is_merchant(&reg, merchant_address_1));

    add_merchant(&mut reg, &info(owner), merchant_address_1).unwrap();
    assert!(is_merchant(&reg, merchant_address_1));
    assert!(!is_merchant(&reg, merchant_address_2));

    add_merchant(&mut reg, &info(owner), merchant_address_2).unwrap();
    assert!(is_merchant(&reg, merchant_address_1));
    assert!(is_merchant(&reg, merchant_address_2));

    let err = remove_merchant(&mut reg, &info(non_owner), merchant_address_1).unwrap_err();
    assert_eq!(err, ContractError::Unauthorized {});
    assert!(is_merchant(&reg, merchant_address_1));

    remove_merchant(&mut reg, &info(owner), merchant_address_1).unwrap();
    assert!(!is_merchant(&reg, merchant_address_1));
    assert!(is_merchant(&reg, merchant_address_2));
}

fn merchant_name(i: u32) -> String {
    format!("osmo1merchant{:0>3}", i)
}

#[test]
fn test_list_merchants() {
    let owner = "osmo1owner";
    let mut reg = RoleRegistry::new(owner);

    assert_eq!(list_merchants(&reg, None, None), Vec::<String>::new());

    // added in descending order, listed in ascending order
    for i in (1..=200).rev() {
        add_merchant(&mut reg, &info(owner), &merchant_name(i)).unwrap();
    }

    let first_ten: Vec<String> = (1..=10).map(merchant_name).collect();
    assert_eq!(list_merchants(&reg, None, None), first_ten);

    let first_twenty_one: Vec<String> = (1..=21).map(merchant_name).collect();
    assert_eq!(list_merchants(&reg, None, Some(21)), first_twenty_one);

    let first_hundred: Vec<String> = (1..=100).map(merchant_name).collect();
    assert_eq!(list_merchants(&reg, None, Some(999)), first_hundred);

    let hundred_one_to_hundred_forty_two: Vec<String> = (101..=142).map(merchant_name).collect();
    assert_eq!(
        list_merchants(&reg, Some(first_hundred.last().unwrap().clone()), Some(42)),
        hundred_one_to_hundred_forty_two
    );
}

#[test]
fn adding_a_merchant_twice_keeps_one_entry() {
    let owner = "osmo1owner";
    let mut reg = RoleRegistry::new(owner);
    add_merchant(&mut reg, &info(owner), "osmo1m").unwrap();
    add_merchant(&mut reg, &info(owner), "osmo1m").unwrap();
    assert_eq!(list_merchants(&reg, None, None), vec!["osmo1m".to_string()]);
    remove_merchant(&mut reg, &info(owner), "osmo1absent").unwrap();
    assert_eq!(list_merchants(&reg, None, None), vec!["osmo1m".to_string()]);
}

#[test]
fn listing_after_a_cursor_that_is_not_a_merchant() {
    let owner = "osmo1owner";
    let mut reg = RoleRegistry::new(owner);
    for a in ["b", "d", "a", "c", "ab"] {
        add_merchant(&mut reg, &info(owner), a).unwrap();
    }
    assert_eq!(list_merchants(&reg, None, None), vec!["a", "ab", "b", "c", "d"]);
    assert_eq!(list_merchants(&reg, Some("a".to_string()), Some(2)), vec!["ab", "b"]);
    assert_eq!(list_merchants(&reg, Some("bb".to_string()), None), vec!["c", "d"]);
    assert_eq!(list_merchants(&reg, Some("z".to_string()), None), Vec::<String>::new());
    assert_eq!(list_merchants(&reg, None, Some(0)), Vec::<String>::new());
}

#[test]
fn role_gate_accepts_any_of_the_roles() {
    let owner = "osmo1owner";
    let mut reg = RoleRegistry::new(owner);
    set_custodian(&mut reg, &info(owner), "osmo1custodian").unwrap();
    add_merchant(&mut reg, &info(owner), "osmo1merchant").unwrap();

    let sender = "osmo1merchant".to_string();
    assert_eq!(allow_only(&[Role::Owner], &sender, &reg), Err(ContractError::Unauthorized {}));
    assert_eq!(allow_only(&[Role::Owner, Role::Merchant], &sender, &reg), Ok(()));
    assert_eq!(allow_only(&[], &sender, &reg), Err(ContractError::Unauthorized {}));
    assert_eq!(allow_only(&[Role::Custodian], &"osmo1custodian".to_string(), &reg), Ok(()));
    assert_eq!(allow_only(&[Role::Owner], &owner.to_string(), &reg), Ok(()));
}

#[test]
fn replacing_the_custodian() {
    let owner = "osmo1owner";
    let mut reg = RoleRegistry::new(owner);
    set_custodian(&mut reg, &info(owner), "osmo1first").unwrap();
    set_custodian(&mut reg, &info(owner), "osmo1second").unwrap();
    assert_eq!(get_custodian(&reg).unwrap(), "osmo1second");
    assert_eq!(is_custodian(&reg, "osmo1first").unwrap(), false);
}

#[test]
fn non_payable_refuses_funds() {
    assert_eq!(non_payable(&info("a")), Ok(()));
    let paid = MessageInfo {
        sender: "a".to_string(),
        funds: vec![Coin { denom: "uosmo".to_string(), amount: 1 }],
    };
    assert_eq!(non_payable(&paid), Err(ContractError::NonPayable {}));
}
