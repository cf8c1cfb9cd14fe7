use tether_token::upgrade;
use tether_token::AccountId;
use tether_token::Contract;
use tether_token::Error;

const TOTAL_SUPPLY: u128 = 1_000_000_000_000_000;

fn accounts(n: usize) -> AccountId {
    let names = ["alice", "bob", "charlie", "danny", "eugene", "fargo"];
    AccountId::new(names[n].to_string())
}

fn contract_account() -> AccountId {
    AccountId::new("token.tether".to_string())
}

#[test]
fn transfer_rejects_self_zero_and_strangers() {
    let mut contract = Contract::new_default_meta(accounts(0), TOTAL_SUPPLY).unwrap();
    contract.internal_register_account(&accounts(1)).unwrap();
    assert_eq!(
        contract.ft_transfer(&accounts(0), &accounts(0), 1, None),
        Err(Error::State)
    );
    assert_eq!(
        contract.ft_transfer(&accounts(0), &accounts(1), 0, None),
        Err(Error::State)
    );
    // The receiver must be registered.
    assert_eq!(
        contract.ft_transfer(&accounts(0), &accounts(2), 1, None),
        Err(Error::NotFound)
    );
    // So must the sender.
    assert_eq!(
        contract.ft_transfer(&accounts(2), &accounts(1), 1, None),
        Err(Error::NotFound)
    );
    // And the sender must hold enough.
    assert_eq!(
        contract.ft_transfer(&accounts(1), &accounts(0), 1, None),
        Err(Error::Arithmetic)
    );
}

#[test]
fn banned_sender_cannot_transfer() {
    let mut contract = Contract::new_default_meta(accounts(0), TOTAL_SUPPLY).unwrap();
    contract.internal_register_account(&accounts(1)).unwrap();
    contract.mint(&accounts(0), &accounts(1), 1000).unwrap();
    contract.add_to_blacklist(&accounts(0), &accounts(1)).unwrap();
    assert_eq!(
        contract.ft_transfer(&accounts(1), &accounts(0), 1, None),
        Err(Error::Compliance)
    );
    // The ban hits the authenticated caller, not the receiver.
    contract.ft_transfer(&accounts(0), &accounts(1), 1, None).unwrap();
}

#[test]
fn transfer_call_moves_tokens_and_registers_nothing_else() {
    let mut contract = Contract::new_default_meta(accounts(0), TOTAL_SUPPLY).unwrap();
    contract.internal_register_account(&accounts(1)).unwrap();
    contract
        .ft_transfer_call(&accounts(0), &accounts(1), 500, None, "payload".to_string())
        .unwrap();
    assert_eq!(contract.ft_balance_of(&accounts(1)).unwrap(), 500);
    assert_eq!(
        contract.ft_balance_of(&accounts(0)).unwrap(),
        TOTAL_SUPPLY - 500
    );
}

#[test]
fn resolve_refunds_reported_unused_amount() {
    let mut contract = Contract::new_default_meta(accounts(0), TOTAL_SUPPLY).unwrap();
    contract.internal_register_account(&accounts(1)).unwrap();
    contract
        .ft_transfer_call(&accounts(0), &accounts(1), 500, None, "payload".to_string())
        .unwrap();
    // The receiver reports 200 unused; they come back to the sender.
    let (used, burned) = contract
        .ft_resolve_transfer(
            &contract_account(),
            &contract_account(),
            &accounts(0),
            &accounts(1),
            500,
            Some(200),
        )
        .unwrap();
    assert_eq!(used, 300);
    assert_eq!(burned, 0);
    assert_eq!(contract.ft_balance_of(&accounts(1)).unwrap(), 300);
    assert_eq!(
        contract.ft_balance_of(&accounts(0)).unwrap(),
        TOTAL_SUPPLY - 300
    );
    assert_eq!(contract.ft_total_supply().unwrap(), TOTAL_SUPPLY);
}

#[test]
fn resolve_refunds_everything_on_failed_callback() {
    let mut contract = Contract::new_default_meta(accounts(0), TOTAL_SUPPLY).unwrap();
    contract.internal_register_account(&accounts(1)).unwrap();
    contract
        .ft_transfer_call(&accounts(0), &accounts(1), 500, None, "payload".to_string())
        .unwrap();
    // No readable answer from the receiver: everything is refunded.
    let (used, burned) = contract
        .ft_resolve_transfer(
            &contract_account(),
            &contract_account(),
            &accounts(0),
            &accounts(1),
            500,
            None,
        )
        .unwrap();
    assert_eq!(used, 0);
    assert_eq!(burned, 0);
    assert_eq!(contract.ft_balance_of(&accounts(1)).unwrap(), 0);
    assert_eq!(contract.ft_balance_of(&accounts(0)).unwrap(), TOTAL_SUPPLY);
}

#[test]
fn resolve_burns_refund_when_sender_disappeared() {
    let mut contract = Contract::new_default_meta(accounts(0), TOTAL_SUPPLY).unwrap();
    contract.internal_register_account(&accounts(1)).unwrap();
    contract.internal_register_account(&accounts(2)).unwrap();
    contract.mint(&accounts(0), &accounts(2), 800).unwrap();
    contract
        .ft_transfer_call(&accounts(2), &accounts(1), 500, None, "payload".to_string())
        .unwrap();
    // The sender unregisters while the call is in flight, burning the
    // 300 still on the account.
    let gone = contract.internal_storage_unregister(&accounts(2), true).unwrap();
    assert_eq!(gone, 300);
    // The receiver used nothing; the refund has no owner left and is
    // burned, keeping the supply equal to the sum of balances.
    let supply_before = contract.ft_total_supply().unwrap();
    let (used, burned) = contract
        .ft_resolve_transfer(
            &contract_account(),
            &contract_account(),
            &accounts(2),
            &accounts(1),
            500,
            Some(500),
        )
        .unwrap();
    assert_eq!(used, 500);
    assert_eq!(burned, 500);
    assert_eq!(contract.ft_balance_of(&accounts(1)).unwrap(), 0);
    assert_eq!(contract.ft_total_supply().unwrap(), supply_before - 500);
}

#[test]
fn resolve_caps_report_at_amount_sent() {
    let mut contract = Contract::new_default_meta(accounts(0), TOTAL_SUPPLY).unwrap();
    contract.internal_register_account(&accounts(1)).unwrap();
    contract
        .ft_transfer_call(&accounts(0), &accounts(1), 500, None, "payload".to_string())
        .unwrap();
    // A receiver cannot claim more unused than was sent.
    let (used, burned) = contract
        .ft_resolve_transfer(
            &contract_account(),
            &contract_account(),
            &accounts(0),
            &accounts(1),
            500,
            Some(u128::MAX),
        )
        .unwrap();
    assert_eq!(used, 0);
    assert_eq!(burned, 0);
    assert_eq!(contract.ft_balance_of(&accounts(0)).unwrap(), TOTAL_SUPPLY);
}

#[test]
fn resolve_is_a_self_call_only() {
    let mut contract = Contract::new_default_meta(accounts(0), TOTAL_SUPPLY).unwrap();
    let r = contract.ft_resolve_transfer(
        &accounts(4),
        &contract_account(),
        &accounts(0),
        &accounts(1),
        500,
        None,
    );
    assert_eq!(r, Err(Error::Authorization));
}

#[test]
fn storage_unregister_requires_force_on_a_funded_account() {
    let mut contract = Contract::new_default_meta(accounts(0), TOTAL_SUPPLY).unwrap();
    contract.internal_register_account(&accounts(1)).unwrap();
    contract.mint(&accounts(0), &accounts(1), 10).unwrap();
    assert_eq!(
        contract.internal_storage_unregister(&accounts(1), false),
        Err(Error::State)
    );
    assert_eq!(
        contract.internal_storage_unregister(&accounts(2), false),
        Err(Error::NotFound)
    );
    let supply_before = contract.ft_total_supply().unwrap();
    assert_eq!(
        contract.internal_storage_unregister(&accounts(1), true),
        Ok(10)
    );
    assert_eq!(contract.ft_total_supply().unwrap(), supply_before - 10);
}

#[test]
fn double_registration_is_refused() {
    let mut contract = Contract::new_default_meta(accounts(0), TOTAL_SUPPLY).unwrap();
    contract.internal_register_account(&accounts(1)).unwrap();
    assert_eq!(
        contract.internal_register_account(&accounts(1)),
        Err(Error::State)
    );
}

#[test]
fn upgrade_is_owner_only_and_plans_the_batch() {
    let contract = Contract::new_default_meta(accounts(0), TOTAL_SUPPLY).unwrap();
    let state = Some(contract);
    let code = vec![0u8, 1, 2, 3];

    let r = upgrade(&state, &accounts(1), code.clone());
    assert_eq!(r.err(), Some(Error::Authorization));

    let batch = upgrade(&state, &accounts(0), code.clone()).unwrap();
    assert_eq!(batch.code, code);
    assert_eq!(batch.migrate_method, "migrate");

    let uninitialized: Option<Contract> = None;
    assert_eq!(
        upgrade(&uninitialized, &accounts(0), code).err(),
        Some(Error::NotFound)
    );
}

#[test]
fn snapshot_restore_round_trip() {
    let mut contract = Contract::new_default_meta(accounts(0), TOTAL_SUPPLY).unwrap();
    contract.internal_register_account(&accounts(1)).unwrap();
    contract.ft_transfer(&accounts(0), &accounts(1), 12345, None).unwrap();
    contract.extend_guardians(&accounts(0), vec![accounts(3)]).unwrap();
    contract.add_to_blacklist(&accounts(0), &accounts(4)).unwrap();
    contract.propose_new_owner(&accounts(0), accounts(2)).unwrap();

    let image = contract.snapshot();
    let revived = Contract::restore(image).unwrap();
    assert_eq!(revived.owner(), accounts(0));
    assert_eq!(revived.ft_total_supply().unwrap(), TOTAL_SUPPLY);
    assert_eq!(revived.ft_balance_of(&accounts(1)).unwrap(), 12345);
    assert!(revived.guardians().contains(&accounts(3)));
    assert_eq!(
        revived.get_blacklist_status(&accounts(4)).unwrap(),
        tether_token::BlackListStatus::Banned
    );
    // The pending proposal survives: the proposed successor can accept.
    let mut revived = revived;
    revived.accept_ownership(&accounts(2)).unwrap();
    assert_eq!(revived.owner(), accounts(2));
}

#[test]
fn restore_refuses_a_corrupt_image() {
    let contract = Contract::new_default_meta(accounts(0), TOTAL_SUPPLY).unwrap();
    let mut image = contract.snapshot();
    // A total supply out of step with the balances is rejected.
    image.total_supply = TOTAL_SUPPLY - 1;
    assert_eq!(Contract::restore(image).err(), Some(Error::State));

    let contract = Contract::new_default_meta(accounts(0), TOTAL_SUPPLY).unwrap();
    let mut image = contract.snapshot();
    // A duplicated balance record is rejected.
    image.balances.push((accounts(0), 0));
    assert_eq!(Contract::restore(image).err(), Some(Error::State));

    let contract = Contract::new_default_meta(accounts(0), TOTAL_SUPPLY).unwrap();
    let mut image = contract.snapshot();
    // A duplicated guardian is rejected.
    image.guardians.push(accounts(1));
    image.guardians.push(accounts(1));
    assert_eq!(Contract::restore(image).err(), Some(Error::State));
}

#[test]
fn migrate_is_a_self_call_on_present_state() {
    let contract = Contract::new_default_meta(accounts(0), TOTAL_SUPPLY).unwrap();
    let me = contract_account();

    let r = Contract::migrate(Some(contract), &accounts(0), &me);
    assert_eq!(r.err(), Some(Error::Authorization));

    let contract = Contract::new_default_meta(accounts(0), TOTAL_SUPPLY).unwrap();
    let migrated = Contract::migrate(Some(contract), &me, &me).unwrap();
    assert_eq!(migrated.ft_total_supply().unwrap(), TOTAL_SUPPLY);

    assert_eq!(
        Contract::migrate(None, &me, &me).err(),
        Some(Error::NotFound)
    );
}
