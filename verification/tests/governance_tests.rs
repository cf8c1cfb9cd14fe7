use tether_token::AccountId;
use tether_token::BlackListStatus;
use tether_token::Contract;
use tether_token::ContractStatus;
use tether_token::Error;
use tether_token::FungibleTokenMetadata;

const TOTAL_SUPPLY: u128 = 1_000_000_000_000_000;

fn accounts(n: usize) -> AccountId {
    let names = ["alice", "bob", "charlie", "danny", "eugene", "fargo"];
    AccountId::new(names[n].to_string())
}

#[test]
fn blacklist_add_is_idempotent() {
    let mut contract = Contract::new_default_meta(accounts(0), TOTAL_SUPPLY).unwrap();
    contract.add_to_blacklist(&accounts(0), &accounts(1)).unwrap();
    contract.add_to_blacklist(&accounts(0), &accounts(1)).unwrap();
    assert_eq!(
        contract.get_blacklist_status(&accounts(1)).unwrap(),
        BlackListStatus::Banned
    );
    contract.remove_from_blacklist(&accounts(0), &accounts(1)).unwrap();
    contract.remove_from_blacklist(&accounts(0), &accounts(1)).unwrap();
    assert_eq!(
        contract.get_blacklist_status(&accounts(1)).unwrap(),
        BlackListStatus::Allowable
    );
    // Clearing an account that never had an entry is equally a no-op.
    contract.remove_from_blacklist(&accounts(0), &accounts(2)).unwrap();
    assert_eq!(
        contract.get_blacklist_status(&accounts(2)).unwrap(),
        BlackListStatus::Allowable
    );
}

#[test]
fn burn_beyond_balance_leaves_state_unchanged() {
    let mut contract = Contract::new_default_meta(accounts(0), TOTAL_SUPPLY).unwrap();
    let r = contract.burn(&accounts(0), &accounts(0), TOTAL_SUPPLY + 1);
    assert_eq!(r, Err(Error::Arithmetic));
    assert_eq!(contract.ft_total_supply().unwrap(), TOTAL_SUPPLY);
    assert_eq!(contract.ft_balance_of(&accounts(0)).unwrap(), TOTAL_SUPPLY);
}

#[test]
fn mint_overflowing_total_supply_leaves_state_unchanged() {
    let mut contract = Contract::new_default_meta(accounts(0), TOTAL_SUPPLY).unwrap();
    contract.internal_register_account(&accounts(1)).unwrap();
    let r = contract.mint(&accounts(0), &accounts(1), u128::MAX);
    assert_eq!(r, Err(Error::Arithmetic));
    assert_eq!(contract.ft_total_supply().unwrap(), TOTAL_SUPPLY);
    assert_eq!(contract.ft_balance_of(&accounts(1)).unwrap(), 0);
}

#[test]
fn burn_on_unregistered_account_is_not_found() {
    let mut contract = Contract::new_default_meta(accounts(0), TOTAL_SUPPLY).unwrap();
    let r = contract.burn(&accounts(0), &accounts(1), 1);
    assert_eq!(r, Err(Error::NotFound));
}

#[test]
fn ownership_transfer_round() {
    let mut contract = Contract::new_default_meta(accounts(0), TOTAL_SUPPLY).unwrap();
    // A proposes B.
    contract.propose_new_owner(&accounts(0), accounts(1)).unwrap();
    // C, who is not the proposed owner, cannot accept.
    assert_eq!(
        contract.accept_ownership(&accounts(2)),
        Err(Error::Authorization)
    );
    assert_eq!(contract.owner(), accounts(0));
    // B accepts and becomes the owner.
    contract.accept_ownership(&accounts(1)).unwrap();
    assert_eq!(contract.owner(), accounts(1));
    // A is no longer the owner: proposing fails.
    assert_eq!(
        contract.propose_new_owner(&accounts(0), accounts(0)),
        Err(Error::Authorization)
    );
    // Nothing is pending any more (owner equals proposed): accepting
    // fails for everyone, the old owner included.
    assert_eq!(contract.accept_ownership(&accounts(0)), Err(Error::State));
    assert_eq!(contract.accept_ownership(&accounts(1)), Err(Error::State));
}

#[test]
fn self_proposal_makes_acceptance_impossible() {
    let mut contract = Contract::new_default_meta(accounts(0), TOTAL_SUPPLY).unwrap();
    contract.propose_new_owner(&accounts(0), accounts(0)).unwrap();
    assert_eq!(contract.accept_ownership(&accounts(0)), Err(Error::State));
}

#[test]
fn pause_gates_every_token_entry_point() {
    let mut contract = Contract::new_default_meta(accounts(0), TOTAL_SUPPLY).unwrap();
    contract.internal_register_account(&accounts(1)).unwrap();
    contract.pause(&accounts(0)).unwrap();

    assert_eq!(
        contract.ft_transfer(&accounts(0), &accounts(1), 1, None),
        Err(Error::State)
    );
    assert_eq!(
        contract.mint(&accounts(0), &accounts(1), 1),
        Err(Error::State)
    );
    assert_eq!(
        contract.burn(&accounts(0), &accounts(0), 1),
        Err(Error::State)
    );
    assert_eq!(contract.ft_balance_of(&accounts(0)), Err(Error::State));
    assert_eq!(contract.ft_total_supply(), Err(Error::State));
    assert_eq!(contract.get_blacklist_status(&accounts(1)), Err(Error::State));
    assert_eq!(contract.name(), Err(Error::State));
    assert_eq!(contract.symbol(), Err(Error::State));
    assert_eq!(contract.decimals(), Err(Error::State));
    // Pausing an already-paused contract is itself rejected.
    assert_eq!(contract.pause(&accounts(0)), Err(Error::State));

    // The owner resumes, and normal operation returns.
    contract.resume(&accounts(0)).unwrap();
    assert_eq!(contract.ft_total_supply().unwrap(), TOTAL_SUPPLY);
    contract.ft_transfer(&accounts(0), &accounts(1), 1, None).unwrap();
    // Resuming a working contract is rejected.
    assert_eq!(contract.resume(&accounts(0)), Err(Error::State));
}

#[test]
fn issue_and_redeem_restore_exact_figures() {
    let mut contract = Contract::new_default_meta(accounts(0), 1_000_000_000_000_000).unwrap();
    contract.issue(&accounts(0), 1_234_567_891).unwrap();
    assert_eq!(contract.ft_total_supply().unwrap(), 1_000_001_234_567_891);
    assert_eq!(
        contract.ft_balance_of(&accounts(0)).unwrap(),
        1_000_001_234_567_891
    );
    contract.redeem(&accounts(0), 1_234_567_891).unwrap();
    assert_eq!(contract.ft_total_supply().unwrap(), 1_000_000_000_000_000);
    assert_eq!(
        contract.ft_balance_of(&accounts(0)).unwrap(),
        1_000_000_000_000_000
    );
}

#[test]
fn destroy_black_funds_seizes_everything_once() {
    let mut contract = Contract::new_default_meta(accounts(0), TOTAL_SUPPLY).unwrap();
    let seized: u128 = 333_333_333_333_333;
    contract.add_to_blacklist(&accounts(0), &accounts(2)).unwrap();
    contract.internal_register_account(&accounts(2)).unwrap();
    contract.mint(&accounts(0), &accounts(2), seized).unwrap();

    let supply_before = contract.ft_total_supply().unwrap();
    contract.destroy_black_funds(&accounts(0), &accounts(2)).unwrap();
    assert_eq!(contract.ft_balance_of(&accounts(2)).unwrap(), 0);
    assert_eq!(contract.ft_total_supply().unwrap(), supply_before - seized);
    // A second confiscation finds nothing to seize and aborts.
    assert_eq!(
        contract.destroy_black_funds(&accounts(0), &accounts(2)),
        Err(Error::State)
    );
}

#[test]
fn destroy_black_funds_requires_banned_status() {
    let mut contract = Contract::new_default_meta(accounts(0), TOTAL_SUPPLY).unwrap();
    contract.internal_register_account(&accounts(1)).unwrap();
    contract.mint(&accounts(0), &accounts(1), 1000).unwrap();
    // Owner or not, a non-banned account cannot be seized.
    assert_eq!(
        contract.destroy_black_funds(&accounts(0), &accounts(1)),
        Err(Error::Compliance)
    );
}

#[test]
fn guardian_can_pause_but_not_mint() {
    let mut contract = Contract::new_default_meta(accounts(0), TOTAL_SUPPLY).unwrap();
    contract.extend_guardians(&accounts(0), vec![accounts(3)]).unwrap();
    contract.pause(&accounts(3)).unwrap();
    assert_eq!(contract.contract_status(), ContractStatus::Paused);
    contract.resume(&accounts(3)).unwrap();
    assert_eq!(contract.contract_status(), ContractStatus::Working);
    assert_eq!(
        contract.mint(&accounts(3), &accounts(3), 1),
        Err(Error::Authorization)
    );
    assert_eq!(contract.issue(&accounts(3), 1), Err(Error::Authorization));
    assert_eq!(
        contract.burn(&accounts(3), &accounts(0), 1),
        Err(Error::Authorization)
    );
    assert_eq!(
        contract.add_to_blacklist(&accounts(3), &accounts(1)),
        Err(Error::Authorization)
    );
}

#[test]
fn outsider_can_neither_pause_nor_resume() {
    let mut contract = Contract::new_default_meta(accounts(0), TOTAL_SUPPLY).unwrap();
    assert_eq!(contract.pause(&accounts(4)), Err(Error::Authorization));
    contract.pause(&accounts(0)).unwrap();
    assert_eq!(contract.resume(&accounts(4)), Err(Error::Authorization));
}

#[test]
fn guardian_batches_fail_loudly_and_atomically() {
    let mut contract = Contract::new_default_meta(accounts(0), TOTAL_SUPPLY).unwrap();
    contract.extend_guardians(&accounts(0), vec![accounts(1)]).unwrap();
    // Enrolling an existing guardian fails the whole call: the fresh
    // entry in front of it is not kept.
    assert_eq!(
        contract.extend_guardians(&accounts(0), vec![accounts(2), accounts(1)]),
        Err(Error::State)
    );
    assert_eq!(contract.guardians().len(), 1);
    // A duplicate within one call fails too.
    assert_eq!(
        contract.extend_guardians(&accounts(0), vec![accounts(2), accounts(2)]),
        Err(Error::State)
    );
    assert_eq!(contract.guardians().len(), 1);
    // Dismissing someone who is no guardian fails the whole call.
    assert_eq!(
        contract.remove_guardians(&accounts(0), vec![accounts(1), accounts(2)]),
        Err(Error::State)
    );
    assert!(contract.guardians().contains(&accounts(1)));
}

#[test]
fn metadata_reads_and_updates() {
    let mut contract = Contract::new_default_meta(accounts(0), TOTAL_SUPPLY).unwrap();
    assert_eq!(contract.name().unwrap(), "Tether USD");
    assert_eq!(contract.symbol().unwrap(), "USDt");
    assert_eq!(contract.decimals().unwrap(), 6);
    let meta = contract.ft_metadata();
    assert_eq!(meta.name, "Tether USD");
    assert_eq!(meta.spec_version, "ft-1.0.0");
    assert!(meta.icon.is_some());

    assert_eq!(
        contract.upgrade_name_symbol(&accounts(1), "X".to_string(), "Y".to_string()),
        Err(Error::Authorization)
    );
    contract
        .upgrade_name_symbol(&accounts(0), "Tether Gold".to_string(), "XAUt".to_string())
        .unwrap();
    assert_eq!(contract.name().unwrap(), "Tether Gold");
    assert_eq!(contract.symbol().unwrap(), "XAUt");

    assert_eq!(
        contract.upgrade_icon(&accounts(1), "data:,".to_string()),
        Err(Error::Authorization)
    );
    contract.upgrade_icon(&accounts(0), "data:,".to_string()).unwrap();
    assert_eq!(contract.ft_metadata().icon.as_deref(), Some("data:,"));
}

#[test]
fn invalid_metadata_is_refused_at_initialization() {
    let metadata = FungibleTokenMetadata {
        spec_version: "ft-1.0.0".to_string(),
        name: "Broken".to_string(),
        symbol: "BRK".to_string(),
        icon: None,
        reference: Some("ipfs://somewhere".to_string()),
        reference_hash: None,
        decimals: 6,
    };
    assert_eq!(
        Contract::new(accounts(0), TOTAL_SUPPLY, metadata).err(),
        Some(Error::State)
    );

    let wrong_tag = FungibleTokenMetadata {
        spec_version: "ft-0.9.0".to_string(),
        name: "Broken".to_string(),
        symbol: "BRK".to_string(),
        icon: None,
        reference: None,
        reference_hash: None,
        decimals: 6,
    };
    assert_eq!(
        Contract::new(accounts(0), TOTAL_SUPPLY, wrong_tag).err(),
        Some(Error::State)
    );
}

#[test]
fn later_proposal_overwrites_earlier_one() {
    let mut contract = Contract::new_default_meta(accounts(0), TOTAL_SUPPLY).unwrap();
    contract.propose_new_owner(&accounts(0), accounts(1)).unwrap();
    contract.propose_new_owner(&accounts(0), accounts(2)).unwrap();
    // The first candidate can no longer accept; the second can.
    assert_eq!(
        contract.accept_ownership(&accounts(1)),
        Err(Error::Authorization)
    );
    contract.accept_ownership(&accounts(2)).unwrap();
    assert_eq!(contract.owner(), accounts(2));
}

#[test]
fn guardians_keep_insertion_order() {
    let mut contract = Contract::new_default_meta(accounts(0), TOTAL_SUPPLY).unwrap();
    contract
        .extend_guardians(&accounts(0), vec![accounts(1), accounts(2)])
        .unwrap();
    contract.extend_guardians(&accounts(0), vec![accounts(3)]).unwrap();
    let listed = contract.guardians();
    assert_eq!(listed, vec![accounts(1), accounts(2), accounts(3)]);
}

#[test]
fn renaming_leaves_the_rest_of_the_metadata_alone() {
    let mut contract = Contract::new_default_meta(accounts(0), TOTAL_SUPPLY).unwrap();
    let before = contract.ft_metadata();
    contract
        .upgrade_name_symbol(&accounts(0), "Tether Gold".to_string(), "XAUt".to_string())
        .unwrap();
    let after = contract.ft_metadata();
    assert_eq!(after.name, "Tether Gold");
    assert_eq!(after.symbol, "XAUt");
    assert_eq!(after.spec_version, before.spec_version);
    assert_eq!(after.icon, before.icon);
    assert_eq!(after.decimals, before.decimals);
}

#[test]
fn version_and_status_text() {
    let contract = Contract::new_default_meta(accounts(0), TOTAL_SUPPLY).unwrap();
    assert_eq!(contract.version(), "tether_token:1.0.0");
    assert_eq!(ContractStatus::Working.text(), "working");
    assert_eq!(ContractStatus::Paused.text(), "paused");
    assert!(!Error::Authorization.text().is_empty());
}
