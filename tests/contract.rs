use honeypot::{Contract, FtError, TokenMetadata};

const TOTAL_SUPPLY: u128 = 1_000_000_000_000_000;
const ENOUGH_GAS: u64 = 300_000_000_000_000;

fn acc(name: &str) -> String {
    name.to_string()
}

fn alice() -> String {
    acc("alice")
}

fn bob() -> String {
    acc("bob")
}

fn charlie() -> String {
    acc("charlie")
}

fn danny() -> String {
    acc("danny")
}

fn eugene() -> String {
    acc("eugene")
}

#[test]
fn test_new() {
    let contract = Contract::new_default_meta(bob(), TOTAL_SUPPLY);
    assert_eq!(contract.ft_total_supply(), TOTAL_SUPPLY);
    assert_eq!(contract.ft_balance_of(&bob()), TOTAL_SUPPLY);
}

#[test]
fn test_transfer() {
    let mut contract = Contract::new_default_meta(charlie(), TOTAL_SUPPLY);
    contract.register_account(bob());
    contract.add_to_whitelist(&charlie(), bob()).unwrap();
    let transfer_amount = TOTAL_SUPPLY / 3;
    contract.ft_transfer(&charlie(), &bob(), transfer_amount, None).unwrap();

    assert_eq!(contract.ft_balance_of(&bob()), transfer_amount);
    assert_eq!(contract.ft_balance_of(&charlie()), TOTAL_SUPPLY - transfer_amount);
}

#[test]
#[should_panic(expected = "Sender and receiver should be different")]
fn test_self_transfer_fail() {
    let mut contract = Contract::new_default_meta(charlie(), TOTAL_SUPPLY);
    contract
        .ft_transfer(&charlie(), &charlie(), TOTAL_SUPPLY / 3, None)
        .expect("Sender and receiver should be different");
}

#[test]
fn test_metadata() {
    let contract = Contract::new_default_meta(bob(), TOTAL_SUPPLY);
    let metadata = contract.ft_metadata();
    assert_eq!(metadata.name, "Honeypot Token");
    assert_eq!(metadata.symbol, "HONEY");
    assert_eq!(metadata.decimals, 24);
}

#[test]
fn test_storage_withdraw_and_unregister() {
    let mut contract = Contract::new_default_meta(bob(), TOTAL_SUPPLY);
    contract.register_account(charlie());

    let balance = contract.ft_balance_of(&charlie());
    if balance > 0 {
        contract.ft_transfer(&charlie(), &bob(), balance, None).unwrap();
    }
    assert_eq!(contract.ft_balance_of(&charlie()), 0);

    assert_eq!(contract.unregister_account(&charlie(), true), Ok(true));
    assert!(contract.register_account(charlie()));

    contract.add_to_whitelist(&bob(), danny()).unwrap();
    contract.add_to_whitelist(&bob(), charlie()).unwrap();

    let transfer_amount = TOTAL_SUPPLY / 3;
    contract.ft_transfer(&bob(), &charlie(), transfer_amount, None).unwrap();

    contract.register_account(danny());
    let pending = contract
        .ft_transfer_call(&charlie(), &danny(), transfer_amount, None, ENOUGH_GAS)
        .unwrap();
    assert_eq!(pending.sender_id, charlie());
    assert_eq!(pending.receiver_id, danny());
    assert_eq!(pending.amount, transfer_amount);

    assert_eq!(contract.ft_balance_of(&danny()), transfer_amount);
    assert_eq!(contract.ft_balance_of(&charlie()), 0);
    assert_eq!(contract.ft_balance_of(&bob()), TOTAL_SUPPLY - transfer_amount);
}

#[test]
fn test_non_whitelist_transfer() {
    let mut contract = Contract::new_default_meta(charlie(), TOTAL_SUPPLY);
    contract.register_account(danny());
    contract.register_account(eugene());

    let transfer_amount = TOTAL_SUPPLY / 3;
    contract.ft_transfer(&charlie(), &danny(), transfer_amount, None).unwrap();

    assert_eq!(contract.ft_balance_of(&danny()), 0);
    assert_eq!(contract.ft_balance_of(&charlie()), TOTAL_SUPPLY);

    contract
        .ft_transfer_call(&charlie(), &eugene(), transfer_amount, None, ENOUGH_GAS)
        .unwrap();

    assert_eq!(contract.ft_balance_of(&eugene()), 0);
    assert_eq!(contract.ft_balance_of(&charlie()), TOTAL_SUPPLY);

    contract.ft_transfer(&charlie(), &danny(), transfer_amount, None).unwrap();
    // danny was swept, so it has nothing left to send
    assert_eq!(
        contract.ft_transfer(&danny(), &eugene(), transfer_amount / 2, None),
        Err(FtError::InsufficientBalance)
    );

    assert_eq!(contract.ft_balance_of(&danny()), 0);
    assert_eq!(contract.ft_balance_of(&eugene()), 0);
    assert_eq!(contract.ft_balance_of(&charlie()), TOTAL_SUPPLY);
}

#[test]
fn transfer_to_whitelisted_keeps_balances() {
    let mut contract = Contract::new_default_meta(alice(), 900);
    contract.register_account(bob());
    contract.add_to_whitelist(&alice(), bob()).unwrap();
    contract.ft_transfer(&alice(), &bob(), 300, None).unwrap();
    assert_eq!(contract.ft_balance_of(&bob()), 300);
    assert_eq!(contract.ft_balance_of(&alice()), 600);
    assert_eq!(contract.ft_total_supply(), 900);
}

#[test]
fn transfer_to_non_whitelisted_is_swept_back() {
    let mut contract = Contract::new_default_meta(alice(), 900);
    contract.register_account(bob());
    contract.ft_transfer(&alice(), &bob(), 300, None).unwrap();
    assert_eq!(contract.ft_balance_of(&bob()), 0);
    assert_eq!(contract.ft_balance_of(&alice()), 900);
    assert_eq!(contract.ft_total_supply(), 900);
}

#[test]
fn resolve_with_full_refund_restores_balances() {
    let mut contract = Contract::new_default_meta(alice(), 1000);
    contract.register_account(bob());
    contract.add_to_whitelist(&alice(), bob()).unwrap();
    let p = contract.ft_transfer_call(&alice(), &bob(), 400, None, ENOUGH_GAS).unwrap();
    assert_eq!(contract.ft_balance_of(&bob()), 400);
    let res = contract.ft_resolve_transfer(&p.sender_id, &p.receiver_id, p.amount, Some(400));
    assert_eq!(res.used, 0);
    assert_eq!(contract.ft_balance_of(&alice()), 1000);
    assert_eq!(contract.ft_balance_of(&bob()), 0);
}

#[test]
fn resolve_with_half_refund() {
    let mut contract = Contract::new_default_meta(alice(), 1000);
    contract.register_account(bob());
    contract.add_to_whitelist(&alice(), bob()).unwrap();
    let p = contract.ft_transfer_call(&alice(), &bob(), 400, None, ENOUGH_GAS).unwrap();
    let res = contract.ft_resolve_transfer(&p.sender_id, &p.receiver_id, p.amount, Some(200));
    assert_eq!(res.used, 200);
    assert_eq!(contract.ft_balance_of(&bob()), 200);
    assert_eq!(contract.ft_balance_of(&alice()), 800);
    assert_eq!(contract.ft_total_supply(), 1000);
}

#[test]
fn resolve_clamps_an_excessive_report() {
    let mut contract = Contract::new_default_meta(alice(), 1000);
    contract.register_account(bob());
    contract.add_to_whitelist(&alice(), bob()).unwrap();
    contract.ft_transfer(&alice(), &bob(), 100, None).unwrap();
    contract.ft_transfer_call(&alice(), &bob(), 400, None, ENOUGH_GAS).unwrap();
    let res = contract.ft_resolve_transfer(&alice(), &bob(), 400, Some(u128::MAX));
    assert_eq!(res.used, 0);
    assert_eq!(contract.ft_balance_of(&bob()), 100);
    assert_eq!(contract.ft_balance_of(&alice()), 900);
}

#[test]
fn resolve_after_failed_notification_refunds_all() {
    let mut contract = Contract::new_default_meta(alice(), 1000);
    contract.register_account(bob());
    contract.add_to_whitelist(&alice(), bob()).unwrap();
    contract.ft_transfer_call(&alice(), &bob(), 400, None, ENOUGH_GAS).unwrap();
    let res = contract.ft_resolve_transfer(&alice(), &bob(), 400, None);
    assert_eq!(res.used, 0);
    assert_eq!(contract.ft_balance_of(&alice()), 1000);
}

#[test]
fn resolve_refund_limited_to_what_receiver_holds() {
    let mut contract = Contract::new_default_meta(alice(), 1000);
    contract.register_account(bob());
    contract.register_account(charlie());
    contract.add_to_whitelist(&alice(), bob()).unwrap();
    contract.add_to_whitelist(&alice(), charlie()).unwrap();
    contract.ft_transfer_call(&alice(), &bob(), 400, None, ENOUGH_GAS).unwrap();
    contract.ft_transfer(&bob(), &charlie(), 300, None).unwrap();
    let res = contract.ft_resolve_transfer(&alice(), &bob(), 400, Some(400));
    assert_eq!(res.used, 300);
    assert_eq!(contract.ft_balance_of(&bob()), 0);
    assert_eq!(contract.ft_balance_of(&alice()), 700);
    assert_eq!(contract.ft_balance_of(&charlie()), 300);
}

#[test]
fn resolve_sweeps_non_whitelisted_receiver() {
    let mut contract = Contract::new_default_meta(alice(), 1000);
    contract.register_account(bob());
    contract.ft_transfer_call(&alice(), &bob(), 400, None, ENOUGH_GAS).unwrap();
    assert_eq!(contract.ft_balance_of(&bob()), 0);
    let res = contract.ft_resolve_transfer(&alice(), &bob(), 400, Some(400));
    assert_eq!(res.used, 400);
    assert_eq!(contract.ft_balance_of(&alice()), 1000);
}

#[test]
fn resolve_reply_decodes_json_number() {
    let mut contract = Contract::new_default_meta(alice(), 1000);
    contract.register_account(bob());
    contract.add_to_whitelist(&alice(), bob()).unwrap();
    contract.ft_transfer_call(&alice(), &bob(), 400, None, ENOUGH_GAS).unwrap();
    let reply = b"\"150\"".to_vec();
    let res = contract.ft_resolve_transfer_reply(&alice(), &bob(), 400, Some(reply));
    assert_eq!(res.used, 250);
    assert_eq!(contract.ft_balance_of(&bob()), 250);
    assert_eq!(contract.ft_balance_of(&alice()), 750);
}

#[test]
fn resolve_reply_that_does_not_decode_refunds_all() {
    let mut contract = Contract::new_default_meta(alice(), 1000);
    contract.register_account(bob());
    contract.add_to_whitelist(&alice(), bob()).unwrap();
    contract.ft_transfer_call(&alice(), &bob(), 400, None, ENOUGH_GAS).unwrap();
    let res = contract.ft_resolve_transfer_reply(&alice(), &bob(), 400, Some(b"oops".to_vec()));
    assert_eq!(res.used, 0);
    assert_eq!(contract.ft_balance_of(&alice()), 1000);
}

#[test]
fn self_transfer_refused_for_any_amount() {
    let mut contract = Contract::new_default_meta(alice(), 1000);
    contract.register_account(bob());
    contract.add_to_whitelist(&alice(), bob()).unwrap();
    contract.ft_transfer(&alice(), &bob(), 10, None).unwrap();
    for n in [1u128, 10, 5000] {
        assert_eq!(contract.ft_transfer(&alice(), &alice(), n, None), Err(FtError::SameAccount));
        assert_eq!(contract.ft_transfer(&bob(), &bob(), n, None), Err(FtError::SameAccount));
    }
    assert_eq!(contract.ft_balance_of(&alice()), 990);
    assert_eq!(contract.ft_balance_of(&bob()), 10);
}

#[test]
fn fixer_on_swept_account_is_noop() {
    let mut contract = Contract::new_default_meta(alice(), 1000);
    contract.register_account(bob());
    contract.ft_transfer(&alice(), &bob(), 100, None).unwrap();
    assert_eq!(contract.apply_balance_fixer(&bob()), Ok(0));
    assert_eq!(contract.apply_balance_fixer(&bob()), Ok(0));
    assert_eq!(contract.ft_balance_of(&bob()), 0);
    assert_eq!(contract.ft_balance_of(&alice()), 1000);
}

#[test]
fn fixer_sweeps_after_whitelist_removal() {
    let mut contract = Contract::new_default_meta(alice(), 1000);
    contract.register_account(bob());
    contract.add_to_whitelist(&alice(), bob()).unwrap();
    contract.ft_transfer(&alice(), &bob(), 100, None).unwrap();
    contract.remove_from_whitelist(&alice(), &bob()).unwrap();
    assert_eq!(contract.apply_balance_fixer(&bob()), Ok(100));
    assert_eq!(contract.ft_balance_of(&bob()), 0);
    assert_eq!(contract.ft_balance_of(&alice()), 1000);
}

#[test]
fn whitelist_round_trip() {
    let mut contract = Contract::new_default_meta(alice(), 1000);
    contract.register_account(bob());
    contract.add_to_whitelist(&alice(), bob()).unwrap();
    contract.ft_transfer(&alice(), &bob(), 100, None).unwrap();
    assert_eq!(contract.ft_balance_of(&bob()), 100);
    assert_eq!(contract.ft_balance_of(&alice()), 900);
    contract.remove_from_whitelist(&alice(), &bob()).unwrap();
    assert!(!contract.is_whitelisted(&bob()));
    contract.ft_transfer(&alice(), &bob(), 50, None).unwrap();
    assert_eq!(contract.ft_balance_of(&bob()), 0);
    assert_eq!(contract.ft_balance_of(&alice()), 1000);
}

#[test]
fn balances_add_up_to_supply() {
    let mut contract = Contract::new_default_meta(alice(), 1000);
    for name in ["bob", "charlie", "danny"] {
        contract.register_account(acc(name));
        contract.add_to_whitelist(&alice(), acc(name)).unwrap();
    }
    contract.ft_transfer(&alice(), &bob(), 300, None).unwrap();
    contract.ft_transfer(&bob(), &charlie(), 120, None).unwrap();
    contract.ft_transfer_call(&charlie(), &danny(), 100, None, ENOUGH_GAS).unwrap();
    contract.ft_resolve_transfer(&charlie(), &danny(), 100, Some(40));
    let sum: u128 = ["alice", "bob", "charlie", "danny"]
        .iter()
        .map(|n| contract.ft_balance_of(&acc(n)))
        .sum();
    assert_eq!(sum, contract.ft_total_supply());
    assert_eq!(contract.ft_balance_of(&danny()), 60);
    assert_eq!(contract.ft_balance_of(&charlie()), 60);
}

#[test]
fn unknown_account_has_zero_balance() {
    let contract = Contract::new_default_meta(alice(), 1000);
    assert_eq!(contract.ft_balance_of(&acc("nobody")), 0);
}

#[test]
fn zero_amount_refused() {
    let mut contract = Contract::new_default_meta(alice(), 1000);
    contract.register_account(bob());
    assert_eq!(contract.ft_transfer(&alice(), &bob(), 0, None), Err(FtError::ZeroAmount));
}

#[test]
fn unregistered_receiver_refused() {
    let mut contract = Contract::new_default_meta(alice(), 1000);
    assert_eq!(contract.ft_transfer(&alice(), &bob(), 5, None), Err(FtError::NotRegistered));
    assert_eq!(contract.ft_balance_of(&alice()), 1000);
}

#[test]
fn insufficient_balance_refused() {
    let mut contract = Contract::new_default_meta(alice(), 1000);
    contract.register_account(bob());
    assert_eq!(contract.ft_transfer(&alice(), &bob(), 1001, None), Err(FtError::InsufficientBalance));
}

#[test]
fn failed_transfer_rolls_back_sweep() {
    let mut contract = Contract::new_default_meta(alice(), 1000);
    contract.register_account(bob());
    contract.add_to_whitelist(&alice(), bob()).unwrap();
    contract.ft_transfer(&alice(), &bob(), 100, None).unwrap();
    contract.remove_from_whitelist(&alice(), &bob()).unwrap();
    // bob is swept first, then cannot pay: nothing of it stays
    assert_eq!(contract.ft_transfer(&bob(), &alice(), 50, None), Err(FtError::InsufficientBalance));
    assert_eq!(contract.ft_balance_of(&bob()), 100);
    assert_eq!(contract.ft_balance_of(&alice()), 900);
}

#[test]
fn non_owner_cannot_change_whitelist() {
    let mut contract = Contract::new_default_meta(alice(), 1000);
    assert_eq!(contract.add_to_whitelist(&bob(), bob()), Err(FtError::Unauthorized));
    assert!(!contract.is_whitelisted(&bob()));
    contract.add_to_whitelist(&alice(), bob()).unwrap();
    assert_eq!(contract.remove_from_whitelist(&bob(), &bob()), Err(FtError::Unauthorized));
    assert!(contract.is_whitelisted(&bob()));
}

#[test]
fn whitelist_changes_are_idempotent() {
    let mut contract = Contract::new_default_meta(alice(), 1000);
    contract.add_to_whitelist(&alice(), bob()).unwrap();
    contract.add_to_whitelist(&alice(), bob()).unwrap();
    contract.remove_from_whitelist(&alice(), &bob()).unwrap();
    assert!(!contract.is_whitelisted(&bob()));
    contract.remove_from_whitelist(&alice(), &bob()).unwrap();
    assert!(!contract.is_whitelisted(&bob()));
}

#[test]
fn transfer_call_needs_gas_for_resolution() {
    let mut contract = Contract::new_default_meta(alice(), 1000);
    contract.register_account(bob());
    contract.add_to_whitelist(&alice(), bob()).unwrap();
    let needed = honeypot::contract::GAS_FOR_FT_ON_TRANSFER + honeypot::contract::GAS_FOR_RESOLVE_TRANSFER;
    assert!(matches!(
        contract.ft_transfer_call(&alice(), &bob(), 10, None, needed - 1),
        Err(FtError::InsufficientGas)
    ));
    assert_eq!(contract.ft_balance_of(&bob()), 0);
    assert!(contract.ft_transfer_call(&alice(), &bob(), 10, None, needed).is_ok());
    assert_eq!(contract.ft_balance_of(&bob()), 10);
}

#[test]
fn metadata_validation() {
    let good = TokenMetadata::honeypot();
    assert!(good.is_valid());
    assert_eq!(good.spec, "ft-1.0.0");
    let mut bad_tag = TokenMetadata::honeypot();
    bad_tag.spec = "ft-2.0.0".to_string();
    assert!(!bad_tag.is_valid());
    let mut with_ref = TokenMetadata::honeypot();
    with_ref.reference = Some("https://example.org/meta.json".to_string());
    assert!(!with_ref.is_valid());
    with_ref.reference_hash = Some(vec![0u8; 32]);
    assert!(with_ref.is_valid());
    with_ref.reference_hash = Some(vec![0u8; 31]);
    assert!(!with_ref.is_valid());
    assert!(matches!(
        Contract::new(alice(), 10, with_ref),
        Err(FtError::InvalidMetadata)
    ));
    let c = Contract::new(alice(), 10, good).unwrap();
    assert_eq!(c.ft_balance_of(&alice()), 10);
    assert_eq!(c.owner_id(), "alice");
}

#[test]
fn ledger_deposit_overflow_refused() {
    let mut ledger = honeypot::Ledger::new();
    ledger.register(alice());
    assert_eq!(ledger.deposit(&alice(), u128::MAX), Ok(()));
    assert_eq!(ledger.deposit(&alice(), 1), Err(FtError::Overflow));
    assert_eq!(ledger.deposit(&bob(), 1), Err(FtError::NotRegistered));
    assert_eq!(ledger.withdraw(&alice(), u128::MAX), Ok(()));
    assert_eq!(ledger.total_supply(), 0);
    assert_eq!(ledger.withdraw(&alice(), 1), Err(FtError::InsufficientBalance));
}

#[test]
fn resolve_refund_goes_to_owner_when_sender_left() {
    let mut contract = Contract::new_default_meta(alice(), 1000);
    contract.register_account(bob());
    contract.register_account(charlie());
    contract.add_to_whitelist(&alice(), bob()).unwrap();
    contract.add_to_whitelist(&alice(), charlie()).unwrap();
    contract.ft_transfer(&alice(), &bob(), 500, None).unwrap();
    contract.ft_transfer_call(&bob(), &charlie(), 200, None, ENOUGH_GAS).unwrap();
    assert_eq!(contract.unregister_account(&bob(), true), Ok(true));
    assert_eq!(contract.ft_total_supply(), 700);
    let res = contract.ft_resolve_transfer(&bob(), &charlie(), 200, Some(150));
    assert_eq!(res.used, 50);
    assert_eq!(res.refund, 150);
    assert!(res.refunded_to_owner);
    assert_eq!(contract.ft_balance_of(&charlie()), 50);
    assert_eq!(contract.ft_balance_of(&alice()), 650);
    assert_eq!(contract.ft_total_supply(), 700);
}

#[test]
fn resolve_keeps_total_supply() {
    let mut contract = Contract::new_default_meta(alice(), 1000);
    contract.register_account(bob());
    contract.add_to_whitelist(&alice(), bob()).unwrap();
    contract.ft_transfer_call(&alice(), &bob(), 400, None, ENOUGH_GAS).unwrap();
    let res = contract.ft_resolve_transfer(&alice(), &bob(), 400, Some(100));
    assert_eq!(res.used, 300);
    assert_eq!(res.refund, 100);
    assert!(!res.refunded_to_owner);
    assert_eq!(contract.ft_total_supply(), 1000);
}

#[test]
fn owner_entry_cannot_be_removed() {
    let mut contract = Contract::new_default_meta(alice(), 1000);
    assert_eq!(contract.unregister_account(&alice(), true), Err(FtError::OwnerAccount));
    assert_eq!(contract.ft_balance_of(&alice()), 1000);
    assert!(contract.is_registered(&alice()));
}

#[test]
fn unregister_with_balance_needs_force() {
    let mut contract = Contract::new_default_meta(alice(), 1000);
    contract.register_account(bob());
    contract.add_to_whitelist(&alice(), bob()).unwrap();
    contract.ft_transfer(&alice(), &bob(), 100, None).unwrap();
    assert_eq!(contract.unregister_account(&bob(), false), Err(FtError::PositiveBalance));
    assert_eq!(contract.unregister_account(&charlie(), false), Ok(false));
    assert_eq!(contract.ft_total_supply(), 1000);
    assert_eq!(contract.unregister_account(&bob(), true), Ok(true));
    assert_eq!(contract.ft_total_supply(), 900);
}

#[test]
fn self_transfer_refused_before_sweep() {
    let mut contract = Contract::new_default_meta(alice(), 1000);
    contract.register_account(bob());
    contract.add_to_whitelist(&alice(), bob()).unwrap();
    contract.ft_transfer(&alice(), &bob(), 100, None).unwrap();
    contract.remove_from_whitelist(&alice(), &bob()).unwrap();
    assert_eq!(contract.ft_transfer(&bob(), &bob(), 10, None), Err(FtError::SameAccount));
    assert!(matches!(
        contract.ft_transfer_call(&bob(), &bob(), 10, None, 0),
        Err(FtError::SameAccount)
    ));
    assert_eq!(contract.ft_balance_of(&bob()), 100);
}

#[test]
fn teardown_is_owner_only() {
    let mut contract = Contract::new_default_meta(alice(), 1000);
    contract.register_account(acc("token"));
    contract.add_to_whitelist(&alice(), acc("token")).unwrap();
    contract.ft_transfer(&alice(), &acc("token"), 70, None).unwrap();
    let contract = match contract.teardown(&bob(), &acc("token")) {
        Err((c, e)) => {
            assert_eq!(e, FtError::Unauthorized);
            c
        }
        Ok(_) => panic!("a stranger tore the contract down"),
    };
    assert_eq!(contract.ft_total_supply(), 1000);
    assert!(matches!(contract.teardown(&alice(), &acc("token")), Ok(70)));
}

#[test]
fn metadata_copy_keeps_every_field() {
    let mut meta = TokenMetadata::honeypot();
    meta.icon = Some("data:image/svg+xml,x".to_string());
    meta.reference = Some("https://example.org/meta.json".to_string());
    meta.reference_hash = Some(vec![7u8; 32]);
    let c = Contract::new(alice(), 5, meta).unwrap();
    let m = c.ft_metadata();
    assert_eq!(m.icon.as_deref(), Some("data:image/svg+xml,x"));
    assert_eq!(m.reference.as_deref(), Some("https://example.org/meta.json"));
    assert_eq!(m.reference_hash, Some(vec![7u8; 32]));
    assert_eq!(m.spec, "ft-1.0.0");
}

#[test]
fn transfer_reports_its_moves() {
    let mut contract = Contract::new_default_meta(alice(), 1000);
    contract.register_account(bob());
    contract.register_account(charlie());
    contract.add_to_whitelist(&alice(), charlie()).unwrap();
    contract.ft_transfer(&alice(), &charlie(), 100, None).unwrap();
    contract.remove_from_whitelist(&alice(), &charlie()).unwrap();
    let events = contract
        .ft_transfer(&charlie(), &bob(), 40, Some("hello".to_string()))
        .unwrap_err();
    // charlie is swept first and then cannot pay: nothing happens
    assert_eq!(events, FtError::InsufficientBalance);
    contract.add_to_whitelist(&alice(), charlie()).unwrap();
    let events = contract.ft_transfer(&charlie(), &bob(), 40, Some("hello".to_string())).unwrap();
    assert_eq!(events.len(), 2);
    assert_eq!(events[0].from, "charlie");
    assert_eq!(events[0].to, "bob");
    assert_eq!(events[0].amount, 40);
    assert_eq!(events[0].memo.as_deref(), Some("hello"));
    assert_eq!(events[1].from, "bob");
    assert_eq!(events[1].to, "alice");
    assert_eq!(events[1].amount, 40);
    assert_eq!(events[1].memo.as_deref(), Some("Honeypot balance fix"));
}

#[test]
fn transfer_between_exempt_accounts_reports_one_move() {
    let mut contract = Contract::new_default_meta(alice(), 1000);
    contract.register_account(bob());
    contract.register_account(charlie());
    contract.add_to_whitelist(&alice(), bob()).unwrap();
    contract.add_to_whitelist(&alice(), charlie()).unwrap();
    contract.ft_transfer(&alice(), &bob(), 100, None).unwrap();
    contract.remove_from_whitelist(&alice(), &bob()).unwrap();
    contract.add_to_whitelist(&alice(), bob()).unwrap();
    let events = contract.ft_transfer(&bob(), &charlie(), 30, None).unwrap();
    assert_eq!(events.len(), 1);
    assert_eq!(events[0].memo, None);
}

#[test]
fn resolution_reports_refund_move() {
    let mut contract = Contract::new_default_meta(alice(), 1000);
    contract.register_account(bob());
    contract.add_to_whitelist(&alice(), bob()).unwrap();
    let p = contract.ft_transfer_call(&alice(), &bob(), 400, None, ENOUGH_GAS).unwrap();
    assert_eq!(p.events.len(), 1);
    let res = contract.ft_resolve_transfer(&alice(), &bob(), 400, Some(100));
    assert_eq!(res.events.len(), 1);
    assert_eq!(res.events[0].from, "bob");
    assert_eq!(res.events[0].to, "alice");
    assert_eq!(res.events[0].amount, 100);
    assert_eq!(res.events[0].memo.as_deref(), Some("refund"));
}
