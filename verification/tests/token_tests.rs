use token_ledger::ledger::get_balance;
use token_ledger::msg::{
    Coin, Effect, Error, InitialBalance, QueryAnswer, QueryRequest, Request, ResponseStatus,
};
use token_ledger::token::{init, Token};

fn addr(name: &str) -> Vec<u8> {
    name.as_bytes().to_vec()
}

fn test_token() -> Token {
    let balances = vec![InitialBalance { address: addr("A"), amount: 1000 }];
    init("TestToken".to_string(), "TST".to_string(), 2, &balances).expect("init should succeed")
}

#[test]
fn init_sets_supply_and_balance() {
    let t = test_token();
    assert_eq!(t.total_supply, 1000);
    assert_eq!(get_balance(&t.balances, &addr("A")), 1000);
    assert_eq!(get_balance(&t.balances, &addr("B")), 0);
}

#[test]
fn init_rejects_bad_name() {
    let r = init("ab".to_string(), "TST".to_string(), 2, &vec![]);
    assert_eq!(r.err(), Some(Error::InvalidName));
}

#[test]
fn init_rejects_bad_symbol() {
    let r = init("TestToken".to_string(), "tst".to_string(), 2, &vec![]);
    assert_eq!(r.err(), Some(Error::InvalidSymbol));
    let r = init("TestToken".to_string(), "TOOLONGG".to_string(), 2, &vec![]);
    assert_eq!(r.err(), Some(Error::InvalidSymbol));
}

#[test]
fn init_rejects_bad_decimals() {
    let r = init("TestToken".to_string(), "TST".to_string(), 19, &vec![]);
    assert_eq!(r.err(), Some(Error::InvalidDecimals));
}

#[test]
fn init_rejects_supply_overflow() {
    let balances = vec![
        InitialBalance { address: addr("A"), amount: u128::MAX },
        InitialBalance { address: addr("B"), amount: 1 },
    ];
    let r = init("TestToken".to_string(), "TST".to_string(), 2, &balances);
    assert_eq!(r.err(), Some(Error::BalanceOverflow));
}

#[test]
fn transfer_moves_and_logs() {
    let mut t = test_token();
    let r = t.try_transfer(&addr("A"), &addr("B"), 300);
    assert!(r.is_ok());
    assert_eq!(get_balance(&t.balances, &addr("A")), 700);
    assert_eq!(get_balance(&t.balances, &addr("B")), 300);
    assert_eq!(t.total_supply, 1000);
    let log_a = t.query_transactions(&addr("A"), 0, 10);
    let log_b = t.query_transactions(&addr("B"), 0, 10);
    assert_eq!(log_a.len(), 1);
    assert_eq!(log_b.len(), 1);
    assert_eq!(log_a[0].from, addr("A"));
    assert_eq!(log_a[0].to, addr("B"));
    assert_eq!(log_a[0].amount, 300);
    assert_eq!(log_a[0].symbol, "TST".to_string());
    assert_eq!(log_b[0].amount, 300);
}

#[test]
fn transfer_insufficient_funds_is_atomic() {
    let mut t = test_token();
    let r = t.try_transfer(&addr("A"), &addr("B"), 2000);
    assert_eq!(r.err(), Some(Error::InsufficientFunds { balance: 1000, required: 2000 }));
    assert_eq!(get_balance(&t.balances, &addr("A")), 1000);
    assert_eq!(get_balance(&t.balances, &addr("B")), 0);
    assert_eq!(t.query_transactions(&addr("A"), 0, 10).len(), 0);
}

#[test]
fn transfer_overflow_is_atomic() {
    // A conserving ledger can never credit past the representation, so the
    // overflow guard is exercised on a hand-built, deliberately inconsistent
    // balance store.
    let mut t = test_token();
    token_ledger::ledger::set_balance(&mut t.balances, &addr("A"), u128::MAX);
    token_ledger::ledger::set_balance(&mut t.balances, &addr("B"), 5);
    let r = t.try_transfer(&addr("B"), &addr("A"), 1);
    assert_eq!(r.err(), Some(Error::BalanceOverflow));
    assert_eq!(get_balance(&t.balances, &addr("A")), u128::MAX);
    assert_eq!(get_balance(&t.balances, &addr("B")), 5);
    assert_eq!(t.query_transactions(&addr("B"), 0, 10).len(), 0);
}

#[test]
fn approve_then_transfer_from() {
    let mut t = test_token();
    t.try_approve(&addr("A"), &addr("C"), 500);
    assert_eq!(t.try_check_allowance(&addr("A"), &addr("C")), 500);
    let r = t.try_transfer_from(&addr("C"), &addr("A"), &addr("D"), 500);
    assert!(r.is_ok());
    assert_eq!(t.try_check_allowance(&addr("A"), &addr("C")), 0);
    assert_eq!(get_balance(&t.balances, &addr("D")), 500);
    assert_eq!(get_balance(&t.balances, &addr("A")), 500);
}

#[test]
fn transfer_from_insufficient_allowance() {
    let mut t = test_token();
    t.try_approve(&addr("A"), &addr("C"), 100);
    let r = t.try_transfer_from(&addr("C"), &addr("A"), &addr("D"), 200);
    assert_eq!(r.err(), Some(Error::InsufficientAllowance { allowance: 100, required: 200 }));
    assert_eq!(t.try_check_allowance(&addr("A"), &addr("C")), 100);
    assert_eq!(get_balance(&t.balances, &addr("A")), 1000);
}

#[test]
fn transfer_from_insufficient_funds_keeps_allowance() {
    let mut t = test_token();
    t.try_approve(&addr("A"), &addr("C"), 5000);
    let r = t.try_transfer_from(&addr("C"), &addr("A"), &addr("D"), 2000);
    assert_eq!(r.err(), Some(Error::InsufficientFunds { balance: 1000, required: 2000 }));
    assert_eq!(t.try_check_allowance(&addr("A"), &addr("C")), 5000);
    assert_eq!(get_balance(&t.balances, &addr("A")), 1000);
    assert_eq!(get_balance(&t.balances, &addr("D")), 0);
}

#[test]
fn approve_overwrites_absolutely() {
    let mut t = test_token();
    t.try_approve(&addr("A"), &addr("C"), 500);
    t.try_approve(&addr("A"), &addr("C"), 70);
    assert_eq!(t.try_check_allowance(&addr("A"), &addr("C")), 70);
}

#[test]
fn burn_shrinks_supply() {
    let mut t = test_token();
    let r = t.try_burn(&addr("A"), 400);
    assert!(r.is_ok());
    assert_eq!(get_balance(&t.balances, &addr("A")), 600);
    assert_eq!(t.total_supply, 600);
    let r = t.try_burn(&addr("A"), 700);
    assert_eq!(r.err(), Some(Error::InsufficientFunds { balance: 600, required: 700 }));
    assert_eq!(t.total_supply, 600);
}

#[test]
fn deposit_requires_recognized_funds() {
    let mut t = test_token();
    let r = t.try_deposit(&addr("A"), &vec![]);
    assert_eq!(r.err(), Some(Error::NoFundsSent));
    let wrong = vec![Coin { denom: b"uatom".to_vec(), amount: 50 }];
    let r = t.try_deposit(&addr("A"), &wrong);
    assert_eq!(r.err(), Some(Error::NoFundsSent));
    let right = vec![Coin { denom: b"uscrt".to_vec(), amount: 50 }];
    let r = t.try_deposit(&addr("A"), &right);
    assert!(r.is_ok());
    assert_eq!(get_balance(&t.balances, &addr("A")), 1050);
    assert_eq!(t.total_supply, 1050);
}

#[test]
fn deposit_takes_last_recognized_coin() {
    let mut t = test_token();
    let funds = vec![
        Coin { denom: b"uscrt".to_vec(), amount: 10 },
        Coin { denom: b"uatom".to_vec(), amount: 99 },
        Coin { denom: b"uscrt".to_vec(), amount: 20 },
    ];
    t.try_deposit(&addr("A"), &funds).unwrap();
    assert_eq!(get_balance(&t.balances, &addr("A")), 1020);
}

#[test]
fn withdraw_returns_native_effect() {
    let mut t = test_token();
    let r = t.try_withdraw(&addr("A"), 250);
    match r {
        Ok(Effect::NativeTransfer { recipient, amount, denom }) => {
            assert_eq!(recipient, addr("A"));
            assert_eq!(amount, 250);
            assert_eq!(denom, b"uscrt".to_vec());
        }
        _ => panic!("expected a native transfer effect"),
    }
    assert_eq!(get_balance(&t.balances, &addr("A")), 750);
    assert_eq!(t.total_supply, 750);
}

#[test]
fn send_invokes_registered_hook() {
    let mut t = test_token();
    t.try_register_receive(&addr("B"), "hook-code-hash".to_string());
    let r = t.try_send(&addr("A"), &addr("B"), 100, b"payload".to_vec());
    match r {
        Ok(Some(Effect::Callback { recipient, code_hash, payload })) => {
            assert_eq!(recipient, addr("B"));
            assert_eq!(code_hash, "hook-code-hash".to_string());
            assert_eq!(payload, b"payload".to_vec());
        }
        _ => panic!("expected a callback effect"),
    }
    assert_eq!(get_balance(&t.balances, &addr("B")), 100);
}

#[test]
fn send_without_hook_is_silent() {
    let mut t = test_token();
    let r = t.try_send(&addr("A"), &addr("C"), 100, b"payload".to_vec());
    match r {
        Ok(None) => {}
        _ => panic!("expected success with no effect"),
    }
    assert_eq!(get_balance(&t.balances, &addr("C")), 100);
}

#[test]
fn query_without_key_gets_generic_denial() {
    let t = test_token();
    let q = QueryRequest::Balance { address: addr("A"), key: b"guess".to_vec() };
    match t.query(&q) {
        QueryAnswer::Denied { message } => {
            assert_eq!(message, "Wrong viewing key for this address or viewing key not set");
        }
        _ => panic!("expected denial"),
    }
}

#[test]
fn denial_is_identical_for_no_key_and_wrong_key() {
    let mut t = test_token();
    let no_key_msg = match t.query(
        &QueryRequest::Balance { address: addr("A"), key: b"guess".to_vec() },
    ) {
        QueryAnswer::Denied { message } => message,
        _ => panic!("expected denial"),
    };
    let st = t.try_set_key(&addr("A"), b"real-key".to_vec());
    assert_eq!(st, ResponseStatus::Success);
    let wrong_key_msg = match t.query(
        &QueryRequest::Balance { address: addr("A"), key: b"guess".to_vec() },
    ) {
        QueryAnswer::Denied { message } => message,
        _ => panic!("expected denial"),
    };
    assert_eq!(no_key_msg, wrong_key_msg);
}

#[test]
fn query_with_key_shows_balance() {
    let mut t = test_token();
    let st = t.try_set_key(&addr("A"), b"real-key".to_vec());
    assert_eq!(st, ResponseStatus::Success);
    match t.query(&QueryRequest::Balance { address: addr("A"), key: b"real-key".to_vec() }) {
        QueryAnswer::Balance { display } => {
            assert_eq!(display, Some("10 TST".to_string()));
        }
        _ => panic!("expected balance"),
    }
}

#[test]
fn set_key_rejects_invalid_format() {
    let mut t = test_token();
    assert_eq!(t.try_set_key(&addr("A"), Vec::new()), ResponseStatus::Failure);
    assert_eq!(t.try_set_key(&addr("A"), vec![7u8; 65]), ResponseStatus::Failure);
    assert_eq!(t.try_set_key(&addr("A"), vec![7u8; 64]), ResponseStatus::Success);
}

#[test]
fn created_key_authenticates() {
    let mut t = test_token();
    let key = t.try_create_key(&addr("A"), &b"entropy".to_vec(), &b"block-context".to_vec());
    assert!(t.verify_key(&addr("A"), &key));
    assert!(!t.verify_key(&addr("A"), &b"other".to_vec()));
    assert!(!t.verify_key(&addr("B"), &key));
    let mut expected = b"vkey".to_vec();
    expected.extend_from_slice(b"block-context");
    expected.extend_from_slice(b"entropy");
    assert_eq!(key, expected);
}

#[test]
fn handle_withdraw_and_set_key() {
    let mut t = test_token();
    let resp = t.handle(&addr("A"), Request::Withdraw { amount: 100 }).unwrap();
    assert_eq!(resp.status, ResponseStatus::Success);
    assert_eq!(resp.effects.len(), 1);
    match &resp.effects[0] {
        Effect::NativeTransfer { recipient, amount, denom } => {
            assert_eq!(recipient, &addr("A"));
            assert_eq!(*amount, 100);
            assert_eq!(denom, &b"uscrt".to_vec());
        }
        _ => panic!("expected a native transfer effect"),
    }
    assert_eq!(t.total_supply, 900);
    let resp = t.handle(&addr("A"), Request::SetViewingKey { key: Vec::new() }).unwrap();
    assert_eq!(resp.status, ResponseStatus::Failure);
    let resp = t.handle(&addr("A"), Request::SetViewingKey { key: b"a-valid-key".to_vec() }).unwrap();
    assert_eq!(resp.status, ResponseStatus::Success);
}

#[test]
fn pagination_returns_exact_slices() {
    let mut t = test_token();
    for i in 0..5u128 {
        t.try_transfer(&addr("A"), &addr("B"), 10 + i).unwrap();
    }
    let all = t.query_transactions(&addr("A"), 0, 100);
    assert_eq!(all.len(), 5);
    let amounts: Vec<u128> = all.iter().map(|r| r.amount).collect();
    assert_eq!(amounts, vec![10, 11, 12, 13, 14]);
    let middle = t.query_transactions(&addr("A"), 1, 2);
    let amounts: Vec<u128> = middle.iter().map(|r| r.amount).collect();
    assert_eq!(amounts, vec![11, 12]);
    let tail = t.query_transactions(&addr("A"), 3, 100);
    let amounts: Vec<u128> = tail.iter().map(|r| r.amount).collect();
    assert_eq!(amounts, vec![13, 14]);
    assert_eq!(t.query_transactions(&addr("A"), 5, 10).len(), 0);
    assert_eq!(t.query_transactions(&addr("A"), 99, 10).len(), 0);
    assert_eq!(t.query_transactions(&addr("C"), 0, 10).len(), 0);
}

#[test]
fn self_transfer_keeps_balance() {
    let mut t = test_token();
    let r = t.try_transfer(&addr("A"), &addr("A"), 400);
    assert!(r.is_ok());
    assert_eq!(get_balance(&t.balances, &addr("A")), 1000);
    assert_eq!(t.query_transactions(&addr("A"), 0, 10).len(), 1);
}

#[test]
fn handle_dispatches_transfer() {
    let mut t = test_token();
    let r = t.handle(&addr("A"), Request::Transfer { recipient: addr("B"), amount: 300 });
    let resp = r.expect("transfer should succeed");
    assert_eq!(resp.status, ResponseStatus::Success);
    assert!(resp.effects.is_empty());
    assert_eq!(get_balance(&t.balances, &addr("B")), 300);
    let r = t.handle(&addr("A"), Request::Transfer { recipient: addr("B"), amount: 5000 });
    assert_eq!(r.err(), Some(Error::InsufficientFunds { balance: 700, required: 5000 }));
}

#[test]
fn space_pad_pads_to_block() {
    let mut data = b"hello".to_vec();
    token_ledger::msg::space_pad(256, &mut data);
    assert_eq!(data.len(), 256);
    assert_eq!(&data[..5], b"hello");
    assert!(data[5..].iter().all(|b| *b == b' '));
    let mut exact = vec![1u8; 256];
    token_ledger::msg::space_pad(256, &mut exact);
    assert_eq!(exact.len(), 512);
}

#[test]
fn display_rounds_through_decimal() {
    let balances = vec![InitialBalance { address: addr("A"), amount: 12345 }];
    let t = init("TestToken".to_string(), "TST".to_string(), 2, &balances).unwrap();
    assert_eq!(t.try_balance(&addr("A")), Some("123.45 TST".to_string()));
    let balances = vec![InitialBalance { address: addr("A"), amount: 7 }];
    let t = init("TestToken".to_string(), "TST".to_string(), 0, &balances).unwrap();
    assert_eq!(t.try_balance(&addr("A")), Some("7 TST".to_string()));
}

#[test]
fn name_and_symbol_validation() {
    assert!(token_ledger::is_valid_name("abc"));
    assert!(token_ledger::is_valid_name("exactly-thirty-bytes-long-name"));
    assert!(!token_ledger::is_valid_name("ab"));
    assert!(!token_ledger::is_valid_name(
        "a-name-that-is-way-too-long-to-be-valid"
    ));
    assert!(token_ledger::is_valid_symbol("TST"));
    assert!(token_ledger::is_valid_symbol("ABCDEF"));
    assert!(!token_ledger::is_valid_symbol("TS"));
    assert!(!token_ledger::is_valid_symbol("toolow"));
    assert!(!token_ledger::is_valid_symbol("ABCDEFG"));
}

#[test]
fn conservation_across_mixed_transfers() {
    let mut t = test_token();
    t.try_transfer(&addr("A"), &addr("B"), 300).unwrap();
    t.try_approve(&addr("B"), &addr("C"), 200);
    t.try_transfer_from(&addr("C"), &addr("B"), &addr("D"), 150).unwrap();
    t.try_send(&addr("A"), &addr("D"), 100, Vec::new()).unwrap();
    let total = get_balance(&t.balances, &addr("A"))
        + get_balance(&t.balances, &addr("B"))
        + get_balance(&t.balances, &addr("C"))
        + get_balance(&t.balances, &addr("D"));
    assert_eq!(total, 1000);
    assert_eq!(t.total_supply, 1000);
}
