use session_demos::atm::{
    atm_client, atm_provider, forge_cash, run_atm_session, AtmOutcome, AtmProvider, AtmReply,
    AtmSessionEnd, AwaitingAmount, ClientMessage, PinResult, WithdrawResult, MAX_RETRY,
};

/// An account opened with its pin.
fn open_account(balance: u64) -> AwaitingAmount {
    match atm_provider(1, 0, balance).authenticate(1) {
        PinResult::PinOk(account) => account,
        other => panic!("unexpected {:?}", other),
    }
}

#[test]
fn session_with_two_wrong_pins_then_right_one_pays_out() {
    assert_eq!(run_atm_session(1024, 1022, 1000, 900).outcome, AtmOutcome::CashReceived(900));
}

#[test]
fn session_that_never_reaches_the_right_pin_hits_max_retry() {
    assert_eq!(run_atm_session(1024, 1010, 1000, 900).outcome, AtmOutcome::MaxRetry);
}

#[test]
fn session_with_too_large_amount_is_refused() {
    assert_eq!(run_atm_session(1024, 1023, 1000, 2000).outcome, AtmOutcome::InsufficientFund);
}

#[test]
fn session_counts_the_pins_sent() {
    assert_eq!(
        run_atm_session(1024, 1022, 1000, 900),
        AtmSessionEnd { outcome: AtmOutcome::CashReceived(900), pins_sent: 3 }
    );
    assert_eq!(run_atm_session(1024, 1010, 1000, 900).pins_sent, 4);
    assert_eq!(run_atm_session(1024, 1024, 1000, 900).pins_sent, 1);
}

#[test]
fn right_pin_on_the_last_allowed_try_is_accepted() {
    assert_eq!(run_atm_session(1024, 1021, 1000, 1000).outcome, AtmOutcome::CashReceived(1000));
    assert_eq!(run_atm_session(1024, 1020, 1000, 1000).outcome, AtmOutcome::MaxRetry);
}

#[test]
fn pin_above_the_right_one_never_gets_there() {
    assert_eq!(run_atm_session(1024, 1025, 1000, 10).outcome, AtmOutcome::MaxRetry);
}

#[test]
fn session_at_the_top_of_the_pin_range() {
    assert_eq!(run_atm_session(u32::MAX, u32::MAX - 1, 5, 5).outcome, AtmOutcome::CashReceived(5));
    assert_eq!(run_atm_session(u32::MAX, u32::MAX, 5, 6).outcome, AtmOutcome::InsufficientFund);
}

#[test]
fn wrong_pin_counts_an_attempt() {
    let p = atm_provider(1024, 0, 1000);
    match p.authenticate(1) {
        PinResult::WrongPin { remaining_attempts, next } => {
            assert_eq!(remaining_attempts, 3);
            assert_eq!(next, AtmProvider { actual_pin: 1024, attempts: 1, balance: 1000 });
        }
        other => panic!("unexpected {:?}", other),
    }
}

#[test]
fn wrong_pins_use_up_the_retries() {
    let mut p = atm_provider(7, 0, 50);
    let mut retries = 0;
    loop {
        match p.authenticate(8) {
            PinResult::WrongPin { next, .. } => {
                retries += 1;
                p = next;
            }
            PinResult::MaxRetry => break,
            PinResult::PinOk(_) => panic!("wrong pin accepted"),
        }
    }
    assert_eq!(retries, MAX_RETRY);
}

#[test]
fn right_pin_is_accepted_after_the_retries_are_used_up() {
    for attempts in [3u8, 200] {
        match atm_provider(7, attempts, 50).authenticate(7) {
            PinResult::PinOk(account) => assert_eq!(account.balance(), 50),
            other => panic!("unexpected {:?}", other),
        }
    }
    assert_eq!(atm_provider(7, 200, 50).authenticate(6), PinResult::MaxRetry);
}

#[test]
fn withdrawal_keeps_the_money_together() {
    match open_account(1000).withdraw(900) {
        WithdrawResult::WithdrawOk { cash, remaining_balance } => {
            assert_eq!(cash.amount(), 900);
            assert_eq!(remaining_balance, 100);
        }
        WithdrawResult::InsufficientFund => panic!("refused"),
    }
}

#[test]
fn withdrawal_of_the_whole_balance() {
    assert_eq!(
        open_account(1000).withdraw(1000),
        WithdrawResult::WithdrawOk { cash: forge_cash(1000), remaining_balance: 0 }
    );
}

#[test]
fn withdrawal_above_the_balance_is_refused() {
    assert_eq!(open_account(1000).withdraw(1001), WithdrawResult::InsufficientFund);
}

#[test]
fn client_retries_with_the_next_pin() {
    let c = atm_client(1022, 900).retry();
    assert_eq!(c.pin, 1023);
    assert_eq!(c.withdraw_amount, 900);
}

#[test]
fn forged_cash_is_worth_its_amount() {
    assert_eq!(forge_cash(42).amount(), 42);
}

#[test]
fn client_reacts_to_each_reply() {
    let c = atm_client(1022, 900);
    assert_eq!(c.first_message(), ClientMessage::SendPin(1022));
    let (c, m) = c.step(AtmReply::WrongPin);
    assert_eq!(m, ClientMessage::SendPin(1023));
    let (c, m) = c.step(AtmReply::WrongPin);
    assert_eq!(m, ClientMessage::SendPin(1024));
    let (c, m) = c.step(AtmReply::PinOk);
    assert_eq!(m, ClientMessage::SendAmount(900));
    let (c, m) = c.step(AtmReply::WithdrawOk(900));
    assert_eq!(m, ClientMessage::Stop);
    assert_eq!(c, atm_client(1024, 900));
    assert_eq!(atm_client(5, 1).step(AtmReply::InsufficientFund), (atm_client(5, 1), ClientMessage::Stop));
    assert_eq!(atm_client(5, 1).step(AtmReply::MaxRetry), (atm_client(5, 1), ClientMessage::Stop));
}

#[test]
fn only_the_right_pin_opens_the_account() {
    let mut p = atm_provider(1024, 0, 1000);
    let mut opened = 0;
    for pin in [1000u32, 1001, 1024] {
        match p.authenticate(pin) {
            PinResult::WrongPin { next, .. } => p = next,
            PinResult::PinOk(account) => {
                assert_eq!(pin, 1024);
                assert_eq!(account.balance(), 1000);
                opened += 1;
                break;
            }
            PinResult::MaxRetry => panic!("retries used up"),
        }
    }
    assert_eq!(opened, 1);
}
