//! The ATM: a provider that checks a pin a bounded number of times and then
//! pays out cash when the balance allows it, and a client that retries with
//! the next pin after every wrong one.
use vstd::prelude::*;

verus! {

/// A personal identification number.
pub type Pin = u32;

/// An amount of money, in whole units.
pub type CashAmount = u64;

/// How many wrong pins the provider answers with a retry before it gives up.
pub const MAX_RETRY: u8 = 3;

/// Cash handed out by the ATM.
#[derive(Debug, PartialEq, Eq, Structural)]
pub struct CashVal {
    amount: CashAmount,
}

impl View for CashVal {
    type V = CashAmount;

    closed spec fn view(&self) -> CashAmount {
        self.amount
    }
}

impl CashVal {
    /// The amount of money this cash is worth.
    pub fn amount(&self) -> (a: CashAmount)
        ensures
            a == self@,
    {
        self.amount
    }
}

/// Prints the money: cash worth exactly `amount`.
pub fn forge_cash(amount: CashAmount) -> (cash: CashVal)
    ensures
        cash@ == amount,
{
    CashVal { amount }
}

/// The provider waiting for a pin: the account's pin, how many wrong pins it
/// has already answered, and the balance of the account.
#[derive(Debug, PartialEq, Eq, Structural)]
pub struct AtmProvider {
    pub actual_pin: Pin,
    pub attempts: u8,
    pub balance: CashAmount,
}

/// The provider after a correct pin, waiting for the amount to withdraw.
/// Only `AtmProvider::authenticate` makes one, so an account is opened by
/// the right pin and by nothing else.
#[derive(Debug, PartialEq, Eq, Structural)]
pub struct AwaitingAmount {
    balance: CashAmount,
}

impl View for AwaitingAmount {
    /// The balance of the opened account.
    type V = CashAmount;

    closed spec fn view(&self) -> CashAmount {
        self.balance
    }
}

/// The provider's answer to a pin.
#[derive(Debug, PartialEq, Eq, Structural)]
pub enum PinResult {
    /// The pin was right; the provider now waits for an amount.
    PinOk(AwaitingAmount),
    /// The pin was wrong and another try is allowed; `next` waits for it.
    WrongPin { remaining_attempts: u8, next: AtmProvider },
    /// The pin was wrong and no try is left; the session ends.
    MaxRetry,
}

/// The provider's answer to a withdrawal request.
#[derive(Debug, PartialEq, Eq, Structural)]
pub enum WithdrawResult {
    /// The cash, and what stays on the account.
    WithdrawOk { cash: CashVal, remaining_balance: CashAmount },
    /// The amount exceeds the balance; nothing is paid out.
    InsufficientFund,
}

/// A provider's answer to a pin as the contracts speak of it: an opened
/// account is shown by its balance.
#[derive(Debug, PartialEq, Eq, Structural)]
pub enum PinAnswer {
    PinOk { balance: CashAmount },
    WrongPin { remaining_attempts: u8, next: AtmProvider },
    MaxRetry,
}

/// The answer `r`, with the opened account shown by its balance.
pub open spec fn answer_of(r: PinResult) -> PinAnswer {
    match r {
        PinResult::PinOk(account) => PinAnswer::PinOk { balance: account@ },
        PinResult::WrongPin { remaining_attempts, next } => PinAnswer::WrongPin { remaining_attempts, next },
        PinResult::MaxRetry => PinAnswer::MaxRetry,
    }
}

/// What the provider answers to `given_pin`.
pub open spec fn pin_result(p: AtmProvider, given_pin: Pin) -> PinAnswer {
    if given_pin == p.actual_pin {
        PinAnswer::PinOk { balance: p.balance }
    } else if p.attempts >= MAX_RETRY {
        PinAnswer::MaxRetry
    } else {
        PinAnswer::WrongPin {
            remaining_attempts: (MAX_RETRY - p.attempts) as u8,
            next: AtmProvider { actual_pin: p.actual_pin, attempts: (p.attempts + 1) as u8, balance: p.balance },
        }
    }
}

/// A provider for the account with pin `actual_pin` and balance `balance`
/// that has already answered `attempts` wrong pins.
pub fn atm_provider(actual_pin: Pin, attempts: u8, balance: CashAmount) -> (p: AtmProvider)
    ensures
        p == (AtmProvider { actual_pin, attempts, balance }),
{
    AtmProvider { actual_pin, attempts, balance }
}

impl AtmProvider {
    /// Checks a pin: the right pin opens the account, whatever the number of
    /// earlier attempts; a wrong one is answered with a retry while fewer
    /// than `MAX_RETRY` wrong pins came before, and ends the session after.
    pub fn authenticate(self, given_pin: Pin) -> (r: PinResult)
        ensures
            answer_of(r) == pin_result(self, given_pin),
            match r {
                PinResult::PinOk(account) => given_pin == self.actual_pin && account@ == self.balance,
                PinResult::WrongPin { remaining_attempts, next } => {
                    &&& given_pin != self.actual_pin
                    &&& self.attempts < MAX_RETRY
                    &&& remaining_attempts == MAX_RETRY - self.attempts
                    &&& next.actual_pin == self.actual_pin
                    &&& next.attempts == self.attempts + 1
                    &&& next.balance == self.balance
                },
                PinResult::MaxRetry => given_pin != self.actual_pin && self.attempts >= MAX_RETRY,
            },
    {
        if given_pin == self.actual_pin {
            PinResult::PinOk(AwaitingAmount { balance: self.balance })
        } else if self.attempts >= MAX_RETRY {
            PinResult::MaxRetry
        } else {
            PinResult::WrongPin {
                remaining_attempts: MAX_RETRY - self.attempts,
                next: AtmProvider {
                    actual_pin: self.actual_pin,
                    attempts: self.attempts + 1,
                    balance: self.balance,
                },
            }
        }
    }
}

/// What a withdrawal of `amount` from an account with `balance` pays out:
/// the amount, when the balance covers it, else nothing.
pub open spec fn withdrawal(balance: CashAmount, amount: CashAmount) -> Option<CashAmount> {
    if amount <= balance {
        Some(amount)
    } else {
        None
    }
}

impl AwaitingAmount {
    /// The balance of the opened account.
    pub fn balance(&self) -> (b: CashAmount)
        ensures
            b == self@,
    {
        self.balance
    }

    /// Pays out `amount` when the balance covers it, and tells what remains.
    pub fn withdraw(self, amount: CashAmount) -> (r: WithdrawResult)
        ensures
            match r {
                WithdrawResult::WithdrawOk { cash, remaining_balance } => {
                    &&& withdrawal(self@, amount) == Some(cash@)
                    &&& remaining_balance == self@ - amount
                },
                WithdrawResult::InsufficientFund => withdrawal(self@, amount) is None,
            },
            r is WithdrawOk <==> amount <= self@,
            match r {
                WithdrawResult::WithdrawOk { cash, remaining_balance } => {
                    &&& cash@ == amount
                    &&& cash@ + remaining_balance == self@
                },
                WithdrawResult::InsufficientFund => amount > self@,
            },
    {
        if amount <= self.balance {
            WithdrawResult::WithdrawOk {
                cash: forge_cash(amount),
                remaining_balance: self.balance - amount,
            }
        } else {
            WithdrawResult::InsufficientFund
        }
    }
}

/// The client: the pin it tries next and the amount it wants to withdraw.
#[derive(Debug, PartialEq, Eq, Structural)]
pub struct AtmClient {
    pub pin: Pin,
    pub withdraw_amount: CashAmount,
}

/// A client that starts with `pin` and wants `withdraw_amount`.
pub fn atm_client(pin: Pin, withdraw_amount: CashAmount) -> (c: AtmClient)
    ensures
        c == (AtmClient { pin, withdraw_amount }),
{
    AtmClient { pin, withdraw_amount }
}

/// What the provider tells the client, as the client sees it.
#[derive(Debug, PartialEq, Eq, Structural)]
pub enum AtmReply {
    PinOk,
    WrongPin,
    MaxRetry,
    WithdrawOk(CashAmount),
    InsufficientFund,
}

/// What the client sends next, or that it stops and waits for the end.
#[derive(Debug, PartialEq, Eq, Structural)]
pub enum ClientMessage {
    SendPin(Pin),
    SendAmount(CashAmount),
    Stop,
}

/// The client's reaction to `reply`: after the right pin it asks for its
/// amount, after a wrong one it tries the next pin, and after anything else
/// it stops.
pub open spec fn client_step(c: AtmClient, reply: AtmReply) -> (AtmClient, ClientMessage) {
    match reply {
        AtmReply::PinOk => (c, ClientMessage::SendAmount(c.withdraw_amount)),
        AtmReply::WrongPin => (
            AtmClient { pin: (c.pin + 1) as Pin, withdraw_amount: c.withdraw_amount },
            ClientMessage::SendPin((c.pin + 1) as Pin),
        ),
        _ => (c, ClientMessage::Stop),
    }
}

/// The messages the client sends in answer to `replies`, one per reply.
pub open spec fn client_messages(c: AtmClient, replies: Seq<AtmReply>) -> Seq<ClientMessage>
    decreases replies.len(),
{
    if replies.len() == 0 {
        Seq::empty()
    } else {
        seq![client_step(c, replies[0]).1] + client_messages(client_step(c, replies[0]).0, replies.drop_first())
    }
}

impl AtmClient {
    /// The client's first message: its pin.
    pub fn first_message(&self) -> (m: ClientMessage)
        ensures
            m == ClientMessage::SendPin(self.pin),
    {
        ClientMessage::SendPin(self.pin)
    }

    /// Reacts to the provider's reply: the next state of the client and
    /// what it sends.
    pub fn step(self, reply: AtmReply) -> (r: (AtmClient, ClientMessage))
        requires
            reply is WrongPin ==> self.pin < u32::MAX,
        ensures
            r == client_step(self, reply),
            reply is PinOk ==> r == (self, ClientMessage::SendAmount(self.withdraw_amount)),
            reply is WrongPin ==> {
                &&& r.0.pin == self.pin + 1
                &&& r.0.withdraw_amount == self.withdraw_amount
                &&& r.1 == ClientMessage::SendPin(r.0.pin)
            },
            !(reply is PinOk) && !(reply is WrongPin) ==> r == (self, ClientMessage::Stop),
    {
        match reply {
            AtmReply::PinOk => {
                let amount = self.withdraw_amount;
                (self, ClientMessage::SendAmount(amount))
            },
            AtmReply::WrongPin => {
                let next = self.retry();
                let pin = next.pin;
                (next, ClientMessage::SendPin(pin))
            },
            _ => (self, ClientMessage::Stop),
        }
    }

    /// After a wrong pin the client tries the next one.
    pub fn retry(self) -> (c: AtmClient)
        requires
            self.pin < u32::MAX,
        ensures
            c == (AtmClient { pin: (self.pin + 1) as Pin, withdraw_amount: self.withdraw_amount }),
    {
        AtmClient { pin: self.pin + 1, withdraw_amount: self.withdraw_amount }
    }
}

/// How a session between a client and a fresh provider ends.
#[derive(Debug, PartialEq, Eq, Structural)]
pub enum AtmOutcome {
    /// The client received cash of this amount.
    CashReceived(CashAmount),
    /// The pin was accepted but the balance did not cover the amount.
    InsufficientFund,
    /// No pin the client tried was accepted.
    MaxRetry,
}

/// The right pin is among those a client starting at `try_pin` gets to try:
/// `try_pin` and the `MAX_RETRY` pins after it.
pub open spec fn pin_within_retries(actual_pin: Pin, try_pin: Pin) -> bool {
    try_pin <= actual_pin && actual_pin - try_pin <= MAX_RETRY
}

/// The end of a session between `atm_client(try_pin, withdraw_amount)` and
/// `atm_provider(actual_pin, 0, balance)`.
pub open spec fn atm_session_outcome(
    actual_pin: Pin,
    try_pin: Pin,
    balance: CashAmount,
    withdraw_amount: CashAmount,
) -> AtmOutcome {
    if pin_within_retries(actual_pin, try_pin) {
        if withdraw_amount <= balance {
            AtmOutcome::CashReceived(withdraw_amount)
        } else {
            AtmOutcome::InsufficientFund
        }
    } else {
        AtmOutcome::MaxRetry
    }
}

/// How many pins the client sends in that session: up to and including the
/// right one when it comes within reach, else every pin the provider answers.
pub open spec fn atm_session_pins_sent(actual_pin: Pin, try_pin: Pin) -> int {
    if pin_within_retries(actual_pin, try_pin) {
        actual_pin - try_pin + 1
    } else {
        MAX_RETRY + 1
    }
}

/// The end of a whole session: how it ended and how many pins were sent.
#[derive(Debug, PartialEq, Eq, Structural)]
pub struct AtmSessionEnd {
    pub outcome: AtmOutcome,
    pub pins_sent: u8,
}

/// The client's pin stays within `u32` for the whole session: either it
/// starts far enough below the maximum, or it meets the right pin first.
pub open spec fn client_pins_fit(actual_pin: Pin, try_pin: Pin) -> bool {
    try_pin as int + MAX_RETRY as int <= u32::MAX || try_pin <= actual_pin
}

/// Runs a whole session between a client that starts with `try_pin` and
/// wants `withdraw_amount`, and a provider for the account with pin
/// `actual_pin` and balance `balance` that has seen no attempt yet.
pub fn run_atm_session(
    actual_pin: Pin,
    try_pin: Pin,
    balance: CashAmount,
    withdraw_amount: CashAmount,
) -> (end: AtmSessionEnd)
    requires
        client_pins_fit(actual_pin, try_pin),
    ensures
        end.outcome == atm_session_outcome(actual_pin, try_pin, balance, withdraw_amount),
        end.pins_sent == atm_session_pins_sent(actual_pin, try_pin),
{
    let mut provider = atm_provider(actual_pin, 0, balance);
    let mut client = atm_client(try_pin, withdraw_amount);
    loop
        invariant
            provider.actual_pin == actual_pin,
            provider.balance == balance,
            provider.attempts <= MAX_RETRY,
            client.withdraw_amount == withdraw_amount,
            client.pin == try_pin + provider.attempts,
            try_pin <= actual_pin ==> client.pin <= actual_pin,
            client_pins_fit(actual_pin, try_pin),
        decreases MAX_RETRY - provider.attempts,
    {
        let provider_attempts = provider.attempts;
        match provider.authenticate(client.pin) {
            PinResult::PinOk(account) => {
                let (_client, message) = client.step(AtmReply::PinOk);
                let amount = match message {
                    ClientMessage::SendAmount(amount) => amount,
                    _ => withdraw_amount,
                };
                let outcome = match account.withdraw(amount) {
                    WithdrawResult::WithdrawOk { cash, remaining_balance: _ } => {
                        AtmOutcome::CashReceived(cash.amount())
                    },
                    WithdrawResult::InsufficientFund => AtmOutcome::InsufficientFund,
                };
                return AtmSessionEnd { outcome, pins_sent: provider_attempts + 1 };
            },
            PinResult::WrongPin { remaining_attempts: _, next } => {
                provider = next;
                let (next_client, _message) = client.step(AtmReply::WrongPin);
                client = next_client;
            },
            PinResult::MaxRetry => {
                return AtmSessionEnd { outcome: AtmOutcome::MaxRetry, pins_sent: MAX_RETRY + 1 };
            },
        }
    }
}

/// The provider's answer to the last of `pins`, sent one after the other
/// while it keeps answering with a retry.
pub open spec fn replay_pins(p: AtmProvider, pins: Seq<Pin>) -> PinAnswer
    recommends
        pins.len() > 0,
    decreases pins.len(),
{
    if pins.len() <= 1 {
        pin_result(p, pins[0])
    } else {
        match pin_result(p, pins[0]) {
            PinAnswer::WrongPin { remaining_attempts: _, next } => replay_pins(next, pins.drop_first()),
            other => other,
        }
    }
}

/// Wrong pins use up the retries one by one: after a run of wrong pins the
/// provider still offers a retry, with the count of attempts raised by the
/// length of the run, as long as that count stays within `MAX_RETRY`; past
/// that it ends the session.
pub proof fn lemma_wrong_pins_use_up_retries(p: AtmProvider, pins: Seq<Pin>)
    requires
        pins.len() > 0,
        forall|i: int| 0 <= i < pins.len() ==> pins[i] != p.actual_pin,
    ensures
        p.attempts + pins.len() <= MAX_RETRY ==> replay_pins(p, pins) == (PinAnswer::WrongPin {
            remaining_attempts: (MAX_RETRY - (p.attempts + pins.len() - 1)) as u8,
            next: AtmProvider {
                actual_pin: p.actual_pin,
                attempts: (p.attempts + pins.len()) as u8,
                balance: p.balance,
            },
        }),
        p.attempts + pins.len() > MAX_RETRY ==> replay_pins(p, pins) == PinAnswer::MaxRetry,
    decreases pins.len(),
{
    assert(pins[0] != p.actual_pin);
    if pins.len() > 1 && p.attempts < MAX_RETRY {
        let next = AtmProvider { actual_pin: p.actual_pin, attempts: (p.attempts + 1) as u8, balance: p.balance };
        let rest = pins.drop_first();
        assert forall|i: int| 0 <= i < rest.len() implies rest[i] != next.actual_pin by {
            assert(rest[i] == pins[i + 1]);
        }
        lemma_wrong_pins_use_up_retries(next, rest);
    }
}

/// The right pin opens the account after any run of wrong pins that did not
/// use up the retries.
pub proof fn lemma_right_pin_accepted_after_retries(p: AtmProvider, pins: Seq<Pin>)
    requires
        pins.len() > 0,
        pins.last() == p.actual_pin,
        forall|i: int| 0 <= i < pins.len() - 1 ==> pins[i] != p.actual_pin,
        p.attempts + pins.len() - 1 <= MAX_RETRY,
    ensures
        replay_pins(p, pins) == (PinAnswer::PinOk { balance: p.balance }),
    decreases pins.len(),
{
    if pins.len() > 1 {
        assert(pins[0] != p.actual_pin);
        let next = AtmProvider { actual_pin: p.actual_pin, attempts: (p.attempts + 1) as u8, balance: p.balance };
        let rest = pins.drop_first();
        assert forall|i: int| 0 <= i < rest.len() - 1 implies rest[i] != next.actual_pin by {
            assert(rest[i] == pins[i + 1]);
        }
        lemma_right_pin_accepted_after_retries(next, rest);
    }
}

/// What a run of `pins` against `p`, followed by a request for `amount`,
/// pays out: nothing unless the run opened the account.
pub open spec fn cash_paid(p: AtmProvider, pins: Seq<Pin>, amount: CashAmount) -> Option<CashAmount> {
    match replay_pins(p, pins) {
        PinAnswer::PinOk { balance } => withdrawal(balance, amount),
        _ => None,
    }
}

/// Cash is paid only after the right pin: a run of pins opens the account
/// only at the first pin that equals the account's pin, reached while
/// retries remained, and the account it opens is the provider's own; a
/// client that stops sending pins once the account is open has sent the
/// right pin last.  What the run then pays out is one payment, of the
/// amount asked, within the balance.
pub proof fn lemma_cash_only_after_right_pin(p: AtmProvider, pins: Seq<Pin>, amount: CashAmount)
    requires
        pins.len() > 0,
    ensures
        replay_pins(p, pins) is PinOk ==> {
            &&& replay_pins(p, pins) == (PinAnswer::PinOk { balance: p.balance })
            &&& exists|k: int|
                #![trigger pins[k]]
                0 <= k < pins.len() && pins[k] == p.actual_pin
                    && (forall|i: int| 0 <= i < k ==> pins[i] != p.actual_pin)
                    && (k > 0 ==> p.attempts + k <= MAX_RETRY)
        },
        replay_pins(p, pins) is PinOk && (forall|i: int| 0 <= i < pins.len() - 1 ==> pins[i] != p.actual_pin)
            ==> pins.last() == p.actual_pin,
        cash_paid(p, pins, amount) matches Some(c) ==> {
            &&& c == amount
            &&& c <= p.balance
            &&& replay_pins(p, pins) is PinOk
        },
    decreases pins.len(),
{
    if pins[0] == p.actual_pin {
        assert(pins[0] == p.actual_pin);
    } else if pins.len() > 1 && p.attempts < MAX_RETRY {
        let next = AtmProvider { actual_pin: p.actual_pin, attempts: (p.attempts + 1) as u8, balance: p.balance };
        let rest = pins.drop_first();
        lemma_cash_only_after_right_pin(next, rest, amount);
        if replay_pins(p, pins) is PinOk {
            assert(replay_pins(p, pins) == replay_pins(next, rest));
            let k0 = choose|k: int|
                #![trigger rest[k]]
                0 <= k < rest.len() && rest[k] == next.actual_pin
                    && (forall|i: int| 0 <= i < k ==> rest[i] != next.actual_pin)
                    && (k > 0 ==> next.attempts + k <= MAX_RETRY);
            assert(pins[k0 + 1] == rest[k0]);
            assert forall|i: int| 0 <= i < k0 + 1 implies pins[i] != p.actual_pin by {
                if i > 0 {
                    assert(pins[i] == rest[i - 1]);
                }
            }
            if forall|i: int| 0 <= i < pins.len() - 1 ==> pins[i] != p.actual_pin {
                assert forall|i: int| 0 <= i < rest.len() - 1 implies rest[i] != next.actual_pin by {
                    assert(rest[i] == pins[i + 1]);
                }
                assert(rest.last() == pins.last());
            }
        }
    }
}

/// The client counts up: answered with `n` wrong pins and then the right
/// one, it sends the `n` pins after its own, in order, and then its amount,
/// once.
pub proof fn lemma_client_counts_up_pins(c: AtmClient, n: nat)
    requires
        c.pin + n <= u32::MAX,
    ensures
        client_messages(c, Seq::new(n, |i: int| AtmReply::WrongPin).push(AtmReply::PinOk))
            == Seq::new(n, |i: int| ClientMessage::SendPin((c.pin + i + 1) as Pin)).push(
            ClientMessage::SendAmount(c.withdraw_amount),
        ),
    decreases n,
{
    let replies = Seq::new(n, |i: int| AtmReply::WrongPin).push(AtmReply::PinOk);
    let expected = Seq::new(n, |i: int| ClientMessage::SendPin((c.pin + i + 1) as Pin)).push(
        ClientMessage::SendAmount(c.withdraw_amount),
    );
    if n == 0 {
        assert(replies =~= seq![AtmReply::PinOk]);
        assert(replies.drop_first() =~= Seq::<AtmReply>::empty());
        assert(client_messages(c, replies.drop_first()) == Seq::<ClientMessage>::empty());
        assert(client_messages(c, replies) =~= expected);
    } else {
        let next = AtmClient { pin: (c.pin + 1) as Pin, withdraw_amount: c.withdraw_amount };
        let m = (n - 1) as nat;
        lemma_client_counts_up_pins(next, m);
        assert(replies.drop_first() =~= Seq::new(m, |i: int| AtmReply::WrongPin).push(AtmReply::PinOk));
        assert(replies[0] == AtmReply::WrongPin);
        assert(client_step(c, replies[0]) == (next, ClientMessage::SendPin((c.pin + 1) as Pin)));
        let tail = Seq::new(m, |i: int| ClientMessage::SendPin((next.pin + i + 1) as Pin)).push(
            ClientMessage::SendAmount(next.withdraw_amount),
        );
        assert(client_messages(c, replies) == seq![ClientMessage::SendPin((c.pin + 1) as Pin)] + tail);
        assert(seq![ClientMessage::SendPin((c.pin + 1) as Pin)] + tail =~= expected);
    }
}

/// The provider opens the account exactly for its own pin, on any attempt;
/// a wrong pin is answered with a retry, counted once, exactly while fewer
/// than `MAX_RETRY` wrong pins came before, and otherwise ends the session.
pub proof fn lemma_pin_answers(p: AtmProvider, given_pin: Pin)
    ensures
        pin_result(p, given_pin) is PinOk <==> given_pin == p.actual_pin,
        pin_result(p, given_pin) is PinOk ==> pin_result(p, given_pin) == (PinAnswer::PinOk { balance: p.balance }),
        pin_result(p, given_pin) is WrongPin <==> given_pin != p.actual_pin && p.attempts < MAX_RETRY,
        pin_result(p, given_pin) matches PinAnswer::WrongPin { remaining_attempts, next } ==> {
            &&& remaining_attempts + p.attempts == MAX_RETRY
            &&& next.attempts == p.attempts + 1
            &&& next.actual_pin == p.actual_pin
            &&& next.balance == p.balance
        },
        pin_result(p, given_pin) is MaxRetry <==> given_pin != p.actual_pin && p.attempts >= MAX_RETRY,
{
}

/// A withdrawal pays out exactly when the balance covers the amount, and
/// then pays the amount asked, leaving the rest of the balance.
pub proof fn lemma_withdrawal_pays_exactly_when_covered(balance: CashAmount, amount: CashAmount)
    ensures
        withdrawal(balance, amount) is Some <==> amount <= balance,
        withdrawal(balance, amount) matches Some(paid) ==> paid == amount && balance - paid >= 0,
        amount <= balance ==> withdrawal(balance, amount) == Some(amount),
{
}

/// The client's reactions: after the right pin it sends its amount and
/// stays as it was; after a wrong pin it sends the next pin up, keeping its
/// amount; after any other reply it stops and stays as it was.
pub proof fn lemma_client_reactions(c: AtmClient, reply: AtmReply)
    requires
        reply is WrongPin ==> c.pin < u32::MAX,
    ensures
        reply is PinOk ==> client_step(c, reply) == (c, ClientMessage::SendAmount(c.withdraw_amount)),
        reply is WrongPin ==> {
            &&& client_step(c, reply).0.pin == c.pin + 1
            &&& client_step(c, reply).0.withdraw_amount == c.withdraw_amount
            &&& client_step(c, reply).1 == ClientMessage::SendPin(client_step(c, reply).0.pin)
        },
        !(reply is PinOk) && !(reply is WrongPin) ==> client_step(c, reply) == (c, ClientMessage::Stop),
{
}

} // verus!
