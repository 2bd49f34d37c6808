use vstd::prelude::*;

use crate::error::FtError;
use crate::ledger::{balance_in, lists_exactly, pairs_sum, transfer_spec, Ledger};
use crate::metadata::{opt_bytes, opt_view, TokenMetadata};
use crate::whitelist::Whitelist;

verus! {

/// Gas handed to the receiver's `ft_on_transfer` notification.
pub const GAS_FOR_FT_ON_TRANSFER: u64 = 35_000_000_000_000;

/// Gas reserved for the resolution step that follows the notification.
pub const GAS_FOR_RESOLVE_TRANSFER: u64 = 10_000_000_000_000;

/// The owner and whitelisted accounts keep their balances.
pub open spec fn exempt(owner: Seq<char>, wl: Set<Seq<char>>, a: Seq<char>) -> bool {
    a == owner || wl.contains(a)
}

/// What the corrector takes from `a`: its whole balance unless it is exempt.
pub open spec fn sweep_amount(
    owner: Seq<char>,
    wl: Set<Seq<char>>,
    m: Map<Seq<char>, nat>,
    a: Seq<char>,
) -> nat {
    if exempt(owner, wl, a) {
        0
    } else {
        balance_in(m, a)
    }
}

/// The corrector on `a`: its balance, if it is not exempt, moves to the owner.
pub open spec fn fix_spec(
    owner: Seq<char>,
    wl: Set<Seq<char>>,
    m: Map<Seq<char>, nat>,
    a: Seq<char>,
) -> Result<Map<Seq<char>, nat>, FtError> {
    if sweep_amount(owner, wl, m, a) == 0 {
        Ok(m)
    } else {
        transfer_spec(m, a, owner, sweep_amount(owner, wl, m, a))
    }
}

/// A gated transfer: refused at once when sender and receiver are the same
/// account; otherwise the corrector on the sender, the transfer, then the
/// corrector on the receiver, and the first refusal refuses the whole.
pub open spec fn ft_transfer_spec(
    owner: Seq<char>,
    wl: Set<Seq<char>>,
    m: Map<Seq<char>, nat>,
    sender: Seq<char>,
    receiver: Seq<char>,
    amount: nat,
) -> Result<Map<Seq<char>, nat>, FtError> {
    if sender == receiver {
        Err(FtError::SameAccount)
    } else {
        match fix_spec(owner, wl, m, sender) {
            Err(e) => Err(e),
            Ok(m1) => match transfer_spec(m1, sender, receiver, amount) {
                Err(e) => Err(e),
                Ok(m2) => fix_spec(owner, wl, m2, receiver),
            },
        }
    }
}

/// The part of `amount` that the receiver gives back: what it reports,
/// at most `amount`, or all of `amount` when the notification failed.
pub open spec fn unused_spec(amount: nat, outcome: Option<u128>) -> nat {
    match outcome {
        Some(u) => if u < amount {
            u as nat
        } else {
            amount
        },
        None => amount,
    }
}

/// The refund: the unused part, at most what the receiver still holds.
pub open spec fn refund_spec(
    m: Map<Seq<char>, nat>,
    receiver: Seq<char>,
    amount: nat,
    outcome: Option<u128>,
) -> nat {
    let unused = unused_spec(amount, outcome);
    if balance_in(m, receiver) < unused {
        balance_in(m, receiver)
    } else {
        unused
    }
}

/// Who takes a refund: the sender while it is registered, else the owner.
pub open spec fn refund_target(owner: Seq<char>, m: Map<Seq<char>, nat>, sender: Seq<char>) -> Seq<
    char,
> {
    if m.contains_key(sender) {
        sender
    } else {
        owner
    }
}

/// Balances after the refund moves from the receiver to `refund_target`.
/// Nothing is burnt: the total stays as it was.
pub open spec fn refunded_spec(
    owner: Seq<char>,
    m: Map<Seq<char>, nat>,
    sender: Seq<char>,
    receiver: Seq<char>,
    refund: nat,
) -> Map<Seq<char>, nat> {
    let target = refund_target(owner, m, sender);
    if refund == 0 || target == receiver {
        m
    } else {
        m.insert(receiver, (m[receiver] - refund) as nat).insert(target, (m[target] + refund) as nat)
    }
}

/// Balances after a resolution: the refund, then the corrector on the
/// receiver, which is skipped if it is refused.
pub open spec fn resolved_spec(
    owner: Seq<char>,
    wl: Set<Seq<char>>,
    m: Map<Seq<char>, nat>,
    sender: Seq<char>,
    receiver: Seq<char>,
    amount: nat,
    outcome: Option<u128>,
) -> Map<Seq<char>, nat> {
    let m1 = refunded_spec(owner, m, sender, receiver, refund_spec(m, receiver, amount, outcome));
    match fix_spec(owner, wl, m1, receiver) {
        Ok(m2) => m2,
        Err(_) => m1,
    }
}

/// What a resolution does: the record it returns and the balances it
/// leaves, from the balances before it; the total supply is kept.
pub open spec fn resolution_holds(
    pre: Contract,
    post: Contract,
    sender: Seq<char>,
    receiver: Seq<char>,
    amount: nat,
    outcome: Option<u128>,
    r: Resolution,
) -> bool {
    let refund = refund_spec(pre.balances(), receiver, amount, outcome);
    &&& r.refund == refund
    &&& r.used == amount - refund
    &&& r.refunded_to_owner == (refund > 0 && !pre.balances().contains_key(sender))
    &&& event_views(r.events@) == resolution_events(
        pre.owner(),
        pre.whitelisted(),
        pre.balances(),
        sender,
        receiver,
        refund,
    )
    &&& post.supply() == pre.supply()
    &&& post.balances() == resolved_spec(
        pre.owner(),
        pre.whitelisted(),
        pre.balances(),
        sender,
        receiver,
        amount,
        outcome,
    )
}

/// The moves of a resolution, in order: the refund, unless it stays with
/// the receiver, then the sweep of the receiver.
pub open spec fn resolution_events(
    owner: Seq<char>,
    wl: Set<Seq<char>>,
    m: Map<Seq<char>, nat>,
    sender: Seq<char>,
    receiver: Seq<char>,
    refund: nat,
) -> Seq<EventView> {
    let target = refund_target(owner, m, sender);
    let m1 = refunded_spec(owner, m, sender, receiver, refund);
    (if refund > 0 && target != receiver {
        seq![(receiver, target, refund, Some("refund"@))]
    } else {
        Seq::empty()
    }) + sweep_events(owner, wl, m1, receiver)
}

/// The unused amount read from the receiver's reply: none when the
/// notification failed or the reply does not decode.
pub open spec fn reply_outcome(reply: Option<Seq<u8>>) -> Option<u128> {
    match reply {
        Some(b) => json_u128_of(b),
        None => None,
    }
}

/// What decoding `bytes` as a JSON `U128` (a decimal number in a JSON
/// string) gives.
pub uninterp spec fn json_u128_of(bytes: Seq<u8>) -> Option<u128>;

/// Relies on `near_sdk::serde_json::from_slice::<near_sdk::json_types::U128>`:
/// decodes the receiver's reply to `ft_on_transfer`; the result depends on
/// the bytes alone.
#[verifier::external_body]
fn decode_unused_amount(bytes: &Vec<u8>) -> (r: Option<u128>)
    ensures
        r == json_u128_of(bytes@),
{
    match near_sdk::serde_json::from_slice::<near_sdk::json_types::U128>(bytes) {
        Ok(v) => Some(v.0),
        Err(_) => None,
    }
}

/// Moving tokens and moving them back again gives the balances one started from.
proof fn lemma_transfer_undone(m: Map<Seq<char>, nat>, from: Seq<char>, to: Seq<char>, amount: nat)
    requires
        transfer_spec(m, from, to, amount) is Ok,
    ensures
        transfer_spec(transfer_spec(m, from, to, amount)->Ok_0, to, from, amount) == Ok::<
            Map<Seq<char>, nat>,
            FtError,
        >(m),
{
    let m1 = transfer_spec(m, from, to, amount)->Ok_0;
    assert(m1.insert(to, (m1[to] - amount) as nat).insert(from, (m1[from] + amount) as nat)
        =~= m);
}

fn refund_event(from: &String, to: &String, amount: u128) -> (r: TransferEvent)
    ensures
        r.view() == (from@, to@, amount as nat, Some("refund"@)),
{
    let memo = "refund".to_owned();
    proof {
        reveal_strlit("refund");
    }
    TransferEvent { from: from.clone(), to: to.clone(), amount, memo: Some(memo) }
}

/// A move of tokens on the ledger, as it is reported.
#[derive(Debug, PartialEq, Eq)]
pub struct TransferEvent {
    pub from: String,
    pub to: String,
    pub amount: u128,
    pub memo: Option<String>,
}

/// A reported move as plain values: from, to, amount and memo.
pub type EventView = (Seq<char>, Seq<char>, nat, Option<Seq<char>>);

impl TransferEvent {
    /// The move as plain values.
    pub open spec fn view(&self) -> EventView {
        (self.from@, self.to@, self.amount as nat, opt_view(self.memo))
    }
}

/// The moves of a list of events, as plain values.
pub open spec fn event_views(s: Seq<TransferEvent>) -> Seq<EventView> {
    s.map_values(|e: TransferEvent| e.view())
}

/// The fixed memo that tags the corrector's moves.
pub open spec fn fix_memo() -> Seq<char> {
    "Honeypot balance fix"@
}

/// The move that the corrector reports for `a`: none when it takes nothing.
pub open spec fn sweep_events(
    owner: Seq<char>,
    wl: Set<Seq<char>>,
    m: Map<Seq<char>, nat>,
    a: Seq<char>,
) -> Seq<EventView> {
    if sweep_amount(owner, wl, m, a) > 0 {
        seq![(a, owner, sweep_amount(owner, wl, m, a), Some(fix_memo()))]
    } else {
        Seq::empty()
    }
}

/// The moves of a gated transfer that succeeds, in order: the sweep of the
/// sender, the transfer with its memo, the sweep of the receiver.
pub open spec fn ft_transfer_events(
    owner: Seq<char>,
    wl: Set<Seq<char>>,
    m: Map<Seq<char>, nat>,
    sender: Seq<char>,
    receiver: Seq<char>,
    amount: nat,
    memo: Option<Seq<char>>,
) -> Seq<EventView> {
    let m1 = fix_spec(owner, wl, m, sender)->Ok_0;
    let m2 = transfer_spec(m1, sender, receiver, amount)->Ok_0;
    sweep_events(owner, wl, m, sender) + seq![(sender, receiver, amount, memo)] + sweep_events(
        owner,
        wl,
        m2,
        receiver,
    )
}

/// A transfer whose notification is still under way: the resolution step
/// is owed for it.
#[derive(Debug)]
pub struct PendingTransfer {
    pub sender_id: String,
    pub receiver_id: String,
    pub amount: u128,
    /// The moves made on the ledger so far.
    pub events: Vec<TransferEvent>,
}

/// What the resolution step reports.
#[derive(Debug)]
pub struct Resolution {
    /// The amount that stays transferred: the amount less the refund.
    pub used: u128,
    /// The amount taken back from the receiver.
    pub refund: u128,
    /// The refund went to the owner because the sender had left the ledger.
    pub refunded_to_owner: bool,
    /// The moves made on the ledger.
    pub events: Vec<TransferEvent>,
}

/// A token ledger whose non-whitelisted holders are swept to the owner.
pub struct Contract {
    token: Ledger,
    metadata: TokenMetadata,
    owner_id: String,
    whitelist: Whitelist,
}

impl Contract {
    /// The owner's account.
    pub closed spec fn owner(&self) -> Seq<char> {
        self.owner_id@
    }

    /// Accounts that the corrector leaves alone besides the owner.
    pub closed spec fn whitelisted(&self) -> Set<Seq<char>> {
        self.whitelist.members()
    }

    /// Registered accounts and their balances.
    pub closed spec fn balances(&self) -> Map<Seq<char>, nat> {
        self.token.balances()
    }

    /// The total supply.
    pub closed spec fn supply(&self) -> nat {
        self.token.supply()
    }

    /// The sum of all balances.
    pub closed spec fn balance_sum(&self) -> int {
        self.token.balance_sum()
    }

    /// The registered accounts with their balances, each once.
    pub closed spec fn accounts(&self) -> Seq<(Seq<char>, nat)> {
        self.token.accounts()
    }

    /// The ledger and the whitelist are well formed, and the owner is
    /// registered, so that the corrector always has somewhere to send.
    pub closed spec fn wf(&self) -> bool {
        self.token.wf() && self.whitelist.wf() && self.token.balances().contains_key(self.owner_id@)
    }

    /// The token's metadata.
    pub closed spec fn meta(&self) -> TokenMetadata {
        self.metadata
    }

    /// After any sequence of operations the balances add up to the total
    /// supply, and none exceeds it.
    pub proof fn lemma_supply_is_sum(&self)
        requires
            self.wf(),
        ensures
            lists_exactly(self.accounts(), self.balances()),
            self.balance_sum() == pairs_sum(self.accounts()),
            self.balance_sum() == self.supply(),
            self.balances().contains_key(self.owner()),
            forall|a: Seq<char>| #[trigger]
                self.balances().contains_key(a) ==> self.balances()[a] <= self.supply(),
    {
        self.token.lemma_supply_is_sum();
    }

    fn init(owner_id: String, total_supply: u128, metadata: TokenMetadata) -> (r: Self)
        ensures
            r.wf(),
            r.owner() == owner_id@,
            r.whitelisted() == Set::<Seq<char>>::empty(),
            r.balances() == Map::<Seq<char>, nat>::empty().insert(owner_id@, total_supply as nat),
            r.supply() == total_supply,
            r.meta() == metadata,
    {
        let mut token = Ledger::new();
        token.register(owner_id.clone());
        let minted = token.deposit(&owner_id, total_supply);
        assert(minted is Ok);
        Contract { token, metadata, owner_id, whitelist: Whitelist::new() }
    }

    /// A contract whose owner holds the whole supply, with the given metadata;
    /// refused if the metadata is malformed.
    pub fn new(owner_id: String, total_supply: u128, metadata: TokenMetadata) -> (r: Result<
        Self,
        FtError,
    >)
        ensures
            !metadata.valid() ==> r == Err::<Self, FtError>(FtError::InvalidMetadata),
            metadata.valid() ==> r is Ok,
            r matches Ok(c) ==> {
                &&& c.wf()
                &&& c.owner() == owner_id@
                &&& c.whitelisted() == Set::<Seq<char>>::empty()
                &&& c.balances() == Map::<Seq<char>, nat>::empty().insert(
                    owner_id@,
                    total_supply as nat,
                )
                &&& c.supply() == total_supply
                &&& c.meta() == metadata
            },
    {
        if !metadata.is_valid() {
            return Err(FtError::InvalidMetadata);
        }
        Ok(Self::init(owner_id, total_supply, metadata))
    }

    /// A contract whose owner holds the whole supply, with the honeypot
    /// token's metadata.
    pub fn new_default_meta(owner_id: String, total_supply: u128) -> (r: Self)
        ensures
            r.wf(),
            r.owner() == owner_id@,
            r.whitelisted() == Set::<Seq<char>>::empty(),
            r.balances() == Map::<Seq<char>, nat>::empty().insert(owner_id@, total_supply as nat),
            r.supply() == total_supply,
            r.meta().name@ == "Honeypot Token"@,
            r.meta().symbol@ == "HONEY"@,
            r.meta().decimals == 24,
    {
        Self::init(owner_id, total_supply, TokenMetadata::honeypot())
    }

    /// The owner's account.
    pub fn owner_id(&self) -> (r: &String)
        ensures
            r@ == self.owner(),
    {
        &self.owner_id
    }

    /// A copy of the token's metadata.
    pub fn ft_metadata(&self) -> (r: TokenMetadata)
        ensures
            r.spec@ == self.meta().spec@,
            r.name@ == self.meta().name@,
            r.symbol@ == self.meta().symbol@,
            r.decimals == self.meta().decimals,
            opt_view(r.icon) == opt_view(self.meta().icon),
            opt_view(r.reference) == opt_view(self.meta().reference),
            opt_bytes(r.reference_hash) == opt_bytes(self.meta().reference_hash),
    {
        self.metadata.copy()
    }

    /// The total supply.
    pub fn ft_total_supply(&self) -> (r: u128)
        ensures
            r == self.supply(),
    {
        self.token.total_supply()
    }

    /// The balance of `account_id`: zero when it is not registered.
    pub fn ft_balance_of(&self, account_id: &String) -> (r: u128)
        requires
            self.wf(),
        ensures
            r == balance_in(self.balances(), account_id@),
    {
        self.token.balance_of(account_id)
    }

    /// Whether `account_id` has a ledger entry.
    pub fn is_registered(&self, account_id: &String) -> (r: bool)
        requires
            self.wf(),
        ensures
            r == self.balances().contains_key(account_id@),
    {
        self.token.is_registered(account_id)
    }

    /// Whether `account_id` is whitelisted.
    pub fn is_whitelisted(&self, account_id: &String) -> (r: bool)
        ensures
            r == self.whitelisted().contains(account_id@),
    {
        self.whitelist.contains(account_id)
    }

    /// Gives `account_id` a ledger entry with a zero balance, unless it has
    /// one; returns whether it was added.
    pub fn register_account(&mut self, account_id: String) -> (r: bool)
        requires
            old(self).wf(),
        ensures
            final(self).wf(),
            r == !old(self).balances().contains_key(account_id@),
            final(self).balances() == (if r {
                old(self).balances().insert(account_id@, 0)
            } else {
                old(self).balances()
            }),
            final(self).supply() == old(self).supply(),
            final(self).owner() == old(self).owner(),
            final(self).whitelisted() == old(self).whitelisted(),
            final(self).meta() == old(self).meta(),
    {
        self.token.register(account_id)
    }

    /// Removes the ledger entry of `account_id`. The owner's entry stays. One
    /// that holds tokens goes only when `force` is set, and its tokens are
    /// burnt. Returns whether an entry was removed.
    pub fn unregister_account(&mut self, account_id: &String, force: bool) -> (r: Result<
        bool,
        FtError,
    >)
        requires
            old(self).wf(),
        ensures
            final(self).wf(),
            final(self).owner() == old(self).owner(),
            final(self).whitelisted() == old(self).whitelisted(),
            final(self).meta() == old(self).meta(),
            account_id@ == old(self).owner() ==> r == Err::<bool, FtError>(FtError::OwnerAccount)
                && final(self).balances() == old(self).balances() && final(self).supply()
                == old(self).supply(),
            !old(self).balances().contains_key(account_id@) ==> r == Ok::<bool, FtError>(false)
                && final(self).balances() == old(self).balances() && final(self).supply()
                == old(self).supply(),
            account_id@ != old(self).owner() && old(self).balances().contains_key(account_id@)
                && old(self).balances()[account_id@] > 0 && !force ==> r == Err::<bool, FtError>(FtError::PositiveBalance) && final(self).balances() == old(self).balances() && final(self).supply() == old(self).supply(),
            account_id@ != old(self).owner() && old(self).balances().contains_key(account_id@)
                && (old(self).balances()[account_id@] == 0 || force) ==> r == Ok::<bool, FtError>(true) && final(self).balances()
                == old(self).balances().remove(account_id@) && final(self).supply() == old(self).supply() - old(self).balances()[account_id@],
    {
        if *account_id == self.owner_id {
            return Err(FtError::OwnerAccount);
        }
        self.token.unregister(account_id, force)
    }

    fn assert_owner(&self, caller: &String) -> (r: Result<(), FtError>)
        ensures
            r is Ok <==> caller@ == self.owner(),
            r is Err ==> r == Err::<(), FtError>(FtError::Unauthorized),
    {
        if *caller == self.owner_id {
            Ok(())
        } else {
            Err(FtError::Unauthorized)
        }
    }

    /// Whitelists `account_id`; only the owner may.
    pub fn add_to_whitelist(&mut self, caller: &String, account_id: String) -> (r: Result<
        (),
        FtError,
    >)
        requires
            old(self).wf(),
        ensures
            final(self).wf(),
            final(self).owner() == old(self).owner(),
            final(self).balances() == old(self).balances(),
            final(self).supply() == old(self).supply(),
            final(self).meta() == old(self).meta(),
            caller@ != old(self).owner() ==> r == Err::<(), FtError>(FtError::Unauthorized)
                && final(self).whitelisted() == old(self).whitelisted(),
            caller@ == old(self).owner() ==> r is Ok && final(self).whitelisted() == old(self).whitelisted().insert(account_id@),
    {
        match self.assert_owner(caller) {
            Ok(()) => {},
            Err(e) => {
                return Err(e);
            },
        }
        self.whitelist.insert(account_id);
        Ok(())
    }

    /// Takes `account_id` off the whitelist; only the owner may.
    pub fn remove_from_whitelist(&mut self, caller: &String, account_id: &String) -> (r: Result<
        (),
        FtError,
    >)
        requires
            old(self).wf(),
        ensures
            final(self).wf(),
            final(self).owner() == old(self).owner(),
            final(self).balances() == old(self).balances(),
            final(self).supply() == old(self).supply(),
            final(self).meta() == old(self).meta(),
            caller@ != old(self).owner() ==> r == Err::<(), FtError>(FtError::Unauthorized)
                && final(self).whitelisted() == old(self).whitelisted(),
            caller@ == old(self).owner() ==> r is Ok && final(self).whitelisted() == old(self).whitelisted().remove(account_id@),
    {
        match self.assert_owner(caller) {
            Ok(()) => {},
            Err(e) => {
                return Err(e);
            },
        }
        self.whitelist.remove(account_id);
        Ok(())
    }

    /// Teardown, owner only: consumes the contract, ledger and whitelist
    /// with it, and reports the tokens that `contract_id`, the contract's own
    /// account, still held. Any other caller gets the contract back unchanged.
    pub fn teardown(self, caller: &String, contract_id: &String) -> (r: Result<
        u128,
        (Self, FtError),
    >)
        requires
            self.wf(),
        ensures
            caller@ != self.owner() ==> (r matches Err((c, e)) && c == self && e
                == FtError::Unauthorized),
            caller@ == self.owner() ==> r == Ok::<u128, (Self, FtError)>(
                balance_in(self.balances(), contract_id@) as u128,
            ),
    {
        match self.assert_owner(caller) {
            Ok(()) => {},
            Err(e) => {
                return Err((self, e));
            },
        }
        Ok(self.token.balance_of(contract_id))
    }

    /// The corrector: moves the whole balance of `account_id` to the owner
    /// unless it is exempt or empty. Returns the amount moved.
    pub fn apply_balance_fixer(&mut self, account_id: &String) -> (r: Result<u128, FtError>)
        requires
            old(self).wf(),
        ensures
            final(self).wf(),
            final(self).owner() == old(self).owner(),
            final(self).whitelisted() == old(self).whitelisted(),
            final(self).supply() == old(self).supply(),
            final(self).meta() == old(self).meta(),
            r is Ok,
            match fix_spec(
                old(self).owner(),
                old(self).whitelisted(),
                old(self).balances(),
                account_id@,
            ) {
                Ok(m) => (r matches Ok(b) && b == sweep_amount(
                    old(self).owner(),
                    old(self).whitelisted(),
                    old(self).balances(),
                    account_id@,
                )) && final(self).balances() == m,
                Err(e) => r == Err::<u128, FtError>(e) && final(self).balances() == old(self).balances(),
            },
    {
        if *account_id == self.owner_id || self.whitelist.contains(account_id) {
            return Ok(0);
        }
        let balance = self.token.balance_of(account_id);
        if balance == 0 {
            return Ok(0);
        }
        match self.token.transfer(account_id, &self.owner_id, balance) {
            Ok(()) => Ok(balance),
            Err(e) => Err(e),
        }
    }

    /// Gives back to `account_id` the `swept` tokens that the corrector took.
    fn undo_sweep(&mut self, account_id: &String, swept: u128, Ghost(m0): Ghost<Map<Seq<char>, nat>>)
        requires
            old(self).wf(),
            swept == sweep_amount(old(self).owner(), old(self).whitelisted(), m0, account_id@),
            fix_spec(old(self).owner(), old(self).whitelisted(), m0, account_id@) == Ok::<
                Map<Seq<char>, nat>,
                FtError,
            >(old(self).balances()),
        ensures
            final(self).wf(),
            final(self).owner() == old(self).owner(),
            final(self).whitelisted() == old(self).whitelisted(),
            final(self).supply() == old(self).supply(),
            final(self).meta() == old(self).meta(),
            final(self).balances() == m0,
    {
        if swept > 0 {
            proof {
                lemma_transfer_undone(m0, account_id@, self.owner(), swept as nat);
            }
            let _ = self.token.transfer(&self.owner_id, account_id, swept);
        }
    }

    /// A gated transfer of `amount` tokens from `predecessor` to
    /// `receiver_id`: all of it happens, or none of it. Returns the moves
    /// made, the transfer tagged with `memo` and the sweeps with the
    /// corrector's memo, as `ft_transfer_events` lists them.
    pub fn ft_transfer(
        &mut self,
        predecessor: &String,
        receiver_id: &String,
        amount: u128,
        memo: Option<String>,
    ) -> (r: Result<Vec<TransferEvent>, FtError>)
        requires
            old(self).wf(),
        ensures
            final(self).wf(),
            final(self).owner() == old(self).owner(),
            final(self).whitelisted() == old(self).whitelisted(),
            final(self).supply() == old(self).supply(),
            final(self).meta() == old(self).meta(),
            match ft_transfer_spec(
                old(self).owner(),
                old(self).whitelisted(),
                old(self).balances(),
                predecessor@,
                receiver_id@,
                amount as nat,
            ) {
                Ok(m) => (r matches Ok(ev) && event_views(ev@) == ft_transfer_events(
                    old(self).owner(),
                    old(self).whitelisted(),
                    old(self).balances(),
                    predecessor@,
                    receiver_id@,
                    amount as nat,
                    opt_view(memo),
                )) && final(self).balances() == m,
                Err(e) => (r matches Err(e2) && e2 == e) && final(self).balances() == old(
                    self,
                ).balances(),
            },
    {
        if *predecessor == *receiver_id {
            return Err(FtError::SameAccount);
        }
        let ghost m0 = self.balances();
        let swept = match self.apply_balance_fixer(predecessor) {
            Ok(b) => b,
            Err(e) => {
                return Err(e);
            },
        };
        let ghost m1 = self.balances();
        match self.token.transfer(predecessor, receiver_id, amount) {
            Ok(()) => {},
            Err(e) => {
                self.undo_sweep(predecessor, swept, Ghost(m0));
                return Err(e);
            },
        }
        let ghost m2 = self.balances();
        let mut events: Vec<TransferEvent> = Vec::new();
        if swept > 0 {
            events.push(self.sweep_event(predecessor, swept));
        }
        events.push(
            TransferEvent {
                from: predecessor.clone(),
                to: receiver_id.clone(),
                amount,
                memo,
            },
        );
        match self.apply_balance_fixer(receiver_id) {
            Ok(b) => {
                if b > 0 {
                    events.push(self.sweep_event(receiver_id, b));
                }
                assert(event_views(events@) =~= ft_transfer_events(
                    self.owner(),
                    self.whitelisted(),
                    m0,
                    predecessor@,
                    receiver_id@,
                    amount as nat,
                    opt_view(memo),
                ));
                Ok(events)
            },
            Err(e) => {
                proof {
                    lemma_transfer_undone(m1, predecessor@, receiver_id@, amount as nat);
                }
                let _ = self.token.transfer(receiver_id, predecessor, amount);
                self.undo_sweep(predecessor, swept, Ghost(m0));
                Err(e)
            },
        }
    }

    fn sweep_event(&self, account_id: &String, amount: u128) -> (r: TransferEvent)
        ensures
            r.view() == (account_id@, self.owner(), amount as nat, Some(fix_memo())),
    {
        let memo = "Honeypot balance fix".to_owned();
        proof {
            reveal_strlit("Honeypot balance fix");
        }
        TransferEvent { from: account_id.clone(), to: self.owner_id.clone(), amount, memo: Some(memo) }
    }

    /// The first step of a transfer with notification: the same gated
    /// transfer as `ft_transfer`, refused before any change when
    /// `prepaid_gas` cannot pay for the notification and its resolution.
    /// On success the transfer awaits `ft_resolve_transfer`.
    pub fn ft_transfer_call(
        &mut self,
        predecessor: &String,
        receiver_id: &String,
        amount: u128,
        memo: Option<String>,
        prepaid_gas: u64,
    ) -> (r: Result<PendingTransfer, FtError>)
        requires
            old(self).wf(),
        ensures
            final(self).wf(),
            final(self).owner() == old(self).owner(),
            final(self).whitelisted() == old(self).whitelisted(),
            final(self).supply() == old(self).supply(),
            final(self).meta() == old(self).meta(),
            predecessor@ != receiver_id@ && prepaid_gas < GAS_FOR_FT_ON_TRANSFER
                + GAS_FOR_RESOLVE_TRANSFER ==> (r matches Err(FtError::InsufficientGas))
                && final(self).balances() == old(self).balances(),
            predecessor@ == receiver_id@ || prepaid_gas >= GAS_FOR_FT_ON_TRANSFER
                + GAS_FOR_RESOLVE_TRANSFER ==> match ft_transfer_spec(
                old(self).owner(),
                old(self).whitelisted(),
                old(self).balances(),
                predecessor@,
                receiver_id@,
                amount as nat,
            ) {
                Ok(m) => (r matches Ok(p) && p.sender_id@ == predecessor@ && p.receiver_id@
                    == receiver_id@ && p.amount == amount && event_views(p.events@)
                    == ft_transfer_events(
                    old(self).owner(),
                    old(self).whitelisted(),
                    old(self).balances(),
                    predecessor@,
                    receiver_id@,
                    amount as nat,
                    opt_view(memo),
                )) && final(self).balances() == m,
                Err(e) => (r matches Err(e2) && e2 == e) && final(self).balances() == old(self).balances(),
            },
    {
        if *predecessor == *receiver_id {
            return Err(FtError::SameAccount);
        }
        if prepaid_gas < GAS_FOR_FT_ON_TRANSFER + GAS_FOR_RESOLVE_TRANSFER {
            return Err(FtError::InsufficientGas);
        }
        match self.ft_transfer(predecessor, receiver_id, amount, memo) {
            Ok(events) => Ok(
                PendingTransfer {
                    sender_id: predecessor.clone(),
                    receiver_id: receiver_id.clone(),
                    amount,
                    events,
                },
            ),
            Err(e) => Err(e),
        }
    }

    /// The resolution step of a transfer with notification. `outcome` is the
    /// unused amount that the receiver reported, or `None` when the
    /// notification failed. The refund goes back as `refunded_spec` says, the
    /// corrector then runs on the receiver, and the amount that stays
    /// transferred is reported with the refund and whether the refund went
    /// to the owner in place of a sender that left the ledger. It is never
    /// refused and keeps the total supply.
    pub fn ft_resolve_transfer(
        &mut self,
        sender_id: &String,
        receiver_id: &String,
        amount: u128,
        outcome: Option<u128>,
    ) -> (r: Resolution)
        requires
            old(self).wf(),
        ensures
            final(self).wf(),
            final(self).owner() == old(self).owner(),
            final(self).whitelisted() == old(self).whitelisted(),
            final(self).meta() == old(self).meta(),
            resolution_holds(*old(self), *final(self), sender_id@, receiver_id@, amount as nat, outcome, r),
    {
        let unused = match outcome {
            Some(u) => if u < amount {
                u
            } else {
                amount
            },
            None => amount,
        };
        let held = self.token.balance_of(receiver_id);
        let refund = if held < unused {
            held
        } else {
            unused
        };
        let ghost m0 = self.balances();
        let mut to_owner = false;
        let mut events: Vec<TransferEvent> = Vec::new();
        if refund > 0 {
            if self.token.is_registered(sender_id) {
                if *sender_id != *receiver_id {
                    let _ = self.token.transfer(receiver_id, sender_id, refund);
                    events.push(refund_event(receiver_id, sender_id, refund));
                }
            } else {
                to_owner = true;
                if *receiver_id != self.owner_id {
                    let _ = self.token.transfer(receiver_id, &self.owner_id, refund);
                    events.push(refund_event(receiver_id, &self.owner_id, refund));
                }
            }
        }
        if let Ok(b) = self.apply_balance_fixer(receiver_id) {
            if b > 0 {
                events.push(self.sweep_event(receiver_id, b));
            }
        }
        assert(event_views(events@) =~= resolution_events(
            self.owner(),
            self.whitelisted(),
            m0,
            sender_id@,
            receiver_id@,
            refund as nat,
        ));
        Resolution { used: amount - refund, refund, refunded_to_owner: to_owner, events }
    }

    /// The resolution step, fed with the receiver's raw reply: `None` when
    /// the notification failed, else the bytes it returned, which are
    /// decoded as a JSON `U128`; a reply that does not decode counts as a
    /// failure.
    pub fn ft_resolve_transfer_reply(
        &mut self,
        sender_id: &String,
        receiver_id: &String,
        amount: u128,
        reply: Option<Vec<u8>>,
    ) -> (r: Resolution)
        requires
            old(self).wf(),
        ensures
            final(self).wf(),
            final(self).owner() == old(self).owner(),
            final(self).whitelisted() == old(self).whitelisted(),
            final(self).meta() == old(self).meta(),
            resolution_holds(
                *old(self),
                *final(self),
                sender_id@,
                receiver_id@,
                amount as nat,
                reply_outcome(
                    match reply {
                        Some(b) => Some(b@),
                        None => None,
                    },
                ),
                r,
            ),
    {
        let outcome = match &reply {
            Some(b) => decode_unused_amount(b),
            None => None,
        };
        self.ft_resolve_transfer(sender_id, receiver_id, amount, outcome)
    }
}

} // verus!
