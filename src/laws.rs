use vstd::prelude::*;

use crate::contract::{fix_spec, ft_transfer_spec, sweep_amount, Contract};
use crate::error::FtError;
use crate::ledger::balance_in;

verus! {

/// In a well-formed contract the balances add up to the total supply, and
/// every account's balance lies between zero and the total supply.
pub proof fn lemma_balances_within_supply(c: &Contract, a: Seq<char>)
    requires
        c.wf(),
    ensures
        c.balance_sum() == c.supply(),
        0 <= balance_in(c.balances(), a) <= c.supply(),
{
    c.lemma_supply_is_sum();
}

/// A transfer from an account to itself is refused as `SameAccount`,
/// whatever the amount and whatever the balances and the whitelist.
pub proof fn lemma_self_transfer_refused(
    owner: Seq<char>,
    wl: Set<Seq<char>>,
    m: Map<Seq<char>, nat>,
    x: Seq<char>,
    n: nat,
)
    requires
        n > 0,
    ensures
        ft_transfer_spec(owner, wl, m, x, x, n) == Err::<Map<Seq<char>, nat>, FtError>(
            FtError::SameAccount,
        ),
{
}

/// In a well-formed contract the corrector is never refused: a swept
/// account ends with exactly zero, the owner gains exactly what it lost,
/// and every other balance stays.
pub proof fn lemma_fixer_never_refused(c: &Contract, a: Seq<char>)
    requires
        c.wf(),
    ensures
        fix_spec(c.owner(), c.whitelisted(), c.balances(), a) is Ok,
        sweep_amount(c.owner(), c.whitelisted(), c.balances(), a) > 0 ==> fix_spec(
            c.owner(),
            c.whitelisted(),
            c.balances(),
            a,
        )->Ok_0 == c.balances().insert(a, 0).insert(
            c.owner(),
            c.balances()[c.owner()] + c.balances()[a],
        ),
{
    c.lemma_supply_is_sum();
}

/// The corrector on an account without tokens changes nothing.
pub proof fn lemma_fixer_noop_when_empty(
    owner: Seq<char>,
    wl: Set<Seq<char>>,
    m: Map<Seq<char>, nat>,
    a: Seq<char>,
)
    requires
        balance_in(m, a) == 0,
    ensures
        fix_spec(owner, wl, m, a) == Ok::<Map<Seq<char>, nat>, FtError>(m),
{
}

/// Running the corrector again on an account it has just handled changes
/// nothing: a swept account is left empty.
pub proof fn lemma_fixer_idempotent(
    owner: Seq<char>,
    wl: Set<Seq<char>>,
    m: Map<Seq<char>, nat>,
    a: Seq<char>,
)
    requires
        fix_spec(owner, wl, m, a) is Ok,
    ensures
        sweep_amount(owner, wl, fix_spec(owner, wl, m, a)->Ok_0, a) == 0,
        fix_spec(owner, wl, fix_spec(owner, wl, m, a)->Ok_0, a) == fix_spec(owner, wl, m, a),
{
}

/// Whitelisting `n`, transferring to it, taking it off the whitelist and
/// transferring again: after the first transfer `n` keeps what it received;
/// after the second the corrector returns everything `n` holds to the owner.
pub proof fn lemma_whitelist_round_trip(
    owner: Seq<char>,
    wl: Set<Seq<char>>,
    m: Map<Seq<char>, nat>,
    n: Seq<char>,
    first: nat,
    second: nat,
)
    requires
        m.contains_key(owner),
        m.contains_key(n),
        n != owner,
        first > 0,
        second > 0,
        m[owner] >= first + second,
    ensures
        ({
            let m1 = ft_transfer_spec(owner, wl.insert(n), m, owner, n, first);
            let m2 = ft_transfer_spec(owner, wl.insert(n).remove(n), m1->Ok_0, owner, n, second);
            &&& m1 is Ok
            &&& m1->Ok_0[n] == m[n] + first
            &&& m1->Ok_0[owner] == m[owner] - first
            &&& m2 is Ok
            &&& m2->Ok_0[n] == 0
            &&& m2->Ok_0[owner] == m[owner] + m[n]
        }),
{
    let m1 = ft_transfer_spec(owner, wl.insert(n), m, owner, n, first)->Ok_0;
    assert(m1[n] == m[n] + first);
    assert(m1[owner] == m[owner] - first);
    assert(!wl.insert(n).remove(n).contains(n));
}

} // verus!
