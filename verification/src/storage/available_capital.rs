//! Capital deposited by each limited partner and not yet paid out.

use vstd::prelude::*;
use crate::common::error::{ContractError, not_found};
use crate::common::search::{first_index, lemma_first_index_is};
use crate::common::security::{Coin, CoinModel, clone_coins, coins_model, strings_model};
use crate::storage::ContractStorage;
use crate::storage::keyed_map::entries_keys;

verus! {

/// Position of the first coin of the same denomination.
pub open spec fn same_denom_index(s: Seq<CoinModel>, denom: Seq<char>) -> int {
    first_index(s, |c: CoinModel| c.denom == denom)
}

/// Adding a coin to the first coin of its denomination stays within bounds.
pub open spec fn coin_fits(s: Seq<CoinModel>, c: CoinModel) -> bool {
    let i = same_denom_index(s, c.denom);
    i < s.len() ==> s[i].amount + c.amount <= u128::MAX
}

/// Adds a coin's amount to the first coin of its denomination, if any.
pub open spec fn add_coin(s: Seq<CoinModel>, c: CoinModel) -> Seq<CoinModel> {
    let i = same_denom_index(s, c.denom);
    if i < s.len() {
        s.update(i, CoinModel { denom: s[i].denom, amount: (s[i].amount + c.amount) as u128 })
    } else {
        s
    }
}

/// Adds every fund in turn.
pub open spec fn add_coins(s: Seq<CoinModel>, funds: Seq<CoinModel>) -> Seq<CoinModel>
    decreases funds.len(),
{
    if funds.len() == 0 {
        s
    } else {
        add_coin(add_coins(s, funds.drop_last()), funds.last())
    }
}

/// Every addition of `add_coins` stays within bounds.
pub open spec fn add_coins_fits(s: Seq<CoinModel>, funds: Seq<CoinModel>) -> bool {
    forall|k: int| 0 <= k < funds.len() ==> coin_fits(add_coins(s, funds.take(k)), #[trigger] funds[k])
}

/// What adding funds to a limited partner's capital stores: the funds
/// themselves for a new limited partner, else the funds added coin by coin.
pub open spec fn capital_after(storage: ContractStorage, lp: Seq<char>, funds: Seq<CoinModel>) -> Seq<
    CoinModel,
> {
    if storage.available_model().contains_key(lp) {
        add_coins(storage.available_model()[lp], funds)
    } else {
        funds
    }
}

/// Adds a coin's amount to the first coin of the same denomination; coins of
/// other denominations are left as they are.
pub fn add_to_capital(new_coin: &Coin, capital: &mut Vec<Coin>)
    requires
        coin_fits(coins_model(old(capital)@), new_coin@),
    ensures
        coins_model(final(capital)@) == add_coin(coins_model(old(capital)@), new_coin@),
{
    let ghost s = coins_model(capital@);
    let ghost p = |c: CoinModel| c.denom == new_coin@.denom;
    let n = capital.len();
    let mut i: usize = 0;
    while i < n
        invariant
            n == capital@.len(),
            p == (|c: CoinModel| c.denom == new_coin@.denom),
            coin_fits(coins_model(old(capital)@), new_coin@),
            s == coins_model(capital@),
            capital@ == old(capital)@,
            i <= n,
            forall|j: int| 0 <= j < i ==> !p(#[trigger] s[j]),
        decreases n - i,
    {
        assert(s[i as int] == capital@[i as int]@);
        if capital[i].denom == new_coin.denom {
            proof {
                assert(p(s[i as int]));
                lemma_first_index_is(s, p, i as int);
                assert(same_denom_index(s, new_coin@.denom) == i);
            }
            let denom = capital[i].denom.clone();
            let amount = capital[i].amount + new_coin.amount;
            capital.set(i, Coin { denom, amount });
            assert(coins_model(capital@) =~= add_coin(s, new_coin@));
            return;
        }
        assert(!p(s[i as int]));
        i = i + 1;
    }
    proof {
        lemma_first_index_is(s, p, n as int);
    }
}

/// Adds funds to a limited partner's available capital.
pub fn add_capital(storage: &mut ContractStorage, lp: String, funds: Vec<Coin>) -> (r: Result<
    (),
    ContractError,
>)
    requires
        old(storage).wf(),
        old(storage).available_model().contains_key(lp@) ==> add_coins_fits(
            old(storage).available_model()[lp@],
            coins_model(funds@),
        ),
    ensures
        r is Ok,
        final(storage).wf(),
        final(storage).available_model() == old(storage).available_model().insert(
            lp@,
            capital_after(*old(storage), lp@, coins_model(funds@)),
        ),
        *final(storage) == (ContractStorage {
            available_capital: final(storage).available_capital,
            ..*old(storage)
        }),
{
    let ghost f = coins_model(funds@);
    let ghost key = lp@;
    let updated = match storage.available_capital.get(&lp) {
        None => funds,
        Some(existing) => {
            let ghost v0 = coins_model(existing@);
            let mut available_capital = clone_coins(existing);
            for k in 0..funds.len()
                invariant
                    f == coins_model(funds@),
                    add_coins_fits(v0, f),
                    coins_model(available_capital@) == add_coins(v0, f.take(k as int)),
            {
                proof {
                    assert(f.take(k + 1).drop_last() =~= f.take(k as int));
                    assert(f.take(k + 1).last() == f[k as int]);
                    assert(coin_fits(add_coins(v0, f.take(k as int)), f[k as int]));
                }
                add_to_capital(&funds[k], &mut available_capital);
            }
            assert(f.take(funds@.len() as int) =~= f);
            available_capital
        },
    };
    let ghost stored = coins_model(updated@);
    assert(stored == capital_after(*old(storage), key, f));
    storage.available_capital.insert(lp, updated);
    assert(storage.available_model() =~= old(storage).available_model().insert(key, stored));
    Ok(())
}

/// Reads a limited partner's available capital.
pub fn get_capital(storage: &ContractStorage, lp: String) -> (r: Result<Vec<Coin>, ContractError>)
    requires
        storage.wf(),
    ensures
        storage.available_model().contains_key(lp@) ==> (r matches Ok(v) && coins_model(v@)
            == storage.available_model()[lp@]),
        !storage.available_model().contains_key(lp@) ==> r matches Err(ContractError::Std(_)),
{
    match storage.available_capital.get(&lp) {
        Some(v) => Ok(clone_coins(v)),
        None => Err(not_found("Vec<Coin>")),
    }
}

/// The limited partners with available capital, in ascending order.
pub fn get_lps(storage: &ContractStorage) -> (r: Result<Vec<String>, ContractError>)
    requires
        storage.wf(),
    ensures
        r matches Ok(v) && strings_model(v@) == entries_keys(storage.available_capital@),
{
    let mut r: Vec<String> = Vec::new();
    let n = storage.available_capital.len();
    for i in 0..n
        invariant
            n == storage.available_capital@.len(),
            r@.len() == i,
            forall|j: int| 0 <= j < i ==> #[trigger] r@[j]@ == storage.available_capital@[j].0,
    {
        r.push(storage.available_capital.key_at(i).clone());
    }
    assert(strings_model(r@) =~= entries_keys(storage.available_capital@));
    Ok(r)
}

/// Takes a limited partner's available capital out of storage and answers
/// its first coin.
pub fn remove_capital(storage: &mut ContractStorage, lp: String) -> (r: Result<Coin, ContractError>)
    requires
        old(storage).wf(),
        old(storage).available_model().contains_key(lp@) ==> old(storage).available_model()[lp@].len() > 0,
    ensures
        final(storage).wf(),
        old(storage).available_model().contains_key(lp@) ==> {
            &&& r matches Ok(c) && c@ == old(storage).available_model()[lp@][0]
            &&& final(storage).available_model() == old(storage).available_model().remove(lp@)
            &&& *final(storage) == (ContractStorage {
                available_capital: final(storage).available_capital,
                ..*old(storage)
            })
        },
        !old(storage).available_model().contains_key(lp@) ==> (r matches Err(ContractError::Std(_))
            && *final(storage) == *old(storage)),
{
    let first = match storage.available_capital.get(&lp) {
        None => return Err(not_found("Vec<Coin>")),
        Some(v) => {
            assert(coins_model(v@).len() > 0);
            assert(coins_model(v@)[0] == v@[0]@);
            v[0].clone()
        },
    };
    storage.available_capital.remove(&lp);
    assert(storage.available_model() =~= old(storage).available_model().remove(lp@));
    Ok(first)
}

/// Whether a limited partner has available capital stored.
pub fn has_lp(storage: &ContractStorage, lp: String) -> (b: bool)
    requires
        storage.wf(),
    ensures
        b == storage.available_model().contains_key(lp@),
{
    storage.available_capital.contains(&lp)
}

} // verus!
