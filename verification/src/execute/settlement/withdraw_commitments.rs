//! The general partner collects the available capital of every limited
//! partner at once; commitments that are paid in full are settled on the
//! way, and their investment tokens are sent.

use vstd::prelude::*;
use crate::common::error::{ContractError, StdError};
use crate::common::messages::{ProvMsg, ProvMsgModel, msgs_model};
use crate::common::response::{Response, attrs_model, events_model};
use crate::common::security::{Coin, CoinModel, coins_model};
use crate::execute::settlement::commitment::CommitmentState;
use crate::storage::{ContractStorage, StorageModel};
use crate::storage::{available_capital, commits, state};
use crate::storage::keyed_map::entries_keys;
use crate::util::settlement::is_settling;
use crate::execute::settlement::withdraw_commitment::{
    investment_msgs, settled, settles, tokens_refusal, transfer_investment_tokens,
};

verus! {

/// Collecting from a limited partner succeeds: its commitment and capital
/// are stored, and a commitment ready to settle has tokens that can be sent.
pub open spec fn collect_ok(s: StorageModel, lp: Seq<char>, contract: Seq<char>) -> bool {
    &&& s.commits.contains_key(lp)
    &&& s.available.contains_key(lp)
    &&& (settles(s, s.commits[lp]) ==> tokens_refusal(s.commits[lp].commitments, lp, contract) is None)
}

/// The refusal given when collecting from a limited partner fails.
pub open spec fn collect_error(s: StorageModel, lp: Seq<char>, contract: Seq<char>, e: ContractError) -> bool {
    if !s.commits.contains_key(lp) || !s.available.contains_key(lp) {
        e is Std
    } else {
        match tokens_refusal(s.commits[lp].commitments, lp, contract) {
            Some(text) => e matches ContractError::Std(StdError::GenericErr { msg }) && msg@ == text,
            None => false,
        }
    }
}

/// What collecting from a limited partner leaves stored: its capital is
/// taken out, and a commitment ready to settle is settled when its tokens
/// can be sent.
pub open spec fn collect_effect(s: StorageModel, lp: Seq<char>, contract: Seq<char>) -> StorageModel {
    if !s.commits.contains_key(lp) || !s.available.contains_key(lp) {
        s
    } else {
        let removed = StorageModel { available: s.available.remove(lp), ..s };
        if settles(s, s.commits[lp]) && tokens_refusal(s.commits[lp].commitments, lp, contract) is None {
            StorageModel { commits: s.commits.insert(lp, settled(s.commits[lp])), ..removed }
        } else {
            removed
        }
    }
}

/// The token messages of a collection: those of a commitment ready to
/// settle, else none.
pub open spec fn collect_msgs(s: StorageModel, lp: Seq<char>, contract: Seq<char>) -> Seq<ProvMsgModel> {
    if settles(s, s.commits[lp]) {
        investment_msgs(s.commits[lp].commitments, lp, contract)
    } else {
        Seq::empty()
    }
}

/// Collects from each limited partner in turn and stops at the first that
/// fails. Answers what is stored then, the token messages, the capital
/// collected, and whether every collection succeeded.
pub open spec fn collect_each(s: StorageModel, lps: Seq<Seq<char>>, contract: Seq<char>) -> (
    StorageModel,
    Seq<ProvMsgModel>,
    int,
    bool,
)
    decreases lps.len(),
{
    if lps.len() == 0 {
        (s, Seq::empty(), 0, true)
    } else {
        let prev = collect_each(s, lps.drop_last(), contract);
        let lp = lps.last();
        if !prev.3 {
            prev
        } else if collect_ok(prev.0, lp, contract) {
            (
                collect_effect(prev.0, lp, contract),
                prev.1 + collect_msgs(prev.0, lp, contract),
                prev.2 + prev.0.available[lp][0].amount,
                true,
            )
        } else {
            (collect_effect(prev.0, lp, contract), prev.1, prev.2, false)
        }
    }
}

/// Every collection that is attempted and reaches capital finds a first
/// coin in it.
pub open spec fn collect_admits(s: StorageModel, lps: Seq<Seq<char>>, contract: Seq<char>) -> bool
    decreases lps.len(),
{
    if lps.len() == 0 {
        true
    } else {
        let prev = collect_each(s, lps.drop_last(), contract);
        let lp = lps.last();
        &&& collect_admits(s, lps.drop_last(), contract)
        &&& (prev.3 && prev.0.commits.contains_key(lp) && prev.0.available.contains_key(lp)
            ==> prev.0.available[lp].len() > 0)
    }
}

/// What the collections ask holds of each prefix of the limited partners.
pub proof fn lemma_collect_admits_prefix(s: StorageModel, lps: Seq<Seq<char>>, contract: Seq<char>, j: int)
    requires
        0 <= j <= lps.len(),
        collect_admits(s, lps, contract),
    ensures
        collect_admits(s, lps.take(j), contract),
    decreases lps.len(),
{
    if j == lps.len() {
        assert(lps.take(j) =~= lps);
    } else {
        assert(lps.drop_last().take(j) =~= lps.take(j));
        lemma_collect_admits_prefix(s, lps.drop_last(), contract, j);
    }
}

/// Once a collection has failed, the later ones are not attempted.
pub proof fn lemma_collect_each_stops(s: StorageModel, lps: Seq<Seq<char>>, contract: Seq<char>, j: int)
    requires
        0 <= j <= lps.len(),
        !collect_each(s, lps.take(j), contract).3,
    ensures
        collect_each(s, lps, contract) == collect_each(s, lps.take(j), contract),
    decreases lps.len(),
{
    if j == lps.len() {
        assert(lps.take(j) =~= lps);
    } else {
        assert(lps.drop_last().take(j) =~= lps.take(j));
        lemma_collect_each_stops(s, lps.drop_last(), contract, j);
    }
}

/// The capital collected is never negative.
pub proof fn lemma_collect_each_total_nonneg(s: StorageModel, lps: Seq<Seq<char>>, contract: Seq<char>)
    ensures
        0 <= collect_each(s, lps, contract).2,
    decreases lps.len(),
{
    if lps.len() > 0 {
        lemma_collect_each_total_nonneg(s, lps.drop_last(), contract);
    }
}

/// The capital collected only grows along the limited partners.
pub proof fn lemma_collect_each_total_grows(s: StorageModel, lps: Seq<Seq<char>>, contract: Seq<char>, j: int)
    requires
        0 <= j <= lps.len(),
    ensures
        0 <= collect_each(s, lps.take(j), contract).2 <= collect_each(s, lps, contract).2,
    decreases lps.len(),
{
    lemma_collect_each_total_nonneg(s, lps.take(j), contract);
    if j == lps.len() {
        assert(lps.take(j) =~= lps);
    } else {
        assert(lps.drop_last().take(j) =~= lps.take(j));
        lemma_collect_each_total_grows(s, lps.drop_last(), contract, j);
    }
}

/// Takes a limited partner's capital out of storage, and settles its
/// commitment if it is paid in full. Answers the token messages and the
/// amount of the capital's first coin.
pub fn process_withdraw(storage: &mut ContractStorage, lp: &String, contract: &String) -> (r: Result<
    (Vec<ProvMsg>, u128),
    ContractError,
>)
    requires
        old(storage).wf(),
        old(storage).commits_model().contains_key(lp@) && old(storage).available_model().contains_key(lp@)
            ==> old(storage).available_model()[lp@].len() > 0,
    ensures
        final(storage).wf(),
        ({
            let s = old(storage).model();
            &&& final(storage).model() == collect_effect(s, lp@, contract@)
            &&& (r is Ok <==> collect_ok(s, lp@, contract@))
            &&& (r matches Ok(out) ==> msgs_model(out.0@) == collect_msgs(s, lp@, contract@) && out.1
                == s.available[lp@][0].amount)
            &&& (r matches Err(e) ==> collect_error(s, lp@, contract@, e))
        }),
{
    let ghost s = storage.model();
    let mut commitment = commits::get(storage, lp.clone())?;
    let capital = available_capital::remove_capital(storage, lp.clone())?;
    let ghost removed = StorageModel { available: s.available.remove(lp@), ..s };
    proof {
        assert(storage.model() =~= removed);
    }
    let mut messages: Vec<ProvMsg> = Vec::new();
    if is_settling(storage, &commitment) {
        commitment.state = CommitmentState::SETTLED;
        messages = transfer_investment_tokens(&commitment, contract)?;
    } else {
        assert(msgs_model(messages@) =~= Seq::<ProvMsgModel>::empty());
    }
    commits::set(storage, &commitment)?;
    proof {
        assert(storage.model() =~= collect_effect(s, lp@, contract@));
    }
    Ok((messages, capital.amount))
}

/// Collects the capital of every limited partner, in ascending order of
/// address, and sends its total to the general partner.
pub fn withdraw_commitments(storage: &mut ContractStorage, contract: &String, sender: String, capital_denom: String) -> (r:
    Result<Response, ContractError>)
    requires
        old(storage).wf(),
        collect_admits(old(storage).model(), entries_keys(old(storage).available_capital@), contract@),
        collect_each(
            old(storage).model(),
            entries_keys(old(storage).available_capital@),
            contract@,
        ).2 <= u128::MAX,
    ensures
        final(storage).wf(),
        ({
            let lps = entries_keys(old(storage).available_capital@);
            let outcome = collect_each(old(storage).model(), lps, contract@);
            &&& final(storage).model() == outcome.0
            &&& (r is Ok <==> outcome.3)
            &&& (r matches Ok(resp) ==> {
                &&& msgs_model(resp.messages@) == (if outcome.2 == 0 {
                    Seq::empty()
                } else {
                    seq![
                        ProvMsgModel::BankSend {
                            to_address: sender@,
                            amount: seq![CoinModel { denom: capital_denom@, amount: outcome.2 as u128 }],
                        },
                    ]
                }) + outcome.1
                &&& attrs_model(resp.attributes@).len() == 0
                &&& events_model(resp.events@).len() == 0
                &&& resp.data is None
            })
            &&& (r matches Err(e) ==> exists|k: int|
                0 <= k < lps.len() && #[trigger] collect_each(old(storage).model(), lps.take(k), contract@).3
                    && collect_error(collect_each(old(storage).model(), lps.take(k), contract@).0, lps[k], contract@, e))
        }),
{
    let ghost s0 = storage.model();
    let lps = available_capital::get_lps(storage)?;
    let ghost keys = entries_keys(old(storage).available_capital@);
    let mut messages: Vec<ProvMsg> = Vec::new();
    let mut send_amount: u128 = 0;
    for i in 0..lps.len()
        invariant
            s0 == old(storage).model(),
            keys == entries_keys(old(storage).available_capital@),
            crate::common::security::strings_model(lps@) == keys,
            collect_each(s0, keys, contract@).2 <= u128::MAX,
            storage.wf(),
            collect_admits(s0, keys, contract@),
            storage.model() == collect_each(s0, keys.take(i as int), contract@).0,
            collect_each(s0, keys.take(i as int), contract@).3,
            msgs_model(messages@) == collect_each(s0, keys.take(i as int), contract@).1,
            send_amount == collect_each(s0, keys.take(i as int), contract@).2,
    {
        proof {
            assert(keys.take(i + 1).drop_last() =~= keys.take(i as int));
            assert(keys.take(i + 1).last() == keys[i as int]);
            assert(keys[i as int] == lps@[i as int]@);
            lemma_collect_admits_prefix(s0, keys, contract@, i + 1);
        }
        let withdraw = match process_withdraw(storage, &lps[i], contract) {
            Ok(w) => w,
            Err(e) => {
                proof {
                    lemma_collect_each_stops(s0, keys, contract@, i + 1);
                }
                return Err(e);
            },
        };
        proof {
            lemma_collect_each_total_grows(s0, keys, contract@, i + 1);
        }
        let (mut batch, amount) = withdraw;
        let ghost before = msgs_model(messages@);
        let ghost added = msgs_model(batch@);
        messages.append(&mut batch);
        assert(msgs_model(messages@) =~= before + added);
        send_amount = send_amount + amount;
    }
    proof {
        assert(keys.take(lps@.len() as int) =~= keys);
    }
    let mut response = Response::new();
    let ghost to = sender@;
    let ghost denom = capital_denom@;
    if send_amount != 0 {
        let mut amount: Vec<Coin> = Vec::new();
        amount.push(Coin { denom: capital_denom, amount: send_amount });
        assert(coins_model(amount@) =~= seq![CoinModel { denom, amount: send_amount }]);
        let mut sends: Vec<ProvMsg> = Vec::new();
        sends.push(ProvMsg::BankSend { to_address: sender, amount });
        assert(msgs_model(sends@) =~= seq![
            ProvMsgModel::BankSend { to_address: to, amount: seq![CoinModel { denom, amount: send_amount }] },
        ]);
        response.add_messages(sends);
    }
    let ghost front = msgs_model(response.messages@);
    response.add_messages(messages);
    proof {
        let outcome = collect_each(s0, keys, contract@);
        assert(front =~= (if outcome.2 == 0 {
            Seq::empty()
        } else {
            seq![
                ProvMsgModel::BankSend {
                    to_address: sender@,
                    amount: seq![CoinModel { denom: capital_denom@, amount: outcome.2 as u128 }],
                },
            ]
        }));
    }
    Ok(response)
}

/// The general partner collects the capital of every limited partner.
pub fn handle(storage: &mut ContractStorage, contract_address: String, sender: String) -> (r: Result<
    Response,
    ContractError,
>)
    requires
        old(storage).wf(),
        collect_admits(old(storage).model(), entries_keys(old(storage).available_capital@), contract_address@),
        collect_each(
            old(storage).model(),
            entries_keys(old(storage).available_capital@),
            contract_address@,
        ).2 <= u128::MAX,
    ensures
        final(storage).wf(),
        match old(storage).state {
            None => r matches Err(ContractError::Std(_)) && *final(storage) == *old(storage),
            Some(st) => if sender@ != st.gp@ {
                r == Err::<Response, ContractError>(ContractError::Unauthorized {}) && *final(storage)
                    == *old(storage)
            } else {
                let lps = entries_keys(old(storage).available_capital@);
                let outcome = collect_each(old(storage).model(), lps, contract_address@);
                &&& final(storage).model() == outcome.0
                &&& (r is Ok <==> outcome.3)
                &&& (r matches Ok(resp) ==> msgs_model(resp.messages@) == (if outcome.2 == 0 {
                    Seq::empty()
                } else {
                    seq![
                        ProvMsgModel::BankSend {
                            to_address: sender@,
                            amount: seq![CoinModel { denom: st.capital_denom@, amount: outcome.2 as u128 }],
                        },
                    ]
                }) + outcome.1 && attrs_model(resp.attributes@).len() == 0 && events_model(resp.events@).len()
                    == 0)
                &&& (r matches Err(e) ==> exists|k: int|
                    0 <= k < lps.len() && #[trigger] collect_each(old(storage).model(), lps.take(k), contract_address@).3
                        && collect_error(
                        collect_each(old(storage).model(), lps.take(k), contract_address@).0,
                        lps[k],
                        contract_address@,
                        e,
                    ))
            },
        },
{
    let st = state::get(storage)?;
    if sender != st.gp {
        return Err(ContractError::Unauthorized {});
    }
    withdraw_commitments(storage, &contract_address, sender, st.capital_denom)
}

} // verus!
