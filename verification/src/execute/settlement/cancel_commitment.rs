//! A commitment that has not settled is cancelled, by the general partner
//! or by its limited partner: what was paid in is refunded, and the
//! committed amounts go back to the securities' remainders.

use vstd::prelude::*;
use crate::common::error::ContractError;
use crate::common::messages::{ProvMsg, ProvMsgModel, msgs_model};
use crate::common::response::{Response, attrs_model, events_model};
use crate::common::security::{Coin, SecurityCommitmentModel, coins_model, commitments_model};
use crate::execute::settlement::commitment::CommitmentState;
use crate::storage::{ContractStorage, StorageModel};
use crate::storage::{available_capital, commits, paid_in_capital, remaining_securities, state};
use crate::storage::paid_in_capital::paid_of;

verus! {

/// Puts each amount back on the remainder of its security, in order; an
/// amount whose security is not stored, or whose sum would not fit, is
/// left out.
pub open spec fn add_each(m: Map<Seq<char>, u128>, cs: Seq<SecurityCommitmentModel>) -> Map<Seq<char>, u128>
    decreases cs.len(),
{
    if cs.len() == 0 {
        m
    } else {
        let prev = add_each(m, cs.drop_last());
        let c = cs.last();
        if prev.contains_key(c.name) && prev[c.name] + c.amount <= u128::MAX {
            prev.insert(c.name, (prev[c.name] + c.amount) as u128)
        } else {
            prev
        }
    }
}

/// Whether the limited partner's capital is refunded: it paid something in
/// and has capital available.
pub open spec fn refunds_capital(s: StorageModel, lp: Seq<char>) -> bool {
    paid_of(s, lp).len() > 0 && s.available.contains_key(lp)
}

/// The capital a refund reaches holds a first coin.
pub open spec fn refund_capital_ok(s: StorageModel, lp: Seq<char>) -> bool {
    refunds_capital(s, lp) ==> s.available[lp].len() > 0
}

/// What cancelling leaves stored: the commitment and the paid-in record
/// are gone, the available capital too when it is refunded, and the paid-in
/// amounts are back on the remainders.
pub open spec fn refund_effect(s: StorageModel, lp: Seq<char>) -> StorageModel {
    StorageModel {
        commits: s.commits.remove(lp),
        capital: s.capital.remove(lp),
        available: if refunds_capital(s, lp) {
            s.available.remove(lp)
        } else {
            s.available
        },
        remaining: add_each(s.remaining, paid_of(s, lp)),
        ..s
    }
}

/// The refund sent back to the limited partner: the first coin of its
/// available capital, when refunded and not zero.
pub open spec fn refund_msgs(s: StorageModel, lp: Seq<char>) -> Seq<ProvMsgModel> {
    if refunds_capital(s, lp) && s.available[lp][0].amount != 0 {
        seq![ProvMsgModel::BankSend { to_address: lp, amount: seq![s.available[lp][0]] }]
    } else {
        Seq::empty()
    }
}

/// Removes a limited partner's commitment and paid-in capital, refunds its
/// available capital, and puts the paid-in amounts back on the remainders.
pub fn refund_lp(storage: &mut ContractStorage, commitment_lp: String) -> (r: Result<Vec<ProvMsg>, ContractError>)
    requires
        old(storage).wf(),
        refund_capital_ok(old(storage).model(), commitment_lp@),
    ensures
        final(storage).wf(),
        final(storage).model() == refund_effect(old(storage).model(), commitment_lp@),
        r matches Ok(msgs) && msgs_model(msgs@) == refund_msgs(old(storage).model(), commitment_lp@),
{
    let ghost s = storage.model();
    let ghost lp = commitment_lp@;
    let ghost paid = paid_of(s, lp);
    let mut messages: Vec<ProvMsg> = Vec::new();
    commits::remove(storage, commitment_lp.clone());
    let paid_in_capital = paid_in_capital::get(storage, commitment_lp.clone());
    assert(commitments_model(paid_in_capital@) == paid);
    paid_in_capital::remove(storage, commitment_lp.clone());
    if paid_in_capital.len() != 0 && available_capital::has_lp(storage, commitment_lp.clone()) {
        let removed_capital = available_capital::remove_capital(storage, commitment_lp.clone())?;
        if removed_capital.amount != 0 {
            let ghost coin = removed_capital@;
            let mut amount: Vec<Coin> = Vec::new();
            amount.push(removed_capital);
            assert(coins_model(amount@) =~= seq![coin]);
            messages.push(ProvMsg::BankSend { to_address: commitment_lp.clone(), amount });
        }
    }
    proof {
        assert(msgs_model(messages@) =~= refund_msgs(s, lp));
        assert(storage.model() =~= (StorageModel { remaining: s.remaining, ..refund_effect(s, lp) }));
    }
    let n = paid_in_capital.len();
    for i in 0..n
        invariant
            n == paid_in_capital@.len(),
            paid == commitments_model(paid_in_capital@),
            storage.wf(),
            storage.model() == (StorageModel { remaining: add_each(s.remaining, paid.take(i as int)), ..refund_effect(s, lp) }),
    {
        proof {
            assert(paid.take(i + 1).drop_last() =~= paid.take(i as int));
            assert(paid.take(i + 1).last() == paid[i as int]);
            assert(paid[i as int] == paid_in_capital@[i as int]@);
        }
        remaining_securities::add(storage, paid_in_capital[i].name.clone(), paid_in_capital[i].amount)?;
        proof {
            assert(storage.model() =~= (StorageModel {
                remaining: add_each(s.remaining, paid.take(i + 1)),
                ..refund_effect(s, lp)
            }));
        }
    }
    proof {
        assert(paid.take(n as int) =~= paid);
    }
    Ok(messages)
}

/// What handling the message leaves stored and answers.
pub open spec fn handle_outcome(before: ContractStorage, after: ContractStorage, r: Result<Response, ContractError>, sender: String, commitment_lp: String) -> bool {
    &&& ({
        let s = before.model();
        let lp = commitment_lp@;
        match s.state {
            None => r matches Err(ContractError::Std(_)) && after == before,
            Some(st) => if sender@ != st.gp && sender@ != lp {
                r == Err::<Response, ContractError>(ContractError::Unauthorized {}) && after
                    == before
            } else if !s.commits.contains_key(lp) {
                r matches Err(ContractError::Std(_)) && after == before
            } else if s.commits[lp].state == CommitmentState::SETTLED {
                r == Err::<Response, ContractError>(ContractError::AlreadySettled {}) && after
                    == before
            } else {
                &&& after.model() == refund_effect(s, lp)
                &&& r matches Ok(resp) && msgs_model(resp.messages@) == refund_msgs(s, lp) && attrs_model(
                    resp.attributes@,
                ) == seq![
                    ("action"@, "cancel_commitment"@),
                    ("sender"@, sender@),
                    ("canceled_lp"@, lp),
                ] && events_model(resp.events@).len() == 0 && resp.data is None
            },
        }
    })
}

/// What handling the message asks of the stored values and the arguments.
pub open spec fn handle_admits(before: ContractStorage, sender: String, commitment_lp: String) -> bool {
    let s = before.model();
    let lp = commitment_lp@;
    &&& (s.state matches Some(st) && (sender@ == st.gp || sender@ == lp) && s.commits.contains_key(lp)
        && s.commits[lp].state != CommitmentState::SETTLED) ==> refund_capital_ok(s, lp)
}

/// Cancels a limited partner's commitment that has not settled. Only the
/// general partner or the limited partner itself may.
pub fn handle(storage: &mut ContractStorage, sender: String, commitment_lp: String) -> (r: Result<
    Response,
    ContractError,
>)
    requires
        old(storage).wf(),
        handle_admits(*old(storage), sender, commitment_lp),
    ensures
        final(storage).wf(),
        handle_outcome(*old(storage), *final(storage), r, sender, commitment_lp),
{
    let st = state::get(storage)?;
    if sender != st.gp && sender != commitment_lp {
        return Err(ContractError::Unauthorized {});
    }
    let commit = commits::get(storage, commitment_lp.clone())?;
    if commit.state == CommitmentState::SETTLED {
        return Err(ContractError::AlreadySettled {});
    }
    let refund_messages = refund_lp(storage, commitment_lp.clone())?;
    let mut response = Response::new();
    if refund_messages.len() != 0 {
        response.add_messages(refund_messages);
    } else {
        assert(msgs_model(refund_messages@) =~= msgs_model(response.messages@));
    }
    response.add_attribute("action", "cancel_commitment");
    response.add_attribute("sender", sender.as_str());
    response.add_attribute("canceled_lp", commitment_lp.as_str());
    assert(attrs_model(response.attributes@) =~= seq![
        ("action"@, "cancel_commitment"@),
        ("sender"@, sender@),
        ("canceled_lp"@, commitment_lp@),
    ]);
    Ok(response)
}

/// Whether the stored values and the arguments meet what `handle` asks of
/// them: a cancellation that refunds capital finds a coin in it.
pub fn handle_admitted(storage: &ContractStorage, sender: &String, commitment_lp: &String) -> (b: bool)
    requires
        storage.wf(),
    ensures
        b == handle_admits(*storage, *sender, *commitment_lp),
{
    let allowed = match &storage.state {
        Some(st) => st.gp == *sender || *sender == *commitment_lp,
        None => false,
    };
    if !allowed {
        return true;
    }
    match commits::get(storage, commitment_lp.clone()) {
        Ok(c) => {
            if c.state == CommitmentState::SETTLED {
                return true;
            }
        },
        Err(_) => {
            return true;
        },
    }
    let paid = paid_in_capital::get(storage, commitment_lp.clone());
    if paid.len() == 0 {
        return true;
    }
    match storage.available_capital.get(commitment_lp) {
        Some(coins) => coins.len() > 0,
        None => true,
    }
}

} // verus!
