//! The general partner settles a limited partner's commitment once it is
//! fully paid in: investment tokens are minted and sent to the limited
//! partner, and its capital is paid out to the general partner.

use vstd::prelude::*;
use crate::common::error::{ContractError, StdError};
use crate::common::messages::{ProvMsg, ProvMsgModel, msgs_model};
use crate::common::response::{Event, EventModel, Response, attrs_model, events_model};
use crate::common::security::{CoinModel, SecurityCommitmentModel};
use crate::execute::settlement::commitment::{Commitment, CommitmentModel, CommitmentState};
use crate::storage::{ContractStorage, StorageModel};
use crate::storage::{available_capital, commits, state};
use crate::storage::paid_in_capital::paid_of;
use crate::util::provenance_utilities::{
    blank, blank_param_text, mint_marker_supply, transfer_marker_coins, withdraw_coins,
};
use crate::util::settlement::{date_expired, is_expired, is_settling};
use crate::util::to::{investment_name, security_to_investment_name};

verus! {

/// The messages that mint the investment tokens of one security and send
/// them to the limited partner.
pub open spec fn token_msgs(c: SecurityCommitmentModel, lp: Seq<char>, contract: Seq<char>) -> Seq<ProvMsgModel> {
    let name = investment_name(c.name, contract);
    seq![
        ProvMsgModel::Mint { amount: CoinModel { denom: name, amount: c.amount }, administrator: contract },
        ProvMsgModel::Withdraw {
            denom: name,
            administrator: contract,
            to_address: lp,
            amount: seq![CoinModel { denom: name, amount: c.amount }],
        },
    ]
}

/// The token messages of each security in turn.
pub open spec fn investment_msgs(cs: Seq<SecurityCommitmentModel>, lp: Seq<char>, contract: Seq<char>) -> Seq<
    ProvMsgModel,
>
    decreases cs.len(),
{
    if cs.len() == 0 {
        Seq::empty()
    } else {
        investment_msgs(cs.drop_last(), lp, contract) + token_msgs(cs.last(), lp, contract)
    }
}

/// Why the token messages of one security cannot be built, if they cannot:
/// nothing to mint, a blank token name, or a blank address.
pub open spec fn token_refusal(c: SecurityCommitmentModel, lp: Seq<char>, contract: Seq<char>) -> Option<Seq<char>> {
    let name = investment_name(c.name, contract);
    if c.amount == 0 {
        Some("mint amount must be > 0"@)
    } else if blank(name) {
        Some(blank_param_text("denom"@))
    } else if blank(contract) || blank(lp) {
        Some("address must not be empty"@)
    } else {
        None
    }
}

/// The first refusal among the securities in turn, if any.
pub open spec fn tokens_refusal(cs: Seq<SecurityCommitmentModel>, lp: Seq<char>, contract: Seq<char>) -> Option<
    Seq<char>,
>
    decreases cs.len(),
{
    if cs.len() == 0 {
        None
    } else {
        let prev = tokens_refusal(cs.drop_last(), lp, contract);
        if prev is Some {
            prev
        } else {
            token_refusal(cs.last(), lp, contract)
        }
    }
}

/// Once a security's tokens have been refused, the refusal stands.
pub proof fn lemma_tokens_refusal_stays(cs: Seq<SecurityCommitmentModel>, lp: Seq<char>, contract: Seq<char>, j: int)
    requires
        0 <= j <= cs.len(),
        tokens_refusal(cs.take(j), lp, contract) is Some,
    ensures
        tokens_refusal(cs, lp, contract) == tokens_refusal(cs.take(j), lp, contract),
    decreases cs.len(),
{
    if j == cs.len() {
        assert(cs.take(j) =~= cs);
    } else {
        assert(cs.drop_last().take(j) =~= cs.take(j));
        lemma_tokens_refusal_stays(cs.drop_last(), lp, contract, j);
    }
}

/// Mints the investment tokens of each committed security and sends them
/// to the limited partner.
pub fn transfer_investment_tokens(commitment: &Commitment, contract: &String) -> (r: Result<
    Vec<ProvMsg>,
    ContractError,
>)
    ensures
        match tokens_refusal(commitment@.commitments, commitment.lp@, contract@) {
            None => r matches Ok(msgs) && msgs_model(msgs@) == investment_msgs(
                commitment@.commitments,
                commitment.lp@,
                contract@,
            ),
            Some(text) => r matches Err(ContractError::Std(StdError::GenericErr { msg })) && msg@ == text,
        },
{
    let ghost cs = commitment@.commitments;
    let ghost lp = commitment.lp@;
    let mut messages: Vec<ProvMsg> = Vec::new();
    for i in 0..commitment.commitments.len()
        invariant
            cs == commitment@.commitments,
            lp == commitment.lp@,
            tokens_refusal(cs.take(i as int), lp, contract@) is None,
            msgs_model(messages@) == investment_msgs(cs.take(i as int), lp, contract@),
    {
        proof {
            assert(cs.take(i + 1).drop_last() =~= cs.take(i as int));
            assert(cs.take(i + 1).last() == cs[i as int]);
            assert(cs[i as int] == commitment.commitments@[i as int]@);
        }
        let security = &commitment.commitments[i];
        let name = security_to_investment_name(&security.name, contract);
        let mint_msg = match mint_marker_supply(security.amount, name.clone(), contract.clone()) {
            Ok(m) => m,
            Err(e) => {
                proof {
                    lemma_tokens_refusal_stays(cs, lp, contract@, i + 1);
                }
                return Err(ContractError::Std(e));
            },
        };
        let withdraw_msg = match withdraw_coins(
            name.clone(),
            security.amount,
            name,
            commitment.lp.clone(),
            contract.clone(),
        ) {
            Ok(m) => m,
            Err(e) => {
                proof {
                    lemma_tokens_refusal_stays(cs, lp, contract@, i + 1);
                }
                return Err(ContractError::Std(e));
            },
        };
        let ghost before = messages@;
        messages.push(mint_msg);
        messages.push(withdraw_msg);
        proof {
            assert(msgs_model(messages@) =~= msgs_model(before) + token_msgs(cs[i as int], lp, contract@));
        }
    }
    proof {
        assert(cs.take(commitment.commitments@.len() as int) =~= cs);
    }
    Ok(messages)
}

/// The transfer that pays a limited partner's capital out to the general
/// partner; none for a zero amount.
pub open spec fn payout_msgs(capital: CoinModel, gp: Seq<char>, lp: Seq<char>, contract: Seq<char>) -> Seq<
    ProvMsgModel,
> {
    if capital.amount == 0 {
        Seq::empty()
    } else {
        seq![
            ProvMsgModel::Transfer {
                amount: capital,
                administrator: contract,
                from_address: lp,
                to_address: gp,
            },
        ]
    }
}

/// Why the payout transfer cannot be built, if it cannot.
pub open spec fn payout_refusal(capital: CoinModel, gp: Seq<char>, lp: Seq<char>) -> Option<Seq<char>> {
    if capital.amount == 0 {
        None
    } else if blank(capital.denom) {
        Some(blank_param_text("denom"@))
    } else if blank(lp) || blank(gp) {
        Some("address must not be empty"@)
    } else {
        None
    }
}

/// The commitment marked settled.
pub open spec fn settled(c: CommitmentModel) -> CommitmentModel {
    CommitmentModel { state: CommitmentState::SETTLED, ..c }
}

/// Settles a limited partner's commitment: its available capital is taken
/// out of storage and paid to the general partner, its investment tokens
/// are minted and sent, and the commitment is marked settled.
pub fn process_withdraw(storage: &mut ContractStorage, gp: &String, lp: &String, contract: &String) -> (r: Result<
    Vec<ProvMsg>,
    ContractError,
>)
    requires
        old(storage).wf(),
        old(storage).commits_model().contains_key(lp@) && old(storage).available_model().contains_key(lp@)
            ==> old(storage).available_model()[lp@].len() > 0,
    ensures
        final(storage).wf(),
        ({
            let s = old(storage).model();
            if !s.commits.contains_key(lp@) || !s.available.contains_key(lp@) {
                r matches Err(ContractError::Std(_)) && *final(storage) == *old(storage)
            } else {
                let c = s.commits[lp@];
                let capital = s.available[lp@][0];
                let removed = StorageModel { available: s.available.remove(lp@), ..s };
                match tokens_refusal(c.commitments, lp@, contract@) {
                    Some(text) => r matches Err(ContractError::Std(StdError::GenericErr { msg })) && msg@ == text
                        && final(storage).model() == removed,
                    None => match payout_refusal(capital, gp@, lp@) {
                        Some(text) => r matches Err(ContractError::Std(StdError::GenericErr { msg })) && msg@
                            == text && final(storage).model() == removed,
                        None => r matches Ok(msgs) && msgs_model(msgs@) == investment_msgs(c.commitments, lp@, contract@)
                            + payout_msgs(capital, gp@, lp@, contract@) && final(storage).model() == (StorageModel {
                            commits: s.commits.insert(lp@, settled(c)),
                            ..removed
                        }),
                    },
                }
            }
        }),
{
    let ghost s = storage.model();
    let mut commitment = commits::get(storage, lp.clone())?;
    let capital = available_capital::remove_capital(storage, lp.clone())?;
    proof {
        assert(storage.model() =~= (StorageModel { available: s.available.remove(lp@), ..s }));
    }
    commitment.state = CommitmentState::SETTLED;
    let mut messages = transfer_investment_tokens(&commitment, contract)?;
    if capital.amount != 0 {
        let payout = match transfer_marker_coins(
            capital.amount,
            capital.denom.clone(),
            gp.clone(),
            commitment.lp.clone(),
            contract.clone(),
        ) {
            Ok(m) => m,
            Err(e) => {
                return Err(ContractError::Std(e));
            },
        };
        let ghost before = messages@;
        messages.push(payout);
        assert(msgs_model(messages@) =~= msgs_model(before).push(payout@));
    } else {
        assert(msgs_model(messages@) =~= msgs_model(messages@) + Seq::<ProvMsgModel>::empty());
    }
    commits::set(storage, &commitment)?;
    proof {
        assert(storage.model() =~= (StorageModel {
            commits: s.commits.insert(lp@, settled(s.commits[lp@])),
            available: s.available.remove(lp@),
            ..s
        }));
    }
    Ok(messages)
}

/// A commitment is ready to be settled: accepted and paid in full.
pub open spec fn settles(s: StorageModel, c: CommitmentModel) -> bool {
    paid_of(s, c.lp) == c.commitments && c.state == CommitmentState::ACCEPTED
}

/// Settling reaches the limited partner's capital: its commitment is
/// stored, not expired and paid in full, and capital is held for it.
pub open spec fn settlement_reaches_capital(s: StorageModel, now: u64, lp: Seq<char>) -> bool {
    &&& s.commits.contains_key(lp)
    &&& !date_expired(now, s.commits[lp].settlment_date)
    &&& settles(s, s.commits[lp])
    &&& s.available.contains_key(lp)
}

/// The capital a settlement reaches holds a first coin.
pub open spec fn settlement_capital_ok(s: StorageModel, now: u64, lp: Seq<char>) -> bool {
    settlement_reaches_capital(s, now, lp) ==> s.available[lp].len() > 0
}

/// Settling a limited partner's commitment succeeds.
pub open spec fn settle_succeeds(s: StorageModel, now: u64, gp: Seq<char>, lp: Seq<char>, contract: Seq<char>) -> bool {
    &&& s.commits.contains_key(lp)
    &&& !date_expired(now, s.commits[lp].settlment_date)
    &&& settles(s, s.commits[lp])
    &&& s.available.contains_key(lp)
    &&& tokens_refusal(s.commits[lp].commitments, lp, contract) is None
    &&& payout_refusal(s.available[lp][0], gp, lp) is None
}

/// What an attempt to settle a limited partner's commitment leaves stored,
/// whether or not it succeeds: the capital is taken out once the commitment
/// is found ready, and the commitment is marked settled only on success.
pub open spec fn settle_effect(s: StorageModel, now: u64, gp: Seq<char>, lp: Seq<char>, contract: Seq<char>) -> StorageModel {
    if !s.commits.contains_key(lp) || date_expired(now, s.commits[lp].settlment_date) || !settles(
        s,
        s.commits[lp],
    ) || !s.available.contains_key(lp) {
        s
    } else if settle_succeeds(s, now, gp, lp, contract) {
        StorageModel {
            commits: s.commits.insert(lp, settled(s.commits[lp])),
            available: s.available.remove(lp),
            ..s
        }
    } else {
        StorageModel { available: s.available.remove(lp), ..s }
    }
}

/// The messages of a successful settlement.
pub open spec fn settle_msgs(s: StorageModel, gp: Seq<char>, lp: Seq<char>, contract: Seq<char>) -> Seq<ProvMsgModel> {
    investment_msgs(s.commits[lp].commitments, lp, contract) + payout_msgs(s.available[lp][0], gp, lp, contract)
}

/// The event of a settled commitment.
pub open spec fn settled_event(lp: Seq<char>) -> EventModel {
    EventModel { ty: "settled"@, attributes: seq![("lp"@, lp)] }
}

/// What settling a limited partner's commitment answers and stores, for a
/// commitment that is stored, not expired and ready to settle.
pub open spec fn settle_outcome(
    s: StorageModel,
    f: StorageModel,
    r: Result<Response, ContractError>,
    gp: Seq<char>,
    lp: Seq<char>,
    contract: Seq<char>,
) -> bool {
    if !s.available.contains_key(lp) {
        r matches Err(ContractError::Std(_)) && f == s
    } else {
        let c = s.commits[lp];
        let capital = s.available[lp][0];
        let removed = StorageModel { available: s.available.remove(lp), ..s };
        match tokens_refusal(c.commitments, lp, contract) {
            Some(text) => r matches Err(ContractError::Std(StdError::GenericErr { msg })) && msg@ == text && f
                == removed,
            None => match payout_refusal(capital, gp, lp) {
                Some(text) => r matches Err(ContractError::Std(StdError::GenericErr { msg })) && msg@ == text && f
                    == removed,
                None => f == (StorageModel { commits: s.commits.insert(lp, settled(c)), ..removed })
                    && (r matches Ok(resp) && msgs_model(resp.messages@) == investment_msgs(c.commitments, lp, contract)
                    + payout_msgs(capital, gp, lp, contract) && events_model(resp.events@) == seq![
                    EventModel { ty: "settled"@, attributes: seq![("lp"@, lp)] },
                ] && attrs_model(resp.attributes@) == seq![
                    ("action"@, "withdraw_commitment"@),
                    ("gp"@, gp),
                ] && resp.data is None),
            },
        }
    }
}

/// Settles a limited partner's commitment once it is paid in full and its
/// settlement time has not passed.
pub fn withdraw_commitment(storage: &mut ContractStorage, now: u64, sender: String, lp: String, contract: &String) -> (r:
    Result<Response, ContractError>)
    requires
        old(storage).wf(),
        settlement_capital_ok(old(storage).model(), now, lp@),
    ensures
        final(storage).wf(),
        final(storage).model() == settle_effect(old(storage).model(), now, sender@, lp@, contract@),
        r is Ok <==> settle_succeeds(old(storage).model(), now, sender@, lp@, contract@),
        r matches Ok(resp) ==> msgs_model(resp.messages@) == settle_msgs(old(storage).model(), sender@, lp@, contract@)
            && events_model(resp.events@) == seq![settled_event(lp@)],
        ({
            let s = old(storage).model();
            if !s.commits.contains_key(lp@) {
                r matches Err(ContractError::Std(_)) && *final(storage) == *old(storage)
            } else if date_expired(now, s.commits[lp@].settlment_date) {
                r == Err::<Response, ContractError>(ContractError::SettlmentExpired {}) && *final(storage)
                    == *old(storage)
            } else if !settles(s, s.commits[lp@]) {
                r == Err::<Response, ContractError>(ContractError::CommitmentNotMet {}) && *final(storage)
                    == *old(storage)
            } else {
                settle_outcome(s, final(storage).model(), r, sender@, lp@, contract@)
            }
        }),
{
    let ghost s = storage.model();
    let commitment = commits::get(storage, lp.clone())?;
    if is_expired(now, &commitment) {
        return Err(ContractError::SettlmentExpired {});
    }
    if !is_settling(storage, &commitment) {
        return Err(ContractError::CommitmentNotMet {});
    }
    let withdraw_messages = process_withdraw(storage, &sender, &lp, contract)?;
    let ghost msgs = msgs_model(withdraw_messages@);
    let mut response = Response::new();
    response.add_messages(withdraw_messages);
    response.add_event(Event::with_attribute("settled", "lp", lp.as_str()));
    response.add_attribute("action", "withdraw_commitment");
    response.add_attribute("gp", sender.as_str());
    proof {
        assert(events_model(response.events@) =~= seq![
            EventModel { ty: "settled"@, attributes: seq![("lp"@, lp@)] },
        ]);
        assert(msgs_model(response.messages@) =~= msgs);
        assert(settles(s, s.commits[lp@]));
        assert(s.available.contains_key(lp@));
        assert(attrs_model(response.attributes@) =~= seq![("action"@, "withdraw_commitment"@), ("gp"@, sender@)]);
    }
    Ok(response)
}

/// What handling the message leaves stored and answers.
pub open spec fn handle_outcome(before: ContractStorage, after: ContractStorage, r: Result<Response, ContractError>, now: u64, contract_address: String, sender: String, commitment: String) -> bool {
    &&& ({
        let s = before.model();
        let lp = commitment@;
        match s.state {
            None => r matches Err(ContractError::Std(_)) && after == before,
            Some(st) => if sender@ != st.gp {
                r == Err::<Response, ContractError>(ContractError::Unauthorized {}) && after
                    == before
            } else if !s.commits.contains_key(lp) {
                r matches Err(ContractError::Std(_)) && after == before
            } else if date_expired(now, s.commits[lp].settlment_date) {
                r == Err::<Response, ContractError>(ContractError::SettlmentExpired {}) && after
                    == before
            } else if !settles(s, s.commits[lp]) {
                r == Err::<Response, ContractError>(ContractError::CommitmentNotMet {}) && after
                    == before
            } else {
                settle_outcome(s, after.model(), r, sender@, lp, contract_address@)
            },
        }
    })
}

/// What handling the message asks of the stored values and the arguments.
pub open spec fn handle_admits(before: ContractStorage, now: u64, contract_address: String, sender: String, commitment: String) -> bool {
    &&& (before.state matches Some(st) && sender@ == st.gp@) ==> settlement_capital_ok(
        before.model(),
        now,
        commitment@,
    )
}

/// The general partner settles one limited partner's commitment.
pub fn handle(storage: &mut ContractStorage, now: u64, contract_address: String, sender: String, commitment: String) -> (r:
    Result<Response, ContractError>)
    requires
        old(storage).wf(),
        handle_admits(*old(storage), now, contract_address, sender, commitment),
    ensures
        final(storage).wf(),
        handle_outcome(*old(storage), *final(storage), r, now, contract_address, sender, commitment),
{
    let st = state::get(storage)?;
    if sender != st.gp {
        return Err(ContractError::Unauthorized {});
    }
    withdraw_commitment(storage, now, sender, commitment, &contract_address)
}

/// Whether the capital a settlement of this limited partner reaches holds
/// a first coin.
pub fn settlement_capital_held(storage: &ContractStorage, now: u64, lp: &String) -> (b: bool)
    requires
        storage.wf(),
    ensures
        b == settlement_capital_ok(storage.model(), now, lp@),
{
    let commitment = match commits::get(storage, lp.clone()) {
        Ok(c) => c,
        Err(_) => {
            return true;
        },
    };
    if is_expired(now, &commitment) || !is_settling(storage, &commitment) {
        return true;
    }
    match storage.available_capital.get(lp) {
        Some(coins) => coins.len() > 0,
        None => true,
    }
}

/// Whether the stored values and the arguments meet what `handle` asks of
/// them: a settlement the general partner asks for that reaches capital
/// finds a coin in it.
pub fn handle_admitted(storage: &ContractStorage, now: u64, contract_address: &String, sender: &String, commitment: &String) -> (b:
    bool)
    requires
        storage.wf(),
    ensures
        b == handle_admits(*storage, now, *contract_address, *sender, *commitment),
{
    let by_gp = match &storage.state {
        Some(st) => st.gp == *sender,
        None => false,
    };
    if !by_gp {
        return true;
    }
    settlement_capital_held(storage, now, commitment)
}

} // verus!
