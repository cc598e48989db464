//! A limited partner with an accepted commitment deposits capital towards
//! it: the cost of the deposited securities is drawn from the limited
//! partner in the capital denomination, and the paid-in and available
//! capital are brought up to date.

use vstd::prelude::*;
use crate::common::error::{ContractError, StdError};
use crate::common::messages::{ProvMsg, ProvMsgModel, msgs_model};
use crate::common::response::{Event, EventModel, Response, attrs_model, events_model};
use crate::common::search::lemma_first_index_is;
use crate::common::security::{
    Coin, CoinModel, SecurityCommitment, SecurityCommitmentModel, clone_coins, clone_commitments, commitment_names,
    commitments_model, coins_model,
};
use crate::execute::settlement::commitment::CommitmentState;
use crate::storage::{CapitalRecordModel, ContractStorage, StorageModel};
use crate::storage::{available_capital, commits, paid_in_capital, securities, state};
use crate::storage::available_capital::{add_coins, add_coins_fits};
use crate::storage::paid_in_capital::{
    add_all, add_all_fits, add_fits, add_security_commitment, paid_model, paid_of, same_name_index,
};
use crate::storage::available_capital::{add_to_capital, coin_fits};
use crate::util::provenance_utilities::{blank, blank_param_text, transfer_marker_coins};
use crate::util::settlement::{date_expired, is_expired};

verus! {

/// The amount of the first entry that names a security, if any.
pub open spec fn first_amount(s: Seq<SecurityCommitmentModel>, name: Seq<char>) -> Option<u128> {
    let i = same_name_index(s, name);
    if i < s.len() {
        Some(s[i].amount)
    } else {
        None
    }
}

/// The amount of the first entry that names a security, if any.
pub fn find_amount(v: &[SecurityCommitment], name: &String) -> (r: Option<u128>)
    ensures
        r == first_amount(commitments_model(v@), name@),
{
    let ghost s = commitments_model(v@);
    let ghost p = |c: SecurityCommitmentModel| c.name == name@;
    for i in 0..v.len()
        invariant
            s == commitments_model(v@),
            p == (|c: SecurityCommitmentModel| c.name == name@),
            forall|j: int| 0 <= j < i ==> !p(#[trigger] s[j]),
    {
        assert(s[i as int] == v@[i as int]@);
        if v[i].name == *name {
            proof {
                lemma_first_index_is(s, p, i as int);
            }
            return Some(v[i].amount);
        }
    }
    proof {
        lemma_first_index_is(s, p, v@.len() as int);
    }
    None
}

/// What a deposit element brings the paid-in total of its security to:
/// the deposit added to the first paid entry of that security, if any.
pub open spec fn paid_total(paid: Seq<SecurityCommitmentModel>, d: SecurityCommitmentModel) -> int {
    match first_amount(paid, d.name) {
        None => d.amount as int,
        Some(p) => p + d.amount,
    }
}

/// A deposit element keeps the paid-in total of its security within the
/// amount committed to it; a security not committed to is never within.
pub open spec fn element_within(
    paid: Seq<SecurityCommitmentModel>,
    committed: Seq<SecurityCommitmentModel>,
    d: SecurityCommitmentModel,
) -> bool {
    match first_amount(committed, d.name) {
        None => false,
        Some(c) => paid_total(paid, d) <= c,
    }
}

/// Every deposit element is within its commitment.
pub open spec fn within_commitment(
    paid: Seq<SecurityCommitmentModel>,
    committed: Seq<SecurityCommitmentModel>,
    deposit: Seq<SecurityCommitmentModel>,
) -> bool {
    forall|k: int| 0 <= k < deposit.len() ==> element_within(paid, committed, #[trigger] deposit[k])
}

/// The paid-in totals that the check forms fit in a `u128`: those of each
/// element up to the first that is not within its commitment.
pub open spec fn within_check_fits(
    paid: Seq<SecurityCommitmentModel>,
    committed: Seq<SecurityCommitmentModel>,
    deposit: Seq<SecurityCommitmentModel>,
) -> bool {
    forall|k: int|
        0 <= k < deposit.len() && (forall|j: int| 0 <= j < k ==> element_within(paid, committed, deposit[j]))
            ==> paid_total(paid, #[trigger] deposit[k]) <= u128::MAX
}

/// Whether a deposit would bring any security's paid-in capital above the
/// amount committed to it (or names a security not committed to).
pub fn deposit_exceeds_commitment(storage: &ContractStorage, lp: String, deposit: &[SecurityCommitment]) -> (r:
    Result<bool, ContractError>)
    requires
        storage.wf(),
        storage.commits_model().contains_key(lp@) ==> within_check_fits(
            paid_model(*storage, lp@),
            storage.commits_model()[lp@].commitments,
            commitments_model(deposit@),
        ),
    ensures
        !storage.commits_model().contains_key(lp@) ==> r matches Err(ContractError::Std(_)),
        storage.commits_model().contains_key(lp@) ==> r == Ok::<bool, ContractError>(
            !within_commitment(
                paid_model(*storage, lp@),
                storage.commits_model()[lp@].commitments,
                commitments_model(deposit@),
            ),
        ),
{
    let commitment = commits::get(storage, lp.clone())?;
    let paid_capital = paid_in_capital::get(storage, lp.clone());
    let ghost paid = commitments_model(paid_capital@);
    let ghost committed = commitment@.commitments;
    let ghost d = commitments_model(deposit@);
    for k in 0..deposit.len()
        invariant
            paid == commitments_model(paid_capital@),
            committed == commitment@.commitments,
            d == commitments_model(deposit@),
            within_check_fits(paid, committed, d),
            storage.commits_model().contains_key(lp@),
            committed == storage.commits_model()[lp@].commitments,
            paid == paid_model(*storage, lp@),
            forall|j: int| 0 <= j < k ==> element_within(paid, committed, #[trigger] d[j]),
    {
        assert(d[k as int] == deposit@[k as int]@);
        let paid_element = find_amount(paid_capital.as_slice(), &deposit[k].name);
        assert(paid_total(paid, d[k as int]) <= u128::MAX);
        let new_capital_amount = match paid_element {
            None => deposit[k].amount,
            Some(p) => p + deposit[k].amount,
        };
        let committed_element = find_amount(commitment.commitments.as_slice(), &deposit[k].name);
        let within = match committed_element {
            None => false,
            Some(c) => new_capital_amount <= c,
        };
        if !within {
            assert(!element_within(paid, committed, d[k as int]));
            return Ok(true);
        }
    }
    Ok(false)
}

/// The price per unit of a security.
pub open spec fn price_of(s: StorageModel, name: Seq<char>) -> u128 {
    s.securities[name].price_per_unit.amount
}

/// What the deposited amounts cost at the securities' prices.
pub open spec fn deposit_cost(s: StorageModel, d: Seq<SecurityCommitmentModel>) -> int
    decreases d.len(),
{
    if d.len() == 0 {
        0
    } else {
        deposit_cost(s, d.drop_last()) + d.last().amount * price_of(s, d.last().name)
    }
}

/// Every deposited security is configured.
pub open spec fn securities_known(s: StorageModel, d: Seq<SecurityCommitmentModel>) -> bool {
    forall|k: int| 0 <= k < d.len() ==> s.securities.contains_key(#[trigger] d[k].name)
}

/// The running cost fits in a `u128` over each prefix of configured
/// securities.
pub open spec fn cost_fits(s: StorageModel, d: Seq<SecurityCommitmentModel>) -> bool {
    forall|k: int|
        0 <= k <= d.len() && securities_known(s, #[trigger] d.take(k)) ==> deposit_cost(s, d.take(k))
            <= u128::MAX
}

/// The cost of a deposit as one coin of the capital denomination; every
/// deposited security must be configured.
pub fn calculate_funds(storage: &ContractStorage, deposit: &[SecurityCommitment], capital_denom: &String) -> (r:
    Result<Vec<Coin>, ContractError>)
    requires
        storage.wf(),
        cost_fits(storage.model(), commitments_model(deposit@)),
    ensures
        securities_known(storage.model(), commitments_model(deposit@)) ==> (r matches Ok(v) && coins_model(v@)
            == seq![
            CoinModel {
                denom: capital_denom@,
                amount: deposit_cost(storage.model(), commitments_model(deposit@)) as u128,
            },
        ]),
        !securities_known(storage.model(), commitments_model(deposit@)) ==> r matches Err(
            ContractError::Std(_),
        ),
{
    let ghost s = storage.model();
    let ghost d = commitments_model(deposit@);
    let mut sum: u128 = 0;
    for i in 0..deposit.len()
        invariant
            s == storage.model(),
            storage.wf(),
            d == commitments_model(deposit@),
            cost_fits(s, d),
            securities_known(s, d.take(i as int)),
            sum == deposit_cost(s, d.take(i as int)),
    {
        proof {
            assert(d.take(i + 1).drop_last() =~= d.take(i as int));
            assert(d.take(i + 1).last() == d[i as int]);
            assert(d[i as int] == deposit@[i as int]@);
        }
        let security = match securities::get(storage, deposit[i].name.clone()) {
            Ok(x) => x,
            Err(e) => {
                proof {
                    assert(!s.securities.contains_key(d[i as int].name));
                    assert(!securities_known(s, d));
                }
                return Err(e);
            },
        };
        proof {
            assert forall|k: int| 0 <= k < i + 1 implies s.securities.contains_key(#[trigger] d.take(i + 1)[k].name) by {
                if k < i {
                    assert(d.take(i + 1)[k] == d.take(i as int)[k]);
                }
            }
            assert(securities_known(s, d.take(i + 1)));
            assert(deposit_cost(s, d.take(i + 1)) <= u128::MAX);
            let a = deposit[i as int].amount;
            let p = security.price_per_unit.amount;
            assert(a * p >= 0) by (nonlinear_arith);
        }
        let cost = deposit[i].amount * security.price_per_unit.amount;
        sum = sum + cost;
    }
    proof {
        assert(d.take(deposit@.len() as int) =~= d);
    }
    let mut funds: Vec<Coin> = Vec::new();
    funds.push(Coin { denom: capital_denom.clone(), amount: sum });
    assert(coins_model(funds@) =~= seq![CoinModel { denom: capital_denom@, amount: sum }]);
    Ok(funds)
}

/// Whether a limited partner's commitment has been accepted.
pub fn is_accepted(storage: &ContractStorage, sender: &String) -> (r: Result<bool, ContractError>)
    requires
        storage.wf(),
    ensures
        !storage.commits_model().contains_key(sender@) ==> r matches Err(ContractError::Std(_)),
        storage.commits_model().contains_key(sender@) ==> r == Ok::<bool, ContractError>(
            storage.commits_model()[sender@].state == CommitmentState::ACCEPTED,
        ),
{
    let commitment = commits::get(storage, sender.clone())?;
    Ok(commitment.state == CommitmentState::ACCEPTED)
}

/// Every deposited security is one the limited partner committed to.
pub open spec fn names_committed(committed: Seq<SecurityCommitmentModel>, d: Seq<SecurityCommitmentModel>) -> bool {
    forall|k: int| 0 <= k < d.len() ==> commitment_names(committed).contains(#[trigger] d[k].name)
}

/// Whether every deposited security is one the limited partner committed to.
pub fn securities_match(storage: &ContractStorage, deposit_securities: &[SecurityCommitment], lp: String) -> (r:
    Result<bool, ContractError>)
    requires
        storage.wf(),
    ensures
        !storage.commits_model().contains_key(lp@) ==> r matches Err(ContractError::Std(_)),
        storage.commits_model().contains_key(lp@) ==> r == Ok::<bool, ContractError>(
            names_committed(storage.commits_model()[lp@].commitments, commitments_model(deposit_securities@)),
        ),
{
    let commitment = commits::get(storage, lp.clone())?;
    let ghost names = commitment_names(commitment@.commitments);
    let ghost d = commitments_model(deposit_securities@);
    for k in 0..deposit_securities.len()
        invariant
            names == commitment_names(commitment@.commitments),
            d == commitments_model(deposit_securities@),
            forall|j: int| 0 <= j < k ==> names.contains(#[trigger] d[j].name),
            storage.commits_model().contains_key(lp@),
            commitment@ == storage.commits_model()[lp@],
    {
        assert(d[k as int] == deposit_securities@[k as int]@);
        let mut found = false;
        for m in 0..commitment.commitments.len()
            invariant
                names == commitment_names(commitment@.commitments),
                found ==> names.contains(deposit_securities@[k as int].name@),
                !found ==> forall|q: int| 0 <= q < m ==> names[q] != deposit_securities@[k as int].name@,
                0 <= k < deposit_securities@.len(),
        {
            assert(names[m as int] == commitment.commitments@[m as int].name@);
            if commitment.commitments[m].name == deposit_securities[k].name {
                found = true;
            }
        }
        if !found {
            assert(!names.contains(d[k as int].name));
            return Ok(false);
        }
    }
    Ok(true)
}

/// The transfer that draws a fund from the limited partner to the contract.
pub open spec fn deposit_transfer(f: CoinModel, sender: Seq<char>, contract: Seq<char>) -> ProvMsgModel {
    ProvMsgModel::Transfer { amount: f, administrator: contract, from_address: sender, to_address: contract }
}

/// The transfers for the funds that are not zero, in order.
pub open spec fn deposit_transfers(funds: Seq<CoinModel>, sender: Seq<char>, contract: Seq<char>) -> Seq<
    ProvMsgModel,
>
    decreases funds.len(),
{
    if funds.len() == 0 {
        Seq::empty()
    } else {
        let prev = deposit_transfers(funds.drop_last(), sender, contract);
        if funds.last().amount == 0 {
            prev
        } else {
            prev.push(deposit_transfer(funds.last(), sender, contract))
        }
    }
}

/// The text of the first transfer that cannot be built, if any: a fund that
/// is not zero needs a denomination and both addresses.
pub open spec fn transfer_refusal(funds: Seq<CoinModel>, sender: Seq<char>, contract: Seq<char>) -> Option<
    Seq<char>,
>
    decreases funds.len(),
{
    if funds.len() == 0 {
        None
    } else {
        let prev = transfer_refusal(funds.drop_last(), sender, contract);
        let f = funds.last();
        if prev is Some {
            prev
        } else if f.amount == 0 {
            None
        } else if blank(f.denom) {
            Some(blank_param_text("denom"@))
        } else if blank(sender) || blank(contract) {
            Some("address must not be empty"@)
        } else {
            None
        }
    }
}

/// Once a transfer has been refused, the refusal stands.
pub proof fn lemma_transfer_refusal_stays(funds: Seq<CoinModel>, sender: Seq<char>, contract: Seq<char>, j: int)
    requires
        0 <= j <= funds.len(),
        transfer_refusal(funds.take(j), sender, contract) is Some,
    ensures
        transfer_refusal(funds, sender, contract) == transfer_refusal(funds.take(j), sender, contract),
    decreases funds.len(),
{
    if j == funds.len() {
        assert(funds.take(j) =~= funds);
    } else {
        assert(funds.drop_last().take(j) =~= funds.take(j));
        lemma_transfer_refusal_stays(funds.drop_last(), sender, contract, j);
    }
}

/// Transfers of the funds that are not zero from the limited partner to the
/// contract.
pub fn process_deposit(sender: String, contract: String, funds: Vec<Coin>) -> (r: Result<Vec<ProvMsg>, ContractError>)
    ensures
        match transfer_refusal(coins_model(funds@), sender@, contract@) {
            None => r matches Ok(msgs) && msgs_model(msgs@) == deposit_transfers(coins_model(funds@), sender@, contract@),
            Some(text) => r matches Err(ContractError::Std(StdError::GenericErr { msg })) && msg@ == text,
        },
{
    let ghost f = coins_model(funds@);
    let mut messages: Vec<ProvMsg> = Vec::new();
    for i in 0..funds.len()
        invariant
            f == coins_model(funds@),
            transfer_refusal(f.take(i as int), sender@, contract@) is None,
            msgs_model(messages@) == deposit_transfers(f.take(i as int), sender@, contract@),
    {
        proof {
            assert(f.take(i + 1).drop_last() =~= f.take(i as int));
            assert(f.take(i + 1).last() == f[i as int]);
            assert(f[i as int] == funds@[i as int]@);
        }
        if funds[i].amount != 0 {
            match transfer_marker_coins(
                funds[i].amount,
                funds[i].denom.clone(),
                contract.clone(),
                sender.clone(),
                contract.clone(),
            ) {
                Ok(m) => {
                    let ghost before = messages@;
                    messages.push(m);
                    assert(msgs_model(messages@) =~= msgs_model(before).push(m@));
                },
                Err(e) => {
                    proof {
                        lemma_transfer_refusal_stays(f, sender@, contract@, i + 1);
                    }
                    return Err(ContractError::Std(e));
                },
            }
        }
    }
    proof {
        assert(f.take(funds@.len() as int) =~= f);
    }
    Ok(messages)
}

/// A limited partner's paid-in capital after a deposit.
pub open spec fn paid_after(s: StorageModel, lp: Seq<char>, d: Seq<SecurityCommitmentModel>) -> Seq<
    SecurityCommitmentModel,
> {
    if s.capital.contains_key(lp) {
        add_all(paid_of(s, lp), d)
    } else {
        d
    }
}

/// A limited partner's available capital after funds come in.
pub open spec fn available_after(s: StorageModel, lp: Seq<char>, funds: Seq<CoinModel>) -> Seq<CoinModel> {
    if s.available.contains_key(lp) {
        add_coins(s.available[lp], funds)
    } else {
        funds
    }
}

/// The key of a limited partner holds loan pool collateral, which cannot be
/// read as paid-in capital.
pub open spec fn holds_collateral(s: StorageModel, lp: Seq<char>) -> bool {
    s.capital.contains_key(lp) && s.capital[lp] is Collateral
}

/// The sums of paid-in and available capital that recording a deposit forms
/// fit in a `u128`.
pub open spec fn update_fits(s: StorageModel, lp: Seq<char>, funds: Seq<CoinModel>, d: Seq<SecurityCommitmentModel>) -> bool {
    &&& (s.capital.contains_key(lp) && !holds_collateral(s, lp) ==> add_all_fits(paid_of(s, lp), d))
    &&& (!holds_collateral(s, lp) && s.available.contains_key(lp) ==> add_coins_fits(s.available[lp], funds))
}

/// Records a deposit in the limited partner's paid-in capital and its funds
/// in the available capital. Paid-in capital cannot be recorded under a key
/// that holds loan pool collateral.
pub fn update_depositer_capital(
    storage: &mut ContractStorage,
    sender: String,
    funds: Vec<Coin>,
    deposit: Vec<SecurityCommitment>,
) -> (r: Result<(), ContractError>)
    requires
        old(storage).wf(),
        update_fits(old(storage).model(), sender@, coins_model(funds@), commitments_model(deposit@)),
    ensures
        final(storage).wf(),
        holds_collateral(old(storage).model(), sender@) ==> (r matches Err(
            ContractError::Std(StdError::ParseErr { .. }),
        ) && *final(storage) == *old(storage)),
        !holds_collateral(old(storage).model(), sender@) ==> r is Ok && final(storage).model() == (StorageModel {
            capital: old(storage).model().capital.insert(
                sender@,
                CapitalRecordModel::PaidInCapital(
                    paid_after(old(storage).model(), sender@, commitments_model(deposit@)),
                ),
            ),
            available: old(storage).model().available.insert(
                sender@,
                available_after(old(storage).model(), sender@, coins_model(funds@)),
            ),
            ..old(storage).model()
        }),
{
    let ghost s = storage.model();
    paid_in_capital::add_payment(storage, sender.clone(), deposit)?;
    available_capital::add_capital(storage, sender, funds)?;
    proof {
        assert(storage.model() =~= (StorageModel {
            capital: s.capital.insert(
                sender@,
                CapitalRecordModel::PaidInCapital(paid_after(s, sender@, commitments_model(deposit@))),
            ),
            available: s.available.insert(sender@, available_after(s, sender@, coins_model(funds@))),
            ..s
        }));
    }
    Ok(())
}

/// The checks a deposit must pass before any sum is formed: the contract is
/// configured, the limited partner's commitment is stored, accepted and not
/// expired, and names every deposited security.
pub open spec fn deposit_admitted(s: StorageModel, now: u64, lp: Seq<char>, d: Seq<SecurityCommitmentModel>) -> bool {
    &&& s.state is Some
    &&& s.commits.contains_key(lp)
    &&& !date_expired(now, s.commits[lp].settlment_date)
    &&& s.commits[lp].state == CommitmentState::ACCEPTED
    &&& names_committed(s.commits[lp].commitments, d)
}

/// The single fund a deposit draws: its cost in the capital denomination.
pub open spec fn deposit_funds(s: StorageModel, d: Seq<SecurityCommitmentModel>) -> Seq<CoinModel> {
    match s.state {
        Some(st) => seq![CoinModel { denom: st.capital_denom, amount: deposit_cost(s, d) as u128 }],
        None => Seq::empty(),
    }
}

/// Every sum a deposit forms, as far as it gets, fits in a `u128`.
pub open spec fn deposit_sums_fit(
    s: StorageModel,
    lp: Seq<char>,
    contract: Seq<char>,
    d: Seq<SecurityCommitmentModel>,
) -> bool {
    let committed = s.commits[lp].commitments;
    let paid = paid_of(s, lp);
    &&& within_check_fits(paid, committed, d)
    &&& (within_commitment(paid, committed, d) ==> cost_fits(s, d))
    &&& (within_commitment(paid, committed, d) && securities_known(s, d) && transfer_refusal(
        deposit_funds(s, d),
        lp,
        contract,
    ) is None ==> update_fits(s, lp, deposit_funds(s, d), d))
}

/// What handling the message leaves stored and answers.
pub open spec fn handle_outcome(before: ContractStorage, after: ContractStorage, r: Result<Response, ContractError>, now: u64, contract_address: String, sender: String, deposit: Vec<SecurityCommitment>) -> bool {
    &&& ({
        let s = before.model();
        let lp = sender@;
        let d = commitments_model(deposit@);
        if s.state is None || !s.commits.contains_key(lp) {
            r matches Err(ContractError::Std(_)) && after == before
        } else if date_expired(now, s.commits[lp].settlment_date) {
            r == Err::<Response, ContractError>(ContractError::SettlmentExpired {}) && after
                == before
        } else if s.commits[lp].state != CommitmentState::ACCEPTED {
            r == Err::<Response, ContractError>(ContractError::InvalidCommitmentState {}) && after
                == before
        } else if !names_committed(s.commits[lp].commitments, d) {
            r == Err::<Response, ContractError>(ContractError::InvalidSecurityCommitment {})
                && after == before
        } else if !within_commitment(paid_of(s, lp), s.commits[lp].commitments, d) {
            r == Err::<Response, ContractError>(ContractError::ExcessiveDeposit {}) && after
                == before
        } else if !securities_known(s, d) {
            r matches Err(ContractError::Std(_)) && after == before
        } else {
            let funds = deposit_funds(s, d);
            match transfer_refusal(funds, lp, contract_address@) {
                Some(text) => r matches Err(ContractError::Std(StdError::GenericErr { msg })) && msg@ == text
                    && after == before,
                None => if holds_collateral(s, lp) {
                    r matches Err(ContractError::Std(StdError::ParseErr { .. })) && after
                        == before
                } else {
                    &&& after.model() == (StorageModel {
                        capital: s.capital.insert(lp, CapitalRecordModel::PaidInCapital(paid_after(s, lp, d))),
                        available: s.available.insert(lp, available_after(s, lp, funds)),
                        ..s
                    })
                    &&& r matches Ok(resp) && msgs_model(resp.messages@) == deposit_transfers(
                        funds,
                        lp,
                        contract_address@,
                    ) && events_model(resp.events@) == seq![
                        EventModel { ty: "deposited"@, attributes: seq![("lp"@, lp)] },
                    ] && attrs_model(resp.attributes@) == seq![
                        ("action"@, "deposit_commitment"@),
                        ("lp"@, lp),
                    ] && resp.data is None
                },
            }
        }
    })
}

/// What handling the message asks of the stored values and the arguments.
pub open spec fn handle_admits(before: ContractStorage, now: u64, contract_address: String, sender: String, deposit: Vec<SecurityCommitment>) -> bool {
    &&& deposit_admitted(before.model(), now, sender@, commitments_model(deposit@)) ==> deposit_sums_fit(
        before.model(),
        sender@,
        contract_address@,
        commitments_model(deposit@),
    )
}

/// Deposits capital towards the sender's accepted commitment: the cost of
/// the deposited securities is transferred from the sender to the contract,
/// and recorded as paid-in and available capital.
pub fn handle(
    storage: &mut ContractStorage,
    now: u64,
    contract_address: String,
    sender: String,
    deposit: Vec<SecurityCommitment>,
) -> (r: Result<Response, ContractError>)
    requires
        old(storage).wf(),
        handle_admits(*old(storage), now, contract_address, sender, deposit),
    ensures
        final(storage).wf(),
        handle_outcome(*old(storage), *final(storage), r, now, contract_address, sender, deposit),
{
    let ghost s = storage.model();
    let ghost d = commitments_model(deposit@);
    let st = state::get(storage)?;
    let commitment = commits::get(storage, sender.clone())?;
    if is_expired(now, &commitment) {
        return Err(ContractError::SettlmentExpired {});
    }
    if !is_accepted(storage, &sender)? {
        return Err(ContractError::InvalidCommitmentState {});
    }
    if !securities_match(storage, deposit.as_slice(), sender.clone())? {
        return Err(ContractError::InvalidSecurityCommitment {});
    }
    if deposit_exceeds_commitment(storage, sender.clone(), deposit.as_slice())? {
        return Err(ContractError::ExcessiveDeposit {});
    }
    let funds = calculate_funds(storage, deposit.as_slice(), &st.capital_denom)?;
    proof {
        assert(coins_model(funds@) == deposit_funds(s, d));
    }
    let deposit_message = process_deposit(sender.clone(), contract_address.clone(), crate::common::security::clone_coins(&funds))?;
    update_depositer_capital(storage, sender.clone(), funds, deposit)?;
    let mut response = Response::new();
    response.add_messages(deposit_message);
    response.add_event(Event::with_attribute("deposited", "lp", sender.as_str()));
    response.add_attribute("action", "deposit_commitment");
    response.add_attribute("lp", sender.as_str());
    assert(attrs_model(response.attributes@) =~= seq![("action"@, "deposit_commitment"@), ("lp"@, sender@)]);
    proof {
        assert(events_model(response.events@) =~= seq![
            EventModel { ty: "deposited"@, attributes: seq![("lp"@, sender@)] },
        ]);
        assert(msgs_model(response.messages@) =~= deposit_transfers(deposit_funds(s, d), sender@, contract_address@));
    }
    Ok(response)
}

/// Whether adding an amount to the first commitment of its security stays
/// within bounds.
fn fits_first(s: &Vec<SecurityCommitment>, n: &SecurityCommitment) -> (b: bool)
    ensures
        b == add_fits(commitments_model(s@), n@),
{
    let ghost m = commitments_model(s@);
    let ghost p = |c: SecurityCommitmentModel| c.name == n@.name;
    for i in 0..s.len()
        invariant
            m == commitments_model(s@),
            p == (|c: SecurityCommitmentModel| c.name == n@.name),
            forall|j: int| 0 <= j < i ==> !p(#[trigger] m[j]),
    {
        assert(m[i as int] == s@[i as int]@);
        if s[i].name == n.name {
            proof {
                lemma_first_index_is(m, p, i as int);
            }
            return s[i].amount.checked_add(n.amount).is_some();
        }
    }
    proof {
        lemma_first_index_is(m, p, s@.len() as int);
    }
    true
}

/// Whether every addition of a deposit to paid-in capital stays within
/// bounds.
fn fits_all(paid: &Vec<SecurityCommitment>, deposit: &[SecurityCommitment]) -> (b: bool)
    ensures
        b == add_all_fits(commitments_model(paid@), commitments_model(deposit@)),
{
    let ghost p = commitments_model(paid@);
    let ghost d = commitments_model(deposit@);
    let mut current = clone_commitments(paid);
    for k in 0..deposit.len()
        invariant
            p == commitments_model(paid@),
            d == commitments_model(deposit@),
            commitments_model(current@) == add_all(p, d.take(k as int)),
            forall|j: int| 0 <= j < k ==> add_fits(add_all(p, d.take(j)), #[trigger] d[j]),
    {
        proof {
            assert(d.take(k + 1).drop_last() =~= d.take(k as int));
            assert(d.take(k + 1).last() == d[k as int]);
            assert(d[k as int] == deposit@[k as int]@);
        }
        if !fits_first(&current, &deposit[k]) {
            return false;
        }
        add_security_commitment(&deposit[k], &mut current);
    }
    true
}

/// Whether adding a coin to the first coin of its denomination stays within
/// bounds.
fn coin_fits_first(s: &Vec<Coin>, n: &Coin) -> (b: bool)
    ensures
        b == coin_fits(coins_model(s@), n@),
{
    let ghost m = coins_model(s@);
    let ghost p = |c: CoinModel| c.denom == n@.denom;
    for i in 0..s.len()
        invariant
            m == coins_model(s@),
            p == (|c: CoinModel| c.denom == n@.denom),
            forall|j: int| 0 <= j < i ==> !p(#[trigger] m[j]),
    {
        assert(m[i as int] == s@[i as int]@);
        if s[i].denom == n.denom {
            proof {
                lemma_first_index_is(m, p, i as int);
            }
            return s[i].amount.checked_add(n.amount).is_some();
        }
    }
    proof {
        lemma_first_index_is(m, p, s@.len() as int);
    }
    true
}

/// Whether every addition of funds to available capital stays within
/// bounds.
fn fits_coins(capital: &Vec<Coin>, funds: &Vec<Coin>) -> (b: bool)
    ensures
        b == add_coins_fits(coins_model(capital@), coins_model(funds@)),
{
    let ghost c0 = coins_model(capital@);
    let ghost f = coins_model(funds@);
    let mut current = clone_coins(capital);
    for k in 0..funds.len()
        invariant
            c0 == coins_model(capital@),
            f == coins_model(funds@),
            coins_model(current@) == add_coins(c0, f.take(k as int)),
            forall|j: int| 0 <= j < k ==> coin_fits(add_coins(c0, f.take(j)), #[trigger] f[j]),
    {
        proof {
            assert(f.take(k + 1).drop_last() =~= f.take(k as int));
            assert(f.take(k + 1).last() == f[k as int]);
            assert(f[k as int] == funds@[k as int]@);
        }
        let fits = coin_fits_first(&current, &funds[k]);
        if !fits {
            return false;
        }
        add_to_capital(&funds[k], &mut current);
        assert(coins_model(current@) == add_coins(c0, f.take(k + 1)));
    }
    true
}

/// Whether the paid-in totals a deposit forms fit in a `u128` as far as the
/// check goes, and if so whether every element is within its commitment.
fn within_checked(paid: &Vec<SecurityCommitment>, committed: &Vec<SecurityCommitment>, deposit: &[SecurityCommitment]) -> (r:
    Option<bool>)
    ensures
        r is Some <==> within_check_fits(
            commitments_model(paid@),
            commitments_model(committed@),
            commitments_model(deposit@),
        ),
        r matches Some(w) ==> w == within_commitment(
            commitments_model(paid@),
            commitments_model(committed@),
            commitments_model(deposit@),
        ),
{
    let ghost p = commitments_model(paid@);
    let ghost c = commitments_model(committed@);
    let ghost d = commitments_model(deposit@);
    for k in 0..deposit.len()
        invariant
            p == commitments_model(paid@),
            c == commitments_model(committed@),
            d == commitments_model(deposit@),
            forall|j: int| 0 <= j < k ==> element_within(p, c, #[trigger] d[j]),
            forall|j: int| 0 <= j < k ==> paid_total(p, #[trigger] d[j]) <= u128::MAX,
    {
        assert(d[k as int] == deposit@[k as int]@);
        let total = match find_amount(paid.as_slice(), &deposit[k].name) {
            None => deposit[k].amount,
            Some(a) => match a.checked_add(deposit[k].amount) {
                Some(t) => t,
                None => {
                    assert(paid_total(p, d[k as int]) > u128::MAX);
                    return None;
                },
            },
        };
        let within = match find_amount(committed.as_slice(), &deposit[k].name) {
            None => false,
            Some(limit) => total <= limit,
        };
        if !within {
            proof {
                assert(!element_within(p, c, d[k as int]));
                assert forall|m: int|
                    0 <= m < d.len() && (forall|j: int| 0 <= j < m ==> element_within(p, c, d[j])) implies paid_total(
                    p,
                    #[trigger] d[m],
                ) <= u128::MAX by {
                    if m > k {
                        assert(element_within(p, c, d[k as int]));
                    }
                }
            }
            return Some(false);
        }
    }
    Some(true)
}

/// What checking the cost of a deposit finds.
enum CostCheck {
    /// A running sum of a configured prefix leaves the `u128` range.
    Overflow,
    /// Some deposited security is not configured.
    Unknown,
    /// The cost, every security being configured.
    Total(u128),
}

/// Forms the running cost of a deposit as far as its securities are
/// configured, telling whether it stays in range.
fn cost_checked(storage: &ContractStorage, deposit: &[SecurityCommitment]) -> (r: CostCheck)
    requires
        storage.wf(),
    ensures
        r is Overflow <==> !cost_fits(storage.model(), commitments_model(deposit@)),
        r is Unknown ==> !securities_known(storage.model(), commitments_model(deposit@)),
        r matches CostCheck::Total(c) ==> securities_known(storage.model(), commitments_model(deposit@)) && c
            == deposit_cost(storage.model(), commitments_model(deposit@)),
{
    let ghost s = storage.model();
    let ghost d = commitments_model(deposit@);
    let mut sum: u128 = 0;
    for i in 0..deposit.len()
        invariant
            s == storage.model(),
            storage.wf(),
            d == commitments_model(deposit@),
            securities_known(s, d.take(i as int)),
            sum == deposit_cost(s, d.take(i as int)),
            forall|k: int| 0 <= k <= i ==> deposit_cost(s, #[trigger] d.take(k)) <= u128::MAX,
    {
        proof {
            assert(d.take(i + 1).drop_last() =~= d.take(i as int));
            assert(d.take(i + 1).last() == d[i as int]);
            assert(d[i as int] == deposit@[i as int]@);
        }
        let security = match securities::get(storage, deposit[i].name.clone()) {
            Ok(x) => x,
            Err(_) => {
                proof {
                    assert(!s.securities.contains_key(d[i as int].name));
                    assert forall|k: int| 0 <= k <= d.len() && securities_known(s, #[trigger] d.take(k)) implies deposit_cost(
                        s,
                        d.take(k),
                    ) <= u128::MAX by {
                        if k > i {
                            assert(d.take(k)[i as int] == d[i as int]);
                        }
                    }
                    assert(d.take(d.len() as int) =~= d);
                }
                return CostCheck::Unknown;
            },
        };
        proof {
            assert forall|k: int| 0 <= k < i + 1 implies s.securities.contains_key(#[trigger] d.take(i + 1)[k].name) by {
                if k < i {
                    assert(d.take(i + 1)[k] == d.take(i as int)[k]);
                }
            }
            assert(securities_known(s, d.take(i + 1)));
        }
        let cost = match deposit[i].amount.checked_mul(security.price_per_unit.amount) {
            Some(c) => c,
            None => {
                proof {
                    let a = deposit[i as int].amount;
                    let q = security.price_per_unit.amount;
                    assert(sum + a * q > u128::MAX) by (nonlinear_arith)
                        requires
                            a * q > u128::MAX,
                            sum >= 0,
                    ;
                    assert(deposit_cost(s, d.take(i + 1)) > u128::MAX);
                }
                return CostCheck::Overflow;
            },
        };
        sum = match sum.checked_add(cost) {
            Some(t) => t,
            None => {
                assert(deposit_cost(s, d.take(i + 1)) > u128::MAX);
                return CostCheck::Overflow;
            },
        };
        assert(deposit_cost(s, d.take(i + 1)) <= u128::MAX);
    }
    proof {
        assert(d.take(deposit@.len() as int) =~= d);
    }
    CostCheck::Total(sum)
}

/// Whether the stored values and the arguments meet what `handle` asks of
/// them: where a deposit passes its checks, every sum it forms fits in a
/// `u128`.
pub fn handle_admitted(
    storage: &ContractStorage,
    now: u64,
    contract_address: &String,
    sender: &String,
    deposit: &Vec<SecurityCommitment>,
) -> (b: bool)
    requires
        storage.wf(),
    ensures
        b == handle_admits(*storage, now, *contract_address, *sender, *deposit),
{
    let ghost s = storage.model();
    let ghost lp = sender@;
    let ghost d = commitments_model(deposit@);
    let st = match state::get(storage) {
        Ok(x) => x,
        Err(_) => {
            return true;
        },
    };
    let commitment = match commits::get(storage, sender.clone()) {
        Ok(c) => c,
        Err(_) => {
            return true;
        },
    };
    if is_expired(now, &commitment) || commitment.state != CommitmentState::ACCEPTED {
        return true;
    }
    match securities_match(storage, deposit.as_slice(), sender.clone()) {
        Ok(true) => {},
        _ => {
            return true;
        },
    }
    assert(deposit_admitted(s, now, lp, d));
    let paid = paid_in_capital::get(storage, sender.clone());
    assert(commitments_model(paid@) == paid_of(s, lp));
    match within_checked(&paid, &commitment.commitments, deposit.as_slice()) {
        None => {
            return false;
        },
        Some(false) => {
            return true;
        },
        Some(true) => {},
    }
    let cost = match cost_checked(storage, deposit.as_slice()) {
        CostCheck::Overflow => {
            return false;
        },
        CostCheck::Unknown => {
            return true;
        },
        CostCheck::Total(c) => c,
    };
    let mut funds: Vec<Coin> = Vec::new();
    funds.push(Coin { denom: st.capital_denom.clone(), amount: cost });
    assert(coins_model(funds@) =~= deposit_funds(s, d));
    if process_deposit(sender.clone(), contract_address.clone(), clone_coins(&funds)).is_err() {
        return true;
    }
    let holds = match storage.capital.get(sender) {
        Some(record) => match record {
            crate::storage::CapitalRecord::Collateral(_) => true,
            crate::storage::CapitalRecord::PaidInCapital(_) => false,
        },
        None => false,
    };
    assert(holds == holds_collateral(s, lp));
    if holds {
        return true;
    }
    if storage.capital.contains(sender) && !fits_all(&paid, deposit.as_slice()) {
        return false;
    }
    match available_capital::get_capital(storage, sender.clone()) {
        Ok(capital) => fits_coins(&capital, &funds),
        Err(_) => true,
    }
}

} // verus!
