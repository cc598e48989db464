//! Properties of the contract that span several operations.

use vstd::prelude::*;
use crate::common::amount::{all_digits, digits_value, unsigned_value};
use crate::common::error::ContractError;
use crate::common::msg::ExecuteMsg;
use crate::common::response::Response;
use crate::common::security::ContributeLoanPools;
use crate::common::security::{SecurityCommitment, SecurityCommitmentModel, commitments_model, securities_model};
use crate::common::text::{decimal_text, digit_char};
use crate::execute::router::{accepted_lps, looked_up_markers, route_admits, route_outcome};
use crate::execute::settlement::accept_commitments::{accept_effect, accept_succeeds};
use crate::execute::settlement::add_loan_pool::{added_collateral, addition_ok, insert_collaterals};
use crate::execute::settlement::commitment::{Commitment, CommitmentModel, CommitmentState, zeroed};
use crate::execute::settlement::deposit_commitment::within_commitment;
use crate::execute::settlement::withdraw_commitment::{settled, settles};
use crate::execute::settlement::withdraw_loan_pool::{
    looked_up_address, recorded_grants, release_refusal, remove_addresses, removal_ok, stored_collateral,
    withdrawn_attributes, withdrawn_events,
};
use crate::common::collateral::collaterals_model;
use crate::common::response::{attrs_model, events_model};
use crate::common::security::WithdrawLoanPools;
use crate::execute::settlement::{
    accept_commitments, add_loan_pool, cancel_commitment, deposit_commitment, propose_commitment,
    remove_whitelist_loanpool_contributors, update_settlement_time, whitelist_loanpool_contributors,
    withdraw_all_commitments, withdraw_commitment, withdraw_loan_pool,
};
use crate::instantiate::validate::instantiate_validation;
use crate::storage::paid_in_capital::{paid_model, paid_of};
use crate::storage::whitelist_contributors_store::whitelist_model;
use crate::storage::{CapitalRecordModel, ContractStorage, StorageModel};
use crate::common::error::StdError;
use crate::util::provenance_utilities::{MarkerAccount, MarkerLookup};
use crate::util::settlement::{date_expired, settling};
use crate::storage::commits::with_date;
use crate::common::security::SecurityModel;
use crate::util::to::investment_name;

verus! {

/// Taking an amount off a security's remainder and putting it back leaves
/// the remainders as they were.
pub proof fn law_subtract_then_add_restores(m: Map<Seq<char>, u128>, name: Seq<char>, amount: u128)
    requires
        m.contains_key(name),
        amount <= m[name],
    ensures
        ({
            let taken = m.insert(name, (m[name] - amount) as u128);
            taken.insert(name, (taken[name] + amount) as u128)
        }) == m,
{
    let taken = m.insert(name, (m[name] - amount) as u128);
    assert(taken.insert(name, (taken[name] + amount) as u128) =~= m);
}

proof fn lemma_digit_char_value(d: int)
    requires
        0 <= d < 10,
    ensures
        '0' <= digit_char(d) <= '9',
        digit_char(d) as int - '0' as int == d,
{
}

proof fn lemma_decimal_text_reads_back(n: nat)
    ensures
        decimal_text(n).len() > 0,
        all_digits(decimal_text(n)),
        digits_value(decimal_text(n)) == n,
    decreases n,
{
    if n < 10 {
        lemma_digit_char_value(n as int);
        let t = decimal_text(n);
        assert(t.drop_last() =~= Seq::<char>::empty());
        assert(digits_value(t.drop_last()) == 0);
        assert(digits_value(t) == digits_value(t.drop_last()) * 10 + (t.last() as int - '0' as int) as nat);
    } else {
        lemma_decimal_text_reads_back(n / 10);
        lemma_digit_char_value((n % 10) as int);
        let t = decimal_text(n);
        assert(t.drop_last() =~= decimal_text(n / 10));
        assert(t.last() == digit_char((n % 10) as int));
        assert((n / 10) * 10 + n % 10 == n) by (nonlinear_arith);
        assert(digits_value(t) == digits_value(t.drop_last()) * 10 + (t.last() as int - '0' as int) as nat);
        assert forall|i: int| 0 <= i < t.len() implies '0' <= #[trigger] t[i] <= '9' by {
            if i < t.len() - 1 {
                assert(t[i] == decimal_text(n / 10)[i]);
            }
        }
    }
}

/// An amount written in decimal reads back as the same amount.
pub proof fn law_amount_text_round_trip(n: u128)
    ensures
        unsigned_value(decimal_text(n as nat)) == Some(n),
{
    lemma_decimal_text_reads_back(n as nat);
    let t = decimal_text(n as nat);
    assert('0' <= t[0] <= '9');
}

/// Different securities of one contract have different investment tokens.
pub proof fn law_investment_names_distinct(a: Seq<char>, b: Seq<char>, contract: Seq<char>)
    requires
        a != b,
    ensures
        investment_name(a, contract) != investment_name(b, contract),
{
    let prefix = contract + seq!['.'];
    if investment_name(a, contract) == investment_name(b, contract) {
        assert(a =~= investment_name(a, contract).skip(prefix.len() as int));
        assert(b =~= investment_name(b, contract).skip(prefix.len() as int));
    }
}

/// Once a settlement date has passed, it stays passed.
pub proof fn law_expiry_is_final(now: u64, later: u64, date: Option<u64>)
    requires
        now <= later,
        date_expired(now, date),
    ensures
        date_expired(later, date),
{
}

/// Clearing a commitment's amounts keeps its securities, in order, with
/// nothing committed.
pub proof fn law_cleared_amounts(s: Seq<SecurityCommitmentModel>)
    ensures
        zeroed(s).len() == s.len(),
        forall|i: int| 0 <= i < s.len() ==> (#[trigger] zeroed(s)[i]).name == s[i].name && zeroed(s)[i].amount == 0,
{
}

/// A valid set-up offers at least one security, each with a non-zero
/// amount and priced in the capital denomination.
pub proof fn law_valid_setup(msg: crate::common::msg::InstantiateMsg)
    requires
        instantiate_validation(securities_model(msg.securities@), msg.capital_denom@) is Ok,
    ensures
        msg.securities@.len() > 0,
        msg.capital_denom@.len() > 0,
        forall|i: int| 0 <= i < msg.securities@.len() ==> (#[trigger] msg.securities@[i]).amount != 0
            && msg.securities@[i].price_per_unit.denom@ == msg.capital_denom@,
        forall|i: int| 0 <= i < msg.securities@.len() ==> (#[trigger] msg.securities@[i]).minimum_amount
            <= msg.securities@[i].amount,
        forall|i: int| 0 <= i < msg.securities@.len() ==> (#[trigger] msg.securities@[i]).security_type
            == msg.securities@[0].security_type,
{
    let s = securities_model(msg.securities@);
    assert forall|i: int| 0 <= i < msg.securities@.len() implies (#[trigger] msg.securities@[i]).amount != 0
        && msg.securities@[i].price_per_unit.denom@ == msg.capital_denom@ && msg.securities@[i].minimum_amount
        <= msg.securities@[i].amount && msg.securities@[i].security_type == msg.securities@[0].security_type by {
        assert(s[i] == msg.securities@[i]@);
        assert(s[0] == msg.securities@[0]@);
    }
}

/// A set-up whose securities include one with a minimum amount above its
/// total amount is refused as an invalid security list.
pub proof fn law_minimum_within_amount(securities: Seq<SecurityModel>, capital_denom: Seq<char>, i: int)
    requires
        0 <= i < securities.len(),
        securities[i].minimum_amount > securities[i].amount,
    ensures
        instantiate_validation(securities, capital_denom) == Err::<(), ContractError>(
            ContractError::InvalidSecurityList {},
        ),
{
}

/// A set-up whose securities include one of another type than the first,
/// or one with no amount, is refused as an invalid security list.
pub proof fn law_security_list_uniform(securities: Seq<SecurityModel>, capital_denom: Seq<char>, i: int)
    requires
        0 <= i < securities.len(),
        securities[i].security_type != securities[0].security_type || securities[i].amount == 0,
    ensures
        instantiate_validation(securities, capital_denom) == Err::<(), ContractError>(
            ContractError::InvalidSecurityList {},
        ),
{
}

/// A set-up message passes its checks exactly when it offers at least one
/// security, names a capital denomination, and every security is of the
/// first one's type, has a non-zero amount, a minimum no greater than that
/// amount, is priced in the capital denomination, and appears only once.
pub proof fn law_setup_checks(securities: Seq<SecurityModel>, capital_denom: Seq<char>)
    ensures
        instantiate_validation(securities, capital_denom) is Ok <==> (securities.len() > 0 && capital_denom.len() > 0
            && (forall|i: int|
            0 <= i < securities.len() ==> (#[trigger] securities[i]).security_type == securities[0].security_type
                && securities[i].amount != 0 && securities[i].minimum_amount <= securities[i].amount
                && securities[i].price_per_unit.denom == capital_denom) && (forall|i: int, j: int|
            0 <= i < j < securities.len() ==> securities[i] != securities[j])),
{
}

/// Moving the settlement time, as the general partner, sets the contract's
/// settlement time and that of every stored commitment to the new value,
/// whether it is a time or none, and changes nothing else of them.
pub proof fn law_settlement_time_reaches_every_commitment(
    before: ContractStorage,
    after: ContractStorage,
    resp: Response,
    sender: String,
    settlement_time: Option<u64>,
)
    requires
        update_settlement_time::handle_outcome(before, after, Ok(resp), sender, settlement_time),
    ensures
        after.model().state matches Some(st) && st.settlement_time == settlement_time,
        forall|k: Seq<char>| #[trigger] after.model().commits.contains_key(k) == before.model().commits.contains_key(k),
        forall|k: Seq<char>|
            #[trigger] after.model().commits.contains_key(k) ==> after.model().commits[k].settlment_date
                == settlement_time && after.model().commits[k].lp == before.model().commits[k].lp
                && after.model().commits[k].commitments == before.model().commits[k].commitments
                && after.model().commits[k].state == before.model().commits[k].state,
{
}

/// Setting the settlement date of every stored commitment gives each the
/// new date, whether it is a time or none, and changes nothing else.
pub proof fn law_commitment_dates_set(before: ContractStorage, after: ContractStorage, t: Option<u64>)
    requires
        after.commits_model() == before.commits_model().map_values(|c: CommitmentModel| with_date(c, t)),
    ensures
        forall|k: Seq<char>| #[trigger] after.commits_model().contains_key(k) == before.commits_model().contains_key(k),
        forall|k: Seq<char>|
            #[trigger] after.commits_model().contains_key(k) ==> after.commits_model()[k].settlment_date == t
                && after.commits_model()[k].lp == before.commits_model()[k].lp
                && after.commits_model()[k].commitments == before.commits_model()[k].commitments
                && after.commits_model()[k].state == before.commits_model()[k].state,
{
}


/// A successful proposal leaves the limited partner with a pending
/// commitment.
pub proof fn law_proposal_is_pending(
    before: ContractStorage,
    after: ContractStorage,
    resp: Response,
    now: u64,
    lp: String,
    securities: Vec<SecurityCommitment>,
)
    requires
        propose_commitment::handle_outcome(before, after, Ok(resp), now, lp, securities),
    ensures
        after.model().commits.contains_key(lp@),
        after.model().commits[lp@].state == CommitmentState::PENDING,
{
}

/// Accepting a commitment marks it accepted, and records zero paid-in
/// capital for each of its securities.
pub proof fn law_acceptance_marks_accepted(s: StorageModel, lp: Seq<char>)
    requires
        accept_succeeds(s, lp),
    ensures
        accept_effect(s, lp).commits[lp].state == CommitmentState::ACCEPTED,
        accept_effect(s, lp).commits[lp].commitments == s.commits[lp].commitments,
        accept_effect(s, lp).capital[lp] == CapitalRecordModel::PaidInCapital(zeroed(s.commits[lp].commitments)),
{
}

/// A deposit that is taken keeps every deposited security within the
/// amount committed to it.
pub proof fn law_deposit_within_commitment(
    before: ContractStorage,
    after: ContractStorage,
    resp: Response,
    now: u64,
    contract_address: String,
    sender: String,
    deposit: Vec<SecurityCommitment>,
)
    requires
        deposit_commitment::handle_outcome(before, after, Ok(resp), now, contract_address, sender, deposit),
    ensures
        before.model().commits.contains_key(sender@),
        within_commitment(
            paid_of(before.model(), sender@),
            before.model().commits[sender@].commitments,
            commitments_model(deposit@),
        ),
{
}

/// A commitment is settled only once it was accepted and paid in full; it
/// is then marked settled and its capital is taken out.
pub proof fn law_settlement_needs_full_payment(
    before: ContractStorage,
    after: ContractStorage,
    resp: Response,
    now: u64,
    contract_address: String,
    sender: String,
    commitment: String,
)
    requires
        before.wf(),
        withdraw_commitment::handle_outcome(before, after, Ok(resp), now, contract_address, sender, commitment),
    ensures
        before.model().commits.contains_key(commitment@),
        settles(before.model(), before.model().commits[commitment@]),
        before.model().commits[commitment@].state == CommitmentState::ACCEPTED,
        paid_of(before.model(), commitment@).len() == before.model().commits[commitment@].commitments.len(),
        forall|j: int|
            0 <= j < before.model().commits[commitment@].commitments.len() ==> #[trigger] paid_of(
                before.model(),
                commitment@,
            )[j] == before.model().commits[commitment@].commitments[j],
        after.model().commits[commitment@] == settled(before.model().commits[commitment@]),
        after.model().commits[commitment@].state == CommitmentState::SETTLED,
        !after.model().available.contains_key(commitment@),
{
    let c = before.model().commits[commitment@];
    assert(before.commits_model().contains_key(commitment@));
    assert(c.lp == commitment@);
    assert(paid_of(before.model(), c.lp) == c.commitments);
}

/// A commitment is ready to settle exactly when it is accepted and every
/// committed security has been paid in to the amount committed, entry by
/// entry.
pub proof fn law_settling_is_full_payment(storage: ContractStorage, c: CommitmentModel)
    ensures
        settling(storage, c) <==> (c.state == CommitmentState::ACCEPTED && paid_model(storage, c.lp).len()
            == c.commitments.len() && forall|j: int|
            0 <= j < c.commitments.len() ==> #[trigger] paid_model(storage, c.lp)[j] == c.commitments[j]),
{
    if c.state == CommitmentState::ACCEPTED && paid_model(storage, c.lp).len() == c.commitments.len() && forall|j: int|
        0 <= j < c.commitments.len() ==> #[trigger] paid_model(storage, c.lp)[j] == c.commitments[j] {
        assert(paid_model(storage, c.lp) =~= c.commitments);
    }
}

/// The same for the stored model: a commitment settles exactly when it is
/// accepted and paid in full, entry by entry.
pub proof fn law_settles_is_full_payment(s: StorageModel, c: CommitmentModel)
    ensures
        settles(s, c) <==> (c.state == CommitmentState::ACCEPTED && paid_of(s, c.lp).len() == c.commitments.len()
            && forall|j: int| 0 <= j < c.commitments.len() ==> #[trigger] paid_of(s, c.lp)[j] == c.commitments[j]),
{
    if c.state == CommitmentState::ACCEPTED && paid_of(s, c.lp).len() == c.commitments.len() && forall|j: int|
        0 <= j < c.commitments.len() ==> #[trigger] paid_of(s, c.lp)[j] == c.commitments[j] {
        assert(paid_of(s, c.lp) =~= c.commitments);
    }
}

/// A settlement of a commitment that is not paid in full, for some
/// security, is refused, and nothing changes: nothing is minted or paid.
pub proof fn law_settlement_refused_unless_paid(
    before: ContractStorage,
    after: ContractStorage,
    r: Result<Response, ContractError>,
    now: u64,
    contract_address: String,
    sender: String,
    commitment: String,
    j: int,
)
    requires
        before.wf(),
        withdraw_commitment::handle_outcome(before, after, r, now, contract_address, sender, commitment),
        before.model().commits.contains_key(commitment@),
        0 <= j < before.model().commits[commitment@].commitments.len(),
        j >= paid_of(before.model(), commitment@).len() || paid_of(before.model(), commitment@)[j]
            != before.model().commits[commitment@].commitments[j],
    ensures
        r is Err,
        after == before,
{
    let c = before.model().commits[commitment@];
    assert(before.commits_model().contains_key(commitment@));
    assert(c.lp == commitment@);
    if paid_of(before.model(), c.lp) == c.commitments {
        assert(paid_of(before.model(), commitment@)[j] == c.commitments[j]);
    }
    assert(!settles(before.model(), c));
}


/// The marker addresses of the collaterals that adding the markers records,
/// in order.
pub open spec fn added_addresses(lookups: Seq<MarkerLookup>, sender: Seq<char>, contract: Seq<char>) -> Seq<Seq<char>> {
    lookups.map_values(|l: MarkerLookup| added_collateral(l, sender, contract).marker_address)
}

proof fn lemma_in_prefix_or_last(a: Seq<Seq<char>>, k: Seq<char>)
    requires
        a.len() > 0,
    ensures
        a.contains(k) == (a.drop_last().contains(k) || k == a.last()),
{
    if a.contains(k) {
        let i = choose|i: int| 0 <= i < a.len() && a[i] == k;
        if i < a.len() - 1 {
            assert(a.drop_last()[i] == k);
        }
    }
    if a.drop_last().contains(k) {
        let i = choose|i: int| 0 <= i < a.drop_last().len() && a.drop_last()[i] == k;
        assert(a[i] == k);
    }
    if k == a.last() {
        assert(a[a.len() - 1] == k);
    }
}

/// What storing the collaterals of several markers with distinct addresses
/// leaves in the shared table: each under its address, the rest as it was.
proof fn lemma_inserted_collaterals(
    m: Map<Seq<char>, CapitalRecordModel>,
    ls: Seq<MarkerLookup>,
    sender: Seq<char>,
    contract: Seq<char>,
)
    requires
        added_addresses(ls, sender, contract).no_duplicates(),
    ensures
        forall|k: Seq<char>| #[trigger] insert_collaterals(m, ls, sender, contract).contains_key(k) == (
        m.contains_key(k) || added_addresses(ls, sender, contract).contains(k)),
        forall|j: int|
            0 <= j < ls.len() ==> insert_collaterals(m, ls, sender, contract)[#[trigger] added_addresses(
                ls,
                sender,
                contract,
            )[j]] == CapitalRecordModel::Collateral(added_collateral(ls[j], sender, contract)),
        forall|k: Seq<char>|
            !added_addresses(ls, sender, contract).contains(k) && m.contains_key(k) ==> #[trigger] insert_collaterals(
                m,
                ls,
                sender,
                contract,
            )[k] == m[k],
    decreases ls.len(),
{
    let a = added_addresses(ls, sender, contract);
    if ls.len() > 0 {
        let p = ls.drop_last();
        assert(added_addresses(p, sender, contract) =~= a.drop_last());
        lemma_inserted_collaterals(m, p, sender, contract);
        let inner = insert_collaterals(m, p, sender, contract);
        let c = added_collateral(ls.last(), sender, contract);
        assert(insert_collaterals(m, ls, sender, contract) == inner.insert(c.marker_address, CapitalRecordModel::Collateral(c)));
        assert(a.last() == c.marker_address);
        assert forall|k: Seq<char>| #[trigger] insert_collaterals(m, ls, sender, contract).contains_key(k) == (
            m.contains_key(k) || a.contains(k)) by {
            lemma_in_prefix_or_last(a, k);
        }
        assert forall|j: int| 0 <= j < ls.len() implies insert_collaterals(m, ls, sender, contract)[#[trigger] a[j]]
            == CapitalRecordModel::Collateral(added_collateral(ls[j], sender, contract)) by {
            if j < ls.len() - 1 {
                assert(a[j] != a[ls.len() - 1]);
                assert(a.drop_last()[j] == a[j]);
                assert(p[j] == ls[j]);
            }
        }
        assert forall|k: Seq<char>| !a.contains(k) && m.contains_key(k) implies #[trigger] insert_collaterals(
            m,
            ls,
            sender,
            contract,
        )[k] == m[k] by {
            lemma_in_prefix_or_last(a, k);
        }
    }
}

/// What removing addresses leaves in a table: everything else, as it was.
proof fn lemma_removed_addresses(m: Map<Seq<char>, CapitalRecordModel>, addresses: Seq<Seq<char>>)
    ensures
        forall|k: Seq<char>| #[trigger] remove_addresses(m, addresses).contains_key(k) == (m.contains_key(k)
            && !addresses.contains(k)),
        forall|k: Seq<char>|
            remove_addresses(m, addresses).contains_key(k) ==> #[trigger] remove_addresses(m, addresses)[k] == m[k],
    decreases addresses.len(),
{
    if addresses.len() > 0 {
        lemma_removed_addresses(m, addresses.drop_last());
        let inner = remove_addresses(m, addresses.drop_last());
        assert(remove_addresses(m, addresses) == inner.remove(addresses.last()));
        assert forall|k: Seq<char>| #[trigger] remove_addresses(m, addresses).contains_key(k) == (m.contains_key(k)
            && !addresses.contains(k)) by {
            lemma_in_prefix_or_last(addresses, k);
            assert(inner.contains_key(k) == (m.contains_key(k) && !addresses.drop_last().contains(k)));
        }
        assert forall|k: Seq<char>| remove_addresses(m, addresses).contains_key(k) implies #[trigger] remove_addresses(
            m,
            addresses,
        )[k] == m[k] by {
            assert(inner.contains_key(k));
        }
    }
}

/// Withdrawing the loan pools that were just added, when their addresses
/// are distinct and held nothing before, leaves the shared table as it
/// was.
pub proof fn law_withdraw_undoes_add(
    m: Map<Seq<char>, CapitalRecordModel>,
    lookups: Seq<MarkerLookup>,
    sender: Seq<char>,
    contract: Seq<char>,
)
    requires
        added_addresses(lookups, sender, contract).no_duplicates(),
        forall|j: int| 0 <= j < lookups.len() ==> !m.contains_key(#[trigger] added_addresses(lookups, sender, contract)[j]),
    ensures
        remove_addresses(insert_collaterals(m, lookups, sender, contract), added_addresses(lookups, sender, contract))
            == m,
{
    let a = added_addresses(lookups, sender, contract);
    let inserted = insert_collaterals(m, lookups, sender, contract);
    lemma_inserted_collaterals(m, lookups, sender, contract);
    lemma_removed_addresses(inserted, a);
    assert forall|k: Seq<char>| a.contains(k) implies !m.contains_key(k) by {
        let j = choose|j: int| 0 <= j < a.len() && a[j] == k;
        assert(!m.contains_key(a[j]));
    }
    assert(remove_addresses(inserted, a) =~= m);
}

/// Withdrawing, as the general partner, every loan pool that a contribution
/// just added, with the chain reporting the same markers, succeeds: it
/// answers the same collateral the contribution answered, none of the
/// markers' addresses holds anything afterwards, and everything but the
/// shared table is as it was before the contribution; where the addresses
/// held nothing before, the shared table is as it was too. This holds when
/// the markers' addresses are distinct and the rights recorded for each
/// can be handed back.
pub proof fn law_withdraw_undoes_contribution(
    before: ContractStorage,
    mid: ContractStorage,
    after: ContractStorage,
    added: Response,
    r: Result<Response, ContractError>,
    contract_address: String,
    contributor: String,
    gp: String,
    contributed: ContributeLoanPools,
    lookups: Vec<MarkerLookup>,
    withdrawn: WithdrawLoanPools,
    markers: Vec<Result<MarkerAccount, StdError>>,
)
    requires
        add_loan_pool::handle_outcome(before, mid, Ok(added), contract_address, contributor, contributed, lookups),
        withdraw_loan_pool::handle_outcome(mid, after, r, contract_address, gp, withdrawn, markers),
        before.state matches Some(st) && gp@ == st.gp@,
        markers@ == looked_up_markers(lookups@),
        added_addresses(lookups@, contributor@, contract_address@).no_duplicates(),
        forall|j: int|
            0 <= j < lookups@.len() ==> release_refusal(
                (#[trigger] lookups@[j]).marker->Ok_0.denom@,
                recorded_grants(added_collateral(lookups@[j], contributor@, contract_address@)),
                contract_address@,
            ) is None,
    ensures
        r matches Ok(resp) && (resp.data matches Some(d) && added.data matches Some(e) && collaterals_model(
            d.collaterals@,
        ) == collaterals_model(e.collaterals@)) && attrs_model(resp.attributes@) == withdrawn_attributes(
            lookups@.len(),
            gp@,
        ) && events_model(resp.events@) == withdrawn_events(added_addresses(lookups@, contributor@, contract_address@)),
        forall|j: int|
            0 <= j < lookups@.len() ==> !after.capital_model().contains_key(
                #[trigger] added_addresses(lookups@, contributor@, contract_address@)[j],
            ),
        after == (ContractStorage { capital: after.capital, ..before }),
        (forall|j: int|
            0 <= j < lookups@.len() ==> !before.capital_model().contains_key(
                #[trigger] added_addresses(lookups@, contributor@, contract_address@)[j],
            )) ==> after.capital_model() == before.capital_model(),
{
    let ls = lookups@;
    let s = contributor@;
    let c = contract_address@;
    let a = added_addresses(ls, s, c);
    let ms = markers@;
    assert(whitelist_model(before).contains(s));
    assert(forall|k: int| 0 <= k < ls.len() ==> addition_ok(#[trigger] ls[k], s, c));
    assert(mid.capital_model() == insert_collaterals(before.capital_model(), ls, s, c));
    lemma_inserted_collaterals(before.capital_model(), ls, s, c);
    let capital = mid.capital_model();
    assert forall|k: int| 0 <= k < ms.len() implies #[trigger] looked_up_address(ms[k]) == a[k] && stored_collateral(
        capital,
        ms[k],
    ) == added_collateral(ls[k], s, c) && removal_ok(capital, ms[k], c) by {
        assert(ms[k] == ls[k].marker);
        assert(addition_ok(ls[k], s, c));
        assert(capital[a[k]] == CapitalRecordModel::Collateral(added_collateral(ls[k], s, c)));
        assert(capital.contains_key(a[k]));
    }
    let addresses = ms.map_values(|m: Result<MarkerAccount, StdError>| looked_up_address(m));
    assert(addresses =~= a);
    lemma_removed_addresses(capital, a);
    assert forall|j: int| 0 <= j < ls.len() implies !after.capital_model().contains_key(#[trigger] a[j]) by {
        assert(a.contains(a[j]));
    }
    if forall|j: int| 0 <= j < ls.len() ==> !before.capital_model().contains_key(#[trigger] a[j]) {
        law_withdraw_undoes_add(before.capital_model(), ls, s, c);
    }
    assert(ms.map_values(|m: Result<MarkerAccount, StdError>| stored_collateral(capital, m)) =~= ls.map_values(
        |l: MarkerLookup| added_collateral(l, s, c),
    ));
}

/// Adding addresses to the whitelist and then removing them leaves the
/// whitelist without those addresses, the others in their order.
pub proof fn law_whitelist_add_then_remove(list: Seq<Seq<char>>, added: Seq<Seq<char>>)
    ensures
        (list + added).filter(|a: Seq<char>| !added.contains(a)) == list.filter(|a: Seq<char>| !added.contains(a)),
{
    let p = |a: Seq<char>| !added.contains(a);
    Seq::filter_distributes_over_add(list, added, p);
    if added.filter(p).len() > 0 {
        added.lemma_filter_pred(p, 0);
        let x = added.filter(p)[0];
        assert(p(x));
        added.lemma_filter_contains_rev(p, x);
        assert(added.filter(p).contains(x));
        assert(added.contains(x));
    }
    assert(added.filter(p).len() == 0);
    assert(added.filter(p) =~= Seq::<Seq<char>>::empty());
    assert(list.filter(p) + added.filter(p) =~= list.filter(p));
}

/// The general partner alone manages the contract: accepting and settling
/// commitments, changing the settlement time, withdrawing loan pools and
/// keeping the list of contributors. Anyone else is answered
/// `Unauthorized`, and nothing changes.
pub proof fn law_only_general_partner_manages(
    before: ContractStorage,
    after: ContractStorage,
    r: Result<Response, ContractError>,
    now: u64,
    contract_address: String,
    sender: String,
    msg: ExecuteMsg,
    lookups: Vec<MarkerLookup>,
)
    requires
        route_outcome(before, after, r, now, contract_address, sender, msg, lookups),
        before.state matches Some(st) && st.gp@ != sender@,
        msg is AcceptCommitment || msg is WithdrawCommitment || msg is WithdrawAllCommitments
            || msg is UpdateSettlementTime || msg is WithdrawLoanPool || msg is WhiteListLoanPoolContributors
            || msg is RemoveWhiteListLoanPoolContributors,
    ensures
        r == Err::<Response, ContractError>(ContractError::Unauthorized {}),
        after == before,
{
}

/// A commitment can be cancelled by the general partner or by its own
/// limited partner only; anyone else is answered `Unauthorized`, and
/// nothing changes.
pub proof fn law_cancel_needs_partner(
    before: ContractStorage,
    after: ContractStorage,
    r: Result<Response, ContractError>,
    now: u64,
    contract_address: String,
    sender: String,
    lp: String,
    lookups: Vec<MarkerLookup>,
)
    requires
        route_outcome(before, after, r, now, contract_address, sender, ExecuteMsg::CancelCommitment { lp }, lookups),
        before.state matches Some(st) && st.gp@ != sender@ && lp@ != sender@,
    ensures
        r == Err::<Response, ContractError>(ContractError::Unauthorized {}),
        after == before,
{
}

/// Only a whitelisted contributor can add loan pools; anyone else is
/// answered `NotInWhitelist`, and nothing changes.
pub proof fn law_contribution_needs_whitelist(
    before: ContractStorage,
    after: ContractStorage,
    r: Result<Response, ContractError>,
    now: u64,
    contract_address: String,
    sender: String,
    loan_pools: ContributeLoanPools,
    lookups: Vec<MarkerLookup>,
)
    requires
        route_outcome(
            before,
            after,
            r,
            now,
            contract_address,
            sender,
            ExecuteMsg::ContributeLoanPool { loan_pools },
            lookups,
        ),
        !whitelist_model(before).contains(sender@),
    ensures
        r == Err::<Response, ContractError>(ContractError::NotInWhitelist {}),
        after == before,
{
}

/// A stored commitment reads back as stored, and storing it leaves the
/// commitments of other limited partners as they were.
pub proof fn law_commitment_reads_back(before: ContractStorage, after: ContractStorage, c: Commitment, other: Seq<char>)
    requires
        after.commits_model() == before.commits_model().insert(c.lp@, c@),
    ensures
        after.commits_model().contains_key(c.lp@),
        after.commits_model()[c.lp@] == c@,
        other != c.lp@ ==> after.commits_model().contains_key(other) == before.commits_model().contains_key(other),
        other != c.lp@ && before.commits_model().contains_key(other) ==> after.commits_model()[other]
            == before.commits_model()[other],
{
}

/// Paid-in capital reads back as stored, whatever the shared table held
/// under that address before.
pub proof fn law_paid_in_capital_reads_back(
    before: ContractStorage,
    after: ContractStorage,
    lp: Seq<char>,
    paid: Seq<SecurityCommitmentModel>,
)
    requires
        after.capital_model() == before.capital_model().insert(lp, CapitalRecordModel::PaidInCapital(paid)),
    ensures
        paid_model(after, lp) == paid,
{
}

/// Routing a message does exactly what the handler of its kind does, on the
/// arguments the message carries: the handler's outcome and nothing else,
/// under the handler's own conditions. Acceptances hand on the accepted
/// addresses in order, and withdrawals of loan pools the chain's answer for
/// each marker in order.
pub proof fn law_route_follows_handler(
    before: ContractStorage,
    after: ContractStorage,
    r: Result<Response, ContractError>,
    now: u64,
    contract_address: String,
    sender: String,
    msg: ExecuteMsg,
    lookups: Vec<MarkerLookup>,
    accepted: Vec<String>,
    markers: Vec<Result<MarkerAccount, StdError>>,
)
    ensures
        msg matches ExecuteMsg::ProposeCommitment { securities } ==> (route_outcome(
            before, after, r, now, contract_address, sender, msg, lookups,
        ) == propose_commitment::handle_outcome(before, after, r, now, sender, securities)) && route_admits(
            before, now, contract_address, sender, msg, lookups,
        ),
        msg matches ExecuteMsg::AcceptCommitment { commitments } ==> (accepted@.map_values(|a: String| a@)
            == accepted_lps(commitments@) ==> (route_outcome(before, after, r, now, contract_address, sender, msg, lookups)
            == accept_commitments::handle_outcome(before, after, r, sender, accepted))) && route_admits(
            before, now, contract_address, sender, msg, lookups,
        ),
        msg matches ExecuteMsg::DepositCommitment { securities } ==> (route_outcome(
            before, after, r, now, contract_address, sender, msg, lookups,
        ) == deposit_commitment::handle_outcome(before, after, r, now, contract_address, sender, securities)) && (
        route_admits(before, now, contract_address, sender, msg, lookups) == deposit_commitment::handle_admits(
            before, now, contract_address, sender, securities,
        )),
        msg matches ExecuteMsg::WithdrawCommitment { lp } ==> (route_outcome(
            before, after, r, now, contract_address, sender, msg, lookups,
        ) == withdraw_commitment::handle_outcome(before, after, r, now, contract_address, sender, lp)) && (
        route_admits(before, now, contract_address, sender, msg, lookups) == withdraw_commitment::handle_admits(
            before, now, contract_address, sender, lp,
        )),
        msg is WithdrawAllCommitments ==> (route_outcome(before, after, r, now, contract_address, sender, msg, lookups)
            == withdraw_all_commitments::handle_outcome(before, after, r, now, contract_address, sender)) && (
        route_admits(before, now, contract_address, sender, msg, lookups)
            == withdraw_all_commitments::handle_admits(before, now, contract_address, sender)),
        msg matches ExecuteMsg::UpdateSettlementTime { settlement_time } ==> (route_outcome(
            before, after, r, now, contract_address, sender, msg, lookups,
        ) == update_settlement_time::handle_outcome(before, after, r, sender, settlement_time)) && route_admits(
            before, now, contract_address, sender, msg, lookups,
        ),
        msg matches ExecuteMsg::CancelCommitment { lp } ==> (route_outcome(
            before, after, r, now, contract_address, sender, msg, lookups,
        ) == cancel_commitment::handle_outcome(before, after, r, sender, lp)) && (route_admits(
            before, now, contract_address, sender, msg, lookups,
        ) == cancel_commitment::handle_admits(before, sender, lp)),
        msg matches ExecuteMsg::ContributeLoanPool { loan_pools } ==> (route_outcome(
            before, after, r, now, contract_address, sender, msg, lookups,
        ) == add_loan_pool::handle_outcome(before, after, r, contract_address, sender, loan_pools, lookups)) && (
        route_admits(before, now, contract_address, sender, msg, lookups) == add_loan_pool::handle_admits(
            before, contract_address, sender, loan_pools, lookups,
        )),
        msg matches ExecuteMsg::WithdrawLoanPool { loan_pools } ==> (markers@ == looked_up_markers(lookups@) ==> (
        route_outcome(before, after, r, now, contract_address, sender, msg, lookups)
            == withdraw_loan_pool::handle_outcome(before, after, r, contract_address, sender, loan_pools, markers))
            && (route_admits(before, now, contract_address, sender, msg, lookups)
            == withdraw_loan_pool::handle_admits(before, contract_address, sender, loan_pools, markers))),
        msg matches ExecuteMsg::WhiteListLoanPoolContributors { loan_pool_contributors } ==> (route_outcome(
            before, after, r, now, contract_address, sender, msg, lookups,
        ) == whitelist_loanpool_contributors::handle_outcome(
            before, after, r, sender, loan_pool_contributors.addresses,
        )) && route_admits(before, now, contract_address, sender, msg, lookups),
        msg matches ExecuteMsg::RemoveWhiteListLoanPoolContributors { remove_loan_pool_contributors } ==> (
        route_outcome(before, after, r, now, contract_address, sender, msg, lookups)
            == remove_whitelist_loanpool_contributors::handle_outcome(
            before, after, r, sender, remove_loan_pool_contributors.addresses,
        )) && route_admits(before, now, contract_address, sender, msg, lookups),
{
    match msg {
        ExecuteMsg::AcceptCommitment { commitments } => {
            if accepted@.map_values(|a: String| a@) == accepted_lps(commitments@) {
                if route_outcome(before, after, r, now, contract_address, sender, msg, lookups) {
                    let w = choose|lps: Vec<String>|
                        lps@.map_values(|a: String| a@) == accepted_lps(commitments@)
                            && #[trigger] accept_commitments::handle_outcome(before, after, r, sender, lps);
                    assert(w@.map_values(|a: String| a@) == accepted@.map_values(|a: String| a@));
                    assert(accept_commitments::handle_outcome(before, after, r, sender, accepted));
                }
                if accept_commitments::handle_outcome(before, after, r, sender, accepted) {
                    assert(route_outcome(before, after, r, now, contract_address, sender, msg, lookups));
                }
            }
        },
        ExecuteMsg::WithdrawLoanPool { loan_pools } => {
            if markers@ == looked_up_markers(lookups@) {
                if route_outcome(before, after, r, now, contract_address, sender, msg, lookups) {
                    let w = choose|ms: Vec<Result<MarkerAccount, StdError>>|
                        ms@ == looked_up_markers(lookups@) && #[trigger] withdraw_loan_pool::handle_outcome(
                            before, after, r, contract_address, sender, loan_pools, ms,
                        );
                    assert(w@ == markers@);
                    assert(withdraw_loan_pool::handle_outcome(
                        before, after, r, contract_address, sender, loan_pools, markers,
                    ));
                }
                if withdraw_loan_pool::handle_outcome(before, after, r, contract_address, sender, loan_pools, markers) {
                    assert(route_outcome(before, after, r, now, contract_address, sender, msg, lookups));
                }
            }
        },
        _ => {},
    }
}

} // verus!
