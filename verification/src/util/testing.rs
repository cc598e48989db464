//! Values and steps that exercise the contract: a configured general
//! partner, two securities, and each message sent as an address would.

use vstd::prelude::*;
use crate::common::error::ContractError;
use crate::common::msg::{ExecuteMsg, InstantiateMsg};
use crate::common::response::Response;
use crate::contract::{execute, instantiate, instantiate_outcome};
use crate::execute::router::{route_admits, route_outcome};
use crate::execute::settlement::{deposit_commitment, withdraw_commitment};
use crate::util::provenance_utilities::MarkerLookup;
use crate::common::security::{
    AcceptedCommitment, Coin, CoinModel, FundSecurity, Security, SecurityCommitment, SecurityCommitmentModel,
    SecurityModel, SecurityType, commitments_model, securities_model,
};
use crate::common::text::{concat, decimal_text, u128_text};
use crate::storage::ContractStorage;
use crate::storage::state::{self, State, StateModel};

verus! {

/// The address the contract runs under in these steps.
pub const MOCK_CONTRACT_ADDR: &'static str = "cosmos2contract";

/// The block time, in seconds, of these steps.
pub const MOCK_BLOCK_TIME: u64 = 1571797419;

/// Builds security commitments named `Security1`, `Security2`, and so on.
pub struct SettlementTester {
    pub security_commitments: Vec<SecurityCommitment>,
}

/// The name of the `n`th test security.
pub open spec fn security_name(n: nat) -> Seq<char> {
    "Security"@ + decimal_text(n)
}

impl SettlementTester {
    /// A tester with no commitments yet.
    pub fn new() -> (t: Self)
        ensures
            t.security_commitments@.len() == 0,
    {
        SettlementTester { security_commitments: Vec::new() }
    }

    /// Stores a configuration with general partner `gp`, capital
    /// denomination `denom` and no settlement time.
    pub fn setup_test_state(&self, storage: &mut ContractStorage)
        ensures
            final(storage).state matches Some(s) && s@ == (StateModel {
                gp: "gp"@,
                capital_denom: "denom"@,
                settlement_time: None,
            }),
            *final(storage) == (ContractStorage { state: final(storage).state, ..*old(storage) }),
    {
        let st = State { gp: "gp".to_owned(), capital_denom: "denom".to_owned(), settlement_time: None };
        let _ = state::set(storage, &st);
    }

    /// Appends `amount` commitments; the one at position `i` is named
    /// `Security{i + 1}` and commits `i + 11`.
    pub fn create_security_commitments(&mut self, amount: u32)
        requires
            old(self).security_commitments@.len() + amount < u64::MAX,
        ensures
            final(self).security_commitments@.len() == old(self).security_commitments@.len() + amount,
            forall|i: int|
                0 <= i < old(self).security_commitments@.len() ==> #[trigger] final(self).security_commitments@[i]
                    == old(self).security_commitments@[i],
            forall|i: int|
                old(self).security_commitments@.len() <= i < final(self).security_commitments@.len() ==> (
                #[trigger] final(self).security_commitments@[i])@ == (SecurityCommitmentModel {
                    name: security_name((i + 1) as nat),
                    amount: (i + 11) as u128,
                }),
    {
        let ghost start = self.security_commitments@;
        for k in 0..amount
            invariant
                self.security_commitments@.len() == start.len() + k,
                start.len() + amount < u64::MAX,
                forall|i: int| 0 <= i < start.len() ==> #[trigger] self.security_commitments@[i] == start[i],
                forall|i: int|
                    start.len() <= i < self.security_commitments@.len() ==> (#[trigger] self.security_commitments@[i])@
                        == (SecurityCommitmentModel { name: security_name((i + 1) as nat), amount: (i + 11) as u128 }),
        {
            let count = self.security_commitments.len() as u128;
            let number = u128_text(count + 1);
            let name = concat("Security", number.as_str());
            self.security_commitments.push(SecurityCommitment { name, amount: count + 11 });
        }
    }
}

impl Default for SettlementTester {
    fn default() -> (t: Self)
        ensures
            t.security_commitments@.len() == 0,
    {
        SettlementTester::new()
    }
}

/// The two securities offered in these steps.
pub open spec fn test_securities() -> Seq<SecurityModel> {
    seq![
        SecurityModel {
            name: "Security1"@,
            amount: 1000,
            security_type: SecurityType::Fund(FundSecurity {}),
            minimum_amount: 10,
            price_per_unit: CoinModel { denom: "denom"@, amount: 100 },
        },
        SecurityModel {
            name: "Security2"@,
            amount: 1000,
            security_type: SecurityType::Fund(FundSecurity {}),
            minimum_amount: 10,
            price_per_unit: CoinModel { denom: "denom"@, amount: 100 },
        },
    ]
}

/// The two securities offered in these steps.
pub fn create_test_securities() -> (r: Vec<Security>)
    ensures
        securities_model(r@) == test_securities(),
{
    let mut r: Vec<Security> = Vec::new();
    r.push(
        Security {
            name: "Security1".to_owned(),
            amount: 1000,
            security_type: SecurityType::Fund(FundSecurity {}),
            minimum_amount: 10,
            price_per_unit: Coin { denom: "denom".to_owned(), amount: 100 },
        },
    );
    r.push(
        Security {
            name: "Security2".to_owned(),
            amount: 1000,
            security_type: SecurityType::Fund(FundSecurity {}),
            minimum_amount: 10,
            price_per_unit: Coin { denom: "denom".to_owned(), amount: 100 },
        },
    );
    assert(securities_model(r@) =~= test_securities());
    r
}

/// The set-up message of these steps: general partner `gp`, the two
/// securities, capital in `denom`, no settlement time and no fee.
pub fn test_init_message() -> (m: InstantiateMsg)
    ensures
        m.gp@ == "gp"@,
        securities_model(m.securities@) == test_securities(),
        m.capital_denom@ == "denom"@,
        m.settlement_time is None,
        m.fee is None,
{
    InstantiateMsg {
        gp: "gp".to_owned(),
        securities: create_test_securities(),
        capital_denom: "denom".to_owned(),
        settlement_time: None,
        fee: None,
    }
}

/// One hundred of each test security.
pub open spec fn test_commitments() -> Seq<SecurityCommitmentModel> {
    seq![
        SecurityCommitmentModel { name: "Security1"@, amount: 100 },
        SecurityCommitmentModel { name: "Security2"@, amount: 100 },
    ]
}

/// One hundred of each test security.
pub fn test_security_commitments() -> (r: Vec<SecurityCommitment>)
    ensures
        commitments_model(r@) == test_commitments(),
{
    let mut r: Vec<SecurityCommitment> = Vec::new();
    r.push(SecurityCommitment { name: "Security1".to_owned(), amount: 100 });
    r.push(SecurityCommitment { name: "Security2".to_owned(), amount: 100 });
    assert(commitments_model(r@) =~= test_commitments());
    r
}

/// A proposal of the test commitments.
pub fn test_propose_message() -> (m: ExecuteMsg)
    ensures
        m matches ExecuteMsg::ProposeCommitment { securities } && commitments_model(securities@) == test_commitments(),
{
    ExecuteMsg::ProposeCommitment { securities: test_security_commitments() }
}

/// Acceptances of the test commitments of each listed address.
pub fn test_create_accepted_commitments(lps: &[&str]) -> (r: Vec<AcceptedCommitment>)
    ensures
        r@.len() == lps@.len(),
        forall|i: int| 0 <= i < lps@.len() ==> (#[trigger] r@[i]).lp@ == lps@[i]@ && commitments_model(r@[i].securities@)
            == test_commitments(),
{
    let mut r: Vec<AcceptedCommitment> = Vec::new();
    for i in 0..lps.len()
        invariant
            r@.len() == i,
            forall|j: int| 0 <= j < i ==> (#[trigger] r@[j]).lp@ == lps@[j]@ && commitments_model(r@[j].securities@)
                == test_commitments(),
    {
        r.push(AcceptedCommitment { lp: lps[i].to_owned(), securities: test_security_commitments() });
    }
    r
}

/// Whether acceptances are of the test commitments of the listed
/// addresses, in order.
pub open spec fn accepting(commitments: Seq<AcceptedCommitment>, lps: Seq<&str>) -> bool {
    &&& commitments.len() == lps.len()
    &&& forall|i: int|
        0 <= i < lps.len() ==> (#[trigger] commitments[i]).lp@ == lps[i]@ && commitments_model(commitments[i].securities@)
            == test_commitments()
}

/// An acceptance of the test commitments of the listed addresses.
pub fn test_accept_message(lps: &[&str]) -> (m: ExecuteMsg)
    ensures
        m matches ExecuteMsg::AcceptCommitment { commitments } && accepting(commitments@, lps@),
{
    ExecuteMsg::AcceptCommitment { commitments: test_create_accepted_commitments(lps) }
}

/// A cancellation of an address's commitment.
pub fn test_cancel_message(lp: &str) -> (m: ExecuteMsg)
    ensures
        m matches ExecuteMsg::CancelCommitment { lp: a } && a@ == lp@,
{
    ExecuteMsg::CancelCommitment { lp: lp.to_owned() }
}

/// A deposit of the given amounts.
pub fn test_deposit_message(deposit: &[SecurityCommitment]) -> (m: ExecuteMsg)
    ensures
        m matches ExecuteMsg::DepositCommitment { securities } && commitments_model(securities@) == commitments_model(
            deposit@,
        ),
{
    let mut securities: Vec<SecurityCommitment> = Vec::new();
    for i in 0..deposit.len()
        invariant
            securities@.len() == i,
            forall|j: int| 0 <= j < i ==> (#[trigger] securities@[j])@ == deposit@[j]@,
    {
        securities.push(deposit[i].clone());
    }
    assert(commitments_model(securities@) =~= commitments_model(deposit@));
    ExecuteMsg::DepositCommitment { securities }
}

/// A settlement of an address's commitment.
pub fn test_withdraw_message(lp: &str) -> (m: ExecuteMsg)
    ensures
        m matches ExecuteMsg::WithdrawCommitment { lp: a } && a@ == lp@,
{
    ExecuteMsg::WithdrawCommitment { lp: lp.to_owned() }
}

/// A settlement of every accepted commitment.
pub fn test_withdraw_all_commitments_message() -> (m: ExecuteMsg)
    ensures
        m is WithdrawAllCommitments,
{
    ExecuteMsg::WithdrawAllCommitments {}
}

/// A change of the settlement time to 99999.
pub fn test_update_settlement_time_message() -> (m: ExecuteMsg)
    ensures
        m == (ExecuteMsg::UpdateSettlementTime { settlement_time: Some(99999) }),
{
    ExecuteMsg::UpdateSettlementTime { settlement_time: Some(99999) }
}

/// Stores a configuration with general partner `gp` and capital
/// denomination `denom`, settling a day after `now` or never.
pub fn create_test_state(storage: &mut ContractStorage, now: u64, has_settlement: bool)
    requires
        now <= u64::MAX - 86400,
    ensures
        final(storage).state matches Some(s) && s@ == (StateModel {
            gp: "gp"@,
            capital_denom: "denom"@,
            settlement_time: if has_settlement { Some((now + 86400) as u64) } else { None },
        }),
        *final(storage) == (ContractStorage { state: final(storage).state, ..*old(storage) }),
{
    let settlement_time = if has_settlement { Some(86400 + now) } else { None };
    let st = State::new("gp".to_owned(), "denom".to_owned(), settlement_time);
    let _ = state::set(storage, &st);
}

/// Whether handling a message of the given shape, sent by `sender` to the
/// contract at `MOCK_CONTRACT_ADDR` with no marker answers, left `after`
/// and answered `r`.
pub open spec fn executed(
    before: ContractStorage,
    after: ContractStorage,
    r: Result<Response, ContractError>,
    now: u64,
    sender: Seq<char>,
    sent: spec_fn(ExecuteMsg) -> bool,
) -> bool {
    exists|ca: String, s: String, msg: ExecuteMsg, lookups: Vec<MarkerLookup>|
        ca@ == MOCK_CONTRACT_ADDR@ && s@ == sender && lookups@.len() == 0 && sent(msg) && #[trigger] route_outcome(
            before,
            after,
            r,
            now,
            ca,
            s,
            msg,
            lookups,
        )
}

/// Whether the contract's handler can take every message of the given
/// shape sent by `sender`.
pub open spec fn admitted(before: ContractStorage, now: u64, sender: Seq<char>, sent: spec_fn(ExecuteMsg) -> bool) -> bool {
    forall|ca: String, s: String, msg: ExecuteMsg, lookups: Vec<MarkerLookup>|
        ca@ == MOCK_CONTRACT_ADDR@ && s@ == sender && lookups@.len() == 0 && sent(msg) ==> #[trigger] route_admits(
            before,
            now,
            ca,
            s,
            msg,
            lookups,
        )
}

/// A proposal of the test commitments.
pub open spec fn is_test_proposal(m: ExecuteMsg) -> bool {
    m matches ExecuteMsg::ProposeCommitment { securities } && commitments_model(securities@) == test_commitments()
}

/// An acceptance of the test commitments of the listed addresses.
pub open spec fn is_test_acceptance(m: ExecuteMsg, lps: Seq<&str>) -> bool {
    m matches ExecuteMsg::AcceptCommitment { commitments } && accepting(commitments@, lps)
}

/// A deposit of the given amounts.
pub open spec fn is_test_deposit(m: ExecuteMsg, deposit: Seq<SecurityCommitmentModel>) -> bool {
    m matches ExecuteMsg::DepositCommitment { securities } && commitments_model(securities@) == deposit
}

/// A settlement of an address's commitment.
pub open spec fn is_test_withdrawal(m: ExecuteMsg, lp: Seq<char>) -> bool {
    m matches ExecuteMsg::WithdrawCommitment { lp: a } && a@ == lp
}

/// A cancellation of an address's commitment.
pub open spec fn is_test_cancellation(m: ExecuteMsg, lp: Seq<char>) -> bool {
    m matches ExecuteMsg::CancelCommitment { lp: a } && a@ == lp
}

/// Messages proposing the test commitments.
pub open spec fn proposal_shape() -> spec_fn(ExecuteMsg) -> bool {
    |m: ExecuteMsg| is_test_proposal(m)
}

/// Messages accepting the test commitments of the listed addresses.
pub open spec fn acceptance_shape(lps: Seq<&str>) -> spec_fn(ExecuteMsg) -> bool {
    |m: ExecuteMsg| is_test_acceptance(m, lps)
}

/// Messages cancelling an address's commitment.
pub open spec fn cancellation_shape(lp: Seq<char>) -> spec_fn(ExecuteMsg) -> bool {
    |m: ExecuteMsg| is_test_cancellation(m, lp)
}

/// Messages depositing the given amounts.
pub open spec fn deposit_shape(deposit: Seq<SecurityCommitmentModel>) -> spec_fn(ExecuteMsg) -> bool {
    |m: ExecuteMsg| is_test_deposit(m, deposit)
}

/// Messages settling an address's commitment.
pub open spec fn withdrawal_shape(lp: Seq<char>) -> spec_fn(ExecuteMsg) -> bool {
    |m: ExecuteMsg| is_test_withdrawal(m, lp)
}

/// Messages settling every accepted commitment.
pub open spec fn withdraw_all_shape() -> spec_fn(ExecuteMsg) -> bool {
    |m: ExecuteMsg| m is WithdrawAllCommitments
}

/// Messages changing the settlement time to 99999.
pub open spec fn settlement_time_shape() -> spec_fn(ExecuteMsg) -> bool {
    |m: ExecuteMsg| m == (ExecuteMsg::UpdateSettlementTime { settlement_time: Some(99999) })
}

/// Sets the contract up as the address `sender` would, with the test
/// set-up message and no funds, under `MOCK_CONTRACT_ADDR`.
pub fn instantiate_contract(storage: &mut ContractStorage) -> (r: Result<Response, ContractError>)
    requires
        old(storage).wf(),
    ensures
        final(storage).wf(),
        exists|ca: String, funds: Seq<Coin>, msg: InstantiateMsg|
            ca@ == MOCK_CONTRACT_ADDR@ && funds.len() == 0 && msg.gp@ == "gp"@ && securities_model(msg.securities@)
                == test_securities() && msg.capital_denom@ == "denom"@ && msg.settlement_time is None && msg.fee is None
                && #[trigger] instantiate_outcome(*old(storage), *final(storage), r, ca, funds, msg),
{
    let ca = MOCK_CONTRACT_ADDR.to_owned();
    let msg = test_init_message();
    let ghost gca = ca;
    let ghost gmsg = msg;
    let funds: Vec<Coin> = Vec::new();
    let r = instantiate(storage, ca, funds.as_slice(), msg);
    assert(instantiate_outcome(*old(storage), *storage, r, gca, funds@, gmsg));
    r
}

/// `sender` proposes the test commitments at block time `now`.
pub fn propose_test_commitment(storage: &mut ContractStorage, now: u64, sender: &str) -> (r: Result<
    Response,
    ContractError,
>)
    requires
        old(storage).wf(),
    ensures
        final(storage).wf(),
        executed(*old(storage), *final(storage), r, now, sender@, proposal_shape()),
{
    let msg = test_propose_message();
    send(storage, now, sender, msg, Ghost(proposal_shape()))
}

/// `sender` accepts the test commitments of the listed addresses.
pub fn accept_test_commitment(storage: &mut ContractStorage, now: u64, sender: &str, lps: &[&str]) -> (r: Result<
    Response,
    ContractError,
>)
    requires
        old(storage).wf(),
    ensures
        final(storage).wf(),
        executed(*old(storage), *final(storage), r, now, sender@, acceptance_shape(lps@)),
{
    let msg = test_accept_message(lps);
    send(storage, now, sender, msg, Ghost(acceptance_shape(lps@)))
}

/// `sender` cancels the commitment of `lp`.
pub fn cancel_test(storage: &mut ContractStorage, now: u64, sender: &str, lp: &str) -> (r: Result<
    Response,
    ContractError,
>)
    requires
        old(storage).wf(),
        admitted(*old(storage), now, sender@, cancellation_shape(lp@)),
    ensures
        final(storage).wf(),
        executed(*old(storage), *final(storage), r, now, sender@, cancellation_shape(lp@)),
{
    let msg = test_cancel_message(lp);
    send(storage, now, sender, msg, Ghost(cancellation_shape(lp@)))
}

/// `sender` deposits the given amounts, sending no funds.
pub fn deposit_test(storage: &mut ContractStorage, now: u64, sender: &str, deposit: &[SecurityCommitment]) -> (r:
    Result<Response, ContractError>)
    requires
        old(storage).wf(),
        admitted(*old(storage), now, sender@, deposit_shape(commitments_model(deposit@))),
    ensures
        final(storage).wf(),
        executed(
            *old(storage),
            *final(storage),
            r,
            now,
            sender@,
            deposit_shape(commitments_model(deposit@)),
        ),
{
    let msg = test_deposit_message(deposit);
    send(storage, now, sender, msg, Ghost(deposit_shape(commitments_model(deposit@))))
}

/// `sender` settles the commitment of `lp`.
pub fn withdraw_test(storage: &mut ContractStorage, now: u64, sender: &str, lp: &str) -> (r: Result<
    Response,
    ContractError,
>)
    requires
        old(storage).wf(),
        admitted(*old(storage), now, sender@, withdrawal_shape(lp@)),
    ensures
        final(storage).wf(),
        executed(*old(storage), *final(storage), r, now, sender@, withdrawal_shape(lp@)),
{
    let msg = test_withdraw_message(lp);
    send(storage, now, sender, msg, Ghost(withdrawal_shape(lp@)))
}

/// `sender` settles every accepted commitment.
pub fn withdraw_all_commitments_test(storage: &mut ContractStorage, now: u64, sender: &str) -> (r: Result<
    Response,
    ContractError,
>)
    requires
        old(storage).wf(),
        admitted(*old(storage), now, sender@, withdraw_all_shape()),
    ensures
        final(storage).wf(),
        executed(*old(storage), *final(storage), r, now, sender@, withdraw_all_shape()),
{
    let msg = test_withdraw_all_commitments_message();
    send(storage, now, sender, msg, Ghost(withdraw_all_shape()))
}

/// `sender` changes the settlement time to 99999.
pub fn update_settlement_time_test(storage: &mut ContractStorage, now: u64, sender: &str) -> (r: Result<
    Response,
    ContractError,
>)
    requires
        old(storage).wf(),
    ensures
        final(storage).wf(),
        executed(
            *old(storage),
            *final(storage),
            r,
            now,
            sender@,
            settlement_time_shape(),
        ),
{
    let msg = test_update_settlement_time_message();
    send(
        storage,
        now,
        sender,
        msg,
        Ghost(settlement_time_shape()),
    )
}

/// Sends a message of a shape as `sender`, under `MOCK_CONTRACT_ADDR` and
/// with no marker answers.
fn send(
    storage: &mut ContractStorage,
    now: u64,
    sender: &str,
    msg: ExecuteMsg,
    Ghost(sent): Ghost<spec_fn(ExecuteMsg) -> bool>,
) -> (r: Result<Response, ContractError>)
    requires
        old(storage).wf(),
        sent(msg),
        admitted(*old(storage), now, sender@, sent) || !requires_admission(msg),
    ensures
        final(storage).wf(),
        executed(*old(storage), *final(storage), r, now, sender@, sent),
{
    let ca = MOCK_CONTRACT_ADDR.to_owned();
    let s = sender.to_owned();
    let lookups: Vec<MarkerLookup> = Vec::new();
    let ghost (gca, gs, gmsg, gl) = (ca, s, msg, lookups);
    assert(route_admits(*old(storage), now, gca, gs, gmsg, gl));
    let r = execute(storage, now, ca, s, msg, lookups);
    assert(route_outcome(*old(storage), *storage, r, now, gca, gs, gmsg, gl));
    r
}

/// Whether the handler of a message kind asks anything of the stored
/// values.
pub open spec fn requires_admission(m: ExecuteMsg) -> bool {
    match m {
        ExecuteMsg::DepositCommitment { .. } => true,
        ExecuteMsg::WithdrawCommitment { .. } => true,
        ExecuteMsg::WithdrawAllCommitments {} => true,
        ExecuteMsg::CancelCommitment { .. } => true,
        ExecuteMsg::ContributeLoanPool { .. } => true,
        ExecuteMsg::WithdrawLoanPool { .. } => true,
        _ => false,
    }
}

/// The addresses that propose in the test run, in order.
pub open spec fn proposing_lps() -> Seq<Seq<char>> {
    seq!["lp1"@, "lp2"@, "lp3"@, "lp4"@, "lp5"@, "lp6"@, "lp7"@]
}

/// Half of each test commitment.
pub open spec fn half_commitments() -> Seq<SecurityCommitmentModel> {
    seq![
        SecurityCommitmentModel { name: "Security1"@, amount: 50 },
        SecurityCommitmentModel { name: "Security2"@, amount: 50 },
    ]
}

/// The sender of each step of the test run: `lp1` to `lp7` propose, the
/// general partner accepts, `lp1`, `lp2` and `lp7` deposit, and the general
/// partner settles.
pub open spec fn step_sender(i: int) -> Seq<char> {
    if i < 7 {
        proposing_lps()[i]
    } else if i == 7 {
        "gp"@
    } else if i == 8 {
        "lp1"@
    } else if i == 9 {
        "lp2"@
    } else if i == 10 {
        "lp7"@
    } else {
        "gp"@
    }
}

/// The message of each step of the test run: proposals of the test
/// commitments, the acceptance of `lp1`, `lp2`, `lp3` and `lp7`, full
/// deposits by `lp1` and `lp7` and a half one by `lp2`, and the settlement
/// of `lp7`.
pub open spec fn step_shape(i: int) -> spec_fn(ExecuteMsg) -> bool {
    if i < 7 {
        proposal_shape()
    } else if i == 7 {
        acceptance_shape(seq!["lp1", "lp2", "lp3", "lp7"])
    } else if i == 8 {
        deposit_shape(test_commitments())
    } else if i == 9 {
        deposit_shape(half_commitments())
    } else if i == 10 {
        deposit_shape(test_commitments())
    } else {
        withdrawal_shape("lp7"@)
    }
}

/// The number of steps of the test run.
pub open spec fn step_count() -> int {
    12
}

/// Whether the stored values `s` and answers `r` are those of the first
/// `r.len()` steps of the test run, each taken and successful.
pub open spec fn steps_taken(now: u64, s: Seq<ContractStorage>, r: Seq<Response>) -> bool {
    &&& s.len() == r.len() + 1
    &&& r.len() <= step_count()
    &&& forall|i: int|
        0 <= i < r.len() ==> #[trigger] executed(s[i], s[i + 1], Ok(r[i]), now, step_sender(i), step_shape(i))
}

/// Whether the test run leads from `before` to `after`, every step
/// succeeding.
pub open spec fn testing_commitments_made(before: ContractStorage, after: ContractStorage, now: u64) -> bool {
    exists|s: Seq<ContractStorage>, r: Seq<Response>|
        #[trigger] steps_taken(now, s, r) && r.len() == step_count() && s[0] == before && s[r.len() as int]
            == after
}

/// Whether the test run, from `before`, took its first `r.len()` steps and
/// stopped at the next: that step was refused with `e`, leaving `after`,
/// or (with no error) the contract could not take it and nothing changed.
pub open spec fn stopped_at(
    before: ContractStorage,
    after: ContractStorage,
    now: u64,
    s: Seq<ContractStorage>,
    r: Seq<Response>,
    e: Option<ContractError>,
) -> bool {
    let k = r.len() as int;
    &&& steps_taken(now, s, r)
    &&& k < step_count()
    &&& s[0] == before
    &&& match e {
        Some(err) => executed(s[k], after, Err(err), now, step_sender(k), step_shape(k)),
        None => after == s[k] && !admitted(s[k], now, step_sender(k), step_shape(k)),
    }
}

/// Whether the test run from `before` stopped early, leaving `after`.
pub open spec fn testing_commitments_stopped(before: ContractStorage, after: ContractStorage, now: u64) -> bool {
    exists|s: Seq<ContractStorage>, r: Seq<Response>, e: Option<ContractError>|
        #[trigger] stopped_at(before, after, now, s, r, e)
}

/// Whether every deposit message of the amounts, sent by `sender`, can be
/// taken.
fn deposit_admitted(storage: &ContractStorage, now: u64, sender: &str, deposit: &Vec<SecurityCommitment>) -> (b: bool)
    requires
        storage.wf(),
    ensures
        b == admitted(*storage, now, sender@, deposit_shape(commitments_model(deposit@))),
{
    let ca = MOCK_CONTRACT_ADDR.to_owned();
    let s = sender.to_owned();
    let b = deposit_commitment::handle_admitted(storage, now, &ca, &s, deposit);
    let lookups: Vec<MarkerLookup> = Vec::new();
    proof {
        let d = commitments_model(deposit@);
        if !b {
            let msg = ExecuteMsg::DepositCommitment { securities: *deposit };
            assert(deposit_shape(d)(msg));
            assert(!route_admits(*storage, now, ca, s, msg, lookups));
        }
    }
    b
}

/// Whether every settlement message for `lp`, sent by `sender`, can be
/// taken.
fn withdrawal_admitted(storage: &ContractStorage, now: u64, sender: &str, lp: &str) -> (b: bool)
    requires
        storage.wf(),
    ensures
        b == admitted(*storage, now, sender@, withdrawal_shape(lp@)),
{
    let ca = MOCK_CONTRACT_ADDR.to_owned();
    let s = sender.to_owned();
    let l = lp.to_owned();
    let b = withdraw_commitment::handle_admitted(storage, now, &ca, &s, &l);
    let lookups: Vec<MarkerLookup> = Vec::new();
    proof {
        if !b {
            let msg = ExecuteMsg::WithdrawCommitment { lp: l };
            assert(withdrawal_shape(lp@)(msg));
            assert(!route_admits(*storage, now, ca, s, msg, lookups));
        }
    }
    b
}

/// Runs the test steps: `lp1` to `lp7` propose, the general partner
/// accepts `lp1`, `lp2`, `lp3` and `lp7`, `lp1` and `lp7` deposit in full
/// and `lp2` half, and the general partner settles `lp7`. Answers whether
/// every step was taken and succeeded; otherwise it stopped at the first
/// step that was refused or that the contract could not take.
pub fn create_testing_commitments(storage: &mut ContractStorage, now: u64) -> (b: bool)
    requires
        old(storage).wf(),
    ensures
        final(storage).wf(),
        b ==> testing_commitments_made(*old(storage), *final(storage), now),
        !b ==> testing_commitments_stopped(*old(storage), *final(storage), now),
{
    let ghost mut states: Seq<ContractStorage> = seq![*storage];
    let ghost mut answers: Seq<Response> = Seq::empty();
    let lps: [&str; 7] = ["lp1", "lp2", "lp3", "lp4", "lp5", "lp6", "lp7"];
    assert(lps@.map_values(|l: &str| l@) =~= proposing_lps());
    for i in 0..7
        invariant
            storage.wf(),
            lps@.map_values(|l: &str| l@) == proposing_lps(),
            answers.len() == i,
            states[0] == *old(storage),
            states[i as int] == *storage,
            steps_taken(now, states, answers),
    {
        assert(lps@.map_values(|l: &str| l@)[i as int] == lps@[i as int]@);
        let ghost before = *storage;
        match propose_test_commitment(storage, now, lps[i]) {
            Ok(resp) => {
                proof {
                    record_step(now, states, answers, *storage, resp);
                    states = states.push(*storage);
                    answers = answers.push(resp);
                }
            },
            Err(e) => {
                proof {
                    assert(stopped_at(*old(storage), *storage, now, states, answers, Some(e)));
                }
                return false;
            },
        }
    }
    let accepted: [&str; 4] = ["lp1", "lp2", "lp3", "lp7"];
    assert(accepted@ =~= seq!["lp1", "lp2", "lp3", "lp7"]);
    match accept_test_commitment(storage, now, "gp", accepted.as_slice()) {
        Ok(resp) => {
            proof {
                record_step(now, states, answers, *storage, resp);
                states = states.push(*storage);
                answers = answers.push(resp);
            }
        },
        Err(e) => {
            proof {
                assert(stopped_at(*old(storage), *storage, now, states, answers, Some(e)));
            }
            return false;
        },
    }
    let full = test_security_commitments();
    if !deposit_admitted(storage, now, "lp1", &full) {
        proof {
            assert(stopped_at(*old(storage), *storage, now, states, answers, None));
        }
        return false;
    }
    match deposit_test(storage, now, "lp1", full.as_slice()) {
        Ok(resp) => {
            proof {
                record_step(now, states, answers, *storage, resp);
                states = states.push(*storage);
                answers = answers.push(resp);
            }
        },
        Err(e) => {
            proof {
                assert(stopped_at(*old(storage), *storage, now, states, answers, Some(e)));
            }
            return false;
        },
    }
    let mut partial: Vec<SecurityCommitment> = Vec::new();
    partial.push(SecurityCommitment { name: "Security1".to_owned(), amount: 100 / 2 });
    partial.push(SecurityCommitment { name: "Security2".to_owned(), amount: 100 / 2 });
    assert(commitments_model(partial@) =~= half_commitments());
    if !deposit_admitted(storage, now, "lp2", &partial) {
        proof {
            assert(stopped_at(*old(storage), *storage, now, states, answers, None));
        }
        return false;
    }
    match deposit_test(storage, now, "lp2", partial.as_slice()) {
        Ok(resp) => {
            proof {
                record_step(now, states, answers, *storage, resp);
                states = states.push(*storage);
                answers = answers.push(resp);
            }
        },
        Err(e) => {
            proof {
                assert(stopped_at(*old(storage), *storage, now, states, answers, Some(e)));
            }
            return false;
        },
    }
    let full = test_security_commitments();
    if !deposit_admitted(storage, now, "lp7", &full) {
        proof {
            assert(stopped_at(*old(storage), *storage, now, states, answers, None));
        }
        return false;
    }
    match deposit_test(storage, now, "lp7", full.as_slice()) {
        Ok(resp) => {
            proof {
                record_step(now, states, answers, *storage, resp);
                states = states.push(*storage);
                answers = answers.push(resp);
            }
        },
        Err(e) => {
            proof {
                assert(stopped_at(*old(storage), *storage, now, states, answers, Some(e)));
            }
            return false;
        },
    }
    if !withdrawal_admitted(storage, now, "gp", "lp7") {
        proof {
            assert(stopped_at(*old(storage), *storage, now, states, answers, None));
        }
        return false;
    }
    match withdraw_test(storage, now, "gp", "lp7") {
        Ok(resp) => {
            proof {
                record_step(now, states, answers, *storage, resp);
                states = states.push(*storage);
                answers = answers.push(resp);
            }
        },
        Err(e) => {
            proof {
                assert(stopped_at(*old(storage), *storage, now, states, answers, Some(e)));
            }
            return false;
        },
    }
    assert(steps_taken(now, states, answers) && answers.len() == step_count() && states[0] == *old(storage)
        && states[answers.len() as int] == *storage);
    true
}

/// Appending a successful next step keeps a record of the run.
proof fn record_step(now: u64, s: Seq<ContractStorage>, r: Seq<Response>, after: ContractStorage, resp: Response)
    requires
        steps_taken(now, s, r),
        r.len() < step_count(),
        executed(s[r.len() as int], after, Ok(resp), now, step_sender(r.len() as int), step_shape(r.len() as int)),
    ensures
        steps_taken(now, s.push(after), r.push(resp)),
{
    let s2 = s.push(after);
    let r2 = r.push(resp);
    assert forall|i: int| 0 <= i < r2.len() implies #[trigger] executed(
        s2[i],
        s2[i + 1],
        Ok(r2[i]),
        now,
        step_sender(i),
        step_shape(i),
    ) by {
        if i < r.len() {
            assert(executed(s[i], s[i + 1], Ok(r[i]), now, step_sender(i), step_shape(i)));
        }
    }
}

} // verus!
