//! The subscription broker: it takes payment for a name, keeps it in escrow
//! and asks its paired registry to record or drop the name.
use crate::common::{
    empty_response, outcome, text_result, Coin, ContractError, Env, MsgView, OutMsg, Response,
};
use crate::name_service;
use crate::name_service::{CallView, NameView};
use vstd::prelude::*;

verus! {

/// The only currency the broker accepts.
pub const LUNA: &'static str = "uluna";

/// An escrowed amount.
#[derive(Debug, PartialEq, Eq)]
pub struct Money {
    pub amount: u128,
}

/// A payer.
#[derive(Debug, PartialEq, Eq)]
pub struct Person {
    pub address: String,
}

/// A name asked for by a subscriber.
#[derive(Debug, PartialEq, Eq)]
pub struct Name {
    pub name: String,
}

/// The broker's configuration: who built it and which registry it drives.
#[derive(Debug, PartialEq, Eq)]
pub struct Config {
    pub owner: String,
    pub name_service_address: String,
}

/// Construction message of the broker.
#[derive(Debug, PartialEq, Eq)]
pub struct InitMsg {
    pub nameservice_code_id: u64,
}

/// Mutating calls of the broker.
#[derive(Debug, PartialEq, Eq)]
pub enum HandleMsg {
    Subscribe { name: String },
    Unsubscribe { name: String },
    Signup {},
}

/// Read-only calls of the broker.
#[derive(Debug, PartialEq, Eq)]
pub enum QueryMsg {
    PaidAmountIs { address: String },
    GetNameServiceAddress {},
    AddressExists { address: String },
}

/// Answers to the read-only calls.
#[derive(Debug, PartialEq, Eq)]
pub enum QueryAnswer {
    PaidAmount(u128),
    NameServiceAddress(String),
    Exists(bool),
}

/// The broker's persistent state: its configuration, absent until
/// construction, and the escrow ledger, at most one entry per payer.
#[derive(Debug)]
pub struct GovernanceStorage {
    pub config: Option<Config>,
    pub payments: Vec<(Person, Money)>,
}

/// The configuration as character sequences.
pub struct ConfigView {
    pub owner: Seq<char>,
    pub name_service_address: Seq<char>,
}

/// The broker's state as mathematical values.
pub struct GovState {
    pub config: Option<ConfigView>,
    pub payments: Map<Seq<char>, u128>,
}

/// Some entry of the ledger belongs to `payer`.
pub open spec fn has_payer(entries: Seq<(Person, Money)>, payer: Seq<char>) -> bool {
    exists|i: int| 0 <= i < entries.len() && #[trigger] entries[i].0.address@ == payer
}

/// The ledger as a map from payer to amount.
pub open spec fn ledger_map(entries: Seq<(Person, Money)>) -> Map<Seq<char>, u128> {
    Map::new(
        |k: Seq<char>| has_payer(entries, k),
        |k: Seq<char>|
            entries[choose|i: int| 0 <= i < entries.len() && #[trigger] entries[i].0.address@ == k].1.amount,
    )
}

/// No payer has two entries.
pub open spec fn payers_unique(entries: Seq<(Person, Money)>) -> bool {
    forall|i: int, j: int|
        0 <= i < entries.len() && 0 <= j < entries.len() && i != j ==> #[trigger] entries[i].0.address@
            != #[trigger] entries[j].0.address@
}

impl GovernanceStorage {
    /// Storage of a broker that has not been constructed yet.
    pub fn new() -> (r: GovernanceStorage)
        ensures
            r.wf(),
            r@.config is None,
            r@.payments == Map::<Seq<char>, u128>::empty(),
    {
        let r = GovernanceStorage { config: None, payments: Vec::new() };
        assert(r@.payments =~= Map::<Seq<char>, u128>::empty());
        r
    }

    /// The ledger holds at most one entry per payer.
    pub open spec fn wf(&self) -> bool {
        payers_unique(self.payments@)
    }
}

impl View for GovernanceStorage {
    type V = GovState;

    open spec fn view(&self) -> GovState {
        GovState {
            config: match self.config {
                Some(c) => Some(
                    ConfigView { owner: c.owner@, name_service_address: c.name_service_address@ },
                ),
                None => None,
            },
            payments: ledger_map(self.payments@),
        }
    }
}

/// In a ledger without repeated payers, entry `i` gives its payer's amount.
proof fn lemma_ledger_entry(entries: Seq<(Person, Money)>, i: int)
    requires
        payers_unique(entries),
        0 <= i < entries.len(),
    ensures
        ledger_map(entries).contains_key(entries[i].0.address@),
        ledger_map(entries)[entries[i].0.address@] == entries[i].1.amount,
{
    let k = entries[i].0.address@;
    assert(has_payer(entries, k));
    let c = choose|j: int| 0 <= j < entries.len() && #[trigger] entries[j].0.address@ == k;
    assert(entries[c].0.address@ == k);
    assert(c == i);
}

/// The earliest ledger entry of `payer`.
fn find_payer(entries: &Vec<(Person, Money)>, payer: &String) -> (r: Option<usize>)
    ensures
        match r {
            Some(i) => i < entries@.len() && entries@[i as int].0.address@ == payer@,
            None => !has_payer(entries@, payer@),
        },
{
    let mut i: usize = 0;
    while i < entries.len()
        invariant
            i <= entries@.len(),
            forall|j: int| 0 <= j < i ==> #[trigger] entries@[j].0.address@ != payer@,
        decreases entries@.len() - i,
    {
        if entries[i].0.address == *payer {
            return Some(i);
        }
        i += 1;
    }
    None
}

/// Records that `key_raw` has paid `value_raw`, replacing an earlier amount.
pub fn payments_store(storage: &mut GovernanceStorage, key_raw: String, value_raw: u128) -> (r:
    Result<(), ContractError>)
    requires
        old(storage).wf(),
    ensures
        r is Ok,
        final(storage).wf(),
        final(storage).config == old(storage).config,
        final(storage)@.payments == old(storage)@.payments.insert(key_raw@, value_raw),
{
    let ghost before = storage.payments@;
    let ghost key = key_raw@;
    match find_payer(&storage.payments, &key_raw) {
        Some(i) => {
            storage.payments.set(i, (Person { address: key_raw }, Money { amount: value_raw }));
            let ghost after = storage.payments@;
            assert(payers_unique(after)) by {
                assert forall|a: int, b: int|
                    0 <= a < after.len() && 0 <= b < after.len() && a != b implies #[trigger] after[a].0.address@
                    != #[trigger] after[b].0.address@ by {
                    assert(before[a].0.address@ != before[b].0.address@);
                }
            }
            assert(ledger_map(after) =~= ledger_map(before).insert(key, value_raw)) by {
                lemma_ledger_entry(after, i as int);
                assert forall|k: Seq<char>| #[trigger] has_payer(after, k) == (has_payer(before, k) || k == key) by {
                    if has_payer(before, k) {
                        let j = choose|j: int| 0 <= j < before.len() && #[trigger] before[j].0.address@ == k;
                        if j == i { assert(after[i as int].0.address@ == k); } else { assert(after[j].0.address@ == k); }
                    }
                    if has_payer(after, k) {
                        let j = choose|j: int| 0 <= j < after.len() && #[trigger] after[j].0.address@ == k;
                        if j == i { assert(before[i as int].0.address@ == k); } else { assert(before[j].0.address@ == k); }
                    }
                }
                assert forall|k: Seq<char>| k != key && #[trigger] has_payer(after, k) implies ledger_map(after)[k] == ledger_map(before)[k] by {
                    let j = choose|j: int| 0 <= j < after.len() && #[trigger] after[j].0.address@ == k;
                    assert(j != i);
                    lemma_ledger_entry(after, j);
                    lemma_ledger_entry(before, j);
                }
            }
        },
        None => {
            storage.payments.push((Person { address: key_raw }, Money { amount: value_raw }));
            let ghost after = storage.payments@;
            let ghost n = before.len() as int;
            assert(payers_unique(after)) by {
                assert forall|a: int, b: int|
                    0 <= a < after.len() && 0 <= b < after.len() && a != b implies #[trigger] after[a].0.address@
                    != #[trigger] after[b].0.address@ by {
                    if a == n {
                        assert(before[b].0.address@ != key);
                    } else if b == n {
                        assert(before[a].0.address@ != key);
                    } else {
                        assert(before[a].0.address@ != before[b].0.address@);
                    }
                }
            }
            assert(ledger_map(after) =~= ledger_map(before).insert(key, value_raw)) by {
                lemma_ledger_entry(after, n);
                assert forall|k: Seq<char>| #[trigger] has_payer(after, k) == (has_payer(before, k) || k == key) by {
                    if has_payer(before, k) {
                        let j = choose|j: int| 0 <= j < before.len() && #[trigger] before[j].0.address@ == k;
                        assert(after[j].0.address@ == k);
                    }
                    if has_payer(after, k) && k != key {
                        let j = choose|j: int| 0 <= j < after.len() && #[trigger] after[j].0.address@ == k;
                        assert(before[j].0.address@ == k);
                    }
                }
                assert forall|k: Seq<char>| k != key && #[trigger] has_payer(after, k) implies ledger_map(after)[k] == ledger_map(before)[k] by {
                    let j = choose|j: int| 0 <= j < after.len() && #[trigger] after[j].0.address@ == k;
                    assert(j != n);
                    lemma_ledger_entry(after, j);
                    lemma_ledger_entry(before, j);
                }
            }
        },
    }
    Ok(())
}

/// The amount escrowed for `key_raw`; `NotFound` if there is none.
pub fn payments_read(storage: &GovernanceStorage, key_raw: String) -> (r: Result<u128, ContractError>)
    requires
        storage.wf(),
    ensures
        r == paid_amount_spec(storage@, key_raw@),
{
    match find_payer(&storage.payments, &key_raw) {
        Some(i) => {
            proof {
                lemma_ledger_entry(storage.payments@, i as int);
            }
            Ok(storage.payments[i].1.amount)
        },
        None => Err(ContractError::NotFound),
    }
}

/// Drops the entry of `key_raw`; `NotFound`, with nothing changed, if there
/// is none.
pub fn payments_delete(storage: &mut GovernanceStorage, key_raw: String) -> (r: Result<
    (),
    ContractError,
>)
    requires
        old(storage).wf(),
    ensures
        final(storage).wf(),
        final(storage).config == old(storage).config,
        old(storage)@.payments.contains_key(key_raw@) ==> r is Ok && final(storage)@.payments
            == old(storage)@.payments.remove(key_raw@),
        !old(storage)@.payments.contains_key(key_raw@) ==> r == Err::<(), ContractError>(
            ContractError::NotFound,
        ) && final(storage)@ == old(storage)@,
{
    let ghost before = storage.payments@;
    let ghost key = key_raw@;
    match find_payer(&storage.payments, &key_raw) {
        Some(i) => {
            storage.payments.remove(i);
            let ghost after = storage.payments@;
            assert(after =~= before.remove(i as int));
            assert forall|a: int| 0 <= a < after.len() implies #[trigger] after[a] == before[if a < i { a } else { a + 1 }] by {}
            assert(payers_unique(after)) by {
                assert forall|a: int, b: int|
                    0 <= a < after.len() && 0 <= b < after.len() && a != b implies #[trigger] after[a].0.address@
                    != #[trigger] after[b].0.address@ by {
                    let a0 = if a < i { a } else { a + 1 };
                    let b0 = if b < i { b } else { b + 1 };
                    assert(before[a0].0.address@ != before[b0].0.address@);
                }
            }
            assert(ledger_map(after) =~= ledger_map(before).remove(key)) by {
                assert forall|k: Seq<char>| #[trigger] has_payer(after, k) == (has_payer(before, k) && k != key) by {
                    if has_payer(before, k) && k != key {
                        let j = choose|j: int| 0 <= j < before.len() && #[trigger] before[j].0.address@ == k;
                        assert(j != i);
                        let j1 = if j < i { j } else { j - 1 };
                        assert(after[j1].0.address@ == k);
                    }
                    if has_payer(after, k) {
                        let j = choose|j: int| 0 <= j < after.len() && #[trigger] after[j].0.address@ == k;
                        let j0 = if j < i { j } else { j + 1 };
                        assert(before[j0].0.address@ == k);
                        assert(j0 != i);
                    }
                }
                assert forall|k: Seq<char>| #[trigger] has_payer(after, k) implies ledger_map(after)[k] == ledger_map(before)[k] by {
                    let j = choose|j: int| 0 <= j < after.len() && #[trigger] after[j].0.address@ == k;
                    let j0 = if j < i { j } else { j + 1 };
                    lemma_ledger_entry(after, j);
                    lemma_ledger_entry(before, j0);
                }
            }
            Ok(())
        },
        None => Err(ContractError::NotFound),
    }
}

/// The amount escrowed for `payer`, or `NotFound`.
pub open spec fn paid_amount_spec(s: GovState, payer: Seq<char>) -> Result<u128, ContractError> {
    if s.payments.contains_key(payer) {
        Ok(s.payments[payer])
    } else {
        Err(ContractError::NotFound)
    }
}

/// The address of the paired registry, once the broker is constructed.
pub open spec fn nameservice_address_spec(s: GovState) -> Result<Seq<char>, ContractError> {
    match s.config {
        Some(c) => Ok(c.name_service_address),
        None => Err(ContractError::ConfigUninitialized),
    }
}

/// The amount of an acceptable payment among `funds`: the first coin, in
/// the accepted currency and above zero.
pub open spec fn accepted_payment(funds: Seq<Coin>) -> Option<u128> {
    if funds.len() > 0 && funds[0].denom@ == LUNA@ && funds[0].amount > 0 {
        Some(funds[0].amount)
    } else {
        None
    }
}

/// State and outcome of constructing the broker.
pub open spec fn init_spec(s: GovState, env: Env, code_id: u64) -> (
    GovState,
    Result<Seq<MsgView>, ContractError>,
) {
    (
        GovState {
            config: Some(ConfigView { owner: env.sender@, name_service_address: Seq::empty() }),
            payments: s.payments,
        },
        Ok(seq![MsgView::InstantiateRegistry { code_id, signup_contract: env.contract_address@ }]),
    )
}

/// State and outcome of the registry's callback.
pub open spec fn signup_spec(s: GovState, env: Env) -> (
    GovState,
    Result<Seq<MsgView>, ContractError>,
) {
    match s.config {
        None => (s, Err(ContractError::ConfigUninitialized)),
        Some(c) => (
            GovState {
                config: Some(ConfigView { owner: c.owner, name_service_address: env.sender@ }),
                payments: s.payments,
            },
            Ok(Seq::empty()),
        ),
    }
}

/// The message that asks the registry to record `name` for `owner`.
pub open spec fn register_msg(c: ConfigView, name: Seq<char>, owner: Seq<char>) -> MsgView {
    MsgView::Execute {
        contract: c.name_service_address,
        call: CallView::Register { rec: NameView { value: name, owner } },
    }
}

/// The message that asks the registry to drop `name` held by `owner`.
pub open spec fn deregister_msg(c: ConfigView, name: Seq<char>, owner: Seq<char>) -> MsgView {
    MsgView::Execute {
        contract: c.name_service_address,
        call: CallView::Deregister { rec: NameView { value: name, owner } },
    }
}

/// The refund of one tenth of `paid`, from the broker to `payer`.
pub open spec fn refund_msg(broker: Seq<char>, payer: Seq<char>, paid: u128) -> MsgView {
    MsgView::BankSend { from: broker, to: payer, denom: LUNA@, amount: paid / 10 }
}

/// State and outcome of `Subscribe(name)`.
pub open spec fn subscribe_spec(s: GovState, env: Env, name: Seq<char>) -> (
    GovState,
    Result<Seq<MsgView>, ContractError>,
) {
    match accepted_payment(env.sent_funds@) {
        None => (s, Err(ContractError::PaymentRequired)),
        Some(a) => match s.config {
            None => (s, Err(ContractError::ConfigUninitialized)),
            Some(c) => (
                GovState { config: s.config, payments: s.payments.insert(env.sender@, a) },
                Ok(seq![register_msg(c, name, env.sender@)]),
            ),
        },
    }
}

/// State and outcome of `Unsubscribe(name)`.
pub open spec fn unsubscribe_spec(s: GovState, env: Env, name: Seq<char>) -> (
    GovState,
    Result<Seq<MsgView>, ContractError>,
) {
    let payer = env.sender@;
    match s.config {
        None => (s, Err(ContractError::ConfigUninitialized)),
        Some(c) => if s.payments.contains_key(payer) && s.payments[payer] != 0 {
            (
                GovState { config: s.config, payments: s.payments.remove(payer) },
                Ok(
                    seq![
                        deregister_msg(c, name, payer),
                        refund_msg(env.contract_address@, payer, s.payments[payer]),
                    ],
                ),
            )
        } else {
            (s, Ok(seq![deregister_msg(c, name, payer)]))
        },
    }
}

/// State and outcome of any broker call.
pub open spec fn handle_spec(s: GovState, env: Env, msg: HandleMsg) -> (
    GovState,
    Result<Seq<MsgView>, ContractError>,
) {
    match msg {
        HandleMsg::Subscribe { name } => subscribe_spec(s, env, name@),
        HandleMsg::Unsubscribe { name } => unsubscribe_spec(s, env, name@),
        HandleMsg::Signup {} => signup_spec(s, env),
    }
}

/// Saves the configuration.
pub fn owner_cfg_store(storage: &mut GovernanceStorage, config: Config)
    ensures
        final(storage).config == Some(config),
        final(storage).payments == old(storage).payments,
{
    storage.config = Some(config);
}

/// Loads the configuration.
pub fn owner_cfg_read(storage: &GovernanceStorage) -> (r: Result<&Config, ContractError>)
    ensures
        storage.config is None ==> r == Err::<&Config, ContractError>(
            ContractError::ConfigUninitialized,
        ),
        storage.config is Some ==> (r matches Ok(c) && *c == storage.config.unwrap()),
{
    match &storage.config {
        Some(c) => Ok(c),
        None => Err(ContractError::ConfigUninitialized),
    }
}

/// Constructs the broker: the caller becomes its owner, the registry address
/// is left empty, and one message asks the host to create a registry that
/// calls back `Signup` on this broker.
pub fn init(storage: &mut GovernanceStorage, env: Env, msg: InitMsg) -> (r: Result<
    Response,
    ContractError,
>)
    requires
        old(storage).wf(),
    ensures
        final(storage).wf(),
        (final(storage)@, outcome(r)) == init_spec(old(storage)@, env, msg.nameservice_code_id),
{
    let ghost env0 = env;
    let config = Config { owner: env.sender, name_service_address: String::new() };
    owner_cfg_store(storage, config);
    let mut messages: Vec<OutMsg> = Vec::new();
    messages.push(
        OutMsg::InstantiateRegistry {
            code_id: msg.nameservice_code_id,
            signup_contract: env.contract_address,
        },
    );
    let resp = Response { messages };
    assert(resp@ =~= init_spec(old(storage)@, env0, msg.nameservice_code_id).1->Ok_0);
    assert(storage@.config == init_spec(old(storage)@, env0, msg.nameservice_code_id).0.config);
    Ok(resp)
}

/// The registry's callback: records the caller as the paired registry.
pub fn handle_signup(storage: &mut GovernanceStorage, env: Env) -> (r: Result<
    Response,
    ContractError,
>)
    requires
        old(storage).wf(),
    ensures
        final(storage).wf(),
        (final(storage)@, outcome(r)) == signup_spec(old(storage)@, env),
{
    let owner = match owner_cfg_read(storage) {
        Err(e) => return Err(e),
        Ok(c) => c.owner.clone(),
    };
    owner_cfg_store(storage, Config { owner, name_service_address: env.sender });
    Ok(empty_response())
}

/// Takes the attached payment into escrow for the caller and asks the
/// registry to record `name` for the caller.
pub fn handle_subscribe(storage: &mut GovernanceStorage, env: Env, name: String) -> (r: Result<
    Response,
    ContractError,
>)
    requires
        old(storage).wf(),
    ensures
        final(storage).wf(),
        (final(storage)@, outcome(r)) == subscribe_spec(old(storage)@, env, name@),
{
    let ghost env0 = env;
    let luna = LUNA.to_owned();
    if env.sent_funds.len() == 0 || env.sent_funds[0].denom != luna || env.sent_funds[0].amount
        == 0 {
        return Err(ContractError::PaymentRequired);
    }
    let amount = env.sent_funds[0].amount;
    let adr = match owner_cfg_read(storage) {
        Err(e) => return Err(e),
        Ok(c) => c.name_service_address.clone(),
    };
    let _ = payments_store(storage, env.sender.clone(), amount);
    let mut messages: Vec<OutMsg> = Vec::new();
    messages.push(
        OutMsg::Execute {
            contract_addr: adr,
            msg: name_service::HandleMsg::Register {
                name_c: name_service::Name { value: name, owner: env.sender },
            },
        },
    );
    let resp = Response { messages };
    assert(resp@ =~= subscribe_spec(old(storage)@, env0, name@).1->Ok_0);
    Ok(resp)
}

/// Asks the registry to drop `name` for the caller and, where the caller
/// has a nonzero escrow, refunds a tenth of it and clears the entry.
pub fn handle_unsubscribe(storage: &mut GovernanceStorage, env: Env, name: String) -> (r: Result<
    Response,
    ContractError,
>)
    requires
        old(storage).wf(),
    ensures
        final(storage).wf(),
        (final(storage)@, outcome(r)) == unsubscribe_spec(old(storage)@, env, name@),
{
    let ghost env0 = env;
    let ghost s0 = storage@;
    let adr = match owner_cfg_read(storage) {
        Err(e) => return Err(e),
        Ok(c) => c.name_service_address.clone(),
    };
    let mut messages: Vec<OutMsg> = Vec::new();
    messages.push(
        OutMsg::Execute {
            contract_addr: adr,
            msg: name_service::HandleMsg::Deregister {
                name_c: name_service::Name { value: name, owner: env.sender.clone() },
            },
        },
    );
    match payments_read(storage, env.sender.clone()) {
        Ok(paid) => {
            if paid != 0 {
                messages.push(
                    OutMsg::BankSend {
                        from_address: env.contract_address,
                        to_address: env.sender.clone(),
                        amount: Coin { denom: LUNA.to_owned(), amount: paid / 10 },
                    },
                );
                let _ = payments_delete(storage, env.sender);
            }
        },
        Err(_) => {},
    }
    let resp = Response { messages };
    assert(resp@ =~= unsubscribe_spec(s0, env0, name@).1->Ok_0);
    Ok(resp)
}

/// Runs one broker call.
pub fn handle(storage: &mut GovernanceStorage, env: Env, msg: HandleMsg) -> (r: Result<
    Response,
    ContractError,
>)
    requires
        old(storage).wf(),
    ensures
        final(storage).wf(),
        (final(storage)@, outcome(r)) == handle_spec(old(storage)@, env, msg),
{
    match msg {
        HandleMsg::Subscribe { name } => handle_subscribe(storage, env, name),
        HandleMsg::Unsubscribe { name } => handle_unsubscribe(storage, env, name),
        HandleMsg::Signup {} => handle_signup(storage, env),
    }
}

/// Whether `address` has an escrow entry.
pub fn address_exists(storage: &GovernanceStorage, address: String) -> (r: Result<
    bool,
    ContractError,
>)
    requires
        storage.wf(),
    ensures
        r == Ok::<bool, ContractError>(storage@.payments.contains_key(address@)),
{
    match payments_read(storage, address) {
        Err(_) => Ok(false),
        Ok(_) => Ok(true),
    }
}

/// The amount escrowed for `address`; `NotFound` if there is none.
pub fn try_paidamountis(storage: &GovernanceStorage, address: String) -> (r: Result<
    u128,
    ContractError,
>)
    requires
        storage.wf(),
    ensures
        r == paid_amount_spec(storage@, address@),
{
    payments_read(storage, address)
}

/// The address of the paired registry (empty until its callback arrived).
pub fn get_nameservice_address(storage: &GovernanceStorage) -> (r: Result<String, ContractError>)
    ensures
        text_result(r) == nameservice_address_spec(storage@),
{
    match owner_cfg_read(storage) {
        Err(e) => Err(e),
        Ok(c) => Ok(c.name_service_address.clone()),
    }
}

/// The mathematical form of a query answer.
pub enum AnswerView {
    PaidAmount(u128),
    NameServiceAddress(Seq<char>),
    Exists(bool),
}

/// The answer to `msg` on state `s`.
pub open spec fn query_spec(s: GovState, msg: QueryMsg) -> Result<AnswerView, ContractError> {
    match msg {
        QueryMsg::PaidAmountIs { address } => match paid_amount_spec(s, address@) {
            Ok(a) => Ok(AnswerView::PaidAmount(a)),
            Err(e) => Err(e),
        },
        QueryMsg::GetNameServiceAddress {} => match nameservice_address_spec(s) {
            Ok(a) => Ok(AnswerView::NameServiceAddress(a)),
            Err(e) => Err(e),
        },
        QueryMsg::AddressExists { address } => Ok(
            AnswerView::Exists(s.payments.contains_key(address@)),
        ),
    }
}

/// The mathematical form of a query result.
pub open spec fn answer_view(r: Result<QueryAnswer, ContractError>) -> Result<
    AnswerView,
    ContractError,
> {
    match r {
        Ok(QueryAnswer::PaidAmount(a)) => Ok(AnswerView::PaidAmount(a)),
        Ok(QueryAnswer::NameServiceAddress(a)) => Ok(AnswerView::NameServiceAddress(a@)),
        Ok(QueryAnswer::Exists(b)) => Ok(AnswerView::Exists(b)),
        Err(e) => Err(e),
    }
}

/// Answers one read-only call.
pub fn query(storage: &GovernanceStorage, msg: QueryMsg) -> (r: Result<
    QueryAnswer,
    ContractError,
>)
    requires
        storage.wf(),
    ensures
        answer_view(r) == query_spec(storage@, msg),
{
    match msg {
        QueryMsg::PaidAmountIs { address } => match try_paidamountis(storage, address) {
            Ok(a) => Ok(QueryAnswer::PaidAmount(a)),
            Err(e) => Err(e),
        },
        QueryMsg::GetNameServiceAddress {} => match get_nameservice_address(storage) {
            Ok(a) => Ok(QueryAnswer::NameServiceAddress(a)),
            Err(e) => Err(e),
        },
        QueryMsg::AddressExists { address } => match address_exists(storage, address) {
            Ok(b) => Ok(QueryAnswer::Exists(b)),
            Err(e) => Err(e),
        },
    }
}

/// Construction sends exactly one message, the request for a registry that
/// calls back this broker; once that registry's callback has run, the broker
/// reports the callback's caller as its registry.
pub proof fn lemma_bootstrap(s: GovState, env: Env, code_id: u64, registry: Env)
    ensures
        init_spec(s, env, code_id).1 == Ok::<Seq<MsgView>, ContractError>(
            seq![MsgView::InstantiateRegistry { code_id, signup_contract: env.contract_address@ }],
        ),
        signup_spec(init_spec(s, env, code_id).0, registry).1 == Ok::<
            Seq<MsgView>,
            ContractError,
        >(Seq::empty()),
        nameservice_address_spec(signup_spec(init_spec(s, env, code_id).0, registry).0) == Ok::<
            Seq<char>,
            ContractError,
        >(registry.sender@),
{
}

/// After the callback of any caller, the broker reports that caller as its
/// registry.
pub proof fn lemma_signup_sets_address(s: GovState, env: Env)
    requires
        s.config is Some,
    ensures
        signup_spec(s, env).1 is Ok,
        nameservice_address_spec(signup_spec(s, env).0) == Ok::<Seq<char>, ContractError>(
            env.sender@,
        ),
{
}

/// A subscription paid with a positive amount of the accepted currency
/// succeeds, and afterwards the payer's escrow is that amount.
pub proof fn lemma_subscribe_then_paid(s: GovState, env: Env, name: Seq<char>)
    requires
        s.config is Some,
        env.sent_funds@.len() > 0,
        env.sent_funds@[0].denom@ == LUNA@,
        env.sent_funds@[0].amount > 0,
    ensures
        subscribe_spec(s, env, name).1 is Ok,
        paid_amount_spec(subscribe_spec(s, env, name).0, env.sender@) == Ok::<u128, ContractError>(
            env.sent_funds@[0].amount,
        ),
        subscribe_spec(s, env, name).0.payments.contains_key(env.sender@),
{
}

/// A subscription without payment, in another currency or of zero fails
/// with `PaymentRequired`, changes nothing and sends nothing.
pub proof fn lemma_subscribe_requires_payment(s: GovState, env: Env, name: Seq<char>)
    requires
        env.sent_funds@.len() == 0 || env.sent_funds@[0].denom@ != LUNA@
            || env.sent_funds@[0].amount == 0,
    ensures
        subscribe_spec(s, env, name) == (s, Err::<Seq<MsgView>, ContractError>(
            ContractError::PaymentRequired,
        )),
{
}

/// Unsubscribing after a paid subscription sends the deregistration and then
/// a refund of a tenth of the payment, and clears the payer's escrow.
pub proof fn lemma_unsubscribe_after_subscribe(
    s: GovState,
    env: Env,
    name: Seq<char>,
    later: Env,
    name2: Seq<char>,
)
    requires
        s.config is Some,
        env.sent_funds@.len() > 0,
        env.sent_funds@[0].denom@ == LUNA@,
        env.sent_funds@[0].amount > 0,
        later.sender@ == env.sender@,
    ensures
        ({
            let s1 = subscribe_spec(s, env, name).0;
            let (s2, r2) = unsubscribe_spec(s1, later, name2);
            &&& r2 == Ok::<Seq<MsgView>, ContractError>(
                seq![
                    deregister_msg(s.config.unwrap(), name2, env.sender@),
                    refund_msg(later.contract_address@, env.sender@, env.sent_funds@[0].amount),
                ],
            )
            &&& !s2.payments.contains_key(env.sender@)
            &&& s2.config == s.config
        }),
{
}

/// Unsubscribing without an escrow entry sends only the deregistration,
/// succeeds, and changes nothing.
pub proof fn lemma_unsubscribe_without_payment(s: GovState, env: Env, name: Seq<char>)
    requires
        s.config is Some,
        !s.payments.contains_key(env.sender@),
    ensures
        unsubscribe_spec(s, env, name) == (s, Ok::<Seq<MsgView>, ContractError>(
            seq![deregister_msg(s.config.unwrap(), name, env.sender@)],
        )),
{
}

} // verus!
