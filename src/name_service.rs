//! The name registry: an ordered list of `(name, owner)` records that only
//! one configured caller may change.
use crate::common::{empty_response, outcome, ContractError, Env, MsgView, OutMsg, Response};
use vstd::prelude::*;

verus! {

/// One registry record: a name and the identity that holds it.
#[derive(Debug, PartialEq, Eq)]
pub struct Name {
    pub value: String,
    pub owner: String,
}

/// The only identity allowed to register and deregister names.
#[derive(Debug, PartialEq, Eq)]
pub struct NSOwner {
    pub nameservice_owner: String,
}

/// All records, in order of registration.
#[derive(Debug, PartialEq, Eq)]
pub struct NamesS {
    pub names_vector: Vec<Name>,
}

/// A message to deliver once the registry is constructed.
#[derive(Debug, PartialEq, Eq)]
pub struct InitHook {
    pub contract_addr: String,
    pub msg: Vec<u8>,
}

/// Construction message of the registry.
#[derive(Debug, PartialEq, Eq)]
pub struct NSInitMsg {
    pub hook: Option<InitHook>,
}

/// Mutating calls of the registry.
#[derive(Debug, PartialEq, Eq)]
pub enum HandleMsg {
    Register { name_c: Name },
    Deregister { name_c: Name },
    TestPurposes {},
}

/// Read-only calls of the registry.
#[derive(Debug, PartialEq, Eq)]
pub enum QueryMsg {
    NameExists { value: String },
    OwnerIs { value: String },
    ValueIs { owner: String },
}

/// Answers to the read-only calls.
#[derive(Debug, PartialEq, Eq)]
pub enum QueryAnswer {
    Exists(bool),
    Owner(String),
    Value(String),
}

/// The registry's persistent state: two singletons, absent until construction.
#[derive(Debug)]
pub struct NameServiceStorage {
    pub names: Option<NamesS>,
    pub nsowner: Option<NSOwner>,
}

/// A record as a pair of character sequences.
pub struct NameView {
    pub value: Seq<char>,
    pub owner: Seq<char>,
}

/// The registry's state as mathematical values.
pub struct NsState {
    pub names: Option<Seq<NameView>>,
    pub owner: Option<Seq<char>>,
}

/// A registry call as mathematical values.
pub enum CallView {
    Register { rec: NameView },
    Deregister { rec: NameView },
    TestPurposes,
}

impl View for Name {
    type V = NameView;

    open spec fn view(&self) -> NameView {
        NameView { value: self.value@, owner: self.owner@ }
    }
}

impl View for NamesS {
    type V = Seq<NameView>;

    open spec fn view(&self) -> Seq<NameView> {
        self.names_vector@.map_values(|n: Name| n@)
    }
}

impl View for HandleMsg {
    type V = CallView;

    open spec fn view(&self) -> CallView {
        match self {
            HandleMsg::Register { name_c } => CallView::Register { rec: name_c@ },
            HandleMsg::Deregister { name_c } => CallView::Deregister { rec: name_c@ },
            HandleMsg::TestPurposes {} => CallView::TestPurposes,
        }
    }
}

impl View for NameServiceStorage {
    type V = NsState;

    open spec fn view(&self) -> NsState {
        NsState {
            names: match self.names {
                Some(n) => Some(n@),
                None => None,
            },
            owner: match self.nsowner {
                Some(o) => Some(o.nameservice_owner@),
                None => None,
            },
        }
    }
}

impl NameServiceStorage {
    /// Storage of a registry that has not been constructed yet.
    pub fn new() -> (r: NameServiceStorage)
        ensures
            r@.names is None,
            r@.owner is None,
    {
        NameServiceStorage { names: None, nsowner: None }
    }

    /// No name is held by two records.
    pub open spec fn wf(&self) -> bool {
        match self@.names {
            Some(ns) => values_unique(ns),
            None => true,
        }
    }
}

/// Some record holds the name `value`.
pub open spec fn has_value(names: Seq<NameView>, value: Seq<char>) -> bool {
    exists|i: int| 0 <= i < names.len() && #[trigger] names[i].value == value
}

/// `i` is the earliest record holding the name `value`.
pub open spec fn is_first_value(names: Seq<NameView>, value: Seq<char>, i: int) -> bool {
    &&& 0 <= i < names.len()
    &&& names[i].value == value
    &&& forall|j: int| 0 <= j < i ==> #[trigger] names[j].value != value
}

/// `i` is the earliest record held by `owner`.
pub open spec fn is_first_owner(names: Seq<NameView>, owner: Seq<char>, i: int) -> bool {
    &&& 0 <= i < names.len()
    &&& names[i].owner == owner
    &&& forall|j: int| 0 <= j < i ==> #[trigger] names[j].owner != owner
}

/// `i` is the earliest record equal to `rec` in both name and owner.
pub open spec fn is_first_record(names: Seq<NameView>, rec: NameView, i: int) -> bool {
    &&& 0 <= i < names.len()
    &&& names[i] == rec
    &&& forall|j: int| 0 <= j < i ==> #[trigger] names[j] != rec
}

/// Owner of the earliest record holding `value`, empty if there is none.
pub open spec fn owner_is(names: Seq<NameView>, value: Seq<char>) -> Seq<char> {
    if exists|i: int| is_first_value(names, value, i) {
        names[choose|i: int| is_first_value(names, value, i)].owner
    } else {
        Seq::empty()
    }
}

/// Name of the earliest record held by `owner`, empty if there is none.
pub open spec fn value_is(names: Seq<NameView>, owner: Seq<char>) -> Seq<char> {
    if exists|i: int| is_first_owner(names, owner, i) {
        names[choose|i: int| is_first_owner(names, owner, i)].value
    } else {
        Seq::empty()
    }
}

/// No name is held by two records.
pub open spec fn values_unique(names: Seq<NameView>) -> bool {
    forall|i: int, j: int|
        0 <= i < names.len() && 0 <= j < names.len() && i != j ==> #[trigger] names[i].value
            != #[trigger] names[j].value
}

/// The records after registering `rec`: appended unless its name is taken.
pub open spec fn register_records(names: Seq<NameView>, rec: NameView) -> Seq<NameView> {
    if has_value(names, rec.value) {
        names
    } else {
        names.push(rec)
    }
}

/// The records after deregistering `rec`: its earliest exact match is removed.
pub open spec fn deregister_records(names: Seq<NameView>, rec: NameView) -> Seq<NameView> {
    if exists|i: int| is_first_record(names, rec, i) {
        names.remove(choose|i: int| is_first_record(names, rec, i))
    } else {
        names
    }
}

/// Why a mutation by `sender` is refused, if it is.
pub open spec fn mutation_error(s: NsState, sender: Seq<char>) -> Option<ContractError> {
    match s.owner {
        None => Some(ContractError::ConfigUninitialized),
        Some(o) => if sender != o {
            Some(ContractError::AccessDenied)
        } else if s.names is None {
            Some(ContractError::ConfigUninitialized)
        } else {
            None
        },
    }
}

/// State and outcome of `Register` of `rec` by `sender`.
pub open spec fn register_spec(s: NsState, sender: Seq<char>, rec: NameView) -> (
    NsState,
    Result<Seq<MsgView>, ContractError>,
) {
    match mutation_error(s, sender) {
        Some(e) => (s, Err(e)),
        None => (
            NsState { names: Some(register_records(s.names.unwrap(), rec)), owner: s.owner },
            Ok(Seq::empty()),
        ),
    }
}

/// State and outcome of `Deregister` of `rec` by `sender`.
pub open spec fn deregister_spec(s: NsState, sender: Seq<char>, rec: NameView) -> (
    NsState,
    Result<Seq<MsgView>, ContractError>,
) {
    match mutation_error(s, sender) {
        Some(e) => (s, Err(e)),
        None => (
            NsState { names: Some(deregister_records(s.names.unwrap(), rec)), owner: s.owner },
            Ok(Seq::empty()),
        ),
    }
}

/// State and outcome of any registry call by `sender`.
pub open spec fn handle_spec(s: NsState, sender: Seq<char>, call: CallView) -> (
    NsState,
    Result<Seq<MsgView>, ContractError>,
) {
    match call {
        CallView::Register { rec } => register_spec(s, sender, rec),
        CallView::Deregister { rec } => deregister_spec(s, sender, rec),
        CallView::TestPurposes => (s, Ok(Seq::empty())),
    }
}

/// Messages sent by construction: the hook, if one was given.
pub open spec fn hook_messages(hook: Option<InitHook>) -> Seq<MsgView> {
    match hook {
        Some(h) => seq![MsgView::ExecuteRaw { contract: h.contract_addr@, msg: h.msg@ }],
        None => Seq::empty(),
    }
}

/// Saves the record list.
pub fn names_store(storage: &mut NameServiceStorage, names: NamesS)
    ensures
        final(storage).names == Some(names),
        final(storage).nsowner == old(storage).nsowner,
{
    storage.names = Some(names);
}

/// Loads the record list.
pub fn names_read(storage: &NameServiceStorage) -> (r: Result<&NamesS, ContractError>)
    ensures
        storage.names is None ==> r == Err::<&NamesS, ContractError>(
            ContractError::ConfigUninitialized,
        ),
        storage.names is Some ==> (r matches Ok(n) && *n == storage.names.unwrap()),
{
    match &storage.names {
        Some(n) => Ok(n),
        None => Err(ContractError::ConfigUninitialized),
    }
}

/// Saves the configured owner.
pub fn nsowner_store(storage: &mut NameServiceStorage, owner: NSOwner)
    ensures
        final(storage).nsowner == Some(owner),
        final(storage).names == old(storage).names,
{
    storage.nsowner = Some(owner);
}

/// Loads the configured owner.
pub fn nsowner_read(storage: &NameServiceStorage) -> (r: Result<&NSOwner, ContractError>)
    ensures
        storage.nsowner is None ==> r == Err::<&NSOwner, ContractError>(
            ContractError::ConfigUninitialized,
        ),
        storage.nsowner is Some ==> (r matches Ok(o) && *o == storage.nsowner.unwrap()),
{
    match &storage.nsowner {
        Some(o) => Ok(o),
        None => Err(ContractError::ConfigUninitialized),
    }
}

/// The mathematical form of a query answer.
pub enum AnswerView {
    Exists(bool),
    Owner(Seq<char>),
    Value(Seq<char>),
}

/// The answer to `msg` on state `s`.
pub open spec fn query_spec(s: NsState, msg: QueryMsg) -> Result<AnswerView, ContractError> {
    match s.names {
        None => Err(ContractError::ConfigUninitialized),
        Some(ns) => match msg {
            QueryMsg::NameExists { value } => Ok(AnswerView::Exists(has_value(ns, value@))),
            QueryMsg::OwnerIs { value } => Ok(AnswerView::Owner(owner_is(ns, value@))),
            QueryMsg::ValueIs { owner } => Ok(AnswerView::Value(value_is(ns, owner@))),
        },
    }
}

/// The mathematical form of a query result.
pub open spec fn answer_view(r: Result<QueryAnswer, ContractError>) -> Result<
    AnswerView,
    ContractError,
> {
    match r {
        Ok(QueryAnswer::Exists(b)) => Ok(AnswerView::Exists(b)),
        Ok(QueryAnswer::Owner(o)) => Ok(AnswerView::Owner(o@)),
        Ok(QueryAnswer::Value(v)) => Ok(AnswerView::Value(v@)),
        Err(e) => Err(e),
    }
}

/// The earliest record holding `value`.
fn find_value(names: &NamesS, value: &String) -> (r: Option<usize>)
    ensures
        match r {
            Some(i) => is_first_value(names@, value@, i as int),
            None => !has_value(names@, value@),
        },
{
    let mut i: usize = 0;
    while i < names.names_vector.len()
        invariant
            i <= names.names_vector@.len(),
            forall|j: int| 0 <= j < i ==> #[trigger] names@[j].value != value@,
        decreases names.names_vector@.len() - i,
    {
        if names.names_vector[i].value == *value {
            return Some(i);
        }
        i += 1;
    }
    None
}

/// The earliest record held by `owner`.
fn find_owner(names: &NamesS, owner: &String) -> (r: Option<usize>)
    ensures
        match r {
            Some(i) => is_first_owner(names@, owner@, i as int),
            None => forall|i: int| 0 <= i < names@.len() ==> #[trigger] names@[i].owner != owner@,
        },
{
    let mut i: usize = 0;
    while i < names.names_vector.len()
        invariant
            i <= names.names_vector@.len(),
            forall|j: int| 0 <= j < i ==> #[trigger] names@[j].owner != owner@,
        decreases names.names_vector@.len() - i,
    {
        if names.names_vector[i].owner == *owner {
            return Some(i);
        }
        i += 1;
    }
    None
}

/// The earliest record equal to `rec` in name and owner.
fn find_record(names: &NamesS, rec: &Name) -> (r: Option<usize>)
    ensures
        match r {
            Some(i) => is_first_record(names@, rec@, i as int),
            None => forall|i: int| 0 <= i < names@.len() ==> #[trigger] names@[i] != rec@,
        },
{
    let mut i: usize = 0;
    while i < names.names_vector.len()
        invariant
            i <= names.names_vector@.len(),
            forall|j: int| 0 <= j < i ==> #[trigger] names@[j] != rec@,
        decreases names.names_vector@.len() - i,
    {
        let n = &names.names_vector[i];
        if n.value == rec.value && n.owner == rec.owner {
            return Some(i);
        }
        i += 1;
    }
    None
}

/// Constructs the registry: no records, the caller as owner, and the hook
/// (if any) queued for delivery.
pub fn init(storage: &mut NameServiceStorage, env: Env, msg: NSInitMsg) -> (r: Result<
    Response,
    ContractError,
>)
    ensures
        final(storage)@ == (NsState {
            names: Some(Seq::<NameView>::empty()),
            owner: Some(env.sender@),
        }),
        outcome(r) == Ok::<Seq<MsgView>, ContractError>(hook_messages(msg.hook)),
        final(storage).wf(),
{
    let names = NamesS { names_vector: Vec::new() };
    assert(names@ =~= Seq::<NameView>::empty());
    names_store(storage, names);
    nsowner_store(storage, NSOwner { nameservice_owner: env.sender });
    let mut messages: Vec<OutMsg> = Vec::new();
    match msg.hook {
        Some(h) => messages.push(OutMsg::ExecuteRaw { contract_addr: h.contract_addr, payload: h.msg }),
        None => {},
    }
    let resp = Response { messages };
    assert(resp@ =~= hook_messages(msg.hook));
    Ok(resp)
}

/// Does nothing and sends nothing.
pub fn test_purposes() -> (r: Result<Response, ContractError>)
    ensures
        outcome(r) == Ok::<Seq<MsgView>, ContractError>(Seq::empty()),
{
    Ok(empty_response())
}

/// Adds `name_c` unless its name is already registered; only the configured
/// owner may call it.
pub fn try_register(storage: &mut NameServiceStorage, env: Env, name_c: Name) -> (r: Result<
    Response,
    ContractError,
>)
    ensures
        (final(storage)@, outcome(r)) == register_spec(old(storage)@, env.sender@, name_c@),
        old(storage).wf() ==> final(storage).wf(),
{
    match nsowner_read(storage) {
        Err(e) => return Err(e),
        Ok(o) => {
            if o.nameservice_owner != env.sender {
                return Err(ContractError::AccessDenied);
            }
        },
    }
    let found = match names_read(storage) {
        Err(e) => return Err(e),
        Ok(names) => find_value(names, &name_c.value),
    };
    let ghost before = storage.names.unwrap()@;
    proof {
        if values_unique(before) {
            lemma_mutations_keep_values_unique(before, name_c@);
        }
    }
    if found.is_none() {
        match &mut storage.names {
            Some(ns) => {
                ns.names_vector.push(name_c);
            },
            None => {},
        }
        assert(storage.names.unwrap()@ =~= before.push(name_c@));
    }
    Ok(empty_response())
}

/// Removes the earliest record equal to `name_component`, if any; only the
/// configured owner may call it.
pub fn try_deregister(storage: &mut NameServiceStorage, env: Env, name_component: Name) -> (r:
    Result<Response, ContractError>)
    ensures
        (final(storage)@, outcome(r)) == deregister_spec(
            old(storage)@,
            env.sender@,
            name_component@,
        ),
        old(storage).wf() ==> final(storage).wf(),
{
    match nsowner_read(storage) {
        Err(e) => return Err(e),
        Ok(o) => {
            if o.nameservice_owner != env.sender {
                return Err(ContractError::AccessDenied);
            }
        },
    }
    let found = match names_read(storage) {
        Err(e) => return Err(e),
        Ok(names) => find_record(names, &name_component),
    };
    let ghost before = storage.names.unwrap()@;
    proof {
        if values_unique(before) {
            lemma_mutations_keep_values_unique(before, name_component@);
        }
    }
    match found {
        Some(i) => {
            match &mut storage.names {
                Some(ns) => {
                    ns.names_vector.remove(i);
                },
                None => {},
            }
            assert(storage.names.unwrap()@ =~= before.remove(i as int));
        },
        None => {},
    }
    Ok(empty_response())
}

/// Runs one registry call.
pub fn handle(storage: &mut NameServiceStorage, env: Env, msg: HandleMsg) -> (r: Result<
    Response,
    ContractError,
>)
    ensures
        (final(storage)@, outcome(r)) == handle_spec(old(storage)@, env.sender@, msg@),
        old(storage).wf() ==> final(storage).wf(),
{
    match msg {
        HandleMsg::Register { name_c } => try_register(storage, env, name_c),
        HandleMsg::Deregister { name_c } => try_deregister(storage, env, name_c),
        HandleMsg::TestPurposes {} => test_purposes(),
    }
}

/// Whether some record holds the name `value`.
pub fn try_nameexists(storage: &NameServiceStorage, value: String) -> (r: Result<
    bool,
    ContractError,
>)
    ensures
        match storage@.names {
            None => r == Err::<bool, ContractError>(ContractError::ConfigUninitialized),
            Some(ns) => r == Ok::<bool, ContractError>(has_value(ns, value@)),
        },
{
    match names_read(storage) {
        Err(e) => Err(e),
        Ok(names) => Ok(find_value(names, &value).is_some()),
    }
}

/// Owner of the earliest record holding `value`, or the empty identity.
pub fn try_owneris(storage: &NameServiceStorage, value: String) -> (r: Result<
    String,
    ContractError,
>)
    ensures
        match storage@.names {
            None => r == Err::<String, ContractError>(ContractError::ConfigUninitialized),
            Some(ns) => r matches Ok(o) && o@ == owner_is(ns, value@),
        },
{
    match names_read(storage) {
        Err(e) => Err(e),
        Ok(names) => match find_value(names, &value) {
            Some(i) => {
                let o = names.names_vector[i].owner.clone();
                proof {
                    let ns = names@;
                    assert(is_first_value(ns, value@, i as int));
                    let c = choose|k: int| is_first_value(ns, value@, k);
                    assert(is_first_value(ns, value@, c));
                    if c < i {
                        assert(ns[c].value != value@);
                    } else if i < c {
                        assert(ns[i as int].value != value@);
                    }
                }
                Ok(o)
            },
            None => Ok(String::new()),
        },
    }
}

/// Name of the earliest record held by `owner`, or the empty string.
pub fn try_valueis(storage: &NameServiceStorage, owner: String) -> (r: Result<
    String,
    ContractError,
>)
    ensures
        match storage@.names {
            None => r == Err::<String, ContractError>(ContractError::ConfigUninitialized),
            Some(ns) => r matches Ok(v) && v@ == value_is(ns, owner@),
        },
{
    match names_read(storage) {
        Err(e) => Err(e),
        Ok(names) => match find_owner(names, &owner) {
            Some(i) => {
                let v = names.names_vector[i].value.clone();
                proof {
                    let ns = names@;
                    let c = choose|k: int| is_first_owner(ns, owner@, k);
                    assert(is_first_owner(ns, owner@, c));
                    if c < i {
                        assert(ns[c].owner != owner@);
                    } else if i < c {
                        assert(ns[i as int].owner != owner@);
                    }
                }
                Ok(v)
            },
            None => Ok(String::new()),
        },
    }
}

/// Answers one read-only call.
pub fn query(storage: &NameServiceStorage, msg: QueryMsg) -> (r: Result<
    QueryAnswer,
    ContractError,
>)
    ensures
        answer_view(r) == query_spec(storage@, msg),
{
    match msg {
        QueryMsg::NameExists { value } => match try_nameexists(storage, value) {
            Ok(b) => Ok(QueryAnswer::Exists(b)),
            Err(e) => Err(e),
        },
        QueryMsg::OwnerIs { value } => match try_owneris(storage, value) {
            Ok(o) => Ok(QueryAnswer::Owner(o)),
            Err(e) => Err(e),
        },
        QueryMsg::ValueIs { owner } => match try_valueis(storage, owner) {
            Ok(v) => Ok(QueryAnswer::Value(v)),
            Err(e) => Err(e),
        },
    }
}

/// Exactly one record holds the name `value`.
pub open spec fn held_once(names: Seq<NameView>, value: Seq<char>) -> bool {
    exists|i: int|
        0 <= i < names.len() && names[i].value == value && forall|j: int|
            0 <= j < names.len() && #[trigger] names[j].value == value ==> j == i
}

/// Registering a name a second time changes nothing and answers as the
/// first call did; while no name is held twice, exactly one record then
/// holds it.
pub proof fn lemma_register_idempotent(s: NsState, sender: Seq<char>, rec: NameView)
    requires
        mutation_error(s, sender) is None,
        values_unique(s.names.unwrap()),
    ensures
        register_spec(register_spec(s, sender, rec).0, sender, rec) == register_spec(
            s,
            sender,
            rec,
        ),
        held_once(register_spec(s, sender, rec).0.names.unwrap(), rec.value),
{
    let ns = s.names.unwrap();
    let after = register_records(ns, rec);
    if has_value(ns, rec.value) {
        let i = choose|i: int| 0 <= i < ns.len() && #[trigger] ns[i].value == rec.value;
        assert(after[i].value == rec.value);
    } else {
        let n = ns.len() as int;
        assert(after[n].value == rec.value);
        assert forall|j: int| 0 <= j < after.len() && #[trigger] after[j].value == rec.value implies j
            == n by {
            if j < n {
                assert(ns[j].value == rec.value);
            }
        }
    }
    assert(has_value(after, rec.value));
}

/// A caller other than the configured owner can neither register nor
/// deregister: the call fails with `AccessDenied` and the state is unchanged.
pub proof fn lemma_only_owner_mutates(s: NsState, sender: Seq<char>, rec: NameView)
    requires
        s.owner is Some,
        sender != s.owner.unwrap(),
    ensures
        register_spec(s, sender, rec) == (s, Err::<Seq<MsgView>, ContractError>(
            ContractError::AccessDenied,
        )),
        deregister_spec(s, sender, rec) == (s, Err::<Seq<MsgView>, ContractError>(
            ContractError::AccessDenied,
        )),
{
}

/// Registering and deregistering keep every name held by at most one record.
pub proof fn lemma_mutations_keep_values_unique(names: Seq<NameView>, rec: NameView)
    requires
        values_unique(names),
    ensures
        values_unique(register_records(names, rec)),
        values_unique(deregister_records(names, rec)),
{
    if !has_value(names, rec.value) {
        let after = names.push(rec);
        let n = names.len() as int;
        assert forall|a: int, b: int|
            0 <= a < after.len() && 0 <= b < after.len() && a != b implies #[trigger] after[a].value
            != #[trigger] after[b].value by {
            if a == n {
                assert(names[b].value != rec.value);
            } else if b == n {
                assert(names[a].value != rec.value);
            } else {
                assert(names[a].value != names[b].value);
            }
        }
    }
    if exists|i: int| is_first_record(names, rec, i) {
        let i = choose|i: int| is_first_record(names, rec, i);
        let after = names.remove(i);
        assert forall|a: int, b: int|
            0 <= a < after.len() && 0 <= b < after.len() && a != b implies #[trigger] after[a].value
            != #[trigger] after[b].value by {
            let a0 = if a < i { a } else { a + 1 };
            let b0 = if b < i { b } else { b + 1 };
            assert(after[a] == names[a0]);
            assert(after[b] == names[b0]);
            assert(names[a0].value != names[b0].value);
        }
    }
}

} // verus!
