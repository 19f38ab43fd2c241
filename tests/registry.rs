use name_broker::common::{ContractError, Env, OutMsg};
use name_broker::name_service::{
    handle, init, query, try_nameexists, try_owneris, try_valueis, HandleMsg, InitHook,
    NSInitMsg, Name, NameServiceStorage, QueryAnswer, QueryMsg,
};

const CONTRACT: &str = "cosmos2contract";

fn env_of(sender: &str) -> Env {
    Env { sender: sender.to_string(), contract_address: CONTRACT.to_string(), sent_funds: vec![] }
}

fn hook() -> NSInitMsg {
    NSInitMsg {
        hook: Some(InitHook {
            contract_addr: CONTRACT.to_string(),
            msg: b"{\"test_purposes\":{}}".to_vec(),
        }),
    }
}

fn name(value: &str, owner: &str) -> Name {
    Name { value: value.to_string(), owner: owner.to_string() }
}

fn registry_owned_by(owner: &str) -> NameServiceStorage {
    let mut deps = NameServiceStorage::new();
    init(&mut deps, env_of(owner), NSInitMsg { hook: None }).unwrap();
    deps
}

#[test]
fn contract_proper_initialization() {
    let mut deps = NameServiceStorage::new();
    let res1 = init(&mut deps, env_of("test1"), hook());
    assert_eq!(&res1.is_err(), &false);
    let res1_message = res1.unwrap().messages.len();
    assert_eq!(res1_message, 1);
}

#[test]
fn proper_registration() {
    let test_name: String = "Test1Name".to_string();
    let mut deps = NameServiceStorage::new();
    let _res1 = init(&mut deps, env_of("test1"), hook());

    let msg2 = HandleMsg::Register { name_c: name(&test_name, "test1") };
    let res2 = handle(&mut deps, env_of("test1"), msg2);
    assert_eq!(&res2.is_err(), &false);
    let res2_message = res2.unwrap().messages.len();
    assert_eq!(res2_message, 0);

    let res3 = query(&deps, QueryMsg::NameExists { value: test_name.clone() }).unwrap();
    assert_eq!(QueryAnswer::Exists(true), res3);

    let res4 = query(&deps, QueryMsg::OwnerIs { value: test_name.clone() }).unwrap();
    assert_eq!(res4, QueryAnswer::Owner("test1".to_string()));

    let res5 = query(&deps, QueryMsg::ValueIs { owner: "test1".to_string() }).unwrap();
    assert_eq!(res5, QueryAnswer::Value(test_name));
}

#[test]
fn init_forwards_the_hook() {
    let mut deps = NameServiceStorage::new();
    let res = init(&mut deps, env_of("test1"), hook()).unwrap();
    assert_eq!(
        res.messages,
        vec![OutMsg::ExecuteRaw {
            contract_addr: CONTRACT.to_string(),
            payload: b"{\"test_purposes\":{}}".to_vec(),
        }]
    );
}

#[test]
fn init_without_hook_sends_nothing() {
    let mut deps = NameServiceStorage::new();
    let res = init(&mut deps, env_of("test1"), NSInitMsg { hook: None }).unwrap();
    assert!(res.messages.is_empty());
    assert_eq!(try_nameexists(&deps, "x".to_string()), Ok(false));
}

#[test]
fn registering_twice_keeps_one_record() {
    let mut deps = registry_owned_by("op");
    handle(&mut deps, env_of("op"), HandleMsg::Register { name_c: name("a", "u1") }).unwrap();
    handle(&mut deps, env_of("op"), HandleMsg::Register { name_c: name("a", "u2") }).unwrap();
    assert_eq!(deps.names.as_ref().unwrap().names_vector, vec![name("a", "u1")]);
    assert_eq!(try_owneris(&deps, "a".to_string()), Ok("u1".to_string()));
}

#[test]
fn strangers_cannot_register() {
    let mut deps = registry_owned_by("op");
    let r = handle(&mut deps, env_of("mallory"), HandleMsg::Register { name_c: name("a", "m") });
    assert_eq!(r, Err(ContractError::AccessDenied));
    assert_eq!(try_nameexists(&deps, "a".to_string()), Ok(false));
}

#[test]
fn strangers_cannot_deregister() {
    let mut deps = registry_owned_by("op");
    handle(&mut deps, env_of("op"), HandleMsg::Register { name_c: name("a", "u1") }).unwrap();
    let r = handle(&mut deps, env_of("mallory"), HandleMsg::Deregister { name_c: name("a", "u1") });
    assert_eq!(r, Err(ContractError::AccessDenied));
    assert_eq!(try_nameexists(&deps, "a".to_string()), Ok(true));
}

#[test]
fn deregister_needs_an_exact_match() {
    let mut deps = registry_owned_by("op");
    handle(&mut deps, env_of("op"), HandleMsg::Register { name_c: name("a", "u1") }).unwrap();
    handle(&mut deps, env_of("op"), HandleMsg::Register { name_c: name("b", "u2") }).unwrap();
    let r = handle(&mut deps, env_of("op"), HandleMsg::Deregister { name_c: name("a", "u2") }).unwrap();
    assert!(r.messages.is_empty());
    assert_eq!(try_nameexists(&deps, "a".to_string()), Ok(true));
    handle(&mut deps, env_of("op"), HandleMsg::Deregister { name_c: name("a", "u1") }).unwrap();
    assert_eq!(deps.names.as_ref().unwrap().names_vector, vec![name("b", "u2")]);
}

#[test]
fn lookups_of_unknown_entries_are_empty() {
    let deps = registry_owned_by("op");
    assert_eq!(try_owneris(&deps, "nobody".to_string()), Ok(String::new()));
    assert_eq!(try_valueis(&deps, "nobody".to_string()), Ok(String::new()));
}

#[test]
fn lookups_take_the_earliest_record() {
    let mut deps = registry_owned_by("op");
    handle(&mut deps, env_of("op"), HandleMsg::Register { name_c: name("first", "u") }).unwrap();
    handle(&mut deps, env_of("op"), HandleMsg::Register { name_c: name("second", "u") }).unwrap();
    assert_eq!(try_valueis(&deps, "u".to_string()), Ok("first".to_string()));
}

#[test]
fn registry_calls_before_construction_fail() {
    let mut deps = NameServiceStorage::new();
    let r = handle(&mut deps, env_of("op"), HandleMsg::Register { name_c: name("a", "u") });
    assert_eq!(r, Err(ContractError::ConfigUninitialized));
    assert_eq!(try_nameexists(&deps, "a".to_string()), Err(ContractError::ConfigUninitialized));
    assert!(handle(&mut deps, env_of("op"), HandleMsg::TestPurposes {}).is_ok());
}
