use name_broker::common::{Coin, ContractError, Env, OutMsg};
use name_broker::governance::{
    address_exists, get_nameservice_address, handle, init, query, try_paidamountis,
    GovernanceStorage, HandleMsg, InitMsg, QueryAnswer, QueryMsg, LUNA,
};
use name_broker::name_service;

const CONTRACT: &str = "cosmos2contract";

fn env_with(sender: &str, funds: Vec<Coin>) -> Env {
    Env {
        sender: sender.to_string(),
        contract_address: CONTRACT.to_string(),
        sent_funds: funds,
    }
}

fn luna(amount: u128) -> Coin {
    Coin { denom: LUNA.to_string(), amount }
}

fn paid_env(sender: &str, amount: u128) -> Env {
    env_with(sender, vec![luna(amount)])
}

/// A broker constructed by `test1` whose registry callback came from `test1`.
fn set_up() -> GovernanceStorage {
    let mut deps = GovernanceStorage::new();
    let res = init(&mut deps, paid_env("test1", 1000), InitMsg { nameservice_code_id: 16 });
    assert!(res.is_ok());
    let res = handle(&mut deps, paid_env("test1", 1000), HandleMsg::Signup {});
    assert!(res.is_ok());
    deps
}

#[test]
fn proper_initialization() {
    let mut deps = GovernanceStorage::new();
    let env = paid_env("test1", 1000);
    let res1 = init(&mut deps, env, InitMsg { nameservice_code_id: 16 });
    assert_eq!(&res1.is_err(), &false);
    let res1_message = res1.unwrap().messages.len();
    assert_eq!(res1_message, 1);

    let _res2 = handle(&mut deps, paid_env("test1", 1000), HandleMsg::Signup {});
    let query = get_nameservice_address(&deps).unwrap();
    assert_eq!(query, "test1".to_string());
}

#[test]
fn proper_subscription() {
    let mut deps = set_up();
    let msg3 = HandleMsg::Subscribe { name: "Test1Name".to_string() };
    let res3 = handle(&mut deps, paid_env("test1", 1000), msg3);
    assert_eq!(&res3.is_err(), &false);
    let res3_message = res3.unwrap().messages;
    assert_eq!(res3_message.len(), 1);

    let intended_message = vec![OutMsg::Execute {
        contract_addr: "test1".to_string(),
        msg: name_service::HandleMsg::Register {
            name_c: name_service::Name {
                value: "Test1Name".to_string(),
                owner: "test1".to_string(),
            },
        },
    }];
    assert_eq!(intended_message, res3_message);

    let query1 = address_exists(&deps, "test1".to_string()).unwrap();
    assert_eq!(query1, true);

    let query2 = try_paidamountis(&deps, "test1".to_string()).unwrap();
    assert_eq!(query2, 1000);
}

#[test]
fn proper_unsubscription() {
    let mut deps = set_up();
    let msg3 = HandleMsg::Subscribe { name: "Test1Name".to_string() };
    let _res3 = handle(&mut deps, paid_env("test1", 1000), msg3);

    let msg4 = HandleMsg::Unsubscribe { name: "Test1Name".to_string() };
    let res4 = handle(&mut deps, paid_env("test1", 1000), msg4);
    assert_eq!(&res4.is_err(), &false);
    let res4_message = res4.unwrap().messages;
    assert_eq!(res4_message.len(), 2);

    let intended_messages = vec![
        OutMsg::Execute {
            contract_addr: "test1".to_string(),
            msg: name_service::HandleMsg::Deregister {
                name_c: name_service::Name {
                    value: "Test1Name".to_string(),
                    owner: "test1".to_string(),
                },
            },
        },
        OutMsg::BankSend {
            from_address: CONTRACT.to_string(),
            to_address: "test1".to_string(),
            amount: luna(100),
        },
    ];
    assert_eq!(res4_message, intended_messages);

    let query1 = address_exists(&deps, "test1".to_string()).unwrap();
    assert_eq!(query1, false);
}

#[test]
fn init_requests_registry_with_signup_callback() {
    let mut deps = GovernanceStorage::new();
    let res = init(&mut deps, paid_env("test1", 0), InitMsg { nameservice_code_id: 16 }).unwrap();
    assert_eq!(
        res.messages,
        vec![OutMsg::InstantiateRegistry {
            code_id: 16,
            signup_contract: CONTRACT.to_string(),
        }]
    );
    assert_eq!(get_nameservice_address(&deps), Ok(String::new()));
}

#[test]
fn signup_records_the_caller() {
    let mut deps = GovernanceStorage::new();
    init(&mut deps, paid_env("test1", 0), InitMsg { nameservice_code_id: 3 }).unwrap();
    let res = handle(&mut deps, env_with("registry7", vec![]), HandleMsg::Signup {}).unwrap();
    assert!(res.messages.is_empty());
    assert_eq!(get_nameservice_address(&deps), Ok("registry7".to_string()));
}

#[test]
fn calls_before_construction_fail() {
    let mut deps = GovernanceStorage::new();
    assert_eq!(
        handle(&mut deps, env_with("x", vec![]), HandleMsg::Signup {}),
        Err(ContractError::ConfigUninitialized)
    );
    assert_eq!(get_nameservice_address(&deps), Err(ContractError::ConfigUninitialized));
    let r = handle(&mut deps, paid_env("x", 5), HandleMsg::Subscribe { name: "n".to_string() });
    assert_eq!(r, Err(ContractError::ConfigUninitialized));
    assert_eq!(address_exists(&deps, "x".to_string()), Ok(false));
}

#[test]
fn subscribe_with_zero_amount_is_refused() {
    let mut deps = set_up();
    let r = handle(&mut deps, paid_env("p", 0), HandleMsg::Subscribe { name: "n".to_string() });
    assert_eq!(r, Err(ContractError::PaymentRequired));
    assert_eq!(address_exists(&deps, "p".to_string()), Ok(false));
}

#[test]
fn subscribe_in_wrong_currency_is_refused() {
    let mut deps = set_up();
    let coin = Coin { denom: "uatom".to_string(), amount: 1000 };
    let r = handle(&mut deps, env_with("p", vec![coin]), HandleMsg::Subscribe { name: "n".to_string() });
    assert_eq!(r, Err(ContractError::PaymentRequired));
    assert_eq!(try_paidamountis(&deps, "p".to_string()), Err(ContractError::NotFound));
}

#[test]
fn subscribe_without_payment_is_refused() {
    let mut deps = set_up();
    let r = handle(&mut deps, env_with("p", vec![]), HandleMsg::Subscribe { name: "n".to_string() });
    assert_eq!(r, Err(ContractError::PaymentRequired));
    assert_eq!(address_exists(&deps, "p".to_string()), Ok(false));
}

#[test]
fn resubscribing_keeps_the_last_payment() {
    let mut deps = set_up();
    handle(&mut deps, paid_env("p", 500), HandleMsg::Subscribe { name: "a".to_string() }).unwrap();
    handle(&mut deps, paid_env("p", 70), HandleMsg::Subscribe { name: "b".to_string() }).unwrap();
    assert_eq!(try_paidamountis(&deps, "p".to_string()), Ok(70));
}

#[test]
fn payers_are_kept_apart() {
    let mut deps = set_up();
    handle(&mut deps, paid_env("p", 500), HandleMsg::Subscribe { name: "a".to_string() }).unwrap();
    handle(&mut deps, paid_env("q", 30), HandleMsg::Subscribe { name: "b".to_string() }).unwrap();
    handle(&mut deps, paid_env("p", 1), HandleMsg::Unsubscribe { name: "a".to_string() }).unwrap();
    assert_eq!(try_paidamountis(&deps, "q".to_string()), Ok(30));
    assert_eq!(try_paidamountis(&deps, "p".to_string()), Err(ContractError::NotFound));
}

#[test]
fn unsubscribe_without_subscription_only_deregisters() {
    let mut deps = set_up();
    let res = handle(&mut deps, env_with("p", vec![]), HandleMsg::Unsubscribe { name: "n".to_string() })
        .unwrap();
    assert_eq!(
        res.messages,
        vec![OutMsg::Execute {
            contract_addr: "test1".to_string(),
            msg: name_service::HandleMsg::Deregister {
                name_c: name_service::Name { value: "n".to_string(), owner: "p".to_string() },
            },
        }]
    );
}

#[test]
fn refund_is_a_tenth_rounded_down() {
    let mut deps = set_up();
    handle(&mut deps, paid_env("p", 1009), HandleMsg::Subscribe { name: "n".to_string() }).unwrap();
    let res = handle(&mut deps, env_with("p", vec![]), HandleMsg::Unsubscribe { name: "n".to_string() })
        .unwrap();
    assert_eq!(res.messages.len(), 2);
    assert_eq!(
        res.messages[1],
        OutMsg::BankSend {
            from_address: CONTRACT.to_string(),
            to_address: "p".to_string(),
            amount: luna(100),
        }
    );
    let second = handle(&mut deps, env_with("p", vec![]), HandleMsg::Unsubscribe { name: "n".to_string() })
        .unwrap();
    assert_eq!(second.messages.len(), 1);
}

#[test]
fn queries_answer_through_the_dispatcher() {
    let mut deps = set_up();
    handle(&mut deps, paid_env("p", 42), HandleMsg::Subscribe { name: "n".to_string() }).unwrap();
    assert_eq!(
        query(&deps, QueryMsg::PaidAmountIs { address: "p".to_string() }),
        Ok(QueryAnswer::PaidAmount(42))
    );
    assert_eq!(
        query(&deps, QueryMsg::PaidAmountIs { address: "z".to_string() }),
        Err(ContractError::NotFound)
    );
    assert_eq!(
        query(&deps, QueryMsg::GetNameServiceAddress {}),
        Ok(QueryAnswer::NameServiceAddress("test1".to_string()))
    );
    assert_eq!(
        query(&deps, QueryMsg::AddressExists { address: "p".to_string() }),
        Ok(QueryAnswer::Exists(true))
    );
}
