use cosmwasm_std::testing::MockApi;
use cosmwasm_std::Api as Codec;

use cw1_subkeys::api::{Api, Extern};
use cw1_subkeys::coin::{coin, Balance, Coin};
use cw1_subkeys::contract::{
    can_handle, can_increase, handle, handle_decrease_allowance, handle_execute,
    handle_increase_allowance, init, query, query_allowance,
};
use cw1_subkeys::error::{StdError, StdResult};
use cw1_subkeys::msg::{
    AdminListResponse, BankMsg, CosmosMsg, Empty, Env, HandleMsg, HandleResponse, InitMsg,
    LogAttribute, MessageInfo, QueryMsg, QueryResponse, StakingMsg, WasmMsg,
};
use cw1_subkeys::state::{AdminList, Allowance, Expiration, Storage};

fn canonical(name: &str) -> Vec<u8> {
    let human = cosmwasm_std::HumanAddr::from(name);
    let codec = MockApi::new(20);
    codec.canonical_address(&human).unwrap().as_slice().to_vec()
}

fn unknown() -> StdError {
    StdError::generic_err("unknown account")
}

// set up with the administrators "alice" and "bob"
fn ready() -> Extern {
    let mut api = Api::new(unknown());
    for name in ["alice", "bob", "carl", "dora"] {
        api.answer_canonical(name.to_string(), Ok(canonical(name)));
        api.answer_human(canonical(name), Ok(name.to_string()));
    }
    let mut deps = Extern {
        storage: Storage::new(),
        api,
    };
    let msg = InitMsg {
        admins: vec!["alice".to_string(), "bob".to_string()],
        mutable: true,
    };
    init(&mut deps, env("creator"), msg).unwrap();
    deps
}

fn env(sender: &str) -> Env {
    Env {
        message: MessageInfo {
            sender: sender.to_string(),
        },
    }
}

fn line(key: &str, value: &str) -> LogAttribute {
    LogAttribute {
        key: key.to_string(),
        value: value.to_string(),
    }
}

fn send(amount: Vec<Coin>) -> CosmosMsg<Empty> {
    CosmosMsg::Bank(BankMsg::Send {
        from_address: "contract".to_string(),
        to_address: "dora".to_string(),
        amount,
    })
}

fn increase(
    deps: &mut Extern,
    sender: &str,
    spender: &str,
    amount: Coin,
    expires: Option<Expiration>,
) -> StdResult<HandleResponse<Empty>> {
    let msg = HandleMsg::IncreaseAllowance {
        spender: spender.to_string(),
        amount,
        expires,
    };
    assert!(can_handle(deps, &env(sender), &msg));
    handle(deps, env(sender), msg)
}

fn decrease(
    deps: &mut Extern,
    sender: &str,
    spender: &str,
    amount: Coin,
    expires: Option<Expiration>,
) -> StdResult<HandleResponse<Empty>> {
    let msg = HandleMsg::DecreaseAllowance {
        spender: spender.to_string(),
        amount,
        expires,
    };
    assert!(can_handle(deps, &env(sender), &msg));
    handle(deps, env(sender), msg)
}

fn execute(
    deps: &mut Extern,
    sender: &str,
    msgs: Vec<CosmosMsg<Empty>>,
) -> StdResult<HandleResponse<Empty>> {
    let msg = HandleMsg::Execute { msgs };
    assert!(can_handle(deps, &env(sender), &msg));
    handle(deps, env(sender), msg)
}

fn balance_of(deps: &Extern, name: &str) -> Vec<Coin> {
    query_allowance(deps, name.to_string()).unwrap().balance.0
}

fn underflow(minuend: &str, subtrahend: &str) -> StdError {
    StdError::Underflow {
        minuend: minuend.to_string(),
        subtrahend: subtrahend.to_string(),
    }
}

fn no_allowance() -> StdError {
    StdError::not_found("No allowance for this account")
}

#[test]
fn set_up_records_carry_the_version_of_the_list() {
    let deps = ready();
    let info = deps.storage.contract_info.unwrap();
    assert_eq!(info.contract, "crates.io:cw1-whitelist".to_string());
    assert_eq!(info.version, "v0.1.0".to_string());
    assert_eq!(
        deps.storage.admin_list,
        Ok(AdminList {
            admins: vec![canonical("alice"), canonical("bob")],
            mutable: true
        })
    );
}

#[test]
fn a_set_up_with_an_unknown_account_fails() {
    let mut deps = Extern {
        storage: Storage::new(),
        api: Api::new(unknown()),
    };
    let msg = InitMsg {
        admins: vec!["alice".to_string()],
        mutable: true,
    };
    assert_eq!(init(&mut deps, env("creator"), msg), Err(unknown()));
    assert!(deps.storage.contract_info.is_some());
    assert!(deps.storage.admin_list.is_err());
}

#[test]
fn increases_are_reported() {
    let mut deps = ready();
    let answer = increase(&mut deps, "alice", "carl", coin(1234567890, "utoken"), None).unwrap();
    assert_eq!(answer.messages, vec![]);
    assert_eq!(answer.data, None);
    assert_eq!(
        answer.log,
        vec![
            line("action", "increase_allowance"),
            line("owner", "alice"),
            line("spender", "carl"),
            line("denomination", "utoken"),
            line("amount", "1234567890"),
        ]
    );
}

#[test]
fn decreases_are_reported_with_the_name_that_the_codec_writes() {
    let mut deps = ready();
    deps.api
        .answer_human(canonical("bob"), Ok("Bob the owner".to_string()));
    increase(&mut deps, "bob", "carl", coin(100, "utoken"), None).unwrap();
    let answer = decrease(&mut deps, "bob", "carl", coin(40, "utoken"), None).unwrap();
    assert_eq!(answer.messages, vec![]);
    assert_eq!(answer.data, None);
    assert_eq!(
        answer.log,
        vec![
            line("action", "decrease_allowance"),
            line("owner", "Bob the owner"),
            line("spender", "carl"),
            line("denomination", "utoken"),
            line("amount", "40"),
        ]
    );
}

#[test]
fn a_decrease_that_cannot_be_reported_stands() {
    let mut deps = ready();
    increase(&mut deps, "bob", "carl", coin(100, "utoken"), None).unwrap();
    deps.api.answer_human(canonical("bob"), Err(unknown()));
    let answer = decrease(&mut deps, "bob", "carl", coin(40, "utoken"), None);
    assert_eq!(answer, Err(unknown()));
    assert_eq!(balance_of(&deps, "carl"), vec![coin(60, "utoken")]);
}

#[test]
fn only_administrators_change_allowances() {
    let mut deps = ready();
    increase(&mut deps, "alice", "carl", coin(100, "utoken"), None).unwrap();
    let refused = Err(StdError::unauthorized());
    assert_eq!(
        increase(&mut deps, "carl", "dora", coin(1, "utoken"), None),
        refused
    );
    assert_eq!(
        decrease(&mut deps, "dora", "carl", coin(1, "utoken"), None),
        refused
    );
    // also for the own account
    assert_eq!(
        increase(&mut deps, "carl", "carl", coin(1, "utoken"), None),
        refused
    );
    assert_eq!(balance_of(&deps, "carl"), vec![coin(100, "utoken")]);
    assert_eq!(balance_of(&deps, "dora"), vec![]);
}

#[test]
fn no_allowance_for_the_own_account() {
    let mut deps = ready();
    let refused = Err(StdError::generic_err("Cannot set allowance to own account"));
    assert_eq!(
        increase(&mut deps, "alice", "alice", coin(1, "utoken"), None),
        refused
    );
    assert_eq!(
        decrease(&mut deps, "bob", "bob", coin(1, "utoken"), None),
        refused
    );
    // an administrator may have an allowance from another one
    assert!(increase(&mut deps, "alice", "bob", coin(1, "utoken"), None).is_ok());
}

#[test]
fn unknown_accounts_are_refused() {
    let mut deps = ready();
    let before = deps.storage.admin_list.clone();
    assert_eq!(
        increase(&mut deps, "alice", "nobody", coin(1, "utoken"), None),
        Err(unknown())
    );
    assert_eq!(
        decrease(&mut deps, "nobody", "carl", coin(1, "utoken"), None),
        Err(unknown())
    );
    assert_eq!(execute(&mut deps, "nobody", vec![]), Err(unknown()));
    assert_eq!(query_allowance(&deps, "nobody".to_string()), Err(unknown()));
    assert_eq!(deps.storage.admin_list, before);
}

#[test]
fn nothing_works_before_the_set_up() {
    let mut deps = ready();
    deps.storage = Storage::new();
    let missing = StdError::not_found("cw1_whitelist::state::AdminList");
    assert_eq!(
        increase(&mut deps, "alice", "carl", coin(1, "utoken"), None),
        Err(missing.clone())
    );
    assert_eq!(
        decrease(&mut deps, "alice", "carl", coin(1, "utoken"), None),
        Err(missing.clone())
    );
    assert_eq!(execute(&mut deps, "alice", vec![]), Err(missing.clone()));
    assert_eq!(
        handle(&mut deps, env("alice"), HandleMsg::Freeze {}),
        Err(missing.clone())
    );
    assert_eq!(query(&deps, QueryMsg::AdminList {}), Err(missing));
    // allowances can be asked for all the same
    assert_eq!(
        query_allowance(&deps, "carl".to_string()),
        Ok(Allowance::default())
    );
}

#[test]
fn records_that_cannot_be_read_are_reported() {
    let mut deps = ready();
    let broken = StdError::ParseErr {
        target: "Allowance".to_string(),
        msg: "Unexpected end of JSON".to_string(),
    };
    deps.storage
        .allowances
        .record(&canonical("carl"), Err(broken.clone()));
    assert_eq!(
        increase(&mut deps, "alice", "carl", coin(1, "utoken"), None),
        Err(broken.clone())
    );
    assert_eq!(
        decrease(&mut deps, "alice", "carl", coin(1, "utoken"), None),
        Err(broken.clone())
    );
    assert_eq!(execute(&mut deps, "carl", vec![]), Err(broken.clone()));
    assert_eq!(
        query_allowance(&deps, "carl".to_string()),
        Err(broken.clone())
    );
    // administrators relay without an allowance
    assert!(execute(&mut deps, "alice", vec![]).is_ok());

    deps.storage.admin_list = Err(broken.clone());
    assert_eq!(execute(&mut deps, "alice", vec![]), Err(broken));
}

#[test]
fn an_allowance_ends_when_the_last_change_says() {
    let mut deps = ready();
    let height = Expiration::AtHeight { height: 7 };
    let time = Expiration::AtTime { time: 8 };
    let never = Expiration::Never {};
    let expires = |deps: &Extern| query_allowance(deps, "carl".to_string()).unwrap().expires;

    increase(&mut deps, "alice", "carl", coin(10, "utoken"), None).unwrap();
    assert_eq!(expires(&deps), never);
    increase(&mut deps, "alice", "carl", coin(10, "utoken"), Some(height)).unwrap();
    assert_eq!(expires(&deps), height);
    decrease(&mut deps, "alice", "carl", coin(1, "utoken"), None).unwrap();
    assert_eq!(expires(&deps), height);
    decrease(&mut deps, "alice", "carl", coin(1, "utoken"), Some(time)).unwrap();
    assert_eq!(expires(&deps), time);
    // a refused decrease does not set an end
    assert_eq!(
        decrease(&mut deps, "alice", "carl", coin(1, "other"), Some(never)),
        Err(underflow("0", "1"))
    );
    assert_eq!(expires(&deps), time);
    // spending keeps it
    execute(&mut deps, "carl", vec![send(vec![coin(1, "utoken")])]).unwrap();
    assert_eq!(expires(&deps), time);
}

#[test]
fn sums_over_the_limit_are_known_before() {
    let mut deps = ready();
    increase(&mut deps, "alice", "carl", coin(u128::MAX - 1, "utoken"), None).unwrap();
    let more = |amount| HandleMsg::IncreaseAllowance {
        spender: "carl".to_string(),
        amount: coin(amount, "utoken"),
        expires: None,
    };
    assert!(can_handle(&deps, &env("alice"), &more(1)));
    assert!(!can_handle(&deps, &env("alice"), &more(2)));
    // a message that is refused asks for no sum
    assert!(can_handle(&deps, &env("dora"), &more(2)));
    let carl = "carl".to_string();
    assert!(can_increase(&deps, &env("alice"), &carl, &coin(1, "utoken")));
    assert!(!can_increase(&deps, &env("alice"), &carl, &coin(2, "utoken")));
    assert!(can_increase(&deps, &env("alice"), &carl, &coin(2, "other")));

    handle(&mut deps, env("alice"), more(1)).unwrap();
    assert_eq!(balance_of(&deps, "carl"), vec![coin(u128::MAX, "utoken")]);
    let answer = decrease(&mut deps, "alice", "carl", coin(u128::MAX, "utoken"), None).unwrap();
    assert_eq!(
        answer.log[4],
        line("amount", "340282366920938463463374607431768211455")
    );
    assert_eq!(balance_of(&deps, "carl"), vec![]);
}

#[test]
fn a_decrease_undoes_an_increase() {
    let mut deps = ready();
    increase(&mut deps, "alice", "carl", coin(5, "btoken"), None).unwrap();
    let before = deps.storage.allowances.may_load(&canonical("carl"));
    for amount in [coin(3, "atoken"), coin(3, "btoken"), coin(3, "ctoken")] {
        increase(&mut deps, "alice", "carl", amount.clone(), None).unwrap();
        decrease(&mut deps, "alice", "carl", amount, None).unwrap();
        assert_eq!(deps.storage.allowances.may_load(&canonical("carl")), before);
    }
    // where there was no allowance, there is none again
    increase(&mut deps, "alice", "dora", coin(3, "atoken"), None).unwrap();
    decrease(&mut deps, "alice", "dora", coin(3, "atoken"), None).unwrap();
    assert_eq!(deps.storage.allowances.may_load(&canonical("dora")), Ok(None));
}

#[test]
fn a_decrease_keeps_no_empty_allowance() {
    let mut deps = ready();
    let time = Expiration::AtTime { time: 8 };
    increase(&mut deps, "alice", "carl", coin(3, "atoken"), Some(time)).unwrap();
    increase(&mut deps, "alice", "carl", coin(0, "btoken"), None).unwrap();
    assert_eq!(
        balance_of(&deps, "carl"),
        vec![coin(3, "atoken"), coin(0, "btoken")]
    );
    // what is left holds nothing
    decrease(&mut deps, "alice", "carl", coin(9, "atoken"), None).unwrap();
    assert_eq!(deps.storage.allowances.may_load(&canonical("carl")), Ok(None));
    assert_eq!(
        query_allowance(&deps, "carl".to_string()),
        Ok(Allowance::default())
    );
    assert_eq!(
        decrease(&mut deps, "alice", "carl", coin(1, "atoken"), None),
        Err(no_allowance())
    );
}

#[test]
fn spending_all_keeps_the_allowance() {
    let mut deps = ready();
    increase(&mut deps, "alice", "carl", coin(3, "atoken"), None).unwrap();
    execute(&mut deps, "carl", vec![send(vec![coin(3, "atoken")])]).unwrap();
    assert_eq!(
        deps.storage.allowances.may_load(&canonical("carl")),
        Ok(Some(Allowance {
            balance: Balance(vec![]),
            expires: Expiration::Never {}
        }))
    );
    assert_eq!(
        execute(&mut deps, "carl", vec![send(vec![coin(1, "atoken")])]),
        Err(underflow("0", "1"))
    );
    // nothing to send needs no coins, but an allowance
    assert!(execute(&mut deps, "carl", vec![]).is_ok());
    assert!(execute(&mut deps, "carl", vec![send(vec![])]).is_ok());
    assert_eq!(execute(&mut deps, "dora", vec![]), Err(no_allowance()));
}

#[test]
fn transfers_within_the_allowance_are_relayed() {
    let mut deps = ready();
    increase(&mut deps, "alice", "carl", coin(10, "atoken"), None).unwrap();
    increase(&mut deps, "alice", "carl", coin(20, "btoken"), None).unwrap();
    let msgs = vec![
        send(vec![coin(4, "btoken"), coin(1, "atoken"), coin(5, "btoken")]),
        send(vec![coin(9, "atoken")]),
        send(vec![coin(1, "btoken")]),
    ];
    let answer = execute(&mut deps, "carl", msgs.clone()).unwrap();
    assert_eq!(answer.messages, msgs);
    assert_eq!(
        answer.log,
        vec![line("action", "execute"), line("owner", "carl")]
    );
    assert_eq!(answer.data, None);
    assert_eq!(balance_of(&deps, "carl"), vec![coin(10, "btoken")]);
}

#[test]
fn messages_in_two_lots_cost_what_they_cost_in_one() {
    let first = vec![send(vec![coin(4, "atoken")]), send(vec![coin(1, "btoken")])];
    let second = vec![send(vec![coin(2, "atoken")])];
    let mut all = first.clone();
    all.extend(second.clone());

    let mut one = ready();
    increase(&mut one, "alice", "carl", coin(10, "atoken"), None).unwrap();
    increase(&mut one, "alice", "carl", coin(10, "btoken"), None).unwrap();
    execute(&mut one, "carl", all).unwrap();

    let mut two = ready();
    increase(&mut two, "alice", "carl", coin(10, "atoken"), None).unwrap();
    increase(&mut two, "alice", "carl", coin(10, "btoken"), None).unwrap();
    execute(&mut two, "carl", first).unwrap();
    execute(&mut two, "carl", second).unwrap();

    assert_eq!(one.storage, two.storage);
    assert_eq!(
        balance_of(&one, "carl"),
        vec![coin(4, "atoken"), coin(9, "btoken")]
    );
}

#[test]
fn what_was_paid_before_a_refused_message_stays_paid() {
    let mut deps = ready();
    increase(&mut deps, "alice", "carl", coin(10, "atoken"), None).unwrap();
    increase(&mut deps, "alice", "carl", coin(10, "btoken"), None).unwrap();
    let msgs = vec![
        send(vec![coin(4, "atoken")]),
        // of this one nothing is paid
        send(vec![coin(1, "btoken"), coin(7, "atoken")]),
        send(vec![coin(1, "atoken")]),
    ];
    assert_eq!(execute(&mut deps, "carl", msgs), Err(underflow("6", "7")));
    assert_eq!(
        balance_of(&deps, "carl"),
        vec![coin(6, "atoken"), coin(10, "btoken")]
    );

    let msgs = vec![send(vec![coin(1, "atoken")]), CosmosMsg::Custom(Empty {})];
    assert_eq!(
        execute(&mut deps, "carl", msgs),
        Err(StdError::generic_err("Message type rejected"))
    );
    assert_eq!(
        balance_of(&deps, "carl"),
        vec![coin(5, "atoken"), coin(10, "btoken")]
    );
}

#[test]
fn other_messages_are_for_administrators_only() {
    let mut deps = ready();
    increase(&mut deps, "alice", "carl", coin(10, "atoken"), None).unwrap();
    let others: Vec<CosmosMsg<Empty>> = vec![
        CosmosMsg::Custom(Empty {}),
        CosmosMsg::Staking(StakingMsg::Delegate {
            validator: "dora".to_string(),
            amount: coin(1, "atoken"),
        }),
        CosmosMsg::Staking(StakingMsg::Undelegate {
            validator: "dora".to_string(),
            amount: coin(1, "atoken"),
        }),
        CosmosMsg::Staking(StakingMsg::Withdraw {
            validator: "dora".to_string(),
            recipient: None,
        }),
        CosmosMsg::Staking(StakingMsg::Redelegate {
            src_validator: "dora".to_string(),
            dst_validator: "carl".to_string(),
            amount: coin(1, "atoken"),
        }),
        CosmosMsg::Wasm(WasmMsg::Execute {
            contract_addr: "dora".to_string(),
            msg: vec![1, 2],
            send: vec![coin(1, "atoken")],
        }),
        CosmosMsg::Wasm(WasmMsg::Instantiate {
            code_id: 1,
            msg: vec![],
            send: vec![],
            label: None,
        }),
    ];
    for msg in &others {
        assert_eq!(
            execute(&mut deps, "carl", vec![msg.clone()]),
            Err(StdError::generic_err("Message type rejected"))
        );
    }
    assert_eq!(balance_of(&deps, "carl"), vec![coin(10, "atoken")]);

    let mut msgs = others;
    msgs.push(send(vec![coin(1000, "ztoken")]));
    let answer = execute(&mut deps, "bob", msgs.clone()).unwrap();
    assert_eq!(answer.messages, msgs);
    assert_eq!(
        answer.log,
        vec![line("action", "execute"), line("owner", "bob")]
    );
}

#[test]
fn custom_messages_can_be_of_any_type() {
    let mut deps = ready();
    let msgs = vec![CosmosMsg::Custom(42u8)];
    let answer = handle_execute(&mut deps, env("alice"), msgs.clone()).unwrap();
    assert_eq!(answer.messages, msgs);

    let carl = "carl".to_string();
    let given: HandleResponse<u8> =
        handle_increase_allowance(&mut deps, env("alice"), carl.clone(), coin(5, "atoken"), None)
            .unwrap();
    assert_eq!(given.messages, vec![]);
    let taken: HandleResponse<u8> =
        handle_decrease_allowance(&mut deps, env("alice"), carl, coin(2, "atoken"), None).unwrap();
    assert_eq!(taken.log[0], line("action", "decrease_allowance"));
    assert_eq!(balance_of(&deps, "carl"), vec![coin(3, "atoken")]);
}

#[test]
fn messages_change_only_what_they_are_about() {
    let mut deps = ready();
    increase(&mut deps, "alice", "carl", coin(10, "atoken"), None).unwrap();
    increase(&mut deps, "alice", "dora", coin(20, "atoken"), None).unwrap();
    execute(&mut deps, "carl", vec![send(vec![coin(3, "atoken")])]).unwrap();
    assert_eq!(balance_of(&deps, "carl"), vec![coin(7, "atoken")]);
    assert_eq!(balance_of(&deps, "dora"), vec![coin(20, "atoken")]);
    decrease(&mut deps, "alice", "dora", coin(20, "atoken"), None).unwrap();
    assert_eq!(balance_of(&deps, "carl"), vec![coin(7, "atoken")]);
    assert_eq!(balance_of(&deps, "dora"), vec![]);
    handle(&mut deps, env("alice"), HandleMsg::Freeze {}).unwrap();
    assert_eq!(balance_of(&deps, "carl"), vec![coin(7, "atoken")]);
}

#[test]
fn nobody_spends_more_than_was_granted() {
    let mut deps = ready();
    let mut granted: u128 = 0;
    let mut spent: u128 = 0;
    for round in 1u128..20 {
        increase(&mut deps, "alice", "carl", coin(round, "atoken"), None).unwrap();
        granted += round;
        let wish = (round * 7) % 11 + 1;
        if execute(&mut deps, "carl", vec![send(vec![coin(wish, "atoken")])]).is_ok() {
            spent += wish;
        }
        let held: u128 = balance_of(&deps, "carl").iter().map(|c| c.amount).sum();
        assert_eq!(held + spent, granted);
    }
    assert!(spent > 0);
}

#[test]
fn queries_answer_for_both_kinds_of_records() {
    let mut deps = ready();
    increase(&mut deps, "alice", "carl", coin(10, "atoken"), None).unwrap();
    assert_eq!(
        query(&deps, QueryMsg::AdminList {}),
        Ok(QueryResponse::AdminList(AdminListResponse {
            admins: vec!["alice".to_string(), "bob".to_string()],
            mutable: true
        }))
    );
    assert_eq!(
        query(
            &deps,
            QueryMsg::Allowance {
                spender: "carl".to_string()
            }
        ),
        Ok(QueryResponse::Allowance(Allowance {
            balance: Balance(vec![coin(10, "atoken")]),
            expires: Expiration::Never {}
        }))
    );
    assert_eq!(
        query(
            &deps,
            QueryMsg::Allowance {
                spender: "dora".to_string()
            }
        ),
        Ok(QueryResponse::Allowance(Allowance::default()))
    );
    assert_eq!(
        query(
            &deps,
            QueryMsg::Allowance {
                spender: "nobody".to_string()
            }
        ),
        Err(unknown())
    );
}

#[test]
fn an_administrator_who_was_replaced_needs_an_allowance() {
    let mut deps = ready();
    let msg = HandleMsg::UpdateAdmins {
        admins: vec!["alice".to_string()],
    };
    let answer = handle(&mut deps, env("bob"), msg).unwrap();
    assert_eq!(answer.log, vec![line("action", "update_admins")]);
    assert_eq!(execute(&mut deps, "bob", vec![]), Err(no_allowance()));
    increase(&mut deps, "alice", "bob", coin(1, "atoken"), None).unwrap();
    assert!(execute(&mut deps, "bob", vec![send(vec![coin(1, "atoken")])]).is_ok());
}

#[test]
fn the_last_record_and_the_last_answer_count() {
    let mut deps = ready();
    let carl = canonical("carl");
    let first = Allowance {
        balance: Balance(vec![coin(1, "atoken")]),
        expires: Expiration::Never {},
    };
    let second = Allowance {
        balance: Balance(vec![coin(2, "atoken")]),
        expires: Expiration::AtHeight { height: 3 },
    };
    deps.storage.allowances.save(&carl, first);
    deps.storage.allowances.save(&carl, second.clone());
    assert_eq!(deps.storage.allowances.may_load(&carl), Ok(Some(second)));
    deps.storage.allowances.remove(&carl);
    assert_eq!(deps.storage.allowances.may_load(&carl), Ok(None));

    deps.api.answer_canonical("carl".to_string(), Ok(vec![9]));
    assert_eq!(deps.api.canonical_address(&"carl".to_string()), Ok(vec![9]));
    assert_eq!(deps.api.human_address(&vec![9]), Err(unknown()));
}

#[test]
fn errors_of_any_kind_are_passed_on() {
    let text = || "details".to_string();
    let errors = [
        StdError::InvalidBase64 { msg: text() },
        StdError::InvalidUtf8 { msg: text() },
        StdError::SerializeErr {
            source: text(),
            msg: text(),
        },
        StdError::ParseErr {
            target: text(),
            msg: text(),
        },
        underflow("1", "2"),
        StdError::unauthorized(),
        no_allowance(),
    ];
    for error in errors {
        let mut deps = ready();
        deps.api
            .answer_canonical("carl".to_string(), Err(error.clone()));
        assert_eq!(
            increase(&mut deps, "alice", "carl", coin(1, "atoken"), None),
            Err(error.clone())
        );
        assert_eq!(execute(&mut deps, "carl", vec![]), Err(error.clone()));
        assert_eq!(query_allowance(&deps, "carl".to_string()), Err(error));
    }
}

#[test]
fn an_amount_of_nothing_needs_a_listed_denomination() {
    let mut deps = ready();
    increase(&mut deps, "alice", "carl", coin(5, "atoken"), None).unwrap();
    increase(&mut deps, "alice", "carl", coin(0, "btoken"), None).unwrap();
    // something of it is left
    let msgs = vec![send(vec![coin(2, "atoken"), coin(0, "atoken")])];
    assert!(execute(&mut deps, "carl", msgs).is_ok());
    // nothing of it is left
    let msgs = vec![send(vec![coin(3, "atoken"), coin(0, "atoken")])];
    assert_eq!(execute(&mut deps, "carl", msgs), Err(underflow("0", "0")));
    // listed with nothing, which the first payment takes out
    let msgs = vec![send(vec![coin(0, "btoken")])];
    assert!(execute(&mut deps, "carl", msgs.clone()).is_ok());
    assert_eq!(execute(&mut deps, "carl", msgs), Err(underflow("0", "0")));
    assert_eq!(balance_of(&deps, "carl"), vec![coin(3, "atoken")]);
}

#[test]
fn increases_commute() {
    let height = Some(Expiration::AtHeight { height: 7 });
    let mut one = ready();
    increase(&mut one, "alice", "carl", coin(3, "btoken"), height).unwrap();
    increase(&mut one, "bob", "carl", coin(4, "atoken"), None).unwrap();
    increase(&mut one, "bob", "carl", coin(5, "btoken"), None).unwrap();
    let mut two = ready();
    increase(&mut two, "bob", "carl", coin(5, "btoken"), None).unwrap();
    increase(&mut two, "bob", "carl", coin(4, "atoken"), None).unwrap();
    increase(&mut two, "alice", "carl", coin(3, "btoken"), height).unwrap();
    assert_eq!(one.storage, two.storage);
    assert_eq!(
        balance_of(&one, "carl"),
        vec![coin(4, "atoken"), coin(8, "btoken")]
    );
}

#[test]
fn exactly_what_is_sent_is_taken_from_any_stored_balance() {
    let mut deps = ready();
    // neither sorted nor without repetitions
    let stored = Allowance {
        balance: Balance(vec![coin(4, "btoken"), coin(7, "atoken"), coin(9, "btoken")]),
        expires: Expiration::Never {},
    };
    deps.storage.allowances.save(&canonical("carl"), stored);
    execute(&mut deps, "carl", vec![send(vec![coin(4, "btoken"), coin(6, "btoken")])]).unwrap();
    assert_eq!(
        balance_of(&deps, "carl"),
        vec![coin(7, "atoken"), coin(3, "btoken")]
    );
    // denominations that are distinct but not sorted
    let stored = Allowance {
        balance: Balance(vec![coin(4, "btoken"), coin(7, "atoken")]),
        expires: Expiration::Never {},
    };
    deps.storage.allowances.save(&canonical("carl"), stored);
    execute(&mut deps, "carl", vec![send(vec![coin(7, "atoken"), coin(3, "btoken")])]).unwrap();
    assert_eq!(balance_of(&deps, "carl"), vec![coin(1, "btoken")]);
}
