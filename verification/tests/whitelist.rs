use cosmwasm_std::testing::{mock_dependencies, mock_env, MockApi, MockQuerier, MockStorage};
use cosmwasm_std::Api as Codec;
use cw1_whitelist::state::admin_list_read;
use cw2::get_contract_version;

use cw1_subkeys::api::{Api, Extern};
use cw1_subkeys::error::{StdError, StdResult};
use cw1_subkeys::msg::{
    AdminListResponse, Empty, Env, HandleResponse, InitMsg, InitResponse, LogAttribute,
    MessageInfo,
};
use cw1_subkeys::state::{AdminList, Storage};
use cw1_subkeys::whitelist;

// a list that is kept by the library, and the same one kept by the contract on mocked storage
struct Both {
    library: Extern,
    contract: cosmwasm_std::Extern<MockStorage, MockApi, MockQuerier>,
}

fn error(e: cosmwasm_std::StdError) -> StdError {
    match e {
        cosmwasm_std::StdError::GenericErr { msg, .. } => StdError::GenericErr { msg },
        cosmwasm_std::StdError::NotFound { kind, .. } => StdError::NotFound { kind },
        cosmwasm_std::StdError::Unauthorized { .. } => StdError::Unauthorized {},
        e => panic!("unexpected error: {:?}", e),
    }
}

fn log(lines: Vec<cosmwasm_std::LogAttribute>) -> Vec<LogAttribute> {
    let plain = |l: cosmwasm_std::LogAttribute| LogAttribute {
        key: l.key,
        value: l.value,
    };
    lines.into_iter().map(plain).collect()
}

fn humans(names: &[&str]) -> Vec<cosmwasm_std::HumanAddr> {
    names
        .iter()
        .map(|n| cosmwasm_std::HumanAddr::from(*n))
        .collect()
}

fn strings(names: &[&str]) -> Vec<String> {
    names.iter().map(|n| n.to_string()).collect()
}

fn env(sender: &str) -> Env {
    Env {
        message: MessageInfo {
            sender: sender.to_string(),
        },
    }
}

impl Both {
    fn new() -> Both {
        let codec = MockApi::new(20);
        let mut api = Api::new(StdError::generic_err("unknown account"));
        let names = ["anne", "bob", "carl", "x", "a name that is much too long"];
        for name in names {
            match codec.canonical_address(&cosmwasm_std::HumanAddr::from(name)) {
                Ok(canonical) => {
                    let back = codec.human_address(&canonical).map_err(error).map(|h| h.0);
                    api.answer_human(canonical.as_slice().to_vec(), back);
                    api.answer_canonical(name.to_string(), Ok(canonical.as_slice().to_vec()));
                }
                Err(e) => api.answer_canonical(name.to_string(), Err(error(e))),
            }
        }
        Both {
            library: Extern {
                storage: Storage::new(),
                api,
            },
            contract: mock_dependencies(20, &[]),
        }
    }

    fn init(&mut self, admins: &[&str], mutable: bool) -> StdResult<InitResponse> {
        let msg = cw1_whitelist::msg::InitMsg {
            admins: humans(admins),
            mutable,
        };
        let expected =
            cw1_whitelist::contract::init(&mut self.contract, mock_env("creator", &[]), msg)
                .map_err(error)
                .map(|r| {
                    assert!(r.messages.is_empty());
                    InitResponse {
                        messages: vec![],
                        log: log(r.log),
                    }
                });
        let msg = InitMsg {
            admins: strings(admins),
            mutable,
        };
        let answer = whitelist::init(&mut self.library, env("creator"), msg);
        assert_eq!(answer, expected);
        self.compare();
        answer
    }

    fn freeze(&mut self, sender: &str) -> StdResult<HandleResponse<Empty>> {
        let expected =
            cw1_whitelist::contract::handle_freeze(&mut self.contract, mock_env(sender, &[]));
        let answer = whitelist::handle_freeze(&mut self.library, env(sender));
        self.agree(answer, expected)
    }

    fn update(&mut self, sender: &str, admins: &[&str]) -> StdResult<HandleResponse<Empty>> {
        let expected = cw1_whitelist::contract::handle_update_admins(
            &mut self.contract,
            mock_env(sender, &[]),
            humans(admins),
        );
        let answer =
            whitelist::handle_update_admins(&mut self.library, env(sender), strings(admins));
        self.agree(answer, expected)
    }

    fn query(&self) -> StdResult<AdminListResponse> {
        let expected = cw1_whitelist::contract::query_admin_list(&self.contract)
            .map_err(error)
            .map(|r| AdminListResponse {
                admins: r.admins.into_iter().map(|h| h.0).collect(),
                mutable: r.mutable,
            });
        let answer = whitelist::query_admin_list(&self.library);
        assert_eq!(answer, expected);
        answer
    }

    fn agree(
        &self,
        answer: StdResult<HandleResponse<Empty>>,
        expected: cosmwasm_std::StdResult<cosmwasm_std::HandleResponse>,
    ) -> StdResult<HandleResponse<Empty>> {
        let expected = expected.map_err(error).map(|r| {
            assert!(r.messages.is_empty() && r.data.is_none());
            HandleResponse {
                messages: vec![],
                log: log(r.log),
                data: None,
            }
        });
        assert_eq!(answer, expected);
        self.compare();
        answer
    }

    // the records are the same
    fn compare(&self) {
        let kept = admin_list_read(&self.contract.storage)
            .load()
            .map_err(error)
            .map(|l| AdminList {
                admins: l.admins.iter().map(|a| a.as_slice().to_vec()).collect(),
                mutable: l.mutable,
            });
        assert_eq!(self.library.storage.admin_list, kept);
        let kept = get_contract_version(&self.contract.storage)
            .ok()
            .map(|v| (v.contract, v.version));
        let info = self.library.storage.contract_info.as_ref();
        assert_eq!(info.map(|v| (v.contract.clone(), v.version.clone())), kept);
    }
}

fn done(action: &str) -> StdResult<HandleResponse<Empty>> {
    Ok(HandleResponse {
        messages: vec![],
        log: vec![LogAttribute {
            key: "action".to_string(),
            value: action.to_string(),
        }],
        data: None,
    })
}

#[test]
fn nothing_works_before_the_list_is_set_up() {
    let mut both = Both::new();
    both.compare();
    let missing = StdError::not_found("cw1_whitelist::state::AdminList");
    assert_eq!(both.query(), Err(missing.clone()));
    assert_eq!(both.freeze("anne"), Err(missing.clone()));
    assert_eq!(both.update("anne", &["bob"]), Err(missing));
}

#[test]
fn administrators_replace_and_freeze_the_list() {
    let mut both = Both::new();
    assert!(both.init(&["anne", "bob"], true).is_ok());
    assert_eq!(
        both.query(),
        Ok(AdminListResponse {
            admins: strings(&["anne", "bob"]),
            mutable: true
        })
    );

    assert_eq!(both.update("carl", &["carl"]), Err(StdError::unauthorized()));
    assert_eq!(both.update("bob", &["carl", "bob"]), done("update_admins"));
    assert_eq!(both.update("anne", &["anne"]), Err(StdError::unauthorized()));
    assert_eq!(both.freeze("anne"), Err(StdError::unauthorized()));
    assert_eq!(both.freeze("carl"), done("freeze"));
    assert_eq!(
        both.query(),
        Ok(AdminListResponse {
            admins: strings(&["carl", "bob"]),
            mutable: false
        })
    );

    // from now on it stays
    assert_eq!(both.freeze("carl"), Err(StdError::unauthorized()));
    assert_eq!(both.update("carl", &["anne"]), Err(StdError::unauthorized()));
}

#[test]
fn a_list_can_be_fixed_from_the_start() {
    let mut both = Both::new();
    assert!(both.init(&["anne"], false).is_ok());
    assert_eq!(both.freeze("anne"), Err(StdError::unauthorized()));
    assert_eq!(both.update("anne", &["bob"]), Err(StdError::unauthorized()));
}

#[test]
fn names_that_the_codec_refuses_are_refused() {
    let short = StdError::generic_err("Invalid input: human address too short");
    let long = StdError::generic_err("Invalid input: human address too long");

    // the first refused name decides, and only the version is noted
    let mut both = Both::new();
    let names = ["anne", "x", "a name that is much too long"];
    assert_eq!(both.init(&names, true), Err(short.clone()));
    assert!(both.library.storage.contract_info.is_some());

    assert!(both.init(&["anne"], true).is_ok());
    let names = ["a name that is much too long", "x"];
    assert_eq!(both.update("anne", &names), Err(long));
    assert_eq!(both.update("x", &["bob"]), Err(short.clone()));
    assert_eq!(both.freeze("x"), Err(short));
    assert_eq!(
        both.query(),
        Ok(AdminListResponse {
            admins: strings(&["anne"]),
            mutable: true
        })
    );
}

#[test]
fn an_empty_list_and_a_repeated_name_are_kept() {
    let mut both = Both::new();
    assert!(both.init(&["anne", "anne"], true).is_ok());
    assert_eq!(both.update("anne", &[]), done("update_admins"));
    assert_eq!(both.update("anne", &["anne"]), Err(StdError::unauthorized()));
    assert_eq!(
        both.query(),
        Ok(AdminListResponse {
            admins: vec![],
            mutable: true
        })
    );
}
