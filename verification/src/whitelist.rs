//! The list of administrators.
use vstd::prelude::*;

use crate::api::{Api, ApiView, Extern, HumanAddr};
use crate::error::{result_view, ErrorView, StdError, StdResult};
use crate::msg::{
    humans_view, log, log_view, AdminListResponse, AdminListResponseView, Empty, Env,
    HandleResponse, InitMsg, InitResponse, InitResponseView, LogView, ResponseView,
};
use crate::state::{
    addresses_view, AdminList, AdminListView, CanonicalAddr, ContractVersionView, StorageView,
};

verus! {

/// `is_admin` of `cw1_whitelist::state::AdminList`: whether the address is one
/// of the list.
#[verifier::external_body]
pub(crate) fn is_admin(list: &AdminList, addr: &CanonicalAddr) -> (yes: bool)
    ensures
        yes == list@.is_admin(addr@),
{
    let admins = list.admins.iter().map(|a| cosmwasm_std::CanonicalAddr::from(a.clone()));
    let list = cw1_whitelist::state::AdminList { admins: admins.collect(), mutable: list.mutable };
    list.is_admin(&cosmwasm_std::CanonicalAddr::from(addr.clone()))
}

/// `can_modify` of `cw1_whitelist::state::AdminList`: whether the list may still
/// change and the address is one of it.
#[verifier::external_body]
pub(crate) fn can_modify(list: &AdminList, addr: &CanonicalAddr) -> (yes: bool)
    ensures
        yes == list@.can_modify(addr@),
{
    let admins = list.admins.iter().map(|a| cosmwasm_std::CanonicalAddr::from(a.clone()));
    let list = cw1_whitelist::state::AdminList { admins: admins.collect(), mutable: list.mutable };
    list.can_modify(&cosmwasm_std::CanonicalAddr::from(addr.clone()))
}

/// The canonical forms of `humans` in order, or the first error among them.
pub open spec fn canonical_all(api: ApiView, humans: Seq<Seq<char>>) -> Result<
    Seq<Seq<u8>>,
    ErrorView,
>
    decreases humans.len(),
{
    if humans.len() == 0 {
        Ok(Seq::empty())
    } else {
        match canonical_all(api, humans.drop_last()) {
            Ok(earlier) => match api.canonical_address(humans.last()) {
                Ok(last) => Ok(earlier.push(last)),
                Err(error) => Err(error),
            },
            Err(error) => Err(error),
        }
    }
}

/// The human forms of `accounts` in order, or the first error among them.
pub open spec fn human_all(api: ApiView, accounts: Seq<Seq<u8>>) -> Result<
    Seq<Seq<char>>,
    ErrorView,
>
    decreases accounts.len(),
{
    if accounts.len() == 0 {
        Ok(Seq::empty())
    } else {
        match human_all(api, accounts.drop_last()) {
            Ok(earlier) => match api.human_address(accounts.last()) {
                Ok(last) => Ok(earlier.push(last)),
                Err(error) => Err(error),
            },
            Err(error) => Err(error),
        }
    }
}

/// The view of some accounts, or of the error in their place.
pub open spec fn accounts_result(accounts: StdResult<Vec<CanonicalAddr>>) -> Result<
    Seq<Seq<u8>>,
    ErrorView,
> {
    match accounts {
        Ok(accounts) => Ok(addresses_view(accounts@)),
        Err(error) => Err(error@),
    }
}

/// The view of some accounts, or of the error in their place.
pub open spec fn humans_result(humans: StdResult<Vec<HumanAddr>>) -> Result<
    Seq<Seq<char>>,
    ErrorView,
> {
    match humans {
        Ok(humans) => Ok(humans_view(humans@)),
        Err(error) => Err(error@),
    }
}

/// An account without a canonical form decides the answer for all that follow.
proof fn lemma_canonical_all_stops(api: ApiView, humans: Seq<Seq<char>>, i: int)
    requires
        0 <= i < humans.len(),
        canonical_all(api, humans.take(i + 1)) is Err,
    ensures
        canonical_all(api, humans) == canonical_all(api, humans.take(i + 1)),
    decreases humans.len() - i,
{
    if i + 1 == humans.len() {
        assert(humans.take(i + 1) =~= humans);
    } else {
        assert(humans.take(i + 2).drop_last() =~= humans.take(i + 1));
        lemma_canonical_all_stops(api, humans, i + 1);
    }
}

/// An account without a human form decides the answer for all that follow.
proof fn lemma_human_all_stops(api: ApiView, accounts: Seq<Seq<u8>>, i: int)
    requires
        0 <= i < accounts.len(),
        human_all(api, accounts.take(i + 1)) is Err,
    ensures
        human_all(api, accounts) == human_all(api, accounts.take(i + 1)),
    decreases accounts.len() - i,
{
    if i + 1 == accounts.len() {
        assert(accounts.take(i + 1) =~= accounts);
    } else {
        assert(accounts.take(i + 2).drop_last() =~= accounts.take(i + 1));
        lemma_human_all_stops(api, accounts, i + 1);
    }
}

fn map_canonical(api: &Api, humans: &Vec<HumanAddr>) -> (accounts: StdResult<Vec<CanonicalAddr>>)
    ensures
        accounts_result(accounts) == canonical_all(api@, humans_view(humans@)),
{
    let ghost all = humans_view(humans@);
    let mut accounts: Vec<CanonicalAddr> = Vec::new();
    let mut i: usize = 0;
    assert(addresses_view(accounts@) =~= Seq::<Seq<u8>>::empty());
    while i < humans.len()
        invariant
            i <= humans@.len(),
            all == humans_view(humans@),
            canonical_all(api@, all.take(i as int)) == accounts_result(Ok(accounts)),
        decreases humans@.len() - i,
    {
        let ghost before = addresses_view(accounts@);
        assert(all.take(i + 1).drop_last() =~= all.take(i as int));
        match api.canonical_address(&humans[i]) {
            Ok(account) => {
                accounts.push(account);
                assert(addresses_view(accounts@) =~= before.push(account@));
            },
            Err(error) => {
                proof {
                    lemma_canonical_all_stops(api@, all, i as int);
                }
                return Err(error);
            },
        }
        i += 1;
    }
    assert(all.take(i as int) =~= all);
    Ok(accounts)
}

fn map_human(api: &Api, accounts: &Vec<CanonicalAddr>) -> (humans: StdResult<Vec<HumanAddr>>)
    ensures
        humans_result(humans) == human_all(api@, addresses_view(accounts@)),
{
    let ghost all = addresses_view(accounts@);
    let mut humans: Vec<HumanAddr> = Vec::new();
    let mut i: usize = 0;
    assert(humans_view(humans@) =~= Seq::<Seq<char>>::empty());
    while i < accounts.len()
        invariant
            i <= accounts@.len(),
            all == addresses_view(accounts@),
            human_all(api@, all.take(i as int)) == humans_result(Ok(humans)),
        decreases accounts@.len() - i,
    {
        let ghost before = humans_view(humans@);
        assert(all.take(i + 1).drop_last() =~= all.take(i as int));
        match api.human_address(&accounts[i]) {
            Ok(human) => {
                humans.push(human);
                assert(humans_view(humans@) =~= before.push(human@));
            },
            Err(error) => {
                proof {
                    lemma_human_all_stops(api@, all, i as int);
                }
                return Err(error);
            },
        }
        i += 1;
    }
    assert(all.take(i as int) =~= all);
    Ok(humans)
}

/// The name and the version under which a plain list of administrators is kept.
pub open spec fn whitelist_version() -> ContractVersionView {
    ContractVersionView { contract: "crates.io:cw1-whitelist"@, version: "v0.1.0"@ }
}

/// What setting up the list of administrators leads to: the records after it,
/// and the answer.
pub open spec fn init_step(
    s: StorageView,
    api: ApiView,
    admins: Seq<Seq<char>>,
    mutable: bool,
) -> (StorageView, Result<InitResponseView, ErrorView>) {
    let stamped = s.with_contract_info(whitelist_version());
    match canonical_all(api, admins) {
        Ok(admins) => (
            stamped.with_admin_list(AdminListView { admins, mutable }),
            Ok(InitResponseView { messages: Seq::empty(), log: Seq::empty() }),
        ),
        Err(error) => (stamped, Err(error)),
    }
}

/// Sets up the list of administrators.
pub fn init(deps: &mut Extern, _env: Env, msg: InitMsg) -> (answer: StdResult<InitResponse>)
    ensures
        (final(deps).storage@, result_view(answer)) == init_step(
            old(deps).storage@,
            old(deps).api@,
            humans_view(msg.admins@),
            msg.mutable,
        ),
        final(deps).api@ == old(deps).api@,
{
    deps.storage.set_contract_version("crates.io:cw1-whitelist", "v0.1.0");
    match map_canonical(&deps.api, &msg.admins) {
        Ok(admins) => {
            deps.storage.admin_list = Ok(AdminList { admins, mutable: msg.mutable });
            let response = InitResponse { messages: Vec::new(), log: Vec::new() };
            assert(log_view(response.log@) =~= Seq::<LogView>::empty());
            Ok(response)
        },
        Err(error) => Err(error),
    }
}

/// The list of administrators, where it may be changed by `sender`.
pub open spec fn modifiable_by(s: StorageView, api: ApiView, sender: Seq<char>) -> Result<
    AdminListView,
    ErrorView,
> {
    match s.admin_list {
        Ok(list) => match api.canonical_address(sender) {
            Ok(account) => if list.can_modify(account) {
                Ok(list)
            } else {
                Err(ErrorView::Unauthorized)
            },
            Err(error) => Err(error),
        },
        Err(error) => Err(error),
    }
}

fn load_modifiable(deps: &Extern, sender: &HumanAddr) -> (list: StdResult<AdminList>)
    ensures
        result_view(list) == modifiable_by(deps.storage@, deps.api@, sender@),
{
    let list = match deps.storage.load_admin_list() {
        Ok(list) => list,
        Err(error) => {
            return Err(error);
        },
    };
    match deps.api.canonical_address(sender) {
        Ok(account) => if can_modify(&list, &account) {
            Ok(list)
        } else {
            Err(StdError::unauthorized())
        },
        Err(error) => Err(error),
    }
}

/// An answer that relays nothing and reports only what was done.
pub open spec fn done(action: Seq<char>) -> ResponseView<Empty> {
    ResponseView {
        messages: Seq::empty(),
        log: seq![LogView { key: "action"@, value: action }],
        data: None,
    }
}

fn report(action: &str) -> (response: HandleResponse<Empty>)
    ensures
        response@ == done(action@),
{
    let response = HandleResponse {
        messages: Vec::new(),
        log: vec![log("action", action)],
        data: None,
    };
    assert(response@ =~= done(action@));
    response
}

/// What freezing the list of administrators leads to.
pub open spec fn freeze_step(s: StorageView, api: ApiView, sender: Seq<char>) -> (
    StorageView,
    Result<ResponseView<Empty>, ErrorView>,
) {
    match modifiable_by(s, api, sender) {
        Ok(list) => (
            s.with_admin_list(AdminListView { admins: list.admins, mutable: false }),
            Ok(done("freeze"@)),
        ),
        Err(error) => (s, Err(error)),
    }
}

/// Makes the list of administrators unchangeable.
pub fn handle_freeze(deps: &mut Extern, env: Env) -> (answer: StdResult<HandleResponse<Empty>>)
    ensures
        (final(deps).storage@, result_view(answer)) == freeze_step(
            old(deps).storage@,
            old(deps).api@,
            env.message.sender@,
        ),
        final(deps).api@ == old(deps).api@,
{
    match load_modifiable(deps, &env.message.sender) {
        Ok(list) => {
            deps.storage.admin_list = Ok(AdminList { admins: list.admins, mutable: false });
            Ok(report("freeze"))
        },
        Err(error) => Err(error),
    }
}

/// What replacing the list of administrators by `admins` leads to.
pub open spec fn update_admins_step(
    s: StorageView,
    api: ApiView,
    sender: Seq<char>,
    admins: Seq<Seq<char>>,
) -> (StorageView, Result<ResponseView<Empty>, ErrorView>) {
    match modifiable_by(s, api, sender) {
        Ok(list) => match canonical_all(api, admins) {
            Ok(admins) => (
                s.with_admin_list(AdminListView { admins, mutable: list.mutable }),
                Ok(done("update_admins"@)),
            ),
            Err(error) => (s, Err(error)),
        },
        Err(error) => (s, Err(error)),
    }
}

/// Replaces the list of administrators.
pub fn handle_update_admins(deps: &mut Extern, env: Env, admins: Vec<HumanAddr>) -> (answer:
    StdResult<HandleResponse<Empty>>)
    ensures
        (final(deps).storage@, result_view(answer)) == update_admins_step(
            old(deps).storage@,
            old(deps).api@,
            env.message.sender@,
            humans_view(admins@),
        ),
        final(deps).api@ == old(deps).api@,
{
    match load_modifiable(deps, &env.message.sender) {
        Ok(list) => match map_canonical(&deps.api, &admins) {
            Ok(admins) => {
                deps.storage.admin_list = Ok(AdminList { admins, mutable: list.mutable });
                Ok(report("update_admins"))
            },
            Err(error) => Err(error),
        },
        Err(error) => Err(error),
    }
}

/// What asking for the list of administrators gives.
pub open spec fn admin_list_answer(s: StorageView, api: ApiView) -> Result<
    AdminListResponseView,
    ErrorView,
> {
    match s.admin_list {
        Ok(list) => match human_all(api, list.admins) {
            Ok(admins) => Ok(AdminListResponseView { admins, mutable: list.mutable }),
            Err(error) => Err(error),
        },
        Err(error) => Err(error),
    }
}

/// The list of administrators as people write them.
pub fn query_admin_list(deps: &Extern) -> (answer: StdResult<AdminListResponse>)
    ensures
        result_view(answer) == admin_list_answer(deps.storage@, deps.api@),
{
    match deps.storage.load_admin_list() {
        Ok(list) => match map_human(&deps.api, &list.admins) {
            Ok(admins) => Ok(AdminListResponse { admins, mutable: list.mutable }),
            Err(error) => Err(error),
        },
        Err(error) => Err(error),
    }
}

} // verus!
