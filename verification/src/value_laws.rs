//! What the values that the contracts speak of hold, field by field and place by
//! place.
use vstd::prelude::*;
use vstd::utf8::*;

use crate::api::{ApiView, HumanAddr};
use crate::balance_laws::{lemma_insert_place, lemma_place_of};
use crate::coin::{
    balance_is_empty, balance_minus, balance_minus_saturating, balance_plus, balance_plus_fits,
    coins_view, first_not_before, first_place, insert_place, Balance, Coin, CoinView,
};
use crate::decimal::decimal;
use crate::denom::{bytes_lt, denom_lt};
use crate::error::{result_view, ErrorView, StdError, StdResult};
use crate::msg::{
    humans_view, sent_coins, AdminListResponse, BankMsg, CosmosMsg, HandleResponse, InitResponse,
    LogAttribute, LogView, QueryResponse, QueryResponseView,
};
use crate::state::{
    addresses_view, empty_storage, load_from, loaded_view, no_allowance, AdminList, AdminListView,
    Allowance, AllowanceRecord, AllowanceView, CanonicalAddr, ContractVersion, ContractVersionView,
    Expiration, Storage, StorageView,
};
use crate::whitelist::{canonical_all, human_all};

verus! {

/// The number that some decimal digits stand for.
pub open spec fn decimal_value(digits: Seq<char>) -> int
    decreases digits.len(),
{
    if digits.len() == 0 {
        0
    } else {
        10 * decimal_value(digits.drop_last()) + (digits.last() as int - 48)
    }
}

/// A number in decimal is made of digits only, stands for that number, and has no
/// zero in front.
pub proof fn law_decimals_read_back(n: nat)
    ensures
        decimal_value(decimal(n)) == n,
        forall|i: int| 0 <= i < decimal(n).len() ==> 48 <= (#[trigger] decimal(n)[i]) as int <= 57,
        n == 0 ==> decimal(n).len() == 1,
        n > 0 ==> decimal(n).len() > 0 && decimal(n)[0] as int != 48,
    decreases n,
{
    if n < 10 {
        let digits = decimal(n);
        assert(digits.drop_last() =~= Seq::<char>::empty());
        assert(decimal_value(Seq::<char>::empty()) == 0);
        assert(digits.last() as int == 48 + n);
    } else {
        law_decimals_read_back(n / 10);
        let digits = decimal(n);
        assert(digits.drop_last() =~= decimal(n / 10));
        assert(digits.last() as int == 48 + n % 10);
        assert(digits[0] == decimal(n / 10)[0]);
        assert forall|i: int| 0 <= i < digits.len() implies 48 <= (#[trigger] digits[i]) as int
            <= 57 by {
            if i < digits.len() - 1 {
                assert(digits[i] == decimal(n / 10)[i]);
            }
        }
    }
}

/// One denomination comes before another if, at the first byte in which they
/// differ, it has the smaller one or has ended.
pub proof fn law_denominations_compare_byte_by_byte(a: Seq<char>, b: Seq<char>)
    ensures
        denom_lt(a, b) <==> exists|k: int|
            0 <= k <= encode_utf8(a).len() && k < encode_utf8(b).len() && #[trigger] encode_utf8(
                a,
            ).take(k) == encode_utf8(b).take(k) && (k == encode_utf8(a).len() || encode_utf8(a)[k]
                < encode_utf8(b)[k]),
{
    let x = encode_utf8(a);
    let y = encode_utf8(b);
    if denom_lt(a, b) {
        let k = lemma_first_difference(x, y);
        assert(x.take(k) == y.take(k));
    }
    if exists|k: int|
        0 <= k <= x.len() && k < y.len() && #[trigger] x.take(k) == y.take(k) && (k == x.len()
            || x[k] < y[k]) {
        let k = choose|k: int|
            0 <= k <= x.len() && k < y.len() && #[trigger] x.take(k) == y.take(k) && (k == x.len()
                || x[k] < y[k]);
        lemma_difference_decides(x, y, k);
    }
}

proof fn lemma_first_difference(x: Seq<u8>, y: Seq<u8>) -> (k: int)
    requires
        bytes_lt(x, y),
    ensures
        0 <= k <= x.len(),
        k < y.len(),
        x.take(k) == y.take(k),
        k == x.len() || x[k] < y[k],
    decreases x.len(),
{
    if x.len() > 0 && x[0] == y[0] {
        let k = lemma_first_difference(x.drop_first(), y.drop_first());
        assert(x.take(k + 1) =~= seq![x[0]] + x.drop_first().take(k));
        assert(y.take(k + 1) =~= seq![y[0]] + y.drop_first().take(k));
        k + 1
    } else {
        assert(x.take(0) =~= y.take(0));
        0
    }
}

proof fn lemma_difference_decides(x: Seq<u8>, y: Seq<u8>, k: int)
    requires
        0 <= k <= x.len(),
        k < y.len(),
        x.take(k) == y.take(k),
        k == x.len() || x[k] < y[k],
    ensures
        bytes_lt(x, y),
    decreases k,
{
    if k > 0 {
        assert(x[0] == x.take(k)[0] && y[0] == y.take(k)[0]);
        assert(x.drop_first().take(k - 1) =~= x.take(k).drop_first());
        assert(y.drop_first().take(k - 1) =~= y.take(k).drop_first());
        lemma_difference_decides(x.drop_first(), y.drop_first(), k - 1);
    }
}

/// What a balance does with coins of a denomination that it lists is decided by
/// the first place that lists it, and concerns that place alone: receiving adds to
/// it, paying takes from it or fails, and giving up takes from it what it can. A
/// place at which nothing is left is taken out.
pub proof fn law_the_first_place_decides(b: Seq<CoinView>, c: CoinView, i: int)
    requires
        0 <= i < b.len(),
        b[i].denom == c.denom,
        forall|j: int| 0 <= j < i ==> (#[trigger] b[j]).denom != c.denom,
    ensures
        balance_plus(b, c) == b.update(
            i,
            CoinView { denom: c.denom, amount: b[i].amount + c.amount },
        ),
        balance_plus_fits(b, c) <==> b[i].amount + c.amount <= u128::MAX,
        b[i].amount < c.amount ==> balance_minus(b, c) == Err::<Seq<CoinView>, _>(
            ErrorView::Underflow {
                minuend: decimal(b[i].amount),
                subtrahend: decimal(c.amount),
            },
        ),
        b[i].amount == c.amount ==> balance_minus(b, c) == Ok::<_, ErrorView>(b.remove(i)),
        b[i].amount <= c.amount ==> balance_minus_saturating(b, c) == Ok::<_, ErrorView>(
            b.remove(i),
        ),
        b[i].amount > c.amount ==> {
            let rest = b.update(
                i,
                CoinView { denom: c.denom, amount: (b[i].amount - c.amount) as nat },
            );
            balance_minus(b, c) == Ok::<_, ErrorView>(rest) && balance_minus_saturating(b, c)
                == Ok::<_, ErrorView>(rest)
        },
{
    assert(first_place(b, c.denom, i));
    lemma_place_of(b, c.denom);
}

/// Of a denomination that a balance does not list, nothing can be paid or given
/// up. What it receives of it is put in at the one place that keeps the
/// denominations that come before it in front, and no other one behind them.
pub proof fn law_new_denominations_are_put_in(b: Seq<CoinView>, c: CoinView, p: int)
    requires
        forall|j: int| 0 <= j < b.len() ==> (#[trigger] b[j]).denom != c.denom,
    ensures
        balance_plus_fits(b, c),
        ({
            &&& 0 <= p <= b.len()
            &&& forall|j: int| 0 <= j < p ==> denom_lt((#[trigger] b[j]).denom, c.denom)
            &&& p < b.len() ==> !denom_lt(b[p].denom, c.denom)
        }) ==> balance_plus(b, c) == b.insert(p, c),
        balance_minus(b, c) == Err::<Seq<CoinView>, _>(
            ErrorView::Underflow { minuend: decimal(0), subtrahend: decimal(c.amount) },
        ),
        balance_minus_saturating(b, c) == Err::<Seq<CoinView>, _>(
            ErrorView::Underflow { minuend: decimal(0), subtrahend: decimal(c.amount) },
        ),
{
    lemma_place_of(b, c.denom);
    lemma_insert_place(b, c.denom);
    assert(first_not_before(b, c.denom, insert_place(b, c.denom)));
}

/// A balance without coins is empty, and so is one with a coin in front of an empty
/// one if and only if that is an amount of nothing.
pub proof fn law_balances_are_empty_coin_by_coin(b: Seq<CoinView>, c: CoinView)
    ensures
        balance_is_empty(Seq::<CoinView>::empty()),
        balance_is_empty(seq![c] + b) <==> c.amount == 0 && balance_is_empty(b),
{
    let more = seq![c] + b;
    assert(more[0] == c);
    assert forall|i: int| 0 <= i < b.len() implies #[trigger] b[i] == more[i + 1] by {}
    if balance_is_empty(more) {
        assert forall|i: int| 0 <= i < b.len() implies (#[trigger] b[i]).amount == 0 by {
            assert(more[i + 1].amount == 0);
        }
    }
    if c.amount == 0 && balance_is_empty(b) {
        assert forall|i: int| 0 <= i < more.len() implies (#[trigger] more[i]).amount == 0 by {
            if i > 0 {
                assert(more[i] == b[i - 1]);
            }
        }
    }
}

/// The codec answers what it was given for an address, and the one other answer
/// for every address that it was given none for.
pub proof fn law_the_codec_answers_as_given(api: ApiView, human: Seq<char>, canonical: Seq<u8>)
    ensures
        api.canonical.contains_key(human) ==> api.canonical_address(human)
            == api.canonical[human],
        !api.canonical.contains_key(human) ==> api.canonical_address(human) == Err::<Seq<u8>, _>(
            api.otherwise,
        ),
        api.human.contains_key(canonical) ==> api.human_address(canonical) == api.human[canonical],
        !api.human.contains_key(canonical) ==> api.human_address(canonical) == Err::<Seq<char>, _>(
            api.otherwise,
        ),
{
}

/// Canonical forms are found name by name: one for each, in order, or else the
/// error for the first name that has none.
pub proof fn law_canonical_forms_are_found_name_by_name(api: ApiView, humans: Seq<Seq<char>>)
    ensures
        canonical_all(api, humans) is Ok <==> forall|i: int|
            0 <= i < humans.len() ==> api.canonical_address(#[trigger] humans[i]) is Ok,
        canonical_all(api, humans) matches Ok(accounts) ==> {
            &&& accounts.len() == humans.len()
            &&& forall|i: int|
                0 <= i < humans.len() ==> api.canonical_address(#[trigger] humans[i]) == Ok::<
                    _,
                    ErrorView,
                >(accounts[i])
        },
        forall|k: int|
            0 <= k < humans.len() && api.canonical_address(#[trigger] humans[k]) is Err && (
            forall|j: int| 0 <= j < k ==> api.canonical_address(#[trigger] humans[j]) is Ok)
                ==> canonical_all(api, humans) == Err::<Seq<Seq<u8>>, _>(
                api.canonical_address(humans[k])->Err_0,
            ),
    decreases humans.len(),
{
    if humans.len() > 0 {
        let n = humans.len() - 1;
        let earlier = humans.drop_last();
        law_canonical_forms_are_found_name_by_name(api, earlier);
        assert forall|i: int| 0 <= i < n implies #[trigger] humans[i] == earlier[i] by {}
        assert forall|i: int| 0 <= i < n implies #[trigger] earlier[i] == humans[i] by {}
        assert(humans.last() == humans[n]);
    }
}

/// Human forms are found account by account: one for each, in order, or else the
/// error for the first account that has none.
pub proof fn law_human_forms_are_found_account_by_account(api: ApiView, accounts: Seq<Seq<u8>>)
    ensures
        human_all(api, accounts) is Ok <==> forall|i: int|
            0 <= i < accounts.len() ==> api.human_address(#[trigger] accounts[i]) is Ok,
        human_all(api, accounts) matches Ok(humans) ==> {
            &&& humans.len() == accounts.len()
            &&& forall|i: int|
                0 <= i < accounts.len() ==> api.human_address(#[trigger] accounts[i]) == Ok::<
                    _,
                    ErrorView,
                >(humans[i])
        },
        forall|k: int|
            0 <= k < accounts.len() && api.human_address(#[trigger] accounts[k]) is Err && (forall|
                j: int,
            |
                0 <= j < k ==> api.human_address(#[trigger] accounts[j]) is Ok) ==> human_all(
                api,
                accounts,
            ) == Err::<Seq<Seq<char>>, _>(api.human_address(accounts[k])->Err_0),
    decreases accounts.len(),
{
    if accounts.len() > 0 {
        let n = accounts.len() - 1;
        let earlier = accounts.drop_last();
        law_human_forms_are_found_account_by_account(api, earlier);
        assert forall|i: int| 0 <= i < n implies #[trigger] accounts[i] == earlier[i] by {}
        assert forall|i: int| 0 <= i < n implies #[trigger] earlier[i] == accounts[i] by {}
        assert(accounts.last() == accounts[n]);
    }
}

/// The administrators are the accounts that are listed, and they may change the
/// list while it is mutable.
pub proof fn law_administrators_are_those_listed(list: AdminListView, account: Seq<u8>)
    ensures
        list.is_admin(account) <==> exists|i: int|
            0 <= i < list.admins.len() && #[trigger] list.admins[i] == account,
        list.can_modify(account) <==> list.mutable && list.is_admin(account),
{
}

/// Transfers are the messages to the bank that send coins, and what they send are
/// all of these, in order.
pub proof fn law_transfers_send_their_coins<T>(msg: CosmosMsg<T>)
    ensures
        sent_coins(msg) is Some <==> msg is Bank,
        msg matches CosmosMsg::Bank(BankMsg::Send { amount, .. }) ==> {
            &&& sent_coins(msg) is Some
            &&& sent_coins(msg)->Some_0.len() == amount@.len()
            &&& forall|i: int|
                0 <= i < amount@.len() ==> (#[trigger] sent_coins(msg)->Some_0[i]) == (CoinView {
                    denom: amount@[i].denom@,
                    amount: amount@[i].amount as nat,
                })
        },
{
}

/// A record is loaded as it is kept.
pub proof fn law_records_are_loaded_as_kept(
    allowances: Map<Seq<u8>, AllowanceRecord>,
    account: Seq<u8>,
    loaded: StdResult<Option<Allowance>>,
)
    requires
        loaded_view(loaded) == load_from(allowances, account),
    ensures
        !allowances.contains_key(account) ==> loaded == Ok::<_, StdError>(None::<Allowance>),
        allowances.contains_key(account) ==> match allowances[account] {
            Ok(kept) => loaded is Ok && loaded->Ok_0 is Some && loaded->Ok_0->Some_0@ == kept,
            Err(error) => loaded is Err && loaded->Err_0@ == error,
        },
{
}

/// Where nothing was saved there are no coins, no end, no allowances, no name and
/// no administrators, and the error names the missing list.
pub proof fn law_what_was_not_saved_is_empty()
    ensures
        no_allowance().balance.len() == 0,
        no_allowance().expires == (Expiration::Never {  }),
        empty_storage().contract_info is None,
        forall|account: Seq<u8>| !#[trigger] empty_storage().allowances.contains_key(account),
        empty_storage().admin_list == Err::<AdminListView, _>(
            ErrorView::NotFound { kind: "cw1_whitelist::state::AdminList"@ },
        ),
{
}

/// Keeping one record changes that one alone.
pub proof fn law_records_are_kept_one_by_one(
    s: StorageView,
    account: Seq<u8>,
    allowance: AllowanceView,
    list: AdminListView,
    info: ContractVersionView,
)
    ensures
        s.with_allowance(account, allowance) == (StorageView {
            contract_info: s.contract_info,
            admin_list: s.admin_list,
            allowances: s.allowances.insert(account, Ok(allowance)),
        }),
        s.without_allowance(account) == (StorageView {
            contract_info: s.contract_info,
            admin_list: s.admin_list,
            allowances: s.allowances.remove(account),
        }),
        s.with_admin_list(list) == (StorageView {
            contract_info: s.contract_info,
            admin_list: Ok(list),
            allowances: s.allowances,
        }),
        s.with_contract_info(info) == (StorageView {
            contract_info: Some(info),
            admin_list: s.admin_list,
            allowances: s.allowances,
        }),
{
}

/// The view of a result is that of its value or that of its error.
pub proof fn law_results_are_seen_whole<T: View>(result: StdResult<T>)
    ensures
        result matches Ok(value) ==> result_view(result) == Ok::<_, ErrorView>(value@),
        result matches Err(error) ==> result_view(result) == Err::<T::V, _>(error@),
{
}

/// The views of errors tell their kinds apart and hold all their texts.
pub proof fn law_errors_are_seen_whole(error: StdError)
    ensures
        error matches StdError::GenericErr { msg } ==> error@ == (ErrorView::GenericErr {
            msg: msg@,
        }),
        error matches StdError::InvalidBase64 { msg } ==> error@ == (ErrorView::InvalidBase64 {
            msg: msg@,
        }),
        error matches StdError::InvalidUtf8 { msg } ==> error@ == (ErrorView::InvalidUtf8 {
            msg: msg@,
        }),
        error matches StdError::NotFound { kind } ==> error@ == (ErrorView::NotFound {
            kind: kind@,
        }),
        error matches StdError::ParseErr { target, msg } ==> error@ == (ErrorView::ParseErr {
            target: target@,
            msg: msg@,
        }),
        error matches StdError::SerializeErr { source, msg } ==> error@
            == (ErrorView::SerializeErr { source: source@, msg: msg@ }),
        error is Unauthorized ==> error@ == ErrorView::Unauthorized,
        error matches StdError::Underflow { minuend, subtrahend } ==> error@
            == (ErrorView::Underflow { minuend: minuend@, subtrahend: subtrahend@ }),
{
}

/// The views of coins, balances and allowances hold every coin, in order and with
/// its denomination and amount, and the end.
pub proof fn law_coins_are_seen_whole(
    c: Coin,
    coins: Seq<Coin>,
    balance: Balance,
    allowance: Allowance,
)
    ensures
        c@ == (CoinView { denom: c.denom@, amount: c.amount as nat }),
        coins_view(coins).len() == coins.len(),
        forall|i: int| 0 <= i < coins.len() ==> #[trigger] coins_view(coins)[i] == coins[i]@,
        balance@ == coins_view(balance.0@),
        allowance@ == (AllowanceView {
            balance: coins_view(allowance.balance.0@),
            expires: allowance.expires,
        }),
{
}

/// The views of the records hold every record.
pub proof fn law_records_are_seen_whole(
    storage: Storage,
    list: AdminList,
    version: ContractVersion,
    accounts: Seq<CanonicalAddr>,
)
    ensures
        version@ == (ContractVersionView {
            contract: version.contract@,
            version: version.version@,
        }),
        list@.mutable == list.mutable,
        list@.admins.len() == list.admins@.len(),
        forall|i: int| 0 <= i < list.admins@.len() ==> #[trigger] list@.admins[i] == list.admins@[i]@,
        addresses_view(accounts).len() == accounts.len(),
        forall|i: int|
            0 <= i < accounts.len() ==> #[trigger] addresses_view(accounts)[i]
                == accounts[i]@,
        storage.contract_info matches Some(info) ==> storage@.contract_info == Some(info@),
        storage.contract_info is None ==> storage@.contract_info is None,
        storage.admin_list matches Ok(list) ==> storage@.admin_list == Ok::<_, ErrorView>(list@),
        storage.admin_list matches Err(error) ==> storage@.admin_list == Err::<AdminListView, _>(
            error@,
        ),
        storage@.allowances == storage.allowances@,
{
}

/// The views of answers hold every message, every line and all data.
pub proof fn law_answers_are_seen_whole<T>(
    line: LogAttribute,
    set_up: InitResponse,
    handled: HandleResponse<T>,
    list: AdminListResponse,
    answer: QueryResponse,
    humans: Seq<HumanAddr>,
)
    ensures
        line@ == (LogView { key: line.key@, value: line.value@ }),
        set_up@.messages == set_up.messages@,
        set_up@.log.len() == set_up.log@.len(),
        forall|i: int| 0 <= i < set_up.log@.len() ==> #[trigger] set_up@.log[i] == set_up.log@[i]@,
        handled@.messages == handled.messages@,
        handled@.log.len() == handled.log@.len(),
        forall|i: int|
            0 <= i < handled.log@.len() ==> #[trigger] handled@.log[i] == handled.log@[i]@,
        handled.data matches Some(data) ==> handled@.data == Some(data@),
        handled.data is None ==> handled@.data is None,
        list@.mutable == list.mutable,
        list@.admins.len() == list.admins@.len(),
        forall|i: int| 0 <= i < list.admins@.len() ==> #[trigger] list@.admins[i] == list.admins@[i]@,
        humans_view(humans).len() == humans.len(),
        forall|i: int|
            0 <= i < humans.len() ==> #[trigger] humans_view(humans)[i] == humans[i]@,
        answer matches QueryResponse::AdminList(l) ==> answer@ == QueryResponseView::AdminList(l@),
        answer matches QueryResponse::Allowance(a) ==> answer@ == QueryResponseView::Allowance(a@),
{
}

} // verus!
