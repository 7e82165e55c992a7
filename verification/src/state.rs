//! The records that the contract keeps.
use vstd::prelude::*;

use crate::coin::{Balance, CoinView};
use crate::error::{result_view, ErrorView, StdError, StdResult};

verus! {

/// An account as the chain stores it.
pub type CanonicalAddr = Vec<u8>;

/// When something ends.
#[derive(Clone, Copy, Debug, PartialEq, Eq)]
pub enum Expiration {
    /// At a block height.
    AtHeight { height: u64 },
    /// At a time, in seconds.
    AtTime { time: u64 },
    /// Not at all.
    Never {},
}

/// What an account may spend, and until when.
#[derive(Debug, PartialEq)]
pub struct Allowance {
    pub balance: Balance,
    pub expires: Expiration,
}

/// What an [`Allowance`] says.
#[verifier::ext_equal]
pub struct AllowanceView {
    pub balance: Seq<CoinView>,
    pub expires: Expiration,
}

impl View for Allowance {
    type V = AllowanceView;

    open spec fn view(&self) -> AllowanceView {
        AllowanceView { balance: self.balance@, expires: self.expires }
    }
}

/// The allowance of an account that was given none: no coins, and no end.
pub open spec fn no_allowance() -> AllowanceView {
    AllowanceView { balance: Seq::empty(), expires: Expiration::Never {  } }
}

impl Default for Allowance {
    fn default() -> (allowance: Allowance)
        ensures
            allowance@ == no_allowance(),
    {
        Allowance { balance: Balance::new(), expires: Expiration::Never {  } }
    }
}

impl Clone for Allowance {
    fn clone(&self) -> (copy: Allowance)
        ensures
            copy@ == self@,
    {
        Allowance { balance: self.balance.clone(), expires: self.expires }
    }
}

/// A copy of some bytes.
pub(crate) fn copy_bytes(bytes: &Vec<u8>) -> (copy: Vec<u8>)
    ensures
        copy@ == bytes@,
{
    let copy = bytes.clone();
    assert(copy@ =~= bytes@);
    copy
}

/// The administrators, and whether that list may still change.
#[derive(Debug, PartialEq)]
pub struct AdminList {
    pub admins: Vec<CanonicalAddr>,
    pub mutable: bool,
}

/// What an [`AdminList`] says.
#[verifier::ext_equal]
pub struct AdminListView {
    pub admins: Seq<Seq<u8>>,
    pub mutable: bool,
}

/// The views of some addresses, in order.
pub open spec fn addresses_view(addresses: Seq<CanonicalAddr>) -> Seq<Seq<u8>> {
    addresses.map_values(|a: CanonicalAddr| a@)
}

impl View for AdminList {
    type V = AdminListView;

    open spec fn view(&self) -> AdminListView {
        AdminListView { admins: addresses_view(self.admins@), mutable: self.mutable }
    }
}

impl AdminListView {
    /// `account` is an administrator.
    pub open spec fn is_admin(self, account: Seq<u8>) -> bool {
        self.admins.contains(account)
    }

    /// `account` may change the list.
    pub open spec fn can_modify(self, account: Seq<u8>) -> bool {
        self.mutable && self.is_admin(account)
    }
}

impl Clone for AdminList {
    fn clone(&self) -> (copy: AdminList)
        ensures
            copy@ == self@,
    {
        let mut admins: Vec<CanonicalAddr> = Vec::new();
        let mut i: usize = 0;
        while i < self.admins.len()
            invariant
                i <= self.admins@.len(),
                addresses_view(admins@) =~= addresses_view(self.admins@).take(i as int),
            decreases self.admins@.len() - i,
        {
            let ghost before = addresses_view(admins@);
            admins.push(copy_bytes(&self.admins[i]));
            assert(addresses_view(admins@) =~= before.push(self.admins@[i as int]@));
            i += 1;
        }
        assert(addresses_view(admins@) =~= addresses_view(self.admins@));
        AdminList { admins, mutable: self.mutable }
    }
}

/// Which contract, in which version, the records belong to.
#[derive(Debug, PartialEq)]
pub struct ContractVersion {
    pub contract: String,
    pub version: String,
}

/// What a [`ContractVersion`] says.
#[verifier::ext_equal]
pub struct ContractVersionView {
    pub contract: Seq<char>,
    pub version: Seq<char>,
}

impl View for ContractVersion {
    type V = ContractVersionView;

    open spec fn view(&self) -> ContractVersionView {
        ContractVersionView { contract: self.contract@, version: self.version@ }
    }
}

/// What loading an allowance gives: the allowance, or the error of reading it.
pub type AllowanceRecord = Result<AllowanceView, ErrorView>;

/// The allowances that some entries stand for: a later entry replaces an earlier
/// one for the same account.
pub open spec fn allowance_map(entries: Seq<(CanonicalAddr, StdResult<Allowance>)>) -> Map<
    Seq<u8>,
    AllowanceRecord,
>
    decreases entries.len(),
{
    if entries.len() == 0 {
        Map::empty()
    } else {
        allowance_map(entries.drop_last()).insert(
            entries.last().0@,
            result_view(entries.last().1),
        )
    }
}

/// The allowances by account.
///
/// A record that is there but cannot be read as an allowance is kept as the
/// error that reading it gives.
#[derive(Debug, PartialEq)]
pub struct Allowances {
    entries: Vec<(CanonicalAddr, StdResult<Allowance>)>,
}

impl View for Allowances {
    type V = Map<Seq<u8>, AllowanceRecord>;

    closed spec fn view(&self) -> Map<Seq<u8>, AllowanceRecord> {
        allowance_map(self.entries@)
    }
}

/// What loading the allowance of `account` gives: none where nothing is kept.
pub open spec fn load_from(
    allowances: Map<Seq<u8>, AllowanceRecord>,
    account: Seq<u8>,
) -> Result<Option<AllowanceView>, ErrorView> {
    if !allowances.contains_key(account) {
        Ok(None)
    } else {
        match allowances[account] {
            Ok(allowance) => Ok(Some(allowance)),
            Err(error) => Err(error),
        }
    }
}

/// The view of what loading an allowance gives.
pub open spec fn loaded_view(loaded: StdResult<Option<Allowance>>) -> Result<
    Option<AllowanceView>,
    ErrorView,
> {
    match loaded {
        Ok(Some(allowance)) => Ok(Some(allowance@)),
        Ok(None) => Ok(None),
        Err(error) => Err(error@),
    }
}

impl Allowances {
    /// No allowances.
    pub fn new() -> (allowances: Allowances)
        ensures
            allowances@ == Map::<Seq<u8>, AllowanceRecord>::empty(),
    {
        Allowances { entries: Vec::new() }
    }

    /// Loads the allowance of `account`, if one is kept.
    pub fn may_load(&self, account: &CanonicalAddr) -> (loaded: StdResult<Option<Allowance>>)
        ensures
            loaded_view(loaded) == load_from(self@, account@),
    {
        let mut i: usize = self.entries.len();
        assert(self.entries@.take(i as int) =~= self.entries@);
        while i > 0
            invariant
                i <= self.entries@.len(),
                load_from(allowance_map(self.entries@.take(i as int)), account@) == load_from(
                    self@,
                    account@,
                ),
            decreases i,
        {
            i -= 1;
            proof {
                let longer = self.entries@.take(i + 1);
                assert(longer.drop_last() =~= self.entries@.take(i as int));
                assert(longer.last() == self.entries@[i as int]);
            }
            if self.entries[i].0 == *account {
                assert(self.entries@[i as int].0@ =~= account@);
                return match &self.entries[i].1 {
                    Ok(allowance) => Ok(Some(allowance.clone())),
                    Err(error) => Err(error.clone()),
                };
            }
        }
        Ok(None)
    }

    /// Saves the allowance of `account`.
    pub fn save(&mut self, account: &CanonicalAddr, allowance: Allowance)
        ensures
            final(self)@ == old(self)@.insert(account@, Ok(allowance@)),
    {
        self.record(account, Ok(allowance));
    }

    /// Keeps `record` as what loading the allowance of `account` gives.
    pub fn record(&mut self, account: &CanonicalAddr, record: StdResult<Allowance>)
        ensures
            final(self)@ == old(self)@.insert(account@, result_view(record)),
    {
        let ghost before = self@;
        self.remove(account);
        let ghost kept = self.entries@;
        self.entries.push((copy_bytes(account), record));
        assert(self.entries@.drop_last() =~= kept);
        assert(self@ =~= before.insert(account@, result_view(record)));
    }

    /// Removes the allowance of `account`, if one is kept.
    pub fn remove(&mut self, account: &CanonicalAddr)
        ensures
            final(self)@ == old(self)@.remove(account@),
    {
        let ghost all = self.entries@;
        let ghost mut seen: int = 0;
        let mut i: usize = 0;
        assert(self.entries@ =~= self.entries@.take(0) + all.skip(0));
        assert(allowance_map(self.entries@.take(0)) =~= allowance_map(all.take(0)).remove(account@));
        while i < self.entries.len()
            invariant
                i <= self.entries@.len(),
                0 <= seen <= all.len(),
                self.entries@ == self.entries@.take(i as int) + all.skip(seen),
                allowance_map(self.entries@.take(i as int)) == allowance_map(
                    all.take(seen),
                ).remove(account@),
            decreases self.entries@.len() - i,
        {
            let ghost kept = self.entries@.take(i as int);
            proof {
                assert(self.entries@[i as int] == all[seen]);
                assert(all.take(seen + 1).drop_last() =~= all.take(seen));
                assert(all.skip(seen).drop_first() =~= all.skip(seen + 1));
            }
            if self.entries[i].0 == *account {
                assert(all[seen].0@ =~= account@);
                self.entries.remove(i);
                proof {
                    assert(self.entries@.take(i as int) =~= kept);
                    assert(self.entries@ =~= kept + all.skip(seen + 1));
                    assert(allowance_map(kept) =~= allowance_map(all.take(seen + 1)).remove(
                        account@,
                    ));
                }
            } else {
                i += 1;
                proof {
                    assert(self.entries@.take(i as int).drop_last() =~= kept);
                    assert(self.entries@ =~= self.entries@.take(i as int) + all.skip(seen + 1));
                    assert(allowance_map(self.entries@.take(i as int)) =~= allowance_map(
                        all.take(seen + 1),
                    ).remove(account@));
                }
            }
            proof {
                seen = seen + 1;
            }
        }
        proof {
            assert(self.entries@.take(i as int) =~= self.entries@);
            assert(all.take(seen) =~= all);
        }
    }
}

/// What loading the list of administrators reports where none was saved.
pub open spec fn no_admin_list() -> ErrorView {
    ErrorView::NotFound { kind: "cw1_whitelist::state::AdminList"@ }
}

/// The contract's records.
#[derive(Debug, PartialEq)]
pub struct Storage {
    /// The contract that the records belong to.
    pub contract_info: Option<ContractVersion>,
    /// What loading the list of administrators gives.
    pub admin_list: StdResult<AdminList>,
    /// The allowances by account.
    pub allowances: Allowances,
}

/// What the records of a [`Storage`] say.
#[verifier::ext_equal]
pub struct StorageView {
    pub contract_info: Option<ContractVersionView>,
    pub admin_list: Result<AdminListView, ErrorView>,
    pub allowances: Map<Seq<u8>, AllowanceRecord>,
}

impl View for Storage {
    type V = StorageView;

    open spec fn view(&self) -> StorageView {
        StorageView {
            contract_info: match self.contract_info {
                Some(info) => Some(info@),
                None => None,
            },
            admin_list: result_view(self.admin_list),
            allowances: self.allowances@,
        }
    }
}

impl StorageView {
    /// What loading the allowance of `account` gives: none where nothing is kept.
    pub open spec fn allowance_of(self, account: Seq<u8>) -> Result<
        Option<AllowanceView>,
        ErrorView,
    > {
        load_from(self.allowances, account)
    }

    /// These records with `allowance` kept for `account`.
    pub open spec fn with_allowance(self, account: Seq<u8>, allowance: AllowanceView) -> StorageView {
        StorageView { allowances: self.allowances.insert(account, Ok(allowance)), ..self }
    }

    /// These records without an allowance for `account`.
    pub open spec fn without_allowance(self, account: Seq<u8>) -> StorageView {
        StorageView { allowances: self.allowances.remove(account), ..self }
    }

    /// These records with `list` as the administrators.
    pub open spec fn with_admin_list(self, list: AdminListView) -> StorageView {
        StorageView { admin_list: Ok(list), ..self }
    }

    /// These records with `info` as the contract that they belong to.
    pub open spec fn with_contract_info(self, info: ContractVersionView) -> StorageView {
        StorageView { contract_info: Some(info), ..self }
    }
}

/// The records of a contract that was not set up yet.
pub open spec fn empty_storage() -> StorageView {
    StorageView {
        contract_info: None,
        admin_list: Err(no_admin_list()),
        allowances: Map::empty(),
    }
}

impl Storage {
    /// The records of a contract that was not set up yet.
    pub fn new() -> (storage: Storage)
        ensures
            storage@ == empty_storage(),
    {
        Storage {
            contract_info: None,
            admin_list: Err(StdError::not_found("cw1_whitelist::state::AdminList")),
            allowances: Allowances::new(),
        }
    }

    /// Loads the list of administrators.
    pub fn load_admin_list(&self) -> (list: StdResult<AdminList>)
        ensures
            result_view(list) == self@.admin_list,
    {
        match &self.admin_list {
            Ok(list) => Ok(list.clone()),
            Err(error) => Err(error.clone()),
        }
    }

    /// Keeps the name and the version of a contract as the one that the records
    /// belong to.
    pub fn set_contract_version(&mut self, contract: &str, version: &str)
        ensures
            final(self)@ == old(self)@.with_contract_info(
                ContractVersionView { contract: contract@, version: version@ },
            ),
    {
        self.contract_info =
        Some(ContractVersion { contract: contract.to_string(), version: version.to_string() });
    }
}

} // verus!
