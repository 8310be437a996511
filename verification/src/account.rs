//! The accounts that the program knows, as far as the quota concerns them.
use crate::clock::Timestamp;
use crate::table::Table;
use vstd::prelude::*;

verus! {

/// The quota of an account as it was last seen. What is left is in whole
/// percent.
#[derive(Clone, Debug)]
pub struct CachedQuota {
    pub five_hour_left: i32,
    pub five_hour_reset: String,
    pub five_hour_reset_at: Option<i64>,
    pub five_hour_label: String,
    pub weekly_left: i32,
    pub weekly_reset: String,
    pub weekly_reset_at: Option<i64>,
    pub weekly_label: String,
    pub plan_type: String,
    pub is_valid_for_cli: bool,
    pub updated_at: Timestamp,
}

/// What a `CachedQuota` says.
pub ghost struct Quota {
    pub five_hour_left: int,
    pub five_hour_reset: Seq<char>,
    pub five_hour_reset_at: Option<i64>,
    pub five_hour_label: Seq<char>,
    pub weekly_left: int,
    pub weekly_reset: Seq<char>,
    pub weekly_reset_at: Option<i64>,
    pub weekly_label: Seq<char>,
    pub plan_type: Seq<char>,
    pub is_valid_for_cli: bool,
    pub updated_at: Timestamp,
}

impl View for CachedQuota {
    type V = Quota;

    open spec fn view(&self) -> Quota {
        Quota {
            five_hour_left: self.five_hour_left as int,
            five_hour_reset: self.five_hour_reset@,
            five_hour_reset_at: self.five_hour_reset_at,
            five_hour_label: self.five_hour_label@,
            weekly_left: self.weekly_left as int,
            weekly_reset: self.weekly_reset@,
            weekly_reset_at: self.weekly_reset_at,
            weekly_label: self.weekly_label@,
            plan_type: self.plan_type@,
            is_valid_for_cli: self.is_valid_for_cli,
            updated_at: self.updated_at,
        }
    }
}

/// An account.
#[derive(Clone, Debug)]
pub struct Account {
    pub name: String,
    /// Whether it is a subscription, logged in through ChatGPT.
    pub is_chatgpt_oauth: bool,
    pub is_banned: bool,
    pub is_token_invalid: bool,
    pub is_logged_out: bool,
    pub cached_quota: Option<CachedQuota>,
}

/// What an `Account` says.
pub ghost struct Holder {
    pub name: Seq<char>,
    pub is_chatgpt_oauth: bool,
    pub is_banned: bool,
    pub is_token_invalid: bool,
    pub is_logged_out: bool,
    pub cached_quota: Option<Quota>,
}

impl View for Account {
    type V = Holder;

    open spec fn view(&self) -> Holder {
        Holder {
            name: self.name@,
            is_chatgpt_oauth: self.is_chatgpt_oauth,
            is_banned: self.is_banned,
            is_token_invalid: self.is_token_invalid,
            is_logged_out: self.is_logged_out,
            cached_quota: match self.cached_quota {
                Some(q) => Some(q@),
                None => None,
            },
        }
    }
}

/// The accounts by their ids, the one in use, and whether the proxy is on.
pub struct AccountStore {
    pub accounts: Table<Account>,
    pub current: Option<String>,
    pub proxy_enabled: bool,
}

/// What an `AccountStore` says.
pub ghost struct Holders {
    pub accounts: Map<Seq<char>, Holder>,
    pub current: Option<Seq<char>>,
    pub proxy_enabled: bool,
}

/// What the accounts of a table say.
pub open spec fn holders(accounts: Map<Seq<char>, Account>) -> Map<Seq<char>, Holder> {
    accounts.map_values(|a: Account| a@)
}

impl View for AccountStore {
    type V = Holders;

    open spec fn view(&self) -> Holders {
        Holders {
            accounts: holders(self.accounts@),
            current: crate::text::opt_text(self.current),
            proxy_enabled: self.proxy_enabled,
        }
    }
}

impl AccountStore {
    /// No id occurs twice.
    pub open spec fn wf(self) -> bool {
        self.accounts.wf()
    }

    /// A store without accounts.
    pub fn new() -> (r: AccountStore)
        ensures
            r.wf(),
            r@.accounts == Map::<Seq<char>, Holder>::empty(),
            r@.current is None,
            !r@.proxy_enabled,
    {
        let accounts: Table<Account> = Table::new();
        assert(holders(accounts@) =~= Map::<Seq<char>, Holder>::empty());
        AccountStore { accounts, current: None, proxy_enabled: false }
    }

    /// Puts an account under an id.
    pub fn put(&mut self, id: String, account: Account)
        requires
            old(self).wf(),
        ensures
            final(self).wf(),
            final(self)@ == (Holders {
                accounts: old(self)@.accounts.insert(id@, account@),
                ..old(self)@
            }),
    {
        self.accounts.insert(id, account);
        assert(self@.accounts =~= old(self)@.accounts.insert(id@, account@));
    }
}

/// What is kept of a quota is told field by field, and so is an account; a store
/// tells the account under each id.
pub proof fn accounts_are_told_field_by_field(
    q: CachedQuota,
    a: Account,
    store: AccountStore,
    id: Seq<char>,
)
    ensures
        q@.five_hour_left == q.five_hour_left && q@.weekly_left == q.weekly_left,
        q@.five_hour_reset == q.five_hour_reset@ && q@.weekly_reset == q.weekly_reset@,
        q@.five_hour_reset_at == q.five_hour_reset_at && q@.weekly_reset_at == q.weekly_reset_at,
        q@.five_hour_label == q.five_hour_label@ && q@.weekly_label == q.weekly_label@,
        q@.plan_type == q.plan_type@ && q@.is_valid_for_cli == q.is_valid_for_cli,
        q@.updated_at == q.updated_at,
        a@.name == a.name@ && a@.is_chatgpt_oauth == a.is_chatgpt_oauth,
        a@.is_banned == a.is_banned && a@.is_token_invalid == a.is_token_invalid,
        a@.is_logged_out == a.is_logged_out,
        a@.cached_quota is Some <==> a.cached_quota is Some,
        a.cached_quota is Some ==> a@.cached_quota->Some_0 == a.cached_quota->Some_0@,
        store@.accounts.contains_key(id) <==> store.accounts@.contains_key(id),
        store.accounts@.contains_key(id) ==> store@.accounts[id] == store.accounts@[id]@,
        store@.current is Some <==> store.current is Some,
        store.current is Some ==> store@.current == Some(store.current->Some_0@),
        store@.proxy_enabled == store.proxy_enabled,
{
}

} // verus!
