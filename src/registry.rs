//! The account registry: known accounts, their fingerprints, and which one
//! is live.

use vstd::prelude::*;
use crate::cycle::str_equal;
use crate::fingerprint::{bytes_equal, fingerprint_text, hex_bytes, hex_lower, lemma_hex_round_trip, stored_fingerprint};
use crate::quota::copy_opt_string;

verus! {

/// What the registry records of one account.
pub struct AccountInfo {
    pub added_at: String,
    pub last_used: Option<String>,
    /// Lowercase hex fingerprint of the account's credential blob.
    pub auth_hash: Option<String>,
}

/// One registered account.
pub struct AccountEntry {
    pub name: String,
    pub info: AccountInfo,
}

/// The account registry: the accounts in insertion order and the live
/// pointer.
pub struct Config {
    pub active_account: Option<String>,
    pub accounts: Vec<AccountEntry>,
}

/// Failures of the registry and the credential vault.
#[derive(Debug, PartialEq, Eq)]
pub enum VaultError {
    /// The named account, or its credential blob, does not exist.
    CredentialMissing(String),
    /// The blob's fingerprint already belongs to the named account.
    DuplicateCredential(String),
    /// The monitored process appears to be running.
    RunningConflict,
}

/// The abstract view of one account.
pub struct AccountView {
    pub name: Seq<char>,
    pub added_at: Seq<char>,
    pub last_used: Option<Seq<char>>,
    pub auth_hash: Option<Seq<char>>,
}

/// The abstract view of the registry.
pub struct RegistryView {
    pub active: Option<Seq<char>>,
    pub accounts: Seq<AccountView>,
}

/// The characters of an optional string.
pub open spec fn opt_chars(s: Option<String>) -> Option<Seq<char>> {
    match s {
        Some(t) => Some(t@),
        None => None,
    }
}

impl AccountEntry {
    pub open spec fn view(&self) -> AccountView {
        AccountView {
            name: self.name@,
            added_at: self.info.added_at@,
            last_used: opt_chars(self.info.last_used),
            auth_hash: opt_chars(self.info.auth_hash),
        }
    }
}

impl View for Config {
    type V = RegistryView;

    open spec fn view(&self) -> RegistryView {
        RegistryView {
            active: opt_chars(self.active_account),
            accounts: self.accounts@.map_values(|e: AccountEntry| e.view()),
        }
    }
}

/// Index of the first account named `name`, or `accts.len()` when none is.
pub open spec fn account_index(accts: Seq<AccountView>, name: Seq<char>) -> nat
    decreases accts.len(),
{
    if accts.len() == 0 {
        0
    } else if accts[0].name == name {
        0
    } else {
        1 + account_index(accts.drop_first(), name)
    }
}

/// Whether an account named `name` is registered.
pub open spec fn is_registered(v: RegistryView, name: Seq<char>) -> bool {
    account_index(v.accounts, name) < v.accounts.len()
}

/// The fingerprint an account's stored text records, if valid.
pub open spec fn digest_of(a: AccountView) -> Option<Seq<u8>> {
    match a.auth_hash {
        Some(h) => hex_bytes(h),
        None => None,
    }
}

/// Whether the account at `j` is another account than `name` holding the
/// fingerprint `digest`.
pub open spec fn conflicts_at(v: RegistryView, name: Seq<char>, digest: Seq<u8>, j: int) -> bool {
    &&& 0 <= j < v.accounts.len()
    &&& v.accounts[j].name != name
    &&& digest_of(v.accounts[j]) == Some(digest)
}

/// Whether `digest` belongs to an account other than `name`.
pub open spec fn has_conflict(v: RegistryView, name: Seq<char>, digest: Seq<u8>) -> bool {
    exists|j: int| conflicts_at(v, name, digest, j)
}

/// Whether `name` is the live account.
pub open spec fn is_live(v: RegistryView, name: Seq<char>) -> bool {
    v.active == Some(name) && is_registered(v, name)
}

/// The registry's invariant: names are unique, fingerprints are unique, and
/// the live pointer names a registered account.
pub open spec fn registry_wf(v: RegistryView) -> bool {
    &&& forall|i: int, j: int| 0 <= i < j < v.accounts.len() ==> v.accounts[i].name != v.accounts[j].name
    &&& forall|i: int, j: int| 0 <= i < v.accounts.len() && 0 <= j < v.accounts.len() && i != j
        && digest_of(v.accounts[i]) is Some ==> digest_of(v.accounts[i]) != digest_of(v.accounts[j])
    &&& v.active matches Some(n) ==> is_registered(v, n)
}

/// The record of a newly added account.
pub open spec fn new_account(name: Seq<char>, digest: Seq<u8>, now: Seq<char>) -> AccountView {
    AccountView { name, added_at: now, last_used: None, auth_hash: Some(hex_lower(digest)) }
}

/// The registry with `entry` recorded: it replaces the account of the same
/// name, or is appended.
pub open spec fn with_account(v: RegistryView, entry: AccountView) -> RegistryView {
    let i = account_index(v.accounts, entry.name);
    RegistryView {
        active: v.active,
        accounts: if i < v.accounts.len() { v.accounts.update(i as int, entry) } else { v.accounts.push(entry) },
    }
}

/// The registry with `name` live and stamped as used at `now`.
pub open spec fn marked_live(v: RegistryView, name: Seq<char>, now: Seq<char>) -> RegistryView {
    let i = account_index(v.accounts, name) as int;
    RegistryView {
        active: Some(name),
        accounts: v.accounts.update(i, AccountView { last_used: Some(now), ..v.accounts[i] }),
    }
}

/// The registry without `name`; the live pointer is cleared if it named it.
pub open spec fn without_account(v: RegistryView, name: Seq<char>) -> RegistryView {
    RegistryView {
        active: if v.active == Some(name) { None } else { v.active },
        accounts: v.accounts.remove(account_index(v.accounts, name) as int),
    }
}

pub proof fn lemma_account_index(accts: Seq<AccountView>, name: Seq<char>, i: int)
    requires
        0 <= i <= accts.len(),
        forall|j: int| 0 <= j < i ==> accts[j].name != name,
        i == accts.len() || accts[i].name == name,
    ensures
        account_index(accts, name) == i,
    decreases i,
{
    if i > 0 {
        lemma_account_index(accts.drop_first(), name, i - 1);
    }
}

pub proof fn lemma_account_index_bound(accts: Seq<AccountView>, name: Seq<char>)
    ensures
        account_index(accts, name) <= accts.len(),
        account_index(accts, name) < accts.len() ==> accts[account_index(accts, name) as int].name == name,
        forall|j: int| 0 <= j < account_index(accts, name) ==> accts[j].name != name,
    decreases accts.len(),
{
    if accts.len() > 0 && accts[0].name != name {
        lemma_account_index_bound(accts.drop_first(), name);
        assert forall|j: int| 0 <= j < account_index(accts, name) implies accts[j].name != name by {
            if j > 0 {
                assert(accts[j] == accts.drop_first()[j - 1]);
            }
        }
    }
}

/// Recording a new account whose fingerprint no other account holds keeps
/// the registry well formed.
pub proof fn lemma_added_wf(v: RegistryView, name: Seq<char>, digest: Seq<u8>, now: Seq<char>)
    requires
        registry_wf(v),
        !has_conflict(v, name, digest),
    ensures
        registry_wf(with_account(v, new_account(name, digest, now))),
{
    lemma_hex_round_trip(digest);
    lemma_account_index_bound(v.accounts, name);
    let w = with_account(v, new_account(name, digest, now));
    let i = account_index(v.accounts, name) as int;
    assert forall|a: int, b: int| 0 <= a < b < w.accounts.len() implies w.accounts[a].name != w.accounts[b].name by {
        if b == v.accounts.len() {
            assert(v.accounts[a].name != name);
        }
    }
    assert forall|a: int, b: int| 0 <= a < w.accounts.len() && 0 <= b < w.accounts.len() && a != b
        && digest_of(w.accounts[a]) is Some implies digest_of(w.accounts[a]) != digest_of(w.accounts[b]) by {
        if digest_of(w.accounts[a]) == Some(digest) && digest_of(w.accounts[b]) == Some(digest) {
            assert(w.accounts[a].name == name || conflicts_at(v, name, digest, a));
            assert(w.accounts[b].name == name || conflicts_at(v, name, digest, b));
        }
    }
    if let Some(n) = w.active {
        lemma_account_index_bound(w.accounts, n);
        lemma_account_index_bound(v.accounts, n);
        if !is_registered(w, n) {
            let k = account_index(v.accounts, n) as int;
            assert(w.accounts[k].name == n);
        }
    }
}

/// Making a registered account live keeps the registry well formed.
pub proof fn lemma_marked_live_wf(v: RegistryView, name: Seq<char>, now: Seq<char>)
    requires
        registry_wf(v),
        is_registered(v, name),
    ensures
        registry_wf(marked_live(v, name, now)),
{
    lemma_account_index_bound(v.accounts, name);
    let w = marked_live(v, name, now);
    let i = account_index(v.accounts, name) as int;
    assert forall|a: int, b: int| 0 <= a < b < w.accounts.len() implies w.accounts[a].name != w.accounts[b].name by {
        assert(w.accounts[a].name == v.accounts[a].name);
        assert(w.accounts[b].name == v.accounts[b].name);
    }
    assert forall|a: int| 0 <= a < w.accounts.len() implies digest_of(w.accounts[a]) == digest_of(v.accounts[a]) by {}
    lemma_account_index_bound(w.accounts, name);
    if !is_registered(w, name) {
        assert(w.accounts[i].name == name);
    }
}

/// Removing a registered account keeps the registry well formed.
pub proof fn lemma_without_account_wf(v: RegistryView, name: Seq<char>)
    requires
        registry_wf(v),
        is_registered(v, name),
    ensures
        registry_wf(without_account(v, name)),
{
    lemma_account_index_bound(v.accounts, name);
    let w = without_account(v, name);
    let i = account_index(v.accounts, name) as int;
    assert forall|a: int| 0 <= a < w.accounts.len() implies w.accounts[a] == v.accounts[if a < i { a } else { a + 1 }] by {}
    assert forall|a: int, b: int| 0 <= a < b < w.accounts.len() implies w.accounts[a].name != w.accounts[b].name by {
        assert(w.accounts[a] == v.accounts[if a < i { a } else { a + 1 }]);
        assert(w.accounts[b] == v.accounts[if b < i { b } else { b + 1 }]);
    }
    assert forall|a: int, b: int| 0 <= a < w.accounts.len() && 0 <= b < w.accounts.len() && a != b
        && digest_of(w.accounts[a]) is Some implies digest_of(w.accounts[a]) != digest_of(w.accounts[b]) by {
        assert(w.accounts[a] == v.accounts[if a < i { a } else { a + 1 }]);
        assert(w.accounts[b] == v.accounts[if b < i { b } else { b + 1 }]);
    }
    if let Some(n) = w.active {
        lemma_account_index_bound(v.accounts, n);
        lemma_account_index_bound(w.accounts, n);
        let k = account_index(v.accounts, n) as int;
        assert(k != i);
        let k2 = if k < i { k } else { k - 1 };
        assert(w.accounts[k2].name == n);
    }
}

/// Replacing an account by one of the same name keeps its position.
pub proof fn lemma_index_after_update(accts: Seq<AccountView>, name: Seq<char>, e: AccountView)
    requires
        account_index(accts, name) < accts.len(),
        e.name == name,
    ensures
        account_index(accts.update(account_index(accts, name) as int, e), name) == account_index(accts, name),
{
    lemma_account_index_bound(accts, name);
    let i = account_index(accts, name) as int;
    let w = accts.update(i, e);
    assert forall|j: int| 0 <= j < i implies w[j].name != name by {
        assert(w[j] == accts[j]);
    }
    lemma_account_index(w, name, i);
}

/// Replacing an account by one of the same name moves no account.
pub proof fn lemma_index_same_name_update(accts: Seq<AccountView>, i: int, e: AccountView, n: Seq<char>)
    requires
        0 <= i < accts.len(),
        e.name == accts[i].name,
    ensures
        account_index(accts.update(i, e), n) == account_index(accts, n),
{
    lemma_account_index_bound(accts, n);
    let k = account_index(accts, n) as int;
    let w = accts.update(i, e);
    assert forall|j: int| 0 <= j < k implies w[j].name != n by {
        assert(w[j].name == accts[j].name);
    }
    if k < accts.len() {
        assert(w[k].name == accts[k].name);
    }
    lemma_account_index(w, n, k);
}

/// Appending an account moves no registered account.
pub proof fn lemma_index_after_push(accts: Seq<AccountView>, e: AccountView, n: Seq<char>)
    requires
        account_index(accts, n) < accts.len(),
    ensures
        account_index(accts.push(e), n) == account_index(accts, n),
{
    lemma_account_index_bound(accts, n);
    let k = account_index(accts, n) as int;
    let w = accts.push(e);
    assert forall|j: int| 0 <= j < k implies w[j].name != n by {
        assert(w[j] == accts[j]);
    }
    assert(w[k] == accts[k]);
    lemma_account_index(w, n, k);
}

/// Removing another account shifts a registered account down by one when
/// it stood after it.
pub proof fn lemma_index_after_remove(accts: Seq<AccountView>, i: int, n: Seq<char>)
    requires
        0 <= i < accts.len(),
        account_index(accts, n) < accts.len(),
        accts[i].name != n,
    ensures
        account_index(accts.remove(i), n) == if account_index(accts, n) < i {
            account_index(accts, n) as int
        } else {
            account_index(accts, n) - 1
        },
{
    lemma_account_index_bound(accts, n);
    let k = account_index(accts, n) as int;
    let w = accts.remove(i);
    let k2 = if k < i { k } else { k - 1 };
    assert(k != i);
    assert forall|j: int| 0 <= j < k2 implies w[j].name != n by {
        if j < i {
            assert(w[j] == accts[j]);
        } else {
            assert(w[j] == accts[j + 1]);
        }
    }
    if k < i {
        assert(w[k2] == accts[k]);
    } else {
        assert(w[k2] == accts[k]);
    }
    lemma_account_index(w, n, k2);
}

/// One add, switch or remove as its contract describes it: a successful
/// operation, or a failed one that changed nothing.
pub open spec fn registry_step(a: RegistryView, b: RegistryView) -> bool {
    ||| b == a
    ||| exists|name: Seq<char>, digest: Seq<u8>, now: Seq<char>|
        !has_conflict(a, name, digest) && b == #[trigger] with_account(a, new_account(name, digest, now))
    ||| exists|name: Seq<char>, now: Seq<char>| is_registered(a, name) && b == #[trigger] marked_live(a, name, now)
    ||| exists|name: Seq<char>| is_registered(a, name) && b == #[trigger] without_account(a, name)
}

/// Over any sequence of add, switch and remove operations from a well-formed
/// registry, every state is well formed and at most one account is live.
pub proof fn lemma_at_most_one_live(states: Seq<RegistryView>)
    requires
        states.len() > 0,
        registry_wf(states[0]),
        forall|k: int| 0 <= k < states.len() - 1 ==> registry_step(#[trigger] states[k], states[k + 1]),
    ensures
        forall|k: int| 0 <= k < states.len() ==> registry_wf(#[trigger] states[k]),
        forall|k: int, n1: Seq<char>, n2: Seq<char>|
            0 <= k < states.len() && #[trigger] is_live(states[k], n1) && #[trigger] is_live(states[k], n2) ==> n1 == n2,
    decreases states.len(),
{
    if states.len() > 1 {
        let prefix = states.drop_last();
        assert forall|k: int| 0 <= k < prefix.len() - 1 implies registry_step(#[trigger] prefix[k], prefix[k + 1]) by {
            assert(prefix[k] == states[k] && prefix[k + 1] == states[k + 1]);
            assert(registry_step(states[k], states[k + 1]));
        }
        lemma_at_most_one_live(prefix);
        let last = states.len() - 1;
        let a = states[last - 1];
        let b = states[last];
        assert(prefix[last - 1] == a);
        assert(registry_wf(a));
        assert(registry_step(a, b));
        if b != a {
            if exists|name: Seq<char>, digest: Seq<u8>, now: Seq<char>|
                !has_conflict(a, name, digest) && b == #[trigger] with_account(a, new_account(name, digest, now)) {
                let (name, digest, now) = choose|name: Seq<char>, digest: Seq<u8>, now: Seq<char>|
                    !has_conflict(a, name, digest) && b == #[trigger] with_account(a, new_account(name, digest, now));
                lemma_added_wf(a, name, digest, now);
            } else if exists|name: Seq<char>, now: Seq<char>| is_registered(a, name) && b == #[trigger] marked_live(a, name, now) {
                let (name, now) = choose|name: Seq<char>, now: Seq<char>| is_registered(a, name) && b == #[trigger] marked_live(a, name, now);
                lemma_marked_live_wf(a, name, now);
            } else {
                let name = choose|name: Seq<char>| is_registered(a, name) && b == #[trigger] without_account(a, name);
                lemma_without_account_wf(a, name);
            }
        }
        assert forall|k: int| 0 <= k < states.len() implies registry_wf(#[trigger] states[k]) by {
            if k < last {
                assert(prefix[k] == states[k]);
            }
        }
    }
}

impl AccountInfo {
    /// A field-by-field copy.
    pub fn copy(&self) -> (r: AccountInfo)
        ensures
            r == *self,
    {
        AccountInfo {
            added_at: self.added_at.clone(),
            last_used: copy_opt_string(&self.last_used),
            auth_hash: copy_opt_string(&self.auth_hash),
        }
    }
}

impl Config {
    /// An empty registry with no live account.
    pub fn new() -> (r: Config)
        ensures
            r@.active is None,
            r@.accounts.len() == 0,
            registry_wf(r@),
    {
        Config { active_account: None, accounts: Vec::new() }
    }

    /// The position of the account named `name`.
    pub fn find(&self, name: &str) -> (r: Option<usize>)
        ensures
            r is Some <==> is_registered(self@, name@),
            r matches Some(i) ==> i as int == account_index(self@.accounts, name@),
    {
        let mut i: usize = 0;
        while i < self.accounts.len()
            invariant
                i <= self.accounts@.len(),
                self@.accounts.len() == self.accounts@.len(),
                forall|j: int| 0 <= j < i ==> self@.accounts[j].name != name@,
            decreases self.accounts.len() - i,
        {
            if str_equal(self.accounts[i].name.as_str(), name) {
                proof {
                    lemma_account_index(self@.accounts, name@, i as int);
                }
                return Some(i);
            }
            i = i + 1;
        }
        proof {
            lemma_account_index(self@.accounts, name@, i as int);
        }
        None
    }

    /// The fingerprint each account's stored text records, in order.
    fn recorded_digests(&self) -> (r: Vec<Option<Vec<u8>>>)
        ensures
            r@.len() == self@.accounts.len(),
            forall|i: int| 0 <= i < r@.len() ==> (match #[trigger] r@[i] {
                Some(d) => digest_of(self@.accounts[i]) == Some(d@),
                None => digest_of(self@.accounts[i]) is None,
            }),
    {
        let mut out: Vec<Option<Vec<u8>>> = Vec::new();
        let mut i: usize = 0;
        while i < self.accounts.len()
            invariant
                i <= self.accounts@.len(),
                self@.accounts.len() == self.accounts@.len(),
                out@.len() == i,
                forall|k: int| 0 <= k < i ==> (match #[trigger] out@[k] {
                    Some(d) => digest_of(self@.accounts[k]) == Some(d@),
                    None => digest_of(self@.accounts[k]) is None,
                }),
            decreases self.accounts.len() - i,
        {
            assert(self@.accounts[i as int] == self.accounts@[i as int].view());
            let d = match &self.accounts[i].info.auth_hash {
                Some(h) => stored_fingerprint(h.as_str()),
                None => None,
            };
            out.push(d);
            i = i + 1;
        }
        out
    }

    /// Whether the registry satisfies its invariant; see `registry_wf`.
    #[verifier::rlimit(40)]
    pub fn is_well_formed(&self) -> (r: bool)
        ensures
            r == registry_wf(self@),
    {
        let n = self.accounts.len();
        let digests = self.recorded_digests();
        let mut i: usize = 0;
        while i < n
            invariant
                n == self.accounts@.len() == self@.accounts.len() == digests@.len(),
                i <= n,
                forall|k: int| 0 <= k < digests@.len() ==> (match #[trigger] digests@[k] {
                    Some(d) => digest_of(self@.accounts[k]) == Some(d@),
                    None => digest_of(self@.accounts[k]) is None,
                }),
                forall|a: int, b: int| 0 <= a < i && a < b < n ==> self@.accounts[a].name != self@.accounts[b].name,
                forall|a: int, b: int| 0 <= a < i && 0 <= b < n && a != b && digest_of(self@.accounts[a]) is Some
                    ==> digest_of(self@.accounts[a]) != digest_of(self@.accounts[b]),
            decreases n - i,
        {
            let mut j: usize = 0;
            while j < n
                invariant
                    n == self.accounts@.len() == self@.accounts.len() == digests@.len(),
                    i < n,
                    j <= n,
                    forall|k: int| 0 <= k < digests@.len() ==> (match #[trigger] digests@[k] {
                        Some(d) => digest_of(self@.accounts[k]) == Some(d@),
                        None => digest_of(self@.accounts[k]) is None,
                    }),
                    forall|b: int| i < b < j ==> self@.accounts[i as int].name != self@.accounts[b].name,
                    forall|b: int| 0 <= b < j && b != i && digest_of(self@.accounts[i as int]) is Some
                        ==> digest_of(self@.accounts[i as int]) != digest_of(self@.accounts[b]),
                decreases n - j,
            {
                assert(self@.accounts[i as int] == self.accounts@[i as int].view());
                assert(self@.accounts[j as int] == self.accounts@[j as int].view());
                if j > i && str_equal(self.accounts[i].name.as_str(), self.accounts[j].name.as_str()) {
                    return false;
                }
                if j != i {
                    let same = match (&digests[i], &digests[j]) {
                        (Some(x), Some(y)) => bytes_equal(x, y),
                        _ => false,
                    };
                    if same {
                        return false;
                    }
                    proof {
                        let di = digests@[i as int];
                        let dj = digests@[j as int];
                        if di is Some && dj is Some {
                            assert(di.unwrap()@ != dj.unwrap()@);
                        }
                    }
                }
                j = j + 1;
            }
            i = i + 1;
        }
        match &self.active_account {
            Some(a) => self.find(a.as_str()).is_some(),
            None => true,
        }
    }

    /// Whether `name` is the live account.
    pub fn is_live(&self, name: &str) -> (r: bool)
        ensures
            r == is_live(self@, name@),
    {
        match &self.active_account {
            Some(a) => str_equal(a.as_str(), name) && self.find(name).is_some(),
            None => false,
        }
    }

    /// The first account other than `name` whose recorded fingerprint is
    /// `digest`.
    pub fn conflicting_account(&self, name: &str, digest: &Vec<u8>) -> (r: Option<usize>)
        ensures
            r matches Some(j) ==> conflicts_at(self@, name@, digest@, j as int),
            r is None ==> !has_conflict(self@, name@, digest@),
    {
        let mut j: usize = 0;
        while j < self.accounts.len()
            invariant
                j <= self.accounts@.len(),
                self@.accounts.len() == self.accounts@.len(),
                forall|k: int| 0 <= k < j ==> !conflicts_at(self@, name@, digest@, k),
            decreases self.accounts.len() - j,
        {
            let e = &self.accounts[j];
            assert(self@.accounts[j as int] == e.view());
            if !str_equal(e.name.as_str(), name) {
                if let Some(h) = &e.info.auth_hash {
                    if let Some(stored) = stored_fingerprint(h.as_str()) {
                        if bytes_equal(&stored, digest) {
                            return Some(j);
                        }
                    }
                }
            }
            j = j + 1;
        }
        None
    }

    /// Records the account `name` with the credential fingerprint `digest`,
    /// added at `now`. Fails, changing nothing, when the fingerprint already
    /// belongs to another account, and names that account. Adding a name
    /// that is registered replaces its record.
    #[verifier::rlimit(40)]
    pub fn add_account(&mut self, name: &str, digest: &Vec<u8>, now: &str) -> (r: Result<(), VaultError>)
        requires
            registry_wf(old(self)@),
        ensures
            r is Ok <==> !has_conflict(old(self)@, name@, digest@),
            r is Ok ==> final(self)@ == with_account(old(self)@, new_account(name@, digest@, now@)),
            r matches Err(e) ==> final(self)@ == old(self)@ && (e matches VaultError::DuplicateCredential(other)
                && exists|j: int| conflicts_at(old(self)@, name@, digest@, j) && old(self)@.accounts[j].name == other@),
            registry_wf(final(self)@),
    {
        if let Some(j) = self.conflicting_account(name, digest) {
            return Err(VaultError::DuplicateCredential(self.accounts[j].name.clone()));
        }
        let entry = AccountEntry {
            name: String::from_str(name),
            info: AccountInfo {
                added_at: String::from_str(now),
                last_used: None,
                auth_hash: Some(fingerprint_text(digest)),
            },
        };
        assert(entry.view() == new_account(name@, digest@, now@));
        proof {
            lemma_hex_round_trip(digest@);
            lemma_account_index_bound(old(self)@.accounts, name@);
        }
        let ghost before = self@;
        let ghost e = entry.view();
        match self.find(name) {
            Some(i) => {
                assert(i as int == account_index(before.accounts, name@));
                self.accounts.set(i, entry);
                assert(self@.accounts =~= before.accounts.update(i as int, e));
            }
            None => {
                self.accounts.push(entry);
                assert(self@.accounts =~= before.accounts.push(e));
            }
        }
        assert(self@.accounts =~= with_account(before, new_account(name@, digest@, now@)).accounts);
        proof {
            lemma_added_wf(before, name@, digest@, now@);
        }
        Ok(())
    }

    /// Makes `name` the live account and stamps it as used at `now`. Fails,
    /// changing nothing, when no such account is registered.
    pub fn mark_live(&mut self, name: &str, now: &str) -> (r: Result<(), VaultError>)
        requires
            registry_wf(old(self)@),
        ensures
            r is Ok <==> is_registered(old(self)@, name@),
            r is Ok ==> final(self)@ == marked_live(old(self)@, name@, now@),
            r matches Err(e) ==> final(self)@ == old(self)@ && (e matches VaultError::CredentialMissing(n) && n@ == name@),
            registry_wf(final(self)@),
    {
        match self.find(name) {
            None => Err(VaultError::CredentialMissing(String::from_str(name))),
            Some(i) => {
                let ghost before = self@;
                proof {
                    lemma_account_index_bound(before.accounts, name@);
                }
                let old_entry = &self.accounts[i];
                let entry = AccountEntry {
                    name: old_entry.name.clone(),
                    info: AccountInfo {
                        added_at: old_entry.info.added_at.clone(),
                        last_used: Some(String::from_str(now)),
                        auth_hash: copy_opt_string(&old_entry.info.auth_hash),
                    },
                };
                self.accounts.set(i, entry);
                self.active_account = Some(String::from_str(name));
                assert(self@.accounts =~= marked_live(before, name@, now@).accounts);
                proof {
                    lemma_marked_live_wf(before, name@, now@);
                }
                Ok(())
            }
        }
    }

    /// Forgets the account `name`; if it was live, no account is live
    /// afterwards. Fails, changing nothing, when no such account is
    /// registered.
    pub fn remove_account(&mut self, name: &str) -> (r: Result<(), VaultError>)
        requires
            registry_wf(old(self)@),
        ensures
            r is Ok <==> is_registered(old(self)@, name@),
            r is Ok ==> final(self)@ == without_account(old(self)@, name@),
            r matches Err(e) ==> final(self)@ == old(self)@ && (e matches VaultError::CredentialMissing(n) && n@ == name@),
            registry_wf(final(self)@),
    {
        match self.find(name) {
            None => Err(VaultError::CredentialMissing(String::from_str(name))),
            Some(i) => {
                let ghost before = self@;
                proof {
                    lemma_account_index_bound(before.accounts, name@);
                }
                self.accounts.remove(i);
                let clear = match &self.active_account {
                    Some(a) => str_equal(a.as_str(), name),
                    None => false,
                };
                if clear {
                    self.active_account = None;
                }
                assert(self@.accounts =~= without_account(before, name@).accounts);
                proof {
                    lemma_without_account_wf(before, name@);
                }
                Ok(())
            }
        }
    }
}

} // verus!
