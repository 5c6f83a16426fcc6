//! One pass over every provider, as a machine that decides and a driver that
//! acts.
//!
//! A pass resolves the accounts of every provider it can poll, and polls each
//! refreshable one. Several accounts may be aliases of one physical account and
//! then share a key: once a poll has applied under a key, the pass polls no
//! other account with it. A poll that did not apply leaves the key open, so that
//! a later alias is still tried.

use vstd::hash_set::StringHashSet;
use vstd::prelude::*;

use crate::credentials::{
    account_is_refreshable, codex_account_is_refreshable, credential_source, is_refreshable,
    source_of, AccountConfig, AccountView, CredentialSource, Family, SourceView,
};

verus! {

/// How a provider authenticates.
#[derive(Clone, Copy, Debug, PartialEq, Eq, Structural)]
pub enum AuthMode {
    ClaudeOauth,
    ChatgptOauth,
    /// Any other way, which no usage endpoint accepts.
    Other,
}

/// What a pass reads of a provider's configuration.
#[derive(Debug)]
pub struct ProviderEntry {
    pub name: String,
    pub auth: AuthMode,
    /// Whether the provider is on the ChatGPT backend.
    pub chatgpt_backend: bool,
}

/// The content of a provider's configuration.
pub ghost struct ProviderView {
    pub name: Seq<char>,
    pub auth: AuthMode,
    pub chatgpt_backend: bool,
}

impl View for ProviderEntry {
    type V = ProviderView;

    open spec fn view(&self) -> ProviderView {
        ProviderView {
            name: self.name@,
            auth: self.auth,
            chatgpt_backend: self.chatgpt_backend,
        }
    }
}

impl Clone for ProviderEntry {
    fn clone(&self) -> (copy: ProviderEntry)
        ensures
            copy@ == self@,
    {
        ProviderEntry {
            name: self.name.clone(),
            auth: self.auth,
            chatgpt_backend: self.chatgpt_backend,
        }
    }
}

/// The contents of a list of providers.
pub open spec fn provider_views(providers: Seq<ProviderEntry>) -> Seq<ProviderView> {
    Seq::new(providers.len(), |i: int| providers[i]@)
}

/// The kind of accounts that a provider has to poll, if any.
pub open spec fn family_of(provider: ProviderView) -> Option<Family> {
    match provider.auth {
        AuthMode::ClaudeOauth => Some(Family::Claude),
        AuthMode::ChatgptOauth => if provider.chatgpt_backend {
            Some(Family::Codex)
        } else {
            None
        },
        AuthMode::Other => None,
    }
}

/// The kind of accounts that a provider has to poll, if any.
pub fn provider_family(provider: &ProviderEntry) -> (family: Option<Family>)
    ensures
        family == family_of(provider@),
{
    match provider.auth {
        AuthMode::ClaudeOauth => Some(Family::Claude),
        AuthMode::ChatgptOauth => if provider.chatgpt_backend {
            Some(Family::Codex)
        } else {
            None
        },
        AuthMode::Other => None,
    }
}

/// Whether a provider of this name is configured and on the ChatGPT backend;
/// of two with one name the first counts.
pub open spec fn on_chatgpt_backend(providers: Seq<ProviderView>, name: Seq<char>) -> bool {
    exists|i: int|
        0 <= i < providers.len() && (#[trigger] providers[i]).name == name
            && providers[i].chatgpt_backend && forall|k: int|
            0 <= k < i ==> (#[trigger] providers[k]).name != name
}

/// Whether the provider of this name is on the ChatGPT backend. One that is not
/// configured is not.
pub fn is_chatgpt_backend(providers: &Vec<ProviderEntry>, name: &str) -> (yes: bool)
    ensures
        yes == on_chatgpt_backend(provider_views(providers@), name@),
{
    let wanted = name.to_owned();
    let ghost views = provider_views(providers@);
    for i in 0..providers.len()
        invariant
            views == provider_views(providers@),
            wanted@ == name@,
            forall|k: int| 0 <= k < i ==> (#[trigger] views[k]).name != name@,
    {
        if providers[i].name == wanted {
            assert(views[i as int].name == name@);
            return providers[i].chatgpt_backend;
        }
    }
    false
}

/// An account of a pool and the key of the physical account behind it.
#[derive(Debug)]
pub struct PoolAccount {
    pub config: AccountConfig,
    pub key: String,
}

/// An account of a pool and the key of the physical account behind it.
pub ghost struct PoolAccountView {
    pub config: AccountView,
    pub key: Seq<char>,
}

impl View for PoolAccount {
    type V = PoolAccountView;

    open spec fn view(&self) -> PoolAccountView {
        PoolAccountView { config: self.config@, key: self.key@ }
    }
}

impl Clone for PoolAccount {
    fn clone(&self) -> (copy: PoolAccount)
        ensures
            copy@ == self@,
    {
        PoolAccount { config: self.config.clone(), key: self.key.clone() }
    }
}

/// The contents of a list of accounts.
pub open spec fn account_views(accounts: Seq<PoolAccount>) -> Seq<PoolAccountView> {
    Seq::new(accounts.len(), |i: int| accounts[i]@)
}

/// What the driver is to do next. Providers and accounts are named by their
/// places in their lists.
#[derive(Debug)]
pub enum PassAction {
    /// Resolve the accounts of a provider.
    ResolveAccounts { provider: usize, family: Family },
    /// Tell the pool which accounts of the provider are enabled: those just
    /// resolved.
    SyncAccounts { provider: usize },
    /// Read the credential file of an account.
    ReadFile { provider: usize, account: usize, family: Family, source: CredentialSource },
    /// Poll an account.
    PollAccount { provider: usize, account: usize, family: Family },
    /// Nothing. The pass is over.
    Finish,
}

/// What the driver is to do next.
pub ghost enum PassActionView {
    ResolveAccounts { provider: int, family: Family },
    SyncAccounts { provider: int },
    ReadFile { provider: int, account: int, family: Family, source: SourceView },
    PollAccount { provider: int, account: int, family: Family },
    Finish,
}

impl View for PassAction {
    type V = PassActionView;

    open spec fn view(&self) -> PassActionView {
        match *self {
            PassAction::ResolveAccounts { provider, family } => PassActionView::ResolveAccounts {
                provider: provider as int,
                family,
            },
            PassAction::SyncAccounts { provider } => PassActionView::SyncAccounts {
                provider: provider as int,
            },
            PassAction::ReadFile { provider, account, family, source } => PassActionView::ReadFile {
                provider: provider as int,
                account: account as int,
                family,
                source: source@,
            },
            PassAction::PollAccount { provider, account, family } => PassActionView::PollAccount {
                provider: provider as int,
                account: account as int,
                family,
            },
            PassAction::Finish => PassActionView::Finish,
        }
    }
}

/// What the driver reports.
#[derive(Debug)]
pub enum PassEvent {
    /// The pass may begin.
    Begin,
    /// The accounts of the provider, if they could be resolved.
    AccountsResolved(Option<Vec<PoolAccount>>),
    /// The pool knows which accounts are enabled.
    AccountsSynced,
    /// The contents of the credential file, if it could be read.
    FileRead(Option<Vec<u8>>),
    /// Whether the poll of the account applied.
    AccountPolled(bool),
}

/// What the driver reports.
pub ghost enum PassEventView {
    Begin,
    AccountsResolved(Option<Seq<PoolAccountView>>),
    AccountsSynced,
    FileRead(Option<Seq<u8>>),
    AccountPolled(bool),
}

impl View for PassEvent {
    type V = PassEventView;

    open spec fn view(&self) -> PassEventView {
        match *self {
            PassEvent::Begin => PassEventView::Begin,
            PassEvent::AccountsResolved(accounts) => PassEventView::AccountsResolved(
                match accounts {
                    Some(list) => Some(account_views(list@)),
                    None => None,
                },
            ),
            PassEvent::AccountsSynced => PassEventView::AccountsSynced,
            PassEvent::FileRead(contents) => PassEventView::FileRead(
                match contents {
                    Some(bytes) => Some(bytes@),
                    None => None,
                },
            ),
            PassEvent::AccountPolled(applied) => PassEventView::AccountPolled(applied),
        }
    }
}

/// What a pass is waiting for.
#[derive(Clone, Copy, Debug, PartialEq, Eq, Structural)]
pub enum PassPhase {
    Ready,
    Resolving,
    Syncing,
    Checking,
    Polling,
    Over,
}

/// The state of a pass.
#[verifier::ext_equal]
pub ghost struct PassView {
    pub providers: Seq<ProviderView>,
    /// The place of the current provider.
    pub provider: int,
    /// The accounts of the current provider.
    pub accounts: Seq<PoolAccountView>,
    /// The place of the current account.
    pub account: int,
    pub phase: PassPhase,
    /// The keys under which a poll applied.
    pub polled: Set<Seq<char>>,
}

/// Ends a pass.
pub open spec fn end(pass: PassView) -> (PassView, PassActionView) {
    (PassView { phase: PassPhase::Over, ..pass }, PassActionView::Finish)
}

/// Turns to the first provider, from the current one on, that has accounts to
/// poll; without one the pass is over.
pub open spec fn turn_to_provider(pass: PassView) -> (PassView, PassActionView)
    decreases pass.providers.len() - pass.provider,
{
    if pass.provider >= pass.providers.len() {
        end(pass)
    } else {
        match family_of(pass.providers[pass.provider]) {
            Some(family) => (
                PassView { phase: PassPhase::Resolving, ..pass },
                PassActionView::ResolveAccounts { provider: pass.provider, family },
            ),
            None => turn_to_provider(PassView { provider: pass.provider + 1, ..pass }),
        }
    }
}

/// Turns to the first account, from the current one on, that has a credential
/// file; without one, to the next provider.
pub open spec fn turn_to_account(pass: PassView) -> (PassView, PassActionView)
    decreases pass.accounts.len() - pass.account,
{
    if pass.account >= pass.accounts.len() {
        turn_to_provider(PassView { provider: pass.provider + 1, ..pass })
    } else {
        match source_of(pass.accounts[pass.account].config) {
            SourceView::Environment => turn_to_account(
                PassView { account: pass.account + 1, ..pass },
            ),
            source => match family_of(pass.providers[pass.provider]) {
                Some(family) => (
                    PassView { phase: PassPhase::Checking, ..pass },
                    PassActionView::ReadFile {
                        provider: pass.provider,
                        account: pass.account,
                        family,
                        source,
                    },
                ),
                None => end(pass),
            },
        }
    }
}

/// The next state and action of a pass upon an event.
pub open spec fn pass_next(pass: PassView, event: PassEventView) -> (PassView, PassActionView) {
    match (pass.phase, event) {
        (PassPhase::Ready, PassEventView::Begin) => turn_to_provider(pass),
        (PassPhase::Resolving, PassEventView::AccountsResolved(None)) => {
            turn_to_provider(PassView { provider: pass.provider + 1, ..pass })
        },
        (PassPhase::Resolving, PassEventView::AccountsResolved(Some(accounts))) => {
            (
                PassView { accounts, account: 0, phase: PassPhase::Syncing, ..pass },
                PassActionView::SyncAccounts { provider: pass.provider },
            )
        },
        (PassPhase::Syncing, PassEventView::AccountsSynced) => turn_to_account(pass),
        (PassPhase::Checking, PassEventView::FileRead(contents)) => {
            let account = pass.accounts[pass.account];
            match family_of(pass.providers[pass.provider]) {
                Some(family) => if is_refreshable(family, account.config, contents)
                    && !pass.polled.contains(account.key) {
                    (
                        PassView { phase: PassPhase::Polling, ..pass },
                        PassActionView::PollAccount {
                            provider: pass.provider,
                            account: pass.account,
                            family,
                        },
                    )
                } else {
                    turn_to_account(PassView { account: pass.account + 1, ..pass })
                },
                None => end(pass),
            }
        },
        (PassPhase::Polling, PassEventView::AccountPolled(applied)) => {
            let polled = if applied {
                pass.polled.insert(pass.accounts[pass.account].key)
            } else {
                pass.polled
            };
            turn_to_account(PassView { account: pass.account + 1, polled, ..pass })
        },
        _ => end(pass),
    }
}

/// A pass over a list of providers.
pub struct PollPass {
    providers: Vec<ProviderEntry>,
    provider: usize,
    accounts: Vec<PoolAccount>,
    account: usize,
    phase: PassPhase,
    polled: StringHashSet,
}

impl View for PollPass {
    type V = PassView;

    closed spec fn view(&self) -> PassView {
        PassView {
            providers: provider_views(self.providers@),
            provider: self.provider as int,
            accounts: account_views(self.accounts@),
            account: self.account as int,
            phase: self.phase,
            polled: self.polled@,
        }
    }
}

/// Whether the current places of a pass lie within its lists, and its current
/// provider, once it has turned to one, has accounts to poll.
pub open spec fn in_place(pass: PassView) -> bool {
    &&& 0 <= pass.provider <= pass.providers.len()
    &&& 0 <= pass.account <= pass.accounts.len()
    &&& pass.phase == PassPhase::Resolving || pass.phase == PassPhase::Syncing || pass.phase
        == PassPhase::Checking || pass.phase == PassPhase::Polling ==> pass.provider
        < pass.providers.len() && family_of(pass.providers[pass.provider]) is Some
    &&& pass.phase == PassPhase::Checking || pass.phase == PassPhase::Polling ==> pass.account
        < pass.accounts.len()
}

impl PollPass {
    /// What every pass keeps.
    pub open spec fn well_formed(&self) -> bool {
        in_place(self@)
    }

    /// A pass over the given providers.
    pub fn new(providers: Vec<ProviderEntry>) -> (pass: PollPass)
        ensures
            pass.well_formed(),
            pass@ == (PassView {
                providers: provider_views(providers@),
                provider: 0,
                accounts: Seq::empty(),
                account: 0,
                phase: PassPhase::Ready,
                polled: Set::empty(),
            }),
    {
        let pass = PollPass {
            providers,
            provider: 0,
            accounts: Vec::new(),
            account: 0,
            phase: PassPhase::Ready,
            polled: StringHashSet::new(),
        };
        assert(pass@.accounts =~= Seq::empty());
        pass
    }

    /// Turns to the next provider that has accounts to poll.
    fn turn_to_provider(&mut self) -> (action: PassAction)
        requires
            0 <= old(self)@.provider <= old(self)@.providers.len(),
            0 <= old(self)@.account <= old(self)@.accounts.len(),
        ensures
            final(self).well_formed(),
            final(self)@ == turn_to_provider(old(self)@).0,
            action@ == turn_to_provider(old(self)@).1,
    {
        let ghost start = self@;
        while self.provider < self.providers.len()
            invariant
                start == old(self)@,
                0 <= self@.provider <= self@.providers.len(),
                0 <= self@.account <= self@.accounts.len(),
                turn_to_provider(start) == turn_to_provider(self@),
            decreases self.providers@.len() - self.provider,
        {
            assert(self@.providers[self@.provider] == self.providers@[self.provider as int]@);
            if let Some(family) = provider_family(&self.providers[self.provider]) {
                self.phase = PassPhase::Resolving;
                return PassAction::ResolveAccounts { provider: self.provider, family };
            }
            self.provider = self.provider + 1;
        }
        self.phase = PassPhase::Over;
        PassAction::Finish
    }

    /// The family of the current provider.
    fn family(&self) -> (family: Family)
        requires
            0 <= self@.provider < self@.providers.len(),
            family_of(self@.providers[self@.provider]) is Some,
        ensures
            family_of(self@.providers[self@.provider]) == Some(family),
    {
        assert(self@.providers[self@.provider] == self.providers@[self.provider as int]@);
        match self.providers[self.provider].auth {
            AuthMode::ClaudeOauth => Family::Claude,
            _ => Family::Codex,
        }
    }

    /// Turns to the next account that has a credential file.
    fn turn_to_account(&mut self) -> (action: PassAction)
        requires
            0 <= old(self)@.provider < old(self)@.providers.len(),
            family_of(old(self)@.providers[old(self)@.provider]) is Some,
            0 <= old(self)@.account <= old(self)@.accounts.len(),
        ensures
            final(self).well_formed(),
            final(self)@ == turn_to_account(old(self)@).0,
            action@ == turn_to_account(old(self)@).1,
    {
        let ghost start = self@;
        while self.account < self.accounts.len()
            invariant
                start == old(self)@,
                0 <= self@.provider < self@.providers.len(),
                family_of(self@.providers[self@.provider]) is Some,
                0 <= self@.account <= self@.accounts.len(),
                turn_to_account(start) == turn_to_account(self@),
            decreases self.accounts@.len() - self.account,
        {
            assert(self@.accounts[self@.account] == self.accounts@[self.account as int]@);
            match credential_source(&self.accounts[self.account].config) {
                CredentialSource::Environment => {
                    self.account = self.account + 1;
                },
                source => {
                    self.phase = PassPhase::Checking;
                    return PassAction::ReadFile {
                        provider: self.provider,
                        account: self.account,
                        family: self.family(),
                        source,
                    };
                },
            }
        }
        assert(self.provider < self.providers.len());
        self.provider = self.provider + 1;
        self.turn_to_provider()
    }

    /// Takes what the driver reports and decides what it is to do next.
    pub fn next(&mut self, event: PassEvent) -> (action: PassAction)
        requires
            old(self).well_formed(),
        ensures
            final(self).well_formed(),
            final(self)@ == pass_next(old(self)@, event@).0,
            action@ == pass_next(old(self)@, event@).1,
    {
        match (self.phase, event) {
            (PassPhase::Ready, PassEvent::Begin) => self.turn_to_provider(),
            (PassPhase::Resolving, PassEvent::AccountsResolved(None)) => {
                assert(self.provider < self.providers.len());
                self.provider = self.provider + 1;
                self.turn_to_provider()
            },
            (PassPhase::Resolving, PassEvent::AccountsResolved(Some(accounts))) => {
                self.accounts = accounts;
                self.account = 0;
                self.phase = PassPhase::Syncing;
                PassAction::SyncAccounts { provider: self.provider }
            },
            (PassPhase::Syncing, PassEvent::AccountsSynced) => self.turn_to_account(),
            (PassPhase::Checking, PassEvent::FileRead(contents)) => {
                let account = &self.accounts[self.account];
                assert(self@.accounts[self@.account] == account@);
                let bytes: Option<&[u8]> = match &contents {
                    Some(bytes) => Some(bytes.as_slice()),
                    None => None,
                };
                let family = self.family();
                let refreshable = match family {
                    Family::Claude => account_is_refreshable(&account.config, bytes),
                    Family::Codex => codex_account_is_refreshable(&account.config, bytes),
                };
                if refreshable && !self.polled.contains(account.key.as_str()) {
                    self.phase = PassPhase::Polling;
                    return PassAction::PollAccount {
                        provider: self.provider,
                        account: self.account,
                        family,
                    };
                }
                assert(self.account < self.accounts.len());
                self.account = self.account + 1;
                self.turn_to_account()
            },
            (PassPhase::Polling, PassEvent::AccountPolled(applied)) => {
                if applied {
                    let key = self.accounts[self.account].key.clone();
                    assert(self@.accounts[self@.account].key == key@);
                    self.polled.insert(key);
                }
                assert(self.account < self.accounts.len());
                self.account = self.account + 1;
                self.turn_to_account()
            },
            _ => {
                self.phase = PassPhase::Over;
                PassAction::Finish
            },
        }
    }
}

} // verus!
