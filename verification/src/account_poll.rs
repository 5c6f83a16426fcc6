//! The poll of one account, as a machine that decides and a driver that acts.
//!
//! The driver performs each [`AccountAction`] and hands back the matching
//! [`AccountEvent`]. A poll reads the credential file, resolves the credential,
//! fetches the usage and has the snapshot noted. It stops without effect at the
//! first step that fails.

use vstd::prelude::*;

use crate::credentials::{
    account_is_refreshable, codex_account_is_refreshable, credential_source, is_refreshable,
    source_of, AccountConfig, AccountView, CredentialSource, Family, SourceView,
};
use crate::json::json_of_text;
use crate::pass::{is_chatgpt_backend, on_chatgpt_backend, provider_views, ProviderEntry};
use crate::snapshot::UsageSnapshot;
use crate::usage::{is_success, snapshot_of_response, usage_of};

verus! {

/// A resolved credential.
#[derive(Debug)]
pub enum Credential {
    ClaudeOauth { access_token: String },
    ChatGptOAuth { access_token: String, account_id: String },
    /// Any other kind, which no usage endpoint accepts.
    Other,
}

/// A resolved credential.
pub ghost enum CredentialView {
    ClaudeOauth { access_token: Seq<char> },
    ChatGptOAuth { access_token: Seq<char>, account_id: Seq<char> },
    Other,
}

impl View for Credential {
    type V = CredentialView;

    open spec fn view(&self) -> CredentialView {
        match *self {
            Credential::ClaudeOauth { access_token } => CredentialView::ClaudeOauth {
                access_token: access_token@,
            },
            Credential::ChatGptOAuth { access_token, account_id } => CredentialView::ChatGptOAuth {
                access_token: access_token@,
                account_id: account_id@,
            },
            Credential::Other => CredentialView::Other,
        }
    }
}

/// Why a poll ended without a snapshot.
#[derive(Clone, Copy, Debug, PartialEq, Eq, Structural)]
pub enum SkipReason {
    /// The provider is not on the ChatGPT backend.
    NotChatGptBackend,
    /// The credential is not an imported login.
    NotRefreshable,
    /// The credential could not be resolved.
    CredentialUnresolved,
    /// The credential is of another kind than the endpoint accepts.
    CredentialOfOtherKind,
    /// The usage could not be fetched.
    FetchFailed,
    /// The snapshot reports no window. Noting it would mark the account as
    /// observed, and its other aliases would go unpolled.
    NoWindows,
    /// The driver reported something the poll was not waiting for.
    OutOfTurn,
}

/// What the driver is to do next.
#[derive(Debug)]
pub enum AccountAction {
    /// Read the credential file.
    ReadFile(CredentialSource),
    /// Resolve a valid credential of the account.
    ResolveCredential,
    /// Fetch the usage of a `claude_oauth` login.
    FetchClaudeUsage { access_token: String },
    /// Fetch the usage of a `chatgpt_oauth` login.
    FetchCodexUsage { access_token: String, account_id: String },
    /// Note the snapshot in the pool. The poll is over, and it applied.
    NoteUsage(UsageSnapshot),
    /// Nothing. The poll is over, and it did not apply.
    Skip(SkipReason),
}

/// What the driver is to do next.
pub ghost enum ActionView {
    ReadFile(SourceView),
    ResolveCredential,
    FetchClaudeUsage { access_token: Seq<char> },
    FetchCodexUsage { access_token: Seq<char>, account_id: Seq<char> },
    NoteUsage(UsageSnapshot),
    Skip(SkipReason),
}

impl View for AccountAction {
    type V = ActionView;

    open spec fn view(&self) -> ActionView {
        match *self {
            AccountAction::ReadFile(source) => ActionView::ReadFile(source@),
            AccountAction::ResolveCredential => ActionView::ResolveCredential,
            AccountAction::FetchClaudeUsage { access_token } => ActionView::FetchClaudeUsage {
                access_token: access_token@,
            },
            AccountAction::FetchCodexUsage { access_token, account_id } =>
                ActionView::FetchCodexUsage { access_token: access_token@, account_id: account_id@ },
            AccountAction::NoteUsage(snapshot) => ActionView::NoteUsage(snapshot),
            AccountAction::Skip(reason) => ActionView::Skip(reason),
        }
    }
}

/// What the driver reports.
#[derive(Debug)]
pub enum AccountEvent {
    /// The poll may begin.
    Begin,
    /// The contents of the credential file, if it could be read.
    FileRead(Option<Vec<u8>>),
    /// The credential, if it could be resolved.
    CredentialResolved(Option<Credential>),
    /// The snapshot, if it could be fetched.
    UsageFetched(Option<UsageSnapshot>),
}

/// What the driver reports.
pub ghost enum EventView {
    Begin,
    FileRead(Option<Seq<u8>>),
    CredentialResolved(Option<CredentialView>),
    UsageFetched(Option<UsageSnapshot>),
}

impl View for AccountEvent {
    type V = EventView;

    open spec fn view(&self) -> EventView {
        match *self {
            AccountEvent::Begin => EventView::Begin,
            AccountEvent::FileRead(contents) => EventView::FileRead(
                match contents {
                    Some(bytes) => Some(bytes@),
                    None => None,
                },
            ),
            AccountEvent::CredentialResolved(credential) => EventView::CredentialResolved(
                match credential {
                    Some(c) => Some(c@),
                    None => None,
                },
            ),
            AccountEvent::UsageFetched(snapshot) => EventView::UsageFetched(snapshot),
        }
    }
}

/// What a poll is waiting for.
#[derive(Clone, Copy, Debug, PartialEq, Eq, Structural)]
pub enum AccountPhase {
    Ready,
    Reading,
    Resolving,
    Fetching,
    Over,
}

/// The poll of one account.
#[derive(Debug)]
pub struct AccountPoll {
    family: Family,
    chatgpt_backend: bool,
    account: AccountConfig,
    phase: AccountPhase,
}

/// The state of a poll.
pub ghost struct PollView {
    pub family: Family,
    /// Whether the account's provider is on the ChatGPT backend.
    pub chatgpt_backend: bool,
    pub account: AccountView,
    pub phase: AccountPhase,
}

impl View for AccountPoll {
    type V = PollView;

    closed spec fn view(&self) -> PollView {
        PollView {
            family: self.family,
            chatgpt_backend: self.chatgpt_backend,
            account: self.account@,
            phase: self.phase,
        }
    }
}

/// Whether a poll may begin at all. A Codex poll goes only to a provider on the
/// ChatGPT backend, so that no ChatGPT login is sent elsewhere.
pub open spec fn admitted(family: Family, chatgpt_backend: bool) -> bool {
    family == Family::Codex ==> chatgpt_backend
}

/// The request that a credential allows, if it is of the family's kind.
pub open spec fn fetch_of(family: Family, credential: CredentialView) -> Option<ActionView> {
    match (family, credential) {
        (Family::Claude, CredentialView::ClaudeOauth { access_token }) => Some(
            ActionView::FetchClaudeUsage { access_token },
        ),
        (Family::Codex, CredentialView::ChatGptOAuth { access_token, account_id }) => Some(
            ActionView::FetchCodexUsage { access_token, account_id },
        ),
        _ => None,
    }
}

/// The next phase and action of a poll upon an event.
pub open spec fn poll_next(poll: PollView, event: EventView) -> (AccountPhase, ActionView) {
    match (poll.phase, event) {
        (AccountPhase::Ready, EventView::Begin) => {
            if !admitted(poll.family, poll.chatgpt_backend) {
                (AccountPhase::Over, ActionView::Skip(SkipReason::NotChatGptBackend))
            } else if poll.account.token_env is Some {
                (AccountPhase::Over, ActionView::Skip(SkipReason::NotRefreshable))
            } else {
                (AccountPhase::Reading, ActionView::ReadFile(source_of(poll.account)))
            }
        },
        (AccountPhase::Reading, EventView::FileRead(contents)) => {
            if is_refreshable(poll.family, poll.account, contents) {
                (AccountPhase::Resolving, ActionView::ResolveCredential)
            } else {
                (AccountPhase::Over, ActionView::Skip(SkipReason::NotRefreshable))
            }
        },
        (AccountPhase::Resolving, EventView::CredentialResolved(None)) => {
            (AccountPhase::Over, ActionView::Skip(SkipReason::CredentialUnresolved))
        },
        (AccountPhase::Resolving, EventView::CredentialResolved(Some(credential))) => {
            match fetch_of(poll.family, credential) {
                Some(fetch) => (AccountPhase::Fetching, fetch),
                None => (
                    AccountPhase::Over,
                    ActionView::Skip(SkipReason::CredentialOfOtherKind),
                ),
            }
        },
        (AccountPhase::Fetching, EventView::UsageFetched(None)) => {
            (AccountPhase::Over, ActionView::Skip(SkipReason::FetchFailed))
        },
        (AccountPhase::Fetching, EventView::UsageFetched(Some(snapshot))) => {
            if snapshot.empty() {
                (AccountPhase::Over, ActionView::Skip(SkipReason::NoWindows))
            } else {
                (AccountPhase::Over, ActionView::NoteUsage(snapshot))
            }
        },
        _ => (AccountPhase::Over, ActionView::Skip(SkipReason::OutOfTurn)),
    }
}

/// The poll of an account of a `claude_oauth` provider.
pub fn poll_account(account: AccountConfig) -> (poll: AccountPoll)
    ensures
        poll@ == (PollView {
            family: Family::Claude,
            chatgpt_backend: false,
            account: account@,
            phase: AccountPhase::Ready,
        }),
{
    AccountPoll {
        family: Family::Claude,
        chatgpt_backend: false,
        account,
        phase: AccountPhase::Ready,
    }
}

/// The poll of an account of a `chatgpt_oauth` provider, which is or is not
/// on the ChatGPT backend.
pub fn poll_codex_account(account: AccountConfig, chatgpt_backend: bool) -> (poll: AccountPoll)
    ensures
        poll@ == (PollView {
            family: Family::Codex,
            chatgpt_backend,
            account: account@,
            phase: AccountPhase::Ready,
        }),
{
    AccountPoll { family: Family::Codex, chatgpt_backend, account, phase: AccountPhase::Ready }
}

/// The poll of an account of the `chatgpt_oauth` provider of this name. It looks
/// the provider up for itself, whatever the caller has already checked.
pub fn poll_codex_account_of(
    account: AccountConfig,
    providers: &Vec<ProviderEntry>,
    provider: &str,
) -> (poll: AccountPoll)
    ensures
        poll@ == (PollView {
            family: Family::Codex,
            chatgpt_backend: on_chatgpt_backend(provider_views(providers@), provider@),
            account: account@,
            phase: AccountPhase::Ready,
        }),
{
    poll_codex_account(account, is_chatgpt_backend(providers, provider))
}

impl AccountPoll {
    /// Takes what the driver reports and decides what it is to do next.
    pub fn next(&mut self, event: AccountEvent) -> (action: AccountAction)
        ensures
            final(self)@ == (PollView { phase: poll_next(old(self)@, event@).0, ..old(self)@ }),
            action@ == poll_next(old(self)@, event@).1,
    {
        match (self.phase, event) {
            (AccountPhase::Ready, AccountEvent::Begin) => {
                let gated = match self.family {
                    Family::Codex => !self.chatgpt_backend,
                    Family::Claude => false,
                };
                if gated {
                    return self.skip(SkipReason::NotChatGptBackend);
                }
                match credential_source(&self.account) {
                    CredentialSource::Environment => self.skip(SkipReason::NotRefreshable),
                    source => {
                        self.phase = AccountPhase::Reading;
                        AccountAction::ReadFile(source)
                    },
                }
            },
            (AccountPhase::Reading, AccountEvent::FileRead(contents)) => {
                let bytes: Option<&[u8]> = match &contents {
                    Some(bytes) => Some(bytes.as_slice()),
                    None => None,
                };
                let refreshable = match self.family {
                    Family::Claude => account_is_refreshable(&self.account, bytes),
                    Family::Codex => codex_account_is_refreshable(&self.account, bytes),
                };
                if !refreshable {
                    return self.skip(SkipReason::NotRefreshable);
                }
                self.phase = AccountPhase::Resolving;
                AccountAction::ResolveCredential
            },
            (AccountPhase::Resolving, AccountEvent::CredentialResolved(credential)) => {
                match (self.family, credential) {
                    (_, None) => self.skip(SkipReason::CredentialUnresolved),
                    (Family::Claude, Some(Credential::ClaudeOauth { access_token })) => {
                        self.phase = AccountPhase::Fetching;
                        AccountAction::FetchClaudeUsage { access_token }
                    },
                    (Family::Codex, Some(Credential::ChatGptOAuth { access_token, account_id })) => {
                        self.phase = AccountPhase::Fetching;
                        AccountAction::FetchCodexUsage { access_token, account_id }
                    },
                    _ => self.skip(SkipReason::CredentialOfOtherKind),
                }
            },
            (AccountPhase::Fetching, AccountEvent::UsageFetched(fetched)) => {
                match fetched {
                    Some(snapshot) => {
                        if snapshot.is_empty() {
                            return self.skip(SkipReason::NoWindows);
                        }
                        self.phase = AccountPhase::Over;
                        AccountAction::NoteUsage(snapshot)
                    },
                    None => self.skip(SkipReason::FetchFailed),
                }
            },
            _ => self.skip(SkipReason::OutOfTurn),
        }
    }

    /// Ends the poll without effect.
    fn skip(&mut self, reason: SkipReason) -> (action: AccountAction)
        ensures
            final(self)@ == (PollView { phase: AccountPhase::Over, ..old(self)@ }),
            action@ == ActionView::Skip(reason),
    {
        self.phase = AccountPhase::Over;
        AccountAction::Skip(reason)
    }
}

/// What a driver would find out over one poll.
pub ghost struct World {
    pub contents: Option<Seq<u8>>,
    pub credential: Option<CredentialView>,
    pub fetched: Option<UsageSnapshot>,
}

/// What a driver reports upon an action, unless the poll is over.
pub open spec fn answer(world: World, action: ActionView) -> Option<EventView> {
    match action {
        ActionView::ReadFile(_) => Some(EventView::FileRead(world.contents)),
        ActionView::ResolveCredential => Some(EventView::CredentialResolved(world.credential)),
        ActionView::FetchClaudeUsage { .. } => Some(EventView::UsageFetched(world.fetched)),
        ActionView::FetchCodexUsage { .. } => Some(EventView::UsageFetched(world.fetched)),
        ActionView::NoteUsage(_) => None,
        ActionView::Skip(_) => None,
    }
}

/// How many more reports a phase can take.
pub open spec fn reports_left(phase: AccountPhase) -> nat {
    match phase {
        AccountPhase::Ready => 4,
        AccountPhase::Reading => 3,
        AccountPhase::Resolving => 2,
        AccountPhase::Fetching => 1,
        AccountPhase::Over => 0,
    }
}

/// All the actions of a poll from an event on.
pub open spec fn actions_of(poll: PollView, event: EventView, world: World) -> Seq<ActionView>
    decreases reports_left(poll.phase),
{
    let (phase, action) = poll_next(poll, event);
    match answer(world, action) {
        Some(next) => seq![action] + actions_of(PollView { phase, ..poll }, next, world),
        None => seq![action],
    }
}

/// What a whole poll notes: the fetched snapshot, if the poll is admitted, the
/// account refreshable, the credential of the family's kind, and the snapshot
/// not empty.
pub open spec fn noted(poll: PollView, world: World) -> Option<UsageSnapshot> {
    match (world.credential, world.fetched) {
        (Some(credential), Some(snapshot)) => if admitted(poll.family, poll.chatgpt_backend)
            && is_refreshable(poll.family, poll.account, world.contents) && fetch_of(
            poll.family,
            credential,
        ) is Some && !snapshot.empty() {
            Some(snapshot)
        } else {
            None
        },
        _ => None,
    }
}

/// A poll ends by noting exactly that snapshot, or by skipping; it notes nothing
/// before its end.
pub proof fn law_poll_notes_exactly(poll: PollView, world: World)
    requires
        poll.phase == AccountPhase::Ready,
    ensures
        ({
            let actions = actions_of(poll, EventView::Begin, world);
            &&& match noted(poll, world) {
                Some(snapshot) => actions.last() == ActionView::NoteUsage(snapshot),
                None => actions.last() is Skip,
            }
            &&& forall|i: int|
                0 <= i < actions.len() - 1 ==> !((#[trigger] actions[i]) is NoteUsage)
        }),
{
    reveal_with_fuel(actions_of, 5);
}

/// The poll that notes a snapshot reads the file, resolves the credential and
/// fetches with it, in this order and once each.
pub proof fn law_noting_poll_takes_every_step(poll: PollView, world: World)
    requires
        poll.phase == AccountPhase::Ready,
        noted(poll, world) is Some,
    ensures
        actions_of(poll, EventView::Begin, world) =~= seq![
            ActionView::ReadFile(source_of(poll.account)),
            ActionView::ResolveCredential,
            fetch_of(poll.family, world.credential->0)->0,
            ActionView::NoteUsage(world.fetched->0),
        ],
{
    reveal_with_fuel(actions_of, 5);
}

/// A Codex poll for a provider off the ChatGPT backend does nothing at all.
pub proof fn law_gated_poll_does_nothing(poll: PollView, world: World)
    requires
        poll.phase == AccountPhase::Ready,
        poll.family == Family::Codex,
        !poll.chatgpt_backend,
    ensures
        actions_of(poll, EventView::Begin, world) =~= seq![
            ActionView::Skip(SkipReason::NotChatGptBackend),
        ],
{
}

/// For an account that is not refreshable nothing is resolved or fetched.
pub proof fn law_static_account_is_not_fetched(poll: PollView, world: World)
    requires
        poll.phase == AccountPhase::Ready,
        !is_refreshable(poll.family, poll.account, world.contents),
    ensures
        forall|i: int|
            #![trigger actions_of(poll, EventView::Begin, world)[i]]
            0 <= i < actions_of(poll, EventView::Begin, world).len() ==> {
                ||| actions_of(poll, EventView::Begin, world)[i] is ReadFile
                ||| actions_of(poll, EventView::Begin, world)[i] is Skip
            },
{
    reveal_with_fuel(actions_of, 5);
}

/// A snapshot without windows is never noted.
pub proof fn law_empty_snapshot_is_not_noted(poll: PollView, event: EventView)
    ensures
        poll_next(poll, event).1 matches ActionView::NoteUsage(snapshot) ==> !snapshot.empty(),
{
}

/// A refused answer, one that is not JSON, and one that is no usage report leave
/// the pool as it was.
pub proof fn law_unusable_answer_notes_nothing(
    poll: PollView,
    world: World,
    status: u16,
    body: Seq<char>,
)
    requires
        world.fetched == snapshot_of_response(status, body),
        !is_success(status) || (json_of_text(body) matches Ok(document) ==> usage_of(
            document,
        ) is Err),
    ensures
        noted(poll, world) is None,
{
}

/// A poll that is over stays over.
pub proof fn law_over_is_final(poll: PollView, event: EventView)
    requires
        poll.phase == AccountPhase::Over,
    ensures
        poll_next(poll, event) == (AccountPhase::Over, ActionView::Skip(SkipReason::OutOfTurn)),
{
}

/// How a poll begins: a Codex poll off the ChatGPT backend and one with a token
/// from the environment end at once; any other asks for the configured
/// credential file, or for the account store's where none is configured.
pub proof fn law_poll_begins_with_the_credential_file(poll: PollView, path: Seq<char>)
    requires
        poll.phase == AccountPhase::Ready,
    ensures
        ({
            let step = poll_next(poll, EventView::Begin);
            let gated = poll.family == Family::Codex && !poll.chatgpt_backend;
            &&& gated ==> step == (
                AccountPhase::Over,
                ActionView::Skip(SkipReason::NotChatGptBackend),
            )
            &&& !gated && poll.account.token_env is Some ==> step == (
                AccountPhase::Over,
                ActionView::Skip(SkipReason::NotRefreshable),
            )
            &&& !gated && poll.account.token_env is None && poll.account.credentials == Some(path)
                ==> step == (
                AccountPhase::Reading,
                ActionView::ReadFile(SourceView::File(path)),
            )
            &&& !gated && poll.account.token_env is None && poll.account.credentials is None
                ==> step == (
                AccountPhase::Reading,
                ActionView::ReadFile(SourceView::Store(poll.account.name)),
            )
        }),
{
}

/// A credential is resolved exactly if the file shows the account to be
/// refreshable.
pub proof fn law_poll_resolves_refreshable_accounts(poll: PollView, contents: Option<Seq<u8>>)
    requires
        poll.phase == AccountPhase::Reading,
    ensures
        ({
            let step = poll_next(poll, EventView::FileRead(contents));
            &&& is_refreshable(poll.family, poll.account, contents) ==> step == (
                AccountPhase::Resolving,
                ActionView::ResolveCredential,
            )
            &&& !is_refreshable(poll.family, poll.account, contents) ==> step == (
                AccountPhase::Over,
                ActionView::Skip(SkipReason::NotRefreshable),
            )
        }),
{
}

/// With a login of the family's own kind its endpoint is asked, with that
/// login's token and account id; with any other credential, or none, the poll
/// ends.
pub proof fn law_poll_fetches_with_a_login_of_its_family(
    poll: PollView,
    token: Seq<char>,
    account_id: Seq<char>,
)
    requires
        poll.phase == AccountPhase::Resolving,
    ensures
        ({
            let oauth = CredentialView::ClaudeOauth { access_token: token };
            let chatgpt = CredentialView::ChatGptOAuth { access_token: token, account_id };
            let other = (
                AccountPhase::Over,
                ActionView::Skip(SkipReason::CredentialOfOtherKind),
            );
            let with = |credential: Option<CredentialView>|
                poll_next(poll, EventView::CredentialResolved(credential));
            &&& with(None) == (
                AccountPhase::Over,
                ActionView::Skip(SkipReason::CredentialUnresolved),
            )
            &&& with(Some(CredentialView::Other)) == other
            &&& poll.family == Family::Claude ==> with(Some(oauth)) == (
                AccountPhase::Fetching,
                ActionView::FetchClaudeUsage { access_token: token },
            ) && with(Some(chatgpt)) == other
            &&& poll.family == Family::Codex ==> with(Some(chatgpt)) == (
                AccountPhase::Fetching,
                ActionView::FetchCodexUsage { access_token: token, account_id },
            ) && with(Some(oauth)) == other
        }),
{
}

/// A fetched snapshot with any window in it is noted as it is, and nothing else
/// is.
pub proof fn law_poll_notes_what_was_fetched(poll: PollView, snapshot: UsageSnapshot)
    requires
        poll.phase == AccountPhase::Fetching,
    ensures
        ({
            let some = snapshot.five_hour is Some || snapshot.seven_day is Some
                || snapshot.seven_day_oi is Some;
            let step = poll_next(poll, EventView::UsageFetched(Some(snapshot)));
            &&& some ==> step == (AccountPhase::Over, ActionView::NoteUsage(snapshot))
            &&& !some ==> step == (AccountPhase::Over, ActionView::Skip(SkipReason::NoWindows))
            &&& poll_next(poll, EventView::UsageFetched(None)) == (
                AccountPhase::Over,
                ActionView::Skip(SkipReason::FetchFailed),
            )
        }),
{
}

/// A report that a poll is not waiting for ends it.
pub proof fn law_poll_out_of_turn_ends(poll: PollView, event: EventView)
    requires
        event is Begin ==> poll.phase != AccountPhase::Ready,
        event is FileRead ==> poll.phase != AccountPhase::Reading,
        event is CredentialResolved ==> poll.phase != AccountPhase::Resolving,
        event is UsageFetched ==> poll.phase != AccountPhase::Fetching,
    ensures
        poll_next(poll, event) == (AccountPhase::Over, ActionView::Skip(SkipReason::OutOfTurn)),
{
}

/// A whole poll notes a snapshot exactly if that snapshot was fetched and
/// reports a window, the provider may be asked, the account is refreshable, and
/// the credential is a login of the family's own kind.
pub proof fn law_what_a_poll_notes(poll: PollView, world: World, snapshot: UsageSnapshot)
    ensures
        noted(poll, world) == Some(snapshot) <==> {
            &&& world.fetched == Some(snapshot)
            &&& snapshot.five_hour is Some || snapshot.seven_day is Some
                || snapshot.seven_day_oi is Some
            &&& poll.family == Family::Claude || poll.chatgpt_backend
            &&& is_refreshable(poll.family, poll.account, world.contents)
            &&& match poll.family {
                Family::Claude => world.credential matches Some(
                    CredentialView::ClaudeOauth { .. },
                ),
                Family::Codex => world.credential matches Some(
                    CredentialView::ChatGptOAuth { .. },
                ),
            }
        },
{
}

/// A credential, an action and an event stand for what they hold.
pub proof fn law_steps_stand_for_themselves(
    credential: Credential,
    action: AccountAction,
    event: AccountEvent,
)
    ensures
        match credential {
            Credential::ClaudeOauth { access_token } => credential@
                == (CredentialView::ClaudeOauth { access_token: access_token@ }),
            Credential::ChatGptOAuth { access_token, account_id } => credential@
                == (CredentialView::ChatGptOAuth {
                access_token: access_token@,
                account_id: account_id@,
            }),
            Credential::Other => credential@ == CredentialView::Other,
        },
        match action {
            AccountAction::ReadFile(source) => action@ == ActionView::ReadFile(source@),
            AccountAction::ResolveCredential => action@ == ActionView::ResolveCredential,
            AccountAction::FetchClaudeUsage { access_token } => action@
                == (ActionView::FetchClaudeUsage { access_token: access_token@ }),
            AccountAction::FetchCodexUsage { access_token, account_id } => action@
                == (ActionView::FetchCodexUsage {
                access_token: access_token@,
                account_id: account_id@,
            }),
            AccountAction::NoteUsage(snapshot) => action@ == ActionView::NoteUsage(snapshot),
            AccountAction::Skip(reason) => action@ == ActionView::Skip(reason),
        },
        match event {
            AccountEvent::Begin => event@ == EventView::Begin,
            AccountEvent::FileRead(None) => event@ == EventView::FileRead(None),
            AccountEvent::FileRead(Some(bytes)) => event@ == EventView::FileRead(Some(bytes@)),
            AccountEvent::CredentialResolved(None) => event@ == EventView::CredentialResolved(None),
            AccountEvent::CredentialResolved(Some(c)) => event@ == EventView::CredentialResolved(
                Some(c@),
            ),
            AccountEvent::UsageFetched(fetched) => event@ == EventView::UsageFetched(fetched),
        },
{
}

} // verus!
