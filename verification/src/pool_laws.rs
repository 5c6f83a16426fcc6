//! What the pool knows after a whole pass.
//!
//! A pass asks for polls, a poll asks for a snapshot to be noted, and a note
//! changes what is known of an account. Here the three are put together: the
//! driver runs a pass, runs the poll of every account that the pass asks for,
//! and notes under the account's key what that poll has it note.

use vstd::prelude::*;

use crate::account_poll::{
    actions_of, law_poll_notes_exactly, noted, AccountPhase, ActionView, EventView, PollView, World,
};
use crate::credentials::{source_of, AccountView, Family, SourceView};
use crate::pass::{
    family_of, on_chatgpt_backend, pass_next, turn_to_account, turn_to_provider, PassActionView,
    PassEventView, PassPhase, PassView, PoolAccountView, ProviderView,
};
use crate::pass_laws::{
    applies_at, effects_from, key_at, law_applied_key_is_not_polled_again, law_pass_advances,
    pass_answer, polls_in, polls_of, providers_left, reports_left, steps_left, Effect, PassWorld,
    Place,
};
use crate::quota::{nothing_known, quota_after, AccountQuota};
use crate::snapshot::UsageSnapshot;

verus! {

/// What a driver would find out over one pass and the polls in it.
pub ghost struct PoolWorld {
    /// The accounts of a provider, if they can be resolved.
    pub accounts: spec_fn(int) -> Option<Seq<PoolAccountView>>,
    /// The contents of the credential file of a provider's account, if it can
    /// be read, when the pass asks for them.
    pub contents: spec_fn(int, int) -> Option<Seq<u8>>,
    /// What the poll of a provider's account would find out.
    pub polls: spec_fn(int, int) -> World,
}

/// What is known of the accounts of a pool, by key.
pub type Quotas = Map<Seq<char>, AccountQuota>;

/// What is known of the account with a key.
pub open spec fn known(quotas: Quotas, key: Seq<char>) -> AccountQuota {
    if quotas.contains_key(key) {
        quotas[key]
    } else {
        nothing_known()
    }
}

/// What is known once a snapshot is noted under a key.
pub open spec fn noted_under(quotas: Quotas, key: Seq<char>, snapshot: UsageSnapshot) -> Quotas {
    quotas.insert(key, quota_after(known(quotas, key), snapshot))
}

/// The poll of an account of a provider, as
/// [`poll_account`](crate::account_poll::poll_account) and
/// [`poll_codex_account_of`](crate::account_poll::poll_codex_account_of) make it.
pub open spec fn poll_for(
    providers: Seq<ProviderView>,
    provider: int,
    family: Family,
    account: AccountView,
) -> PollView {
    PollView {
        family,
        chatgpt_backend: match family {
            Family::Claude => false,
            Family::Codex => on_chatgpt_backend(providers, providers[provider].name),
        },
        account,
        phase: AccountPhase::Ready,
    }
}

/// The snapshot that the last of a poll's actions has noted, if any.
pub open spec fn noted_last(actions: Seq<ActionView>) -> Option<UsageSnapshot> {
    match actions.last() {
        ActionView::NoteUsage(snapshot) => Some(snapshot),
        _ => None,
    }
}

/// What the poll that a pass asks for has noted.
pub open spec fn noted_by_poll(
    pass: PassView,
    world: PoolWorld,
    provider: int,
    account: int,
    family: Family,
) -> Option<UsageSnapshot> {
    noted_last(
        actions_of(
            poll_for(pass.providers, provider, family, pass.accounts[account].config),
            EventView::Begin,
            (world.polls)(provider, account),
        ),
    )
}

/// What a driver reports upon an action, unless the pass is over. Upon a poll it
/// reports whether a snapshot was noted.
pub open spec fn driver_answer(
    pass: PassView,
    action: PassActionView,
    world: PoolWorld,
) -> Option<PassEventView> {
    match action {
        PassActionView::ResolveAccounts { provider, .. } => Some(
            PassEventView::AccountsResolved((world.accounts)(provider)),
        ),
        PassActionView::SyncAccounts { .. } => Some(PassEventView::AccountsSynced),
        PassActionView::ReadFile { provider, account, .. } => Some(
            PassEventView::FileRead((world.contents)(provider, account)),
        ),
        PassActionView::PollAccount { provider, account, family } => Some(
            PassEventView::AccountPolled(
                noted_by_poll(pass, world, provider, account, family) is Some,
            ),
        ),
        PassActionView::Finish => None,
    }
}

/// What is known after an action.
pub open spec fn quotas_after_action(
    pass: PassView,
    action: PassActionView,
    world: PoolWorld,
    quotas: Quotas,
) -> Quotas {
    match action {
        PassActionView::PollAccount { provider, account, family } => match noted_by_poll(
            pass,
            world,
            provider,
            account,
            family,
        ) {
            Some(snapshot) => noted_under(quotas, pass.accounts[account].key, snapshot),
            None => quotas,
        },
        _ => quotas,
    }
}

/// What is known at the end of a pass, from an action on.
pub open spec fn quotas_from(
    pass: PassView,
    action: PassActionView,
    world: PoolWorld,
    quotas: Quotas,
) -> Quotas
    decreases providers_left(pass), steps_left(pass), reports_left(pass),
{
    let after = quotas_after_action(pass, action, world, quotas);
    match driver_answer(pass, action, world) {
        Some(event) => if pass.phase == PassPhase::Over {
            after
        } else {
            proof {
                law_pass_advances(pass, event);
            }
            quotas_from(pass_next(pass, event).0, pass_next(pass, event).1, world, after)
        },
        None => after,
    }
}

/// What is known at the end of a pass that has not begun.
pub open spec fn quotas_after_pass(pass: PassView, world: PoolWorld, quotas: Quotas) -> Quotas {
    let (next, action) = pass_next(pass, PassEventView::Begin);
    quotas_from(next, action, world, quotas)
}

/// What the poll of the account at a place would note, if anything.
pub open spec fn noted_at(
    providers: Seq<ProviderView>,
    world: PoolWorld,
    place: Place,
) -> Option<UsageSnapshot> {
    match (family_of(providers[place.provider]), (world.accounts)(place.provider)) {
        (Some(family), Some(accounts)) => noted(
            poll_for(providers, place.provider, family, accounts[place.account].config),
            (world.polls)(place.provider, place.account),
        ),
        _ => None,
    }
}

/// What the pass itself would find out: a poll applies if and only if it notes
/// a snapshot.
pub open spec fn pass_world(providers: Seq<ProviderView>, world: PoolWorld) -> PassWorld {
    PassWorld {
        accounts: world.accounts,
        contents: world.contents,
        applies: |provider: int, account: int|
            noted_at(providers, world, Place { provider, account }) is Some,
    }
}

/// What is known once some polls have noted their snapshots, in order.
pub open spec fn quotas_after_polls(
    providers: Seq<ProviderView>,
    world: PoolWorld,
    polls: Seq<Place>,
    quotas: Quotas,
) -> Quotas
    decreases polls.len(),
{
    if polls.len() == 0 {
        quotas
    } else {
        let place = polls.first();
        let after = match noted_at(providers, world, place) {
            Some(snapshot) => noted_under(
                quotas,
                key_at(providers, pass_world(providers, world), place),
                snapshot,
            ),
            None => quotas,
        };
        quotas_after_polls(providers, world, polls.drop_first(), after)
    }
}

/// Whether an action is the one that a pass waits for an answer to, about the
/// accounts that were resolved.
spec fn in_step(pass: PassView, action: PassActionView, world: PoolWorld) -> bool {
    match (pass.phase, action) {
        (PassPhase::Over, PassActionView::Finish) => true,
        (PassPhase::Resolving, PassActionView::ResolveAccounts { provider, family }) => {
            &&& provider == pass.provider
            &&& family_of(pass.providers[provider]) == Some(family)
        },
        (PassPhase::Syncing, PassActionView::SyncAccounts { provider }) => {
            &&& provider == pass.provider
            &&& family_of(pass.providers[provider]) is Some
            &&& (world.accounts)(provider) == Some(pass.accounts)
        },
        (PassPhase::Checking, PassActionView::ReadFile { provider, account, family, .. }) => {
            &&& provider == pass.provider
            &&& account == pass.account
            &&& family_of(pass.providers[provider]) == Some(family)
            &&& (world.accounts)(provider) == Some(pass.accounts)
        },
        (PassPhase::Polling, PassActionView::PollAccount { provider, account, family }) => {
            &&& provider == pass.provider
            &&& account == pass.account
            &&& family_of(pass.providers[provider]) == Some(family)
            &&& (world.accounts)(provider) == Some(pass.accounts)
        },
        _ => false,
    }
}

/// Turning to a provider is in step.
proof fn lemma_provider_in_step(pass: PassView, world: PoolWorld)
    ensures
        in_step(turn_to_provider(pass).0, turn_to_provider(pass).1, world),
        turn_to_provider(pass).0.providers == pass.providers,
    decreases pass.providers.len() - pass.provider,
{
    if pass.provider < pass.providers.len() && family_of(pass.providers[pass.provider]) is None {
        lemma_provider_in_step(PassView { provider: pass.provider + 1, ..pass }, world);
    }
}

/// Turning to an account is in step.
proof fn lemma_account_in_step(pass: PassView, world: PoolWorld)
    requires
        family_of(pass.providers[pass.provider]) is Some,
        (world.accounts)(pass.provider) == Some(pass.accounts),
    ensures
        in_step(turn_to_account(pass).0, turn_to_account(pass).1, world),
        turn_to_account(pass).0.providers == pass.providers,
    decreases pass.accounts.len() - pass.account,
{
    if pass.account >= pass.accounts.len() {
        lemma_provider_in_step(PassView { provider: pass.provider + 1, ..pass }, world);
    } else if source_of(pass.accounts[pass.account].config) == SourceView::Environment {
        lemma_account_in_step(PassView { account: pass.account + 1, ..pass }, world);
    }
}

/// A pass that is in step stays so, over the same providers.
proof fn lemma_in_step(pass: PassView, action: PassActionView, world: PoolWorld)
    requires
        in_step(pass, action, world),
        pass.phase != PassPhase::Over,
    ensures
        driver_answer(pass, action, world) matches Some(event) && {
            &&& in_step(pass_next(pass, event).0, pass_next(pass, event).1, world)
            &&& pass_next(pass, event).0.providers == pass.providers
        },
{
    match pass.phase {
        PassPhase::Resolving => {
            lemma_provider_in_step(PassView { provider: pass.provider + 1, ..pass }, world);
        },
        PassPhase::Syncing => {
            lemma_account_in_step(pass, world);
        },
        PassPhase::Checking => {
            lemma_account_in_step(PassView { account: pass.account + 1, ..pass }, world);
        },
        _ => {
            lemma_account_in_step(PassView { account: pass.account + 1, ..pass }, world);
            lemma_account_in_step(
                PassView {
                    account: pass.account + 1,
                    polled: pass.polled.insert(pass.accounts[pass.account].key),
                    ..pass
                },
                world,
            );
        },
    }
}

/// From an action on, what is known changes as the polls say.
proof fn lemma_quotas_from(
    pass: PassView,
    action: PassActionView,
    world: PoolWorld,
    quotas: Quotas,
)
    requires
        in_step(pass, action, world),
    ensures
        quotas_from(pass, action, world, quotas) == quotas_after_polls(
            pass.providers,
            world,
            polls_in(effects_from(pass, action, pass_world(pass.providers, world))),
            quotas,
        ),
    decreases providers_left(pass), steps_left(pass), reports_left(pass),
{
    let seen = pass_world(pass.providers, world);
    if pass.phase != PassPhase::Over {
        if let PassActionView::PollAccount { provider, account, family } = action {
            law_poll_notes_exactly(
                poll_for(pass.providers, provider, family, pass.accounts[account].config),
                (world.polls)(provider, account),
            );
        }
        assert(pass_answer(seen, action) == driver_answer(pass, action, world));
        lemma_in_step(pass, action, world);
        let event = driver_answer(pass, action, world)->0;
        law_pass_advances(pass, event);
        let (next, following) = pass_next(pass, event);
        let rest = effects_from(next, following, seen);
        let after = quotas_after_action(pass, action, world, quotas);
        lemma_quotas_from(next, following, world, after);
        match action {
            PassActionView::PollAccount { provider, account, .. } => {
                let place = Place { provider, account };
                let all = seq![Effect::Poll { place }] + rest;
                assert(effects_from(pass, action, seen) =~= all);
                assert(all.drop_first() =~= rest);
                assert(polls_in(all).drop_first() =~= polls_in(rest));
            },
            PassActionView::SyncAccounts { provider } => {
                let all = seq![Effect::Sync { provider }] + rest;
                assert(effects_from(pass, action, seen) =~= all);
                assert(all.drop_first() =~= rest);
            },
            _ => {
                assert(effects_from(pass, action, seen) =~= rest);
            },
        }
    }
}

/// After a whole pass the pool knows what it knew before, with the snapshot of
/// every poll that noted one, in the order of the polls, noted once under the
/// key of its account. A poll counts as applied if and only if it noted one.
pub proof fn law_pass_notes_exactly(pass: PassView, world: PoolWorld, quotas: Quotas)
    requires
        pass.phase == PassPhase::Ready,
        pass.provider == 0,
    ensures
        quotas_after_pass(pass, world, quotas) == quotas_after_polls(
            pass.providers,
            world,
            polls_of(pass, pass_world(pass.providers, world)),
            quotas,
        ),
{
    lemma_provider_in_step(pass, world);
    let (next, action) = pass_next(pass, PassEventView::Begin);
    lemma_quotas_from(next, action, world, quotas);
}

/// Polls that note nothing under a key leave what is known of it.
proof fn lemma_untouched(
    providers: Seq<ProviderView>,
    world: PoolWorld,
    polls: Seq<Place>,
    quotas: Quotas,
    key: Seq<char>,
)
    requires
        forall|i: int|
            0 <= i < polls.len() && noted_at(providers, world, #[trigger] polls[i]) is Some
                ==> key_at(providers, pass_world(providers, world), polls[i]) != key,
    ensures
        ({
            let after = quotas_after_polls(providers, world, polls, quotas);
            &&& after.contains_key(key) == quotas.contains_key(key)
            &&& known(after, key) == known(quotas, key)
        }),
    decreases polls.len(),
{
    if polls.len() > 0 {
        let place = polls[0];
        let rest = polls.drop_first();
        let after = match noted_at(providers, world, place) {
            Some(snapshot) => noted_under(
                quotas,
                key_at(providers, pass_world(providers, world), place),
                snapshot,
            ),
            None => quotas,
        };
        assert forall|i: int|
            0 <= i < rest.len() && noted_at(providers, world, #[trigger] rest[i]) is Some implies
            key_at(providers, pass_world(providers, world), rest[i]) != key by {
            assert(rest[i] == polls[i + 1]);
        }
        lemma_untouched(providers, world, rest, after, key);
    }
}

/// The one poll that notes something under a key changes what is known of it.
proof fn lemma_noted_once(
    providers: Seq<ProviderView>,
    world: PoolWorld,
    polls: Seq<Place>,
    quotas: Quotas,
    i: int,
)
    requires
        0 <= i < polls.len(),
        noted_at(providers, world, polls[i]) is Some,
        forall|j: int|
            0 <= j < polls.len() && j != i && noted_at(providers, world, #[trigger] polls[j]) is Some
                ==> key_at(providers, pass_world(providers, world), polls[j]) != key_at(
                providers,
                pass_world(providers, world),
                polls[i],
            ),
    ensures
        ({
            let key = key_at(providers, pass_world(providers, world), polls[i]);
            known(quotas_after_polls(providers, world, polls, quotas), key) == quota_after(
                known(quotas, key),
                noted_at(providers, world, polls[i])->0,
            )
        }),
    decreases polls.len(),
{
    let place = polls[0];
    let rest = polls.drop_first();
    let key = key_at(providers, pass_world(providers, world), polls[i]);
    let after = match noted_at(providers, world, place) {
        Some(snapshot) => noted_under(
            quotas,
            key_at(providers, pass_world(providers, world), place),
            snapshot,
        ),
        None => quotas,
    };
    assert(forall|j: int| 0 <= j < rest.len() ==> #[trigger] rest[j] == polls[j + 1]);
    if i == 0 {
        lemma_untouched(providers, world, rest, after, key);
    } else {
        lemma_noted_once(providers, world, rest, after, i - 1);
    }
}

/// A pass changes what is known of an account at most once: by the snapshot of
/// the one poll under its key that noted one. Without such a poll it is left as
/// it was.
pub proof fn law_pass_notes_an_account_once(
    pass: PassView,
    world: PoolWorld,
    quotas: Quotas,
    key: Seq<char>,
)
    requires
        pass.phase == PassPhase::Ready,
        pass.provider == 0,
    ensures
        ({
            let seen = pass_world(pass.providers, world);
            let polls = polls_of(pass, seen);
            let after = quotas_after_pass(pass, world, quotas);
            &&& forall|i: int|
                0 <= i < polls.len() && key_at(pass.providers, seen, #[trigger] polls[i]) == key
                    && noted_at(pass.providers, world, polls[i]) is Some ==> known(after, key)
                    == quota_after(
                    known(quotas, key),
                    noted_at(pass.providers, world, polls[i])->0,
                )
            &&& (forall|i: int|
                0 <= i < polls.len() && key_at(pass.providers, seen, #[trigger] polls[i]) == key
                    ==> noted_at(pass.providers, world, polls[i]) is None) ==> {
                &&& after.contains_key(key) == quotas.contains_key(key)
                &&& known(after, key) == known(quotas, key)
            }
        }),
{
    let seen = pass_world(pass.providers, world);
    let polls = polls_of(pass, seen);
    law_pass_notes_exactly(pass, world, quotas);
    assert forall|i: int|
        0 <= i < polls.len() && key_at(pass.providers, seen, #[trigger] polls[i]) == key && noted_at(
            pass.providers,
            world,
            polls[i],
        ) is Some implies known(quotas_after_pass(pass, world, quotas), key) == quota_after(
        known(quotas, key),
        noted_at(pass.providers, world, polls[i])->0,
    ) by {
        assert forall|j: int|
            0 <= j < polls.len() && j != i && noted_at(
                pass.providers,
                world,
                #[trigger] polls[j],
            ) is Some implies key_at(pass.providers, seen, polls[j]) != key by {
            assert(applies_at(seen, polls[i]));
            assert(applies_at(seen, polls[j]));
            if j < i {
                law_applied_key_is_not_polled_again(pass, seen, j, i);
            } else {
                law_applied_key_is_not_polled_again(pass, seen, i, j);
            }
        }
        lemma_noted_once(pass.providers, world, polls, quotas, i);
    }
    if forall|i: int|
        0 <= i < polls.len() && key_at(pass.providers, seen, #[trigger] polls[i]) == key
            ==> noted_at(pass.providers, world, polls[i]) is None {
        lemma_untouched(pass.providers, world, polls, quotas, key);
    }
}

} // verus!
