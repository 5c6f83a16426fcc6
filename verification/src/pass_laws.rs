//! What a whole pass does to the pool.
//!
//! A run of [`crate::pass::PollPass`] against any driver syncs the accounts of
//! every provider that it considers, and polls exactly the accounts that
//! [`chosen`] picks from all accounts in order. The laws say what that amounts
//! to.

use vstd::prelude::*;

use crate::account_poll::admitted;
use crate::credentials::{is_refreshable, source_of, Family, SourceView};
use crate::pass::{
    family_of, in_place, on_chatgpt_backend, pass_next, provider_views, turn_to_account,
    turn_to_provider, AuthMode, PassAction, PassActionView, PassEvent, PassEventView, PassPhase,
    PassView, PoolAccount, PoolAccountView, ProviderEntry, ProviderView,
};

verus! {

/// What a driver would find out over one pass.
pub ghost struct PassWorld {
    /// The accounts of a provider, if they can be resolved.
    pub accounts: spec_fn(int) -> Option<Seq<PoolAccountView>>,
    /// The contents of the credential file of a provider's account, if it can
    /// be read.
    pub contents: spec_fn(int, int) -> Option<Seq<u8>>,
    /// Whether a poll of a provider's account would apply.
    pub applies: spec_fn(int, int) -> bool,
}

/// What a driver reports upon an action, unless the pass is over.
pub open spec fn pass_answer(world: PassWorld, action: PassActionView) -> Option<PassEventView> {
    match action {
        PassActionView::ResolveAccounts { provider, .. } => Some(
            PassEventView::AccountsResolved((world.accounts)(provider)),
        ),
        PassActionView::SyncAccounts { .. } => Some(PassEventView::AccountsSynced),
        PassActionView::ReadFile { provider, account, .. } => Some(
            PassEventView::FileRead((world.contents)(provider, account)),
        ),
        PassActionView::PollAccount { provider, account, .. } => Some(
            PassEventView::AccountPolled((world.applies)(provider, account)),
        ),
        PassActionView::Finish => None,
    }
}

/// The providers that a pass has still to finish with; none once it is over.
pub open spec fn providers_left(pass: PassView) -> nat {
    if pass.phase == PassPhase::Over {
        0
    } else if pass.provider < pass.providers.len() {
        (pass.providers.len() - pass.provider + 1) as nat
    } else {
        1
    }
}

/// The steps that a provider has still to take before its accounts.
pub open spec fn steps_left(pass: PassView) -> nat {
    match pass.phase {
        PassPhase::Ready => 3,
        PassPhase::Resolving => 2,
        PassPhase::Syncing => 1,
        _ => 0,
    }
}

/// The reports that the accounts of a provider can still take.
pub open spec fn reports_left(pass: PassView) -> nat {
    let accounts = if pass.account < pass.accounts.len() {
        (pass.accounts.len() - pass.account) as nat
    } else {
        0
    };
    if pass.phase == PassPhase::Checking {
        2 * accounts + 1
    } else {
        2 * accounts
    }
}

/// Where turning to a provider ends.
proof fn lemma_turn_to_provider(pass: PassView)
    ensures
        !(turn_to_provider(pass).1 is PollAccount),
        ({
            let next = turn_to_provider(pass).0;
            ||| next.phase == PassPhase::Over
            ||| {
                &&& next.phase == PassPhase::Resolving
                &&& pass.provider <= next.provider < pass.providers.len()
                &&& next.providers == pass.providers
            }
        }),
    decreases pass.providers.len() - pass.provider,
{
    if pass.provider < pass.providers.len() && family_of(pass.providers[pass.provider]) is None {
        lemma_turn_to_provider(PassView { provider: pass.provider + 1, ..pass });
    }
}

/// Where turning to an account ends.
proof fn lemma_turn_to_account(pass: PassView)
    ensures
        !(turn_to_account(pass).1 is PollAccount),
        ({
            let next = turn_to_account(pass).0;
            ||| next.phase == PassPhase::Over
            ||| {
                &&& next.phase == PassPhase::Resolving
                &&& pass.provider < next.provider < pass.providers.len()
                &&& next.providers == pass.providers
            }
            ||| {
                &&& next.phase == PassPhase::Checking
                &&& next.provider == pass.provider
                &&& next.providers == pass.providers
                &&& next.accounts == pass.accounts
                &&& pass.account <= next.account < pass.accounts.len()
            }
        }),
    decreases pass.accounts.len() - pass.account,
{
    if pass.account >= pass.accounts.len() {
        lemma_turn_to_provider(PassView { provider: pass.provider + 1, ..pass });
    } else if source_of(pass.accounts[pass.account].config) == SourceView::Environment {
        lemma_turn_to_account(PassView { account: pass.account + 1, ..pass });
    }
}

/// Every report brings a pass nearer to its end, whatever the driver reports.
pub proof fn law_pass_advances(pass: PassView, event: PassEventView)
    requires
        pass.phase != PassPhase::Over,
    ensures
        ({
            let next = pass_next(pass, event).0;
            ||| providers_left(next) < providers_left(pass)
            ||| providers_left(next) == providers_left(pass) && steps_left(next) < steps_left(pass)
            ||| {
                &&& providers_left(next) == providers_left(pass)
                &&& steps_left(next) == steps_left(pass)
                &&& reports_left(next) < reports_left(pass)
            }
        }),
{
    let onward = PassView { provider: pass.provider + 1, ..pass };
    lemma_turn_to_provider(pass);
    lemma_turn_to_provider(onward);
    lemma_turn_to_account(pass);
    lemma_turn_to_account(PassView { account: pass.account + 1, ..pass });
    lemma_turn_to_account(
        PassView {
            account: pass.account + 1,
            polled: pass.polled.insert(pass.accounts[pass.account].key),
            ..pass
        },
    );
}

/// A place in the configuration: a provider and one of its accounts.
pub ghost struct Place {
    pub provider: int,
    pub account: int,
}

/// What a pass does to the pool.
pub ghost enum Effect {
    /// The enabled accounts of a provider are made known.
    Sync { provider: int },
    /// The account at a place is polled.
    Poll { place: Place },
}

/// What a pass does to the pool from an action on, in order.
pub open spec fn effects_from(pass: PassView, action: PassActionView, world: PassWorld) -> Seq<
    Effect,
>
    decreases providers_left(pass), steps_left(pass), reports_left(pass),
{
    let here = match action {
        PassActionView::SyncAccounts { provider } => seq![Effect::Sync { provider }],
        PassActionView::PollAccount { provider, account, .. } => seq![
            Effect::Poll { place: Place { provider, account } },
        ],
        _ => Seq::empty(),
    };
    match pass_answer(world, action) {
        Some(event) => if pass.phase == PassPhase::Over {
            here
        } else {
            proof {
                law_pass_advances(pass, event);
            }
            here + effects_from(pass_next(pass, event).0, pass_next(pass, event).1, world)
        },
        None => here,
    }
}

/// What a pass that has not begun does to the pool, in order.
pub open spec fn effects_of(pass: PassView, world: PassWorld) -> Seq<Effect> {
    let (next, action) = pass_next(pass, PassEventView::Begin);
    effects_from(next, action, world)
}

/// The polls among some effects, in order.
pub open spec fn polls_in(effects: Seq<Effect>) -> Seq<Place>
    decreases effects.len(),
{
    if effects.len() == 0 {
        Seq::empty()
    } else {
        match effects.first() {
            Effect::Poll { place } => seq![place] + polls_in(effects.drop_first()),
            Effect::Sync { .. } => polls_in(effects.drop_first()),
        }
    }
}

/// All the polls of a pass that has not begun, in order.
pub open spec fn polls_of(pass: PassView, world: PassWorld) -> Seq<Place> {
    polls_in(effects_of(pass, world))
}

/// Whether a pass considers a provider: it has accounts to poll, and they can
/// be resolved.
pub open spec fn is_considered(
    providers: Seq<ProviderView>,
    world: PassWorld,
    provider: int,
) -> bool {
    family_of(providers[provider]) is Some && (world.accounts)(provider) is Some
}

/// The accounts that a pass considers of a provider.
pub open spec fn accounts_of(
    providers: Seq<ProviderView>,
    world: PassWorld,
    provider: int,
) -> Seq<PoolAccountView> {
    match (family_of(providers[provider]), (world.accounts)(provider)) {
        (Some(_), Some(accounts)) => accounts,
        _ => Seq::empty(),
    }
}

/// All places that a pass considers from one on, in order.
pub open spec fn places_from(
    providers: Seq<ProviderView>,
    world: PassWorld,
    provider: int,
    account: int,
) -> Seq<Place>
    decreases
            providers.len() - provider,
            accounts_of(providers, world, provider).len() - account,
{
    if provider >= providers.len() {
        Seq::empty()
    } else if account >= accounts_of(providers, world, provider).len() {
        places_from(providers, world, provider + 1, 0)
    } else {
        seq![Place { provider, account }] + places_from(providers, world, provider, account + 1)
    }
}

/// Whether the account at a place is refreshable.
pub open spec fn refreshable_at(
    providers: Seq<ProviderView>,
    world: PassWorld,
    place: Place,
) -> bool {
    family_of(providers[place.provider]) matches Some(family) && is_refreshable(
        family,
        accounts_of(providers, world, place.provider)[place.account].config,
        (world.contents)(place.provider, place.account),
    )
}

/// The key of the account at a place.
pub open spec fn key_at(
    providers: Seq<ProviderView>,
    world: PassWorld,
    place: Place,
) -> Seq<char> {
    accounts_of(providers, world, place.provider)[place.account].key
}

/// Whether a poll of the account at a place would apply.
pub open spec fn applies_at(world: PassWorld, place: Place) -> bool {
    (world.applies)(place.provider, place.account)
}

/// Of some places, those that are polled when polls have applied under the
/// given keys before: the refreshable ones whose key is still open.
pub open spec fn chosen(
    providers: Seq<ProviderView>,
    world: PassWorld,
    places: Seq<Place>,
    polled: Set<Seq<char>>,
) -> Seq<Place>
    decreases places.len(),
{
    if places.len() == 0 {
        Seq::empty()
    } else {
        let place = places.first();
        let key = key_at(providers, world, place);
        if refreshable_at(providers, world, place) && !polled.contains(key) {
            let after = if applies_at(world, place) {
                polled.insert(key)
            } else {
                polled
            };
            seq![place] + chosen(providers, world, places.drop_first(), after)
        } else {
            chosen(providers, world, places.drop_first(), polled)
        }
    }
}

/// What is done from a provider on, when polls have applied under the given
/// keys before.
spec fn provider_effects(
    providers: Seq<ProviderView>,
    world: PassWorld,
    provider: int,
    polled: Set<Seq<char>>,
) -> Seq<Effect>
    decreases providers.len() - provider, 1nat, 0int,
{
    if provider >= providers.len() {
        Seq::empty()
    } else if is_considered(providers, world, provider) {
        seq![Effect::Sync { provider }] + account_effects(providers, world, provider, 0, polled)
    } else {
        provider_effects(providers, world, provider + 1, polled)
    }
}

/// What is done from an account of a provider on, when polls have applied under
/// the given keys before.
spec fn account_effects(
    providers: Seq<ProviderView>,
    world: PassWorld,
    provider: int,
    account: int,
    polled: Set<Seq<char>>,
) -> Seq<Effect>
    decreases
            providers.len() - provider,
            0nat,
            accounts_of(providers, world, provider).len() - account,
{
    if provider >= providers.len() {
        Seq::empty()
    } else if account >= accounts_of(providers, world, provider).len() {
        provider_effects(providers, world, provider + 1, polled)
    } else {
        let place = Place { provider, account };
        let key = key_at(providers, world, place);
        if refreshable_at(providers, world, place) && !polled.contains(key) {
            let after = if applies_at(world, place) {
                polled.insert(key)
            } else {
                polled
            };
            seq![Effect::Poll { place }] + account_effects(
                providers,
                world,
                provider,
                account + 1,
                after,
            )
        } else {
            account_effects(providers, world, provider, account + 1, polled)
        }
    }
}

/// What a run does from a provider on.
proof fn lemma_effects_of_provider(pass: PassView, world: PassWorld)
    requires
        0 <= pass.provider <= pass.providers.len(),
    ensures
        effects_from(turn_to_provider(pass).0, turn_to_provider(pass).1, world) == provider_effects(
            pass.providers,
            world,
            pass.provider,
            pass.polled,
        ),
    decreases pass.providers.len() - pass.provider, 1nat, 0int,
{
    if pass.provider < pass.providers.len() {
        let onward = PassView { provider: pass.provider + 1, ..pass };
        match family_of(pass.providers[pass.provider]) {
            Some(family) => {
                let resolving = PassView { phase: PassPhase::Resolving, ..pass };
                let action = PassActionView::ResolveAccounts { provider: pass.provider, family };
                assert(turn_to_provider(pass) == (resolving, action));
                let event = PassEventView::AccountsResolved((world.accounts)(pass.provider));
                assert(pass_answer(world, action) == Some(event));
                match (world.accounts)(pass.provider) {
                    Some(accounts) => {
                        let syncing = PassView {
                            accounts,
                            account: 0,
                            phase: PassPhase::Syncing,
                            ..resolving
                        };
                        let sync = PassActionView::SyncAccounts { provider: pass.provider };
                        assert(pass_next(resolving, event) == (syncing, sync));
                        assert(effects_from(resolving, action, world) =~= effects_from(
                            syncing,
                            sync,
                            world,
                        ));
                        let (next, first) = turn_to_account(syncing);
                        assert(pass_next(syncing, PassEventView::AccountsSynced) == (next, first));
                        assert(effects_from(syncing, sync, world) =~= seq![
                            Effect::Sync { provider: pass.provider },
                        ] + effects_from(next, first, world));
                        lemma_effects_of_account(syncing, world);
                    },
                    None => {
                        let past = PassView { provider: pass.provider + 1, ..resolving };
                        let (next, first) = turn_to_provider(past);
                        assert(pass_next(resolving, event) == (next, first));
                        assert(effects_from(resolving, action, world) =~= effects_from(
                            next,
                            first,
                            world,
                        ));
                        lemma_effects_of_provider(past, world);
                    },
                }
            },
            None => {
                lemma_effects_of_provider(onward, world);
            },
        }
    }
}

/// What a run does from an account on.
proof fn lemma_effects_of_account(pass: PassView, world: PassWorld)
    requires
        0 <= pass.provider < pass.providers.len(),
        family_of(pass.providers[pass.provider]) is Some,
        (world.accounts)(pass.provider) == Some(pass.accounts),
        0 <= pass.account <= pass.accounts.len(),
    ensures
        effects_from(turn_to_account(pass).0, turn_to_account(pass).1, world) == account_effects(
            pass.providers,
            world,
            pass.provider,
            pass.account,
            pass.polled,
        ),
    decreases pass.providers.len() - pass.provider, 0nat, pass.accounts.len() - pass.account,
{
    if pass.account >= pass.accounts.len() {
        lemma_effects_of_provider(PassView { provider: pass.provider + 1, ..pass }, world);
    } else {
        let place = Place { provider: pass.provider, account: pass.account };
        let account = pass.accounts[pass.account];
        let family = family_of(pass.providers[pass.provider])->0;
        let contents = (world.contents)(pass.provider, pass.account);
        match source_of(account.config) {
            SourceView::Environment => {
                lemma_effects_of_account(PassView { account: pass.account + 1, ..pass }, world);
            },
            source => {
                let checking = PassView { phase: PassPhase::Checking, ..pass };
                let read = PassActionView::ReadFile {
                    provider: pass.provider,
                    account: pass.account,
                    family,
                    source,
                };
                assert(turn_to_account(pass) == (checking, read));
                let event = PassEventView::FileRead(contents);
                if is_refreshable(family, account.config, contents) && !pass.polled.contains(
                    account.key,
                ) {
                    let polling = PassView { phase: PassPhase::Polling, ..checking };
                    let poll = PassActionView::PollAccount {
                        provider: pass.provider,
                        account: pass.account,
                        family,
                    };
                    assert(pass_next(checking, event) == (polling, poll));
                    assert(effects_from(checking, read, world) =~= effects_from(polling, poll, world));
                    let polled = if applies_at(world, place) {
                        pass.polled.insert(account.key)
                    } else {
                        pass.polled
                    };
                    let past = PassView { account: pass.account + 1, polled, ..polling };
                    let (next, first) = turn_to_account(past);
                    assert(pass_next(
                        polling,
                        PassEventView::AccountPolled(applies_at(world, place)),
                    ) == (next, first));
                    assert(effects_from(polling, poll, world) =~= seq![Effect::Poll { place }]
                        + effects_from(next, first, world));
                    lemma_effects_of_account(past, world);
                } else {
                    let past = PassView { account: pass.account + 1, ..checking };
                    let (next, first) = turn_to_account(past);
                    assert(pass_next(checking, event) == (next, first));
                    assert(effects_from(checking, read, world) =~= effects_from(next, first, world));
                    lemma_effects_of_account(past, world);
                }
            },
        }
    }
}

/// The polls of an effect and those after it.
proof fn lemma_polls_in(effect: Effect, effects: Seq<Effect>)
    ensures
        polls_in(seq![effect] + effects) == match effect {
            Effect::Poll { place } => seq![place] + polls_in(effects),
            Effect::Sync { .. } => polls_in(effects),
        },
{
    assert((seq![effect] + effects).drop_first() =~= effects);
}

/// From a provider on, what is chosen is polled.
proof fn lemma_polls_of_provider(
    providers: Seq<ProviderView>,
    world: PassWorld,
    provider: int,
    polled: Set<Seq<char>>,
)
    ensures
        polls_in(provider_effects(providers, world, provider, polled)) == chosen(
            providers,
            world,
            places_from(providers, world, provider, 0),
            polled,
        ),
    decreases providers.len() - provider, 1nat, 0int,
{
    if provider < providers.len() {
        if is_considered(providers, world, provider) {
            lemma_polls_in(
                Effect::Sync { provider },
                account_effects(providers, world, provider, 0, polled),
            );
            lemma_polls_of_account(providers, world, provider, 0, polled);
        } else {
            lemma_polls_of_provider(providers, world, provider + 1, polled);
        }
    }
}

/// From an account on, what is chosen is polled.
proof fn lemma_polls_of_account(
    providers: Seq<ProviderView>,
    world: PassWorld,
    provider: int,
    account: int,
    polled: Set<Seq<char>>,
)
    ensures
        polls_in(account_effects(providers, world, provider, account, polled)) == chosen(
            providers,
            world,
            places_from(providers, world, provider, account),
            polled,
        ),
    decreases
            providers.len() - provider,
            0nat,
            accounts_of(providers, world, provider).len() - account,
{
    if provider < providers.len() {
        if account >= accounts_of(providers, world, provider).len() {
            lemma_polls_of_provider(providers, world, provider + 1, polled);
        } else {
            let place = Place { provider, account };
            let key = key_at(providers, world, place);
            let places = places_from(providers, world, provider, account);
            assert(places.first() == place);
            assert(places.drop_first() =~= places_from(providers, world, provider, account + 1));
            let after = if refreshable_at(providers, world, place) && !polled.contains(key)
                && applies_at(world, place) {
                polled.insert(key)
            } else {
                polled
            };
            lemma_polls_in(
                Effect::Poll { place },
                account_effects(providers, world, provider, account + 1, after),
            );
            lemma_polls_of_account(providers, world, provider, account + 1, after);
        }
    }
}

/// A whole pass polls exactly the places chosen from all places, in order.
pub proof fn law_pass_polls_the_chosen(pass: PassView, world: PassWorld)
    requires
        pass.phase == PassPhase::Ready,
        pass.provider == 0,
    ensures
        polls_of(pass, world) == chosen(
            pass.providers,
            world,
            places_from(pass.providers, world, 0, 0),
            pass.polled,
        ),
{
    lemma_effects_of_provider(pass, world);
    lemma_polls_of_provider(pass.providers, world, 0, pass.polled);
}

/// What is chosen is refreshable, among the places, and under a key that was
/// open.
proof fn lemma_chosen(
    providers: Seq<ProviderView>,
    world: PassWorld,
    places: Seq<Place>,
    polled: Set<Seq<char>>,
    i: int,
)
    requires
        0 <= i < chosen(providers, world, places, polled).len(),
    ensures
        ({
            let place = chosen(providers, world, places, polled)[i];
            &&& places.contains(place)
            &&& refreshable_at(providers, world, place)
            &&& !polled.contains(key_at(providers, world, place))
        }),
    decreases places.len(),
{
    let place = places.first();
    let key = key_at(providers, world, place);
    let rest = places.drop_first();
    assert(places[0] == place);
    if refreshable_at(providers, world, place) && !polled.contains(key) {
        let after = if applies_at(world, place) {
            polled.insert(key)
        } else {
            polled
        };
        if i > 0 {
            lemma_chosen(providers, world, rest, after, i - 1);
            let k = rest.index_of(chosen(providers, world, rest, after)[i - 1]);
            assert(places[k + 1] == rest[k]);
        }
    } else {
        lemma_chosen(providers, world, rest, polled, i);
        let k = rest.index_of(chosen(providers, world, rest, polled)[i]);
        assert(places[k + 1] == rest[k]);
    }
}

/// After a poll that applied, nothing is chosen under its key.
proof fn lemma_chosen_once(
    providers: Seq<ProviderView>,
    world: PassWorld,
    places: Seq<Place>,
    polled: Set<Seq<char>>,
    i: int,
    j: int,
)
    requires
        0 <= i < j < chosen(providers, world, places, polled).len(),
        applies_at(world, chosen(providers, world, places, polled)[i]),
    ensures
        key_at(providers, world, chosen(providers, world, places, polled)[i]) != key_at(
            providers,
            world,
            chosen(providers, world, places, polled)[j],
        ),
    decreases places.len(),
{
    let place = places.first();
    let key = key_at(providers, world, place);
    let rest = places.drop_first();
    if refreshable_at(providers, world, place) && !polled.contains(key) {
        let after = if applies_at(world, place) {
            polled.insert(key)
        } else {
            polled
        };
        if i == 0 {
            lemma_chosen(providers, world, rest, after, j - 1);
        } else {
            lemma_chosen_once(providers, world, rest, after, i - 1, j - 1);
        }
    } else {
        lemma_chosen_once(providers, world, rest, polled, i, j);
    }
}

/// Whether a place comes before another, by provider and then by account.
pub open spec fn comes_before(one: Place, other: Place) -> bool {
    one.provider < other.provider || one.provider == other.provider && one.account < other.account
}

/// Whether a poll of an alias of the account at a place applied, and the alias
/// comes before that place.
pub open spec fn applied_before(
    providers: Seq<ProviderView>,
    world: PassWorld,
    polls: Seq<Place>,
    place: Place,
) -> bool {
    exists|i: int|
        0 <= i < polls.len() && comes_before(#[trigger] polls[i], place) && key_at(
            providers,
            world,
            polls[i],
        ) == key_at(providers, world, place) && applies_at(world, polls[i])
}

/// Whether some places stand in order.
spec fn in_order(places: Seq<Place>) -> bool {
    forall|i: int, j: int|
        0 <= i < j < places.len() ==> comes_before(#[trigger] places[i], #[trigger] places[j])
}

/// A refreshable place is chosen, or a poll of an earlier alias applied.
proof fn lemma_chosen_covers(
    providers: Seq<ProviderView>,
    world: PassWorld,
    places: Seq<Place>,
    polled: Set<Seq<char>>,
    place: Place,
)
    requires
        in_order(places),
        places.contains(place),
        refreshable_at(providers, world, place),
        !polled.contains(key_at(providers, world, place)),
    ensures
        chosen(providers, world, places, polled).contains(place) || applied_before(
            providers,
            world,
            chosen(providers, world, places, polled),
            place,
        ),
    decreases places.len(),
{
    let first = places.first();
    let key = key_at(providers, world, first);
    let rest = places.drop_first();
    let all = chosen(providers, world, places, polled);
    let k = places.index_of(place);
    assert(places[0] == first);
    if place != first {
        assert(rest[k - 1] == place);
    }
    if refreshable_at(providers, world, first) && !polled.contains(key) {
        let after = if applies_at(world, first) {
            polled.insert(key)
        } else {
            polled
        };
        let tail = chosen(providers, world, rest, after);
        assert(all =~= seq![first] + tail);
        assert(all[0] == first);
        if place != first {
            assert(comes_before(places[0], places[k]));
            if !after.contains(key_at(providers, world, place)) {
                lemma_chosen_covers(providers, world, rest, after, place);
                if tail.contains(place) {
                    let i = tail.index_of(place);
                    assert(all[i + 1] == place);
                } else {
                    let i = choose|i: int|
                        0 <= i < tail.len() && comes_before(#[trigger] tail[i], place) && key_at(
                            providers,
                            world,
                            tail[i],
                        ) == key_at(providers, world, place) && applies_at(world, tail[i]);
                    assert(all[i + 1] == tail[i]);
                }
            }
        }
    } else {
        lemma_chosen_covers(providers, world, rest, polled, place);
    }
}

/// The places from one on are those of the later accounts of its provider and
/// of all accounts of later providers.
proof fn lemma_places(
    providers: Seq<ProviderView>,
    world: PassWorld,
    provider: int,
    account: int,
    place: Place,
)
    requires
        0 <= provider,
        0 <= account,
    ensures
        places_from(providers, world, provider, account).contains(place) <==> {
            &&& provider <= place.provider < providers.len()
            &&& 0 <= place.account < accounts_of(providers, world, place.provider).len()
            &&& place.provider == provider ==> account <= place.account
        },
    decreases
            providers.len() - provider,
            accounts_of(providers, world, provider).len() - account,
{
    if provider < providers.len() {
        if account >= accounts_of(providers, world, provider).len() {
            lemma_places(providers, world, provider + 1, 0, place);
        } else {
            lemma_places(providers, world, provider, account + 1, place);
            let here = Place { provider, account };
            let rest = places_from(providers, world, provider, account + 1);
            let all = places_from(providers, world, provider, account);
            assert(all =~= seq![here] + rest);
            assert(all[0] == here);
            if rest.contains(place) {
                let k = rest.index_of(place);
                assert(all[k + 1] == place);
            }
            if all.contains(place) && place != here {
                let k = all.index_of(place);
                assert(rest[k - 1] == place);
            }
        }
    }
}

/// The places from one on stand in order.
proof fn lemma_places_in_order(
    providers: Seq<ProviderView>,
    world: PassWorld,
    provider: int,
    account: int,
)
    requires
        0 <= provider,
        0 <= account,
    ensures
        in_order(places_from(providers, world, provider, account)),
    decreases
            providers.len() - provider,
            accounts_of(providers, world, provider).len() - account,
{
    if provider < providers.len() {
        if account >= accounts_of(providers, world, provider).len() {
            lemma_places_in_order(providers, world, provider + 1, 0);
        } else {
            lemma_places_in_order(providers, world, provider, account + 1);
            let rest = places_from(providers, world, provider, account + 1);
            let all = places_from(providers, world, provider, account);
            assert(all =~= seq![Place { provider, account }] + rest);
            assert forall|i: int, j: int| 0 <= i < j < all.len() implies comes_before(
                #[trigger] all[i],
                #[trigger] all[j],
            ) by {
                assert(all[j] == rest[j - 1]);
                if i > 0 {
                    assert(all[i] == rest[i - 1]);
                } else {
                    lemma_places(providers, world, provider, account + 1, all[j]);
                }
            }
        }
    }
}

/// A pass considers every account of a `claude_oauth` provider and of a
/// `chatgpt_oauth` provider on the ChatGPT backend, where the accounts could be
/// resolved, and no other.
pub proof fn law_places_considered(providers: Seq<ProviderView>, world: PassWorld, place: Place)
    ensures
        places_from(providers, world, 0, 0).contains(place) <==> {
            &&& 0 <= place.provider < providers.len()
            &&& family_of(providers[place.provider]) is Some
            &&& (world.accounts)(place.provider) matches Some(accounts)
            &&& 0 <= place.account < accounts.len()
        },
{
    lemma_places(providers, world, 0, 0, place);
}

/// A pass polls only refreshable accounts of the providers it considers.
pub proof fn law_only_refreshable_accounts_are_polled(pass: PassView, world: PassWorld, i: int)
    requires
        pass.phase == PassPhase::Ready,
        pass.provider == 0,
        0 <= i < polls_of(pass, world).len(),
    ensures
        places_from(pass.providers, world, 0, 0).contains(polls_of(pass, world)[i]),
        refreshable_at(pass.providers, world, polls_of(pass, world)[i]),
{
    law_pass_polls_the_chosen(pass, world);
    lemma_chosen(
        pass.providers,
        world,
        places_from(pass.providers, world, 0, 0),
        pass.polled,
        i,
    );
}

/// Once a poll has applied, the pass polls no further account of the same key,
/// under whatever provider.
pub proof fn law_applied_key_is_not_polled_again(
    pass: PassView,
    world: PassWorld,
    i: int,
    j: int,
)
    requires
        pass.phase == PassPhase::Ready,
        pass.provider == 0,
        0 <= i < j < polls_of(pass, world).len(),
        applies_at(world, polls_of(pass, world)[i]),
    ensures
        key_at(pass.providers, world, polls_of(pass, world)[i]) != key_at(
            pass.providers,
            world,
            polls_of(pass, world)[j],
        ),
{
    law_pass_polls_the_chosen(pass, world);
    lemma_chosen_once(
        pass.providers,
        world,
        places_from(pass.providers, world, 0, 0),
        pass.polled,
        i,
        j,
    );
}

/// Every refreshable account that a pass considers is polled, unless a poll of
/// an earlier alias applied. An alias that is static, or whose poll fails, or
/// that comes later, does not block it.
pub proof fn law_open_key_is_polled(pass: PassView, world: PassWorld, place: Place)
    requires
        pass.phase == PassPhase::Ready,
        pass.provider == 0,
        pass.polled == Set::<Seq<char>>::empty(),
        places_from(pass.providers, world, 0, 0).contains(place),
        refreshable_at(pass.providers, world, place),
    ensures
        polls_of(pass, world).contains(place) || applied_before(
            pass.providers,
            world,
            polls_of(pass, world),
            place,
        ),
{
    law_pass_polls_the_chosen(pass, world);
    lemma_places_in_order(pass.providers, world, 0, 0);
    lemma_chosen_covers(
        pass.providers,
        world,
        places_from(pass.providers, world, 0, 0),
        pass.polled,
        place,
    );
}

/// Whether a provider is synced at most once, and never after one of its polls.
pub open spec fn synced_first(effects: Seq<Effect>, provider: int) -> bool {
    &&& forall|i: int, j: int|
        0 <= i < j < effects.len() && #[trigger] effects[i] == (Effect::Sync { provider })
            ==> #[trigger] effects[j] != (Effect::Sync { provider })
    &&& forall|i: int, j: int|
        0 <= i < j < effects.len() && (#[trigger] effects[i] matches Effect::Poll { place }
            && place.provider == provider) ==> #[trigger] effects[j] != (Effect::Sync { provider })
}

/// Whether an effect concerns a provider.
spec fn concerns(effect: Effect, provider: int) -> bool {
    match effect {
        Effect::Sync { provider: p } => p == provider,
        Effect::Poll { place } => place.provider == provider,
    }
}

/// What one more effect in front changes: nothing for a provider that it does
/// not concern, or that is not synced after it.
proof fn lemma_synced_first(effect: Effect, effects: Seq<Effect>, provider: int)
    requires
        synced_first(effects, provider),
        concerns(effect, provider) ==> !effects.contains(Effect::Sync { provider }),
    ensures
        synced_first(seq![effect] + effects, provider),
        (seq![effect] + effects).contains(Effect::Sync { provider }) <==> effect == (Effect::Sync {
            provider,
        }) || effects.contains(Effect::Sync { provider }),
{
    let all = seq![effect] + effects;
    let sync = Effect::Sync { provider };
    assert(all[0] == effect);
    assert(forall|i: int| 0 < i < all.len() ==> #[trigger] all[i] == effects[i - 1]);
    if effects.contains(sync) {
        assert(all[effects.index_of(sync) + 1] == sync);
    }
    if all.contains(sync) && effect != sync {
        assert(effects[all.index_of(sync) - 1] == sync);
    }
}

/// The syncs of a provider among what is done from a provider on.
proof fn lemma_syncs_of_provider(
    providers: Seq<ProviderView>,
    world: PassWorld,
    start: int,
    polled: Set<Seq<char>>,
    provider: int,
)
    ensures
        ({
            let effects = provider_effects(providers, world, start, polled);
            &&& synced_first(effects, provider)
            &&& effects.contains(Effect::Sync { provider }) <==> start <= provider < providers.len()
                && is_considered(providers, world, provider)
        }),
    decreases providers.len() - start, 1nat, 0int,
{
    if start < providers.len() {
        if is_considered(providers, world, start) {
            lemma_syncs_of_account(providers, world, start, 0, polled, provider);
            lemma_synced_first(
                Effect::Sync { provider: start },
                account_effects(providers, world, start, 0, polled),
                provider,
            );
        } else {
            lemma_syncs_of_provider(providers, world, start + 1, polled, provider);
        }
    }
}

/// The syncs of a provider among what is done from an account on.
proof fn lemma_syncs_of_account(
    providers: Seq<ProviderView>,
    world: PassWorld,
    start: int,
    account: int,
    polled: Set<Seq<char>>,
    provider: int,
)
    ensures
        ({
            let effects = account_effects(providers, world, start, account, polled);
            &&& synced_first(effects, provider)
            &&& effects.contains(Effect::Sync { provider }) <==> start < provider < providers.len()
                && is_considered(providers, world, provider)
        }),
    decreases
            providers.len() - start,
            0nat,
            accounts_of(providers, world, start).len() - account,
{
    if start < providers.len() {
        if account >= accounts_of(providers, world, start).len() {
            lemma_syncs_of_provider(providers, world, start + 1, polled, provider);
        } else {
            let place = Place { provider: start, account };
            let key = key_at(providers, world, place);
            let after = if refreshable_at(providers, world, place) && !polled.contains(key)
                && applies_at(world, place) {
                polled.insert(key)
            } else {
                polled
            };
            lemma_syncs_of_account(providers, world, start, account + 1, after, provider);
            lemma_synced_first(
                Effect::Poll { place },
                account_effects(providers, world, start, account + 1, after),
                provider,
            );
        }
    }
}

/// A pass syncs a provider if and only if it has accounts to poll and they
/// could be resolved. It does so once, and never after a poll of one of them.
pub proof fn law_resolved_providers_are_synced_once(
    pass: PassView,
    world: PassWorld,
    provider: int,
)
    requires
        pass.phase == PassPhase::Ready,
        pass.provider == 0,
    ensures
        effects_of(pass, world).contains(Effect::Sync { provider }) <==> 0 <= provider
            < pass.providers.len() && is_considered(pass.providers, world, provider),
        synced_first(effects_of(pass, world), provider),
{
    lemma_effects_of_provider(pass, world);
    lemma_syncs_of_provider(pass.providers, world, 0, pass.polled, provider);
}

/// The place in a list of what stands at a place in the list without one.
pub open spec fn place_with(removed: int, provider: int) -> int {
    if provider < removed {
        provider
    } else {
        provider + 1
    }
}

/// What a driver would find out over a pass without one provider.
pub open spec fn world_without(world: PassWorld, removed: int) -> PassWorld {
    PassWorld {
        accounts: |provider: int| (world.accounts)(place_with(removed, provider)),
        contents: |provider: int, account: int|
            (world.contents)(place_with(removed, provider), account),
        applies: |provider: int, account: int|
            (world.applies)(place_with(removed, provider), account),
    }
}

/// Effects over a list without one provider, with the places of the list with
/// it.
pub open spec fn effects_with(removed: int, effects: Seq<Effect>) -> Seq<Effect> {
    Seq::new(
        effects.len(),
        |i: int|
            match effects[i] {
                Effect::Sync { provider } => Effect::Sync {
                    provider: place_with(removed, provider),
                },
                Effect::Poll { place } => Effect::Poll {
                    place: Place { provider: place_with(removed, place.provider), ..place },
                },
            },
    )
}

/// From a provider on, one that is not considered makes no difference.
proof fn lemma_effects_without_provider(
    providers: Seq<ProviderView>,
    world: PassWorld,
    removed: int,
    provider: int,
    polled: Set<Seq<char>>,
)
    requires
        0 <= removed < providers.len(),
        !is_considered(providers, world, removed),
        0 <= provider <= providers.len() - 1,
    ensures
        provider_effects(providers, world, place_with(removed, provider), polled) == effects_with(
            removed,
            provider_effects(
                providers.remove(removed),
                world_without(world, removed),
                provider,
                polled,
            ),
        ),
    decreases providers.len() - provider, 1nat, 0int,
{
    let fewer = providers.remove(removed);
    let without = world_without(world, removed);
    let there = place_with(removed, provider);
    if provider < fewer.len() {
        assert(fewer[provider] == providers[there]);
        if provider + 1 == removed {
            assert(provider_effects(providers, world, removed, polled) == provider_effects(
                providers,
                world,
                removed + 1,
                polled,
            ));
        }
        if is_considered(providers, world, there) {
            lemma_effects_without_account(providers, world, removed, provider, 0, polled);
            let rest = account_effects(fewer, without, provider, 0, polled);
            assert(effects_with(removed, seq![Effect::Sync { provider }] + rest) =~= seq![
                Effect::Sync { provider: there },
            ] + effects_with(removed, rest));
        } else {
            lemma_effects_without_provider(providers, world, removed, provider + 1, polled);
        }
    } else {
        assert(effects_with(removed, Seq::empty()) =~= Seq::empty());
    }
}

/// From an account on, a provider that is not considered makes no difference.
proof fn lemma_effects_without_account(
    providers: Seq<ProviderView>,
    world: PassWorld,
    removed: int,
    provider: int,
    account: int,
    polled: Set<Seq<char>>,
)
    requires
        0 <= removed < providers.len(),
        !is_considered(providers, world, removed),
        0 <= provider < providers.len() - 1,
    ensures
        account_effects(providers, world, place_with(removed, provider), account, polled)
            == effects_with(
            removed,
            account_effects(
                providers.remove(removed),
                world_without(world, removed),
                provider,
                account,
                polled,
            ),
        ),
    decreases
            providers.len() - provider,
            0nat,
            accounts_of(providers, world, place_with(removed, provider)).len() - account,
{
    let fewer = providers.remove(removed);
    let without = world_without(world, removed);
    let there = place_with(removed, provider);
    assert(fewer[provider] == providers[there]);
    assert(accounts_of(fewer, without, provider) == accounts_of(providers, world, there));
    if account >= accounts_of(providers, world, there).len() {
        if provider + 1 == removed {
            assert(provider_effects(providers, world, removed, polled) == provider_effects(
                providers,
                world,
                removed + 1,
                polled,
            ));
        }
        lemma_effects_without_provider(providers, world, removed, provider + 1, polled);
    } else {
        let here = Place { provider, account };
        let place = Place { provider: there, account };
        let key = key_at(providers, world, place);
        let after = if refreshable_at(providers, world, place) && !polled.contains(key)
            && applies_at(world, place) {
            polled.insert(key)
        } else {
            polled
        };
        lemma_effects_without_account(providers, world, removed, provider, account + 1, after);
        let rest = account_effects(fewer, without, provider, account + 1, after);
        assert(effects_with(removed, seq![Effect::Poll { place: here }] + rest) =~= seq![
            Effect::Poll { place },
        ] + effects_with(removed, rest));
    }
}

/// A provider that has no accounts to poll, or whose accounts could not be
/// resolved, makes no difference: the syncs and polls are those of a pass
/// without it, in the same order.
pub proof fn law_unresolved_provider_makes_no_difference(
    pass: PassView,
    world: PassWorld,
    removed: int,
)
    requires
        pass.phase == PassPhase::Ready,
        pass.provider == 0,
        0 <= removed < pass.providers.len(),
        !is_considered(pass.providers, world, removed),
    ensures
        effects_of(pass, world) == effects_with(
            removed,
            effects_of(
                PassView { providers: pass.providers.remove(removed), ..pass },
                world_without(world, removed),
            ),
        ),
{
    let fewer = PassView { providers: pass.providers.remove(removed), ..pass };
    lemma_effects_of_provider(pass, world);
    lemma_effects_of_provider(fewer, world_without(world, removed));
    lemma_effects_without_provider(pass.providers, world, removed, 0, pass.polled);
}

/// A pass asks for a Codex poll only where that poll would be admitted.
pub proof fn law_pass_polls_are_admitted(pass: PassView, event: PassEventView)
    requires
        in_place(pass),
    ensures
        pass_next(pass, event).1 matches PassActionView::PollAccount { provider, family, .. }
            ==> admitted(family, pass.providers[provider].chatgpt_backend),
{
    lemma_turn_to_provider(pass);
    lemma_turn_to_provider(PassView { provider: pass.provider + 1, ..pass });
    lemma_turn_to_account(pass);
    lemma_turn_to_account(PassView { account: pass.account + 1, ..pass });
    lemma_turn_to_account(
        PassView {
            account: pass.account + 1,
            polled: pass.polled.insert(pass.accounts[pass.account].key),
            ..pass
        },
    );
}

/// Whether a provider has accounts to poll: a `claude_oauth` one, and a
/// `chatgpt_oauth` one on the ChatGPT backend.
pub open spec fn is_pollable(provider: ProviderView) -> bool {
    ||| provider.auth == AuthMode::ClaudeOauth
    ||| provider.auth == AuthMode::ChatgptOauth && provider.chatgpt_backend
}

/// Whether a family is that of a provider's accounts.
pub open spec fn is_family(provider: ProviderView, family: Family) -> bool {
    match provider.auth {
        AuthMode::ClaudeOauth => family == Family::Claude,
        AuthMode::ChatgptOauth => provider.chatgpt_backend && family == Family::Codex,
        AuthMode::Other => false,
    }
}

/// The accounts of a `claude_oauth` provider are of the one family, those of a
/// `chatgpt_oauth` provider on the ChatGPT backend of the other, and no other
/// provider has any to poll.
pub proof fn law_families_of_providers(provider: ProviderView, family: Family)
    ensures
        family_of(provider) == Some(family) <==> is_family(provider, family),
        family_of(provider) is Some <==> is_pollable(provider),
{
}

/// The first provider of a name decides whether that name is on the ChatGPT
/// backend; a name that no provider has is not.
pub proof fn law_first_provider_of_a_name_decides(
    providers: Seq<ProviderView>,
    name: Seq<char>,
    i: int,
)
    ensures
        0 <= i < providers.len() && providers[i].name == name && (forall|k: int|
            0 <= k < i ==> (#[trigger] providers[k]).name != name) ==> on_chatgpt_backend(
            providers,
            name,
        ) == providers[i].chatgpt_backend,
        (forall|k: int| 0 <= k < providers.len() ==> (#[trigger] providers[k]).name != name)
            ==> !on_chatgpt_backend(providers, name),
{
}

/// Whether a pass turns to the first pollable provider from a place on, or is
/// over where there is none.
pub open spec fn goes_on_to_provider(
    pass: PassView,
    from: int,
    next: PassView,
    action: PassActionView,
) -> bool {
    &&& next.providers == pass.providers
    &&& next.polled == pass.polled
    &&& match action {
        PassActionView::ResolveAccounts { provider, family } => {
            &&& next.phase == PassPhase::Resolving
            &&& next.provider == provider
            &&& from <= provider < pass.providers.len()
            &&& is_family(pass.providers[provider], family)
            &&& forall|k: int| from <= k < provider ==> !is_pollable(#[trigger] pass.providers[k])
        },
        PassActionView::Finish => {
            &&& next.phase == PassPhase::Over
            &&& forall|k: int|
                from <= k < pass.providers.len() ==> !is_pollable(#[trigger] pass.providers[k])
        },
        _ => false,
    }
}

/// Whether a pass turns to the first account from a place on whose token is not
/// from the environment, and asks for the file that the account's configuration
/// names; or goes on to the next provider where there is no such account.
pub open spec fn goes_on_to_account(
    pass: PassView,
    from: int,
    next: PassView,
    action: PassActionView,
) -> bool {
    match action {
        PassActionView::ReadFile { provider, account, family, source } => {
            let config = pass.accounts[account].config;
            &&& next.phase == PassPhase::Checking
            &&& next.providers == pass.providers
            &&& next.accounts == pass.accounts
            &&& next.polled == pass.polled
            &&& next.provider == provider == pass.provider
            &&& next.account == account
            &&& from <= account < pass.accounts.len()
            &&& is_family(pass.providers[provider], family)
            &&& config.token_env is None
            &&& config.credentials matches Some(path) ==> source == SourceView::File(path)
            &&& config.credentials is None ==> source == SourceView::Store(config.name)
            &&& forall|k: int|
                from <= k < account ==> (#[trigger] pass.accounts[k]).config.token_env is Some
        },
        _ => {
            &&& goes_on_to_provider(pass, pass.provider + 1, next, action)
            &&& forall|k: int|
                from <= k < pass.accounts.len() ==> (
                #[trigger] pass.accounts[k]).config.token_env is Some
        },
    }
}

/// Where turning to a provider goes on to.
proof fn lemma_goes_on_to_provider(pass: PassView)
    ensures
        goes_on_to_provider(
            pass,
            pass.provider,
            turn_to_provider(pass).0,
            turn_to_provider(pass).1,
        ),
    decreases pass.providers.len() - pass.provider,
{
    if pass.provider < pass.providers.len() && family_of(pass.providers[pass.provider]) is None {
        lemma_goes_on_to_provider(PassView { provider: pass.provider + 1, ..pass });
    }
}

/// Where turning to an account goes on to.
proof fn lemma_goes_on_to_account(pass: PassView)
    requires
        family_of(pass.providers[pass.provider]) is Some,
    ensures
        goes_on_to_account(pass, pass.account, turn_to_account(pass).0, turn_to_account(pass).1),
    decreases pass.accounts.len() - pass.account,
{
    if pass.account >= pass.accounts.len() {
        lemma_goes_on_to_provider(PassView { provider: pass.provider + 1, ..pass });
    } else if source_of(pass.accounts[pass.account].config) == SourceView::Environment {
        lemma_goes_on_to_account(PassView { account: pass.account + 1, ..pass });
    }
}

/// Every step of a pass. It begins with the first pollable provider. A provider
/// that could not be resolved is passed over; the accounts of one that could are
/// made known, and then considered one by one, from the first to the last. One
/// that its file shows to be refreshable is polled unless its key is closed, and
/// a poll closes the key of its account exactly if it applied. A report that the
/// pass is not waiting for ends it.
pub proof fn law_every_step_of_a_pass(pass: PassView, event: PassEventView)
    requires
        in_place(pass),
    ensures
        ({
            let (next, action) = pass_next(pass, event);
            let account = pass.accounts[pass.account];
            match (pass.phase, event) {
                (PassPhase::Ready, PassEventView::Begin) => goes_on_to_provider(
                    pass,
                    pass.provider,
                    next,
                    action,
                ),
                (PassPhase::Resolving, PassEventView::AccountsResolved(None)) =>
                    goes_on_to_provider(pass, pass.provider + 1, next, action),
                (PassPhase::Resolving, PassEventView::AccountsResolved(Some(accounts))) => {
                    &&& action == (PassActionView::SyncAccounts { provider: pass.provider })
                    &&& next.phase == PassPhase::Syncing
                    &&& next.providers == pass.providers && next.provider == pass.provider
                    &&& next.accounts == accounts && next.account == 0
                    &&& next.polled == pass.polled
                },
                (PassPhase::Syncing, PassEventView::AccountsSynced) => goes_on_to_account(
                    pass,
                    pass.account,
                    next,
                    action,
                ),
                (PassPhase::Checking, PassEventView::FileRead(contents)) => exists|family: Family|
                    {
                        &&& #[trigger] is_family(pass.providers[pass.provider], family)
                        &&& if is_refreshable(family, account.config, contents)
                            && !pass.polled.contains(account.key) {
                            &&& action == (PassActionView::PollAccount {
                                provider: pass.provider,
                                account: pass.account,
                                family,
                            })
                            &&& next.phase == PassPhase::Polling
                            &&& next.providers == pass.providers && next.provider == pass.provider
                            &&& next.accounts == pass.accounts && next.account == pass.account
                            &&& next.polled == pass.polled
                        } else {
                            goes_on_to_account(pass, pass.account + 1, next, action)
                        }
                    },
                (PassPhase::Polling, PassEventView::AccountPolled(true)) => goes_on_to_account(
                    PassView { polled: pass.polled.insert(account.key), ..pass },
                    pass.account + 1,
                    next,
                    action,
                ),
                (PassPhase::Polling, PassEventView::AccountPolled(false)) => goes_on_to_account(
                    pass,
                    pass.account + 1,
                    next,
                    action,
                ),
                _ => next.phase == PassPhase::Over && action == PassActionView::Finish,
            }
        }),
{
    let past = PassView { account: pass.account + 1, ..pass };
    match (pass.phase, event) {
        (PassPhase::Ready, PassEventView::Begin) => {
            lemma_goes_on_to_provider(pass);
        },
        (PassPhase::Resolving, PassEventView::AccountsResolved(None)) => {
            lemma_goes_on_to_provider(PassView { provider: pass.provider + 1, ..pass });
        },
        (PassPhase::Syncing, PassEventView::AccountsSynced) => {
            lemma_goes_on_to_account(pass);
        },
        (PassPhase::Checking, PassEventView::FileRead(_)) => {
            lemma_goes_on_to_account(past);
            let family = family_of(pass.providers[pass.provider])->0;
            assert(is_family(pass.providers[pass.provider], family));
        },
        (PassPhase::Polling, PassEventView::AccountPolled(applied)) => {
            if applied {
                let key = pass.accounts[pass.account].key;
                lemma_goes_on_to_account(PassView { polled: pass.polled.insert(key), ..past });
            } else {
                lemma_goes_on_to_account(past);
            }
        },
        _ => {},
    }
}

/// Whenever a pass asks for a credential file, it is the one that the account's
/// configuration names: the configured path, or, without one, the account
/// store's file of the account's name.
pub proof fn law_pass_reads_the_configured_file(pass: PassView, event: PassEventView)
    requires
        in_place(pass),
    ensures
        pass_next(pass, event).1 matches PassActionView::ReadFile {
            provider,
            account,
            family,
            source,
        } ==> {
            let config = pass.accounts[account].config;
            &&& 0 <= provider < pass.providers.len() && 0 <= account < pass.accounts.len()
            &&& is_family(pass.providers[provider], family)
            &&& config.token_env is None
            &&& config.credentials matches Some(path) ==> source == SourceView::File(path)
            &&& config.credentials is None ==> source == SourceView::Store(config.name)
        },
{
    law_every_step_of_a_pass(pass, event);
}

/// What is chosen from places in order is in order.
proof fn lemma_chosen_in_order(
    providers: Seq<ProviderView>,
    world: PassWorld,
    places: Seq<Place>,
    polled: Set<Seq<char>>,
)
    requires
        in_order(places),
    ensures
        in_order(chosen(providers, world, places, polled)),
    decreases places.len(),
{
    if places.len() > 0 {
        let place = places.first();
        let key = key_at(providers, world, place);
        let rest = places.drop_first();
        let all = chosen(providers, world, places, polled);
        let picked = refreshable_at(providers, world, place) && !polled.contains(key);
        let after = if picked && applies_at(world, place) {
            polled.insert(key)
        } else {
            polled
        };
        lemma_chosen_in_order(providers, world, rest, after);
        if picked {
            let tail = chosen(providers, world, rest, after);
            assert forall|i: int, j: int| 0 <= i < j < all.len() implies comes_before(
                #[trigger] all[i],
                #[trigger] all[j],
            ) by {
                assert(all[j] == tail[j - 1]);
                if i > 0 {
                    assert(all[i] == tail[i - 1]);
                } else {
                    lemma_chosen(providers, world, rest, after, j - 1);
                    let k = rest.index_of(tail[j - 1]);
                    assert(places[k + 1] == rest[k]);
                    assert(comes_before(places[0], places[k + 1]));
                }
            }
        }
    }
}

/// A pass polls in order, by provider and then by account, and so no account
/// twice.
pub proof fn law_polls_are_in_order(pass: PassView, world: PassWorld, i: int, j: int)
    requires
        pass.phase == PassPhase::Ready,
        pass.provider == 0,
        0 <= i < j < polls_of(pass, world).len(),
    ensures
        ({
            let one = polls_of(pass, world)[i];
            let other = polls_of(pass, world)[j];
            one.provider < other.provider || one.provider == other.provider && one.account
                < other.account
        }),
{
    law_pass_polls_the_chosen(pass, world);
    let places = places_from(pass.providers, world, 0, 0);
    lemma_places_in_order(pass.providers, world, 0, 0);
    lemma_chosen_in_order(pass.providers, world, places, pass.polled);
    let polls = polls_of(pass, world);
    assert(comes_before(polls[i], polls[j]));
}

/// Whether the account at a place is a refreshable one of a pollable provider
/// whose accounts could be resolved.
pub open spec fn can_be_polled(
    providers: Seq<ProviderView>,
    world: PassWorld,
    place: Place,
) -> bool {
    &&& 0 <= place.provider < providers.len()
    &&& (world.accounts)(place.provider) matches Some(accounts)
    &&& 0 <= place.account < accounts.len()
    &&& exists|family: Family|
        #[trigger] is_family(providers[place.provider], family) && is_refreshable(
            family,
            accounts[place.account].config,
            (world.contents)(place.provider, place.account),
        )
}

/// A place that can be polled is one that a pass considers and finds
/// refreshable.
proof fn lemma_can_be_polled(providers: Seq<ProviderView>, world: PassWorld, place: Place)
    ensures
        can_be_polled(providers, world, place) <==> places_from(providers, world, 0, 0).contains(
            place,
        ) && refreshable_at(providers, world, place),
        can_be_polled(providers, world, place) ==> key_at(providers, world, place) == ((
        world.accounts)(place.provider)->0)[place.account].key,
{
    law_places_considered(providers, world, place);
    if places_from(providers, world, 0, 0).contains(place) {
        let family = family_of(providers[place.provider])->0;
        assert(is_family(providers[place.provider], family));
    }
}

/// A pass polls an account exactly if it is a refreshable one of a pollable
/// provider whose accounts could be resolved, and no account of the same key
/// that was polled earlier in the pass applied.
pub proof fn law_what_a_pass_polls(pass: PassView, world: PassWorld, place: Place)
    requires
        pass.phase == PassPhase::Ready,
        pass.provider == 0,
        pass.polled == Set::<Seq<char>>::empty(),
    ensures
        polls_of(pass, world).contains(place) <==> {
            &&& can_be_polled(pass.providers, world, place)
            &&& forall|other: Place| #[trigger]
                polls_of(pass, world).contains(other) && (other.provider < place.provider
                    || other.provider == place.provider && other.account < place.account) && ((
                world.accounts)(other.provider)->0)[other.account].key == ((world.accounts)(
                    place.provider,
                )->0)[place.account].key ==> !(world.applies)(other.provider, other.account)
        },
{
    let polls = polls_of(pass, world);
    lemma_can_be_polled(pass.providers, world, place);
    if polls.contains(place) {
        let j = polls.index_of(place);
        law_only_refreshable_accounts_are_polled(pass, world, j);
        assert forall|other: Place| #[trigger]
            polls.contains(other) && (other.provider < place.provider || other.provider
                == place.provider && other.account < place.account) && ((world.accounts)(
                other.provider,
            )->0)[other.account].key == ((world.accounts)(place.provider)->0)[place.account].key
            implies !(world.applies)(other.provider, other.account) by {
            let i = polls.index_of(other);
            law_only_refreshable_accounts_are_polled(pass, world, i);
            lemma_can_be_polled(pass.providers, world, other);
            if i > j {
                law_polls_are_in_order(pass, world, j, i);
            } else if applies_at(world, other) {
                law_applied_key_is_not_polled_again(pass, world, i, j);
            }
        }
    } else if can_be_polled(pass.providers, world, place) {
        law_open_key_is_polled(pass, world, place);
        let i = choose|i: int|
            0 <= i < polls.len() && comes_before(#[trigger] polls[i], place) && key_at(
                pass.providers,
                world,
                polls[i],
            ) == key_at(pass.providers, world, place) && applies_at(world, polls[i]);
        law_only_refreshable_accounts_are_polled(pass, world, i);
        lemma_can_be_polled(pass.providers, world, polls[i]);
        assert(polls.contains(polls[i]));
    }
}

/// A provider, an account, an action and an event stand for what they hold.
pub proof fn law_steps_stand_for_themselves(
    provider: ProviderEntry,
    account: PoolAccount,
    action: PassAction,
    event: PassEvent,
)
    ensures
        provider@.name == provider.name@,
        provider@.auth == provider.auth,
        provider@.chatgpt_backend == provider.chatgpt_backend,
        account@.config == account.config@,
        account@.key == account.key@,
        match action {
            PassAction::ResolveAccounts { provider, family } => action@
                == (PassActionView::ResolveAccounts { provider: provider as int, family }),
            PassAction::SyncAccounts { provider } => action@ == (PassActionView::SyncAccounts {
                provider: provider as int,
            }),
            PassAction::ReadFile { provider, account, family, source } => action@
                == (PassActionView::ReadFile {
                provider: provider as int,
                account: account as int,
                family,
                source: source@,
            }),
            PassAction::PollAccount { provider, account, family } => action@
                == (PassActionView::PollAccount {
                provider: provider as int,
                account: account as int,
                family,
            }),
            PassAction::Finish => action@ == PassActionView::Finish,
        },
        match event {
            PassEvent::Begin => event@ == PassEventView::Begin,
            PassEvent::AccountsResolved(None) => event@ == PassEventView::AccountsResolved(None),
            PassEvent::AccountsResolved(Some(accounts)) => event@
                == PassEventView::AccountsResolved(
                Some(Seq::new(accounts@.len(), |i: int| accounts@[i]@)),
            ),
            PassEvent::AccountsSynced => event@ == PassEventView::AccountsSynced,
            PassEvent::FileRead(None) => event@ == PassEventView::FileRead(None),
            PassEvent::FileRead(Some(bytes)) => event@ == PassEventView::FileRead(Some(bytes@)),
            PassEvent::AccountPolled(applied) => event@ == PassEventView::AccountPolled(applied),
        },
{
}

/// A list of providers stands for its providers, in order.
pub proof fn law_lists_stand_for_themselves(providers: Seq<ProviderEntry>, i: int)
    requires
        0 <= i < providers.len(),
    ensures
        provider_views(providers).len() == providers.len(),
        provider_views(providers)[i] == providers[i]@,
{
}

} // verus!
