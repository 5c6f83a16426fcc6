use std::collections::HashMap;

use usage_poll::account_poll::{
    poll_account, poll_codex_account, poll_codex_account_of, AccountAction, AccountEvent,
    AccountPoll, Credential, SkipReason,
};
use usage_poll::credentials::{
    account_is_refreshable, codex_account_is_refreshable, codex_credential_file_has_refresh_token,
    credential_file_has_refresh_token, credential_source, AccountConfig, CredentialSource, Family,
};
use usage_poll::json::JsonNumber;
use usage_poll::pass::{
    is_chatgpt_backend, AuthMode, PassAction, PassEvent, PollPass, PoolAccount, ProviderEntry,
};
use usage_poll::quota::AccountQuota;
use usage_poll::schedule::{usage_poller_plan, PollerPlan, PoolSettings};
use usage_poll::snapshot::{UsageSnapshot, UsageWindow};
use usage_poll::usage::{parse_percent, read_usage_response, usage_request};

const CLAUDE_LOGIN: &str =
    r#"{"claudeAiOauth":{"accessToken":"live-token","refreshToken":"r","expiresAt":4000000000000}}"#;
const CLAUDE_SETUP: &str = r#"{"claudeAiOauth":{"accessToken":"a","expiresAt":4000000000000,"shuntCredentialKind":"setup_token"}}"#;

fn account(name: &str) -> AccountConfig {
    AccountConfig {
        name: name.to_string(),
        credentials: Some(format!("/credentials/{name}.json")),
        token_env: None,
    }
}

fn env_account(name: &str) -> AccountConfig {
    AccountConfig {
        name: name.to_string(),
        credentials: None,
        token_env: Some("SOME_ENV".to_string()),
    }
}

fn codex_credential_json(access_token: &str, refresh_token: Option<&str>, account_id: &str) -> String {
    let refresh = match refresh_token {
        Some(token) => format!(r#","refresh_token":"{token}""#),
        None => String::new(),
    };
    format!(
        r#"{{"auth_mode":"ChatGPT","tokens":{{"access_token":"{access_token}","account_id":"{account_id}"{refresh}}}}}"#
    )
}

fn window(percent: f64) -> Option<UsageWindow> {
    let utilization = parse_percent(JsonNumber::Float(percent.to_bits())).unwrap();
    Some(UsageWindow { utilization, resets_at: None })
}

fn bits(share: f64) -> Option<u64> {
    Some(share.to_bits())
}

/// What a driver did over one poll of an account.
struct Log {
    files: Vec<String>,
    resolved: usize,
    fetches: usize,
    skipped: Option<SkipReason>,
    applied: bool,
}

/// Drives one poll against canned answers, as a server's poller would.
fn drive(
    mut poll: AccountPoll,
    file: Option<&str>,
    credential: Option<Credential>,
    mut fetch: impl FnMut(&str, Option<&str>) -> Option<UsageSnapshot>,
    quota: &mut AccountQuota,
) -> Log {
    let mut log = Log { files: Vec::new(), resolved: 0, fetches: 0, skipped: None, applied: false };
    let mut credential = Some(credential);
    let mut event = AccountEvent::Begin;
    loop {
        match poll.next(event) {
            AccountAction::ReadFile(source) => {
                log.files.push(format!("{source:?}"));
                event = AccountEvent::FileRead(file.map(|text| text.as_bytes().to_vec()));
            }
            AccountAction::ResolveCredential => {
                log.resolved += 1;
                event = AccountEvent::CredentialResolved(credential.take().unwrap());
            }
            AccountAction::FetchClaudeUsage { access_token } => {
                log.fetches += 1;
                event = AccountEvent::UsageFetched(fetch(&access_token, None));
            }
            AccountAction::FetchCodexUsage { access_token, account_id } => {
                log.fetches += 1;
                event = AccountEvent::UsageFetched(fetch(&access_token, Some(&account_id)));
            }
            AccountAction::NoteUsage(snapshot) => {
                quota.note_usage(&snapshot);
                log.applied = true;
                return log;
            }
            AccountAction::Skip(reason) => {
                log.skipped = Some(reason);
                return log;
            }
        }
    }
}

fn claude_login() -> Option<Credential> {
    Some(Credential::ClaudeOauth { access_token: "live-token".to_string() })
}

fn codex_login(account_id: &str) -> Option<Credential> {
    Some(Credential::ChatGptOAuth {
        access_token: format!("x.{account_id}.y"),
        account_id: account_id.to_string(),
    })
}

/// Drives a Codex poll whose endpoint answers with the given status and body.
fn drive_codex(account_id: &str, status: (u16, &str), body: &str, quota: &mut AccountQuota) -> Log {
    let file = codex_credential_json(&format!("x.{account_id}.y"), Some("refresh"), account_id);
    drive(
        poll_codex_account(account("codex-acct"), true),
        Some(&file),
        codex_login(account_id),
        |token, id| {
            assert_eq!(token, format!("x.{account_id}.y"));
            assert_eq!(id, Some(account_id));
            read_usage_response(status.0, status.1, body).ok()
        },
        quota,
    )
}

#[test]
fn refreshable_only_for_imported_credential_files() {
    // Imported login: has a non-empty refreshToken.
    let imported =
        br#"{"claudeAiOauth":{"accessToken":"a","refreshToken":"r","expiresAt":4000000000000}}"#;
    assert!(account_is_refreshable(&account("acct"), Some(imported)));

    // Setup token: no refreshToken.
    assert!(!account_is_refreshable(&account("acct"), Some(CLAUDE_SETUP.as_bytes())));

    // A credential from the environment is static regardless of any file.
    assert!(!account_is_refreshable(&env_account("env"), Some(imported)));
    assert!(!account_is_refreshable(&env_account("env"), None));

    // Missing file.
    assert!(!account_is_refreshable(&account("nope"), None));
}

#[test]
fn codex_logins_keep_their_token_elsewhere() {
    let login = codex_credential_json("a", Some("r"), "acct");
    assert!(codex_credential_file_has_refresh_token(Some(login.as_bytes())));
    assert!(!credential_file_has_refresh_token(Some(login.as_bytes())));
    assert!(!codex_credential_file_has_refresh_token(Some(CLAUDE_LOGIN.as_bytes())));
    assert!(codex_account_is_refreshable(&account("acct"), Some(login.as_bytes())));
    assert!(!codex_account_is_refreshable(&env_account("acct"), Some(login.as_bytes())));
    for contents in [
        r#"{"tokens":{"refresh_token":""}}"#,
        r#"{"tokens":{"refresh_token":7}}"#,
        r#"{"tokens":["refresh_token"]}"#,
        r#"{"refresh_token":"r"}"#,
        r#"[{"tokens":{"refresh_token":"r"}}]"#,
        "not json",
        "",
    ] {
        assert!(!codex_credential_file_has_refresh_token(Some(contents.as_bytes())), "{contents}");
    }
    assert!(!codex_credential_file_has_refresh_token(None));
    assert!(!credential_file_has_refresh_token(None));
}

#[test]
fn a_credential_has_one_source() {
    assert!(matches!(
        credential_source(&env_account("env")),
        CredentialSource::Environment
    ));
    match credential_source(&account("a")) {
        CredentialSource::File(path) => assert_eq!(path, "/credentials/a.json"),
        other => panic!("got: {other:?}"),
    }
    let stored = AccountConfig { name: "a".to_string(), credentials: None, token_env: None };
    match credential_source(&stored) {
        CredentialSource::Store(name) => assert_eq!(name, "a"),
        other => panic!("got: {other:?}"),
    }
}

#[test]
fn poll_account_fetches_and_applies_snapshot() {
    let mut quota = AccountQuota::new();
    let log = drive(
        poll_account(account("acct")),
        Some(CLAUDE_LOGIN),
        claude_login(),
        |token, id| {
            assert_eq!(token, "live-token");
            assert_eq!(id, None);
            Some(UsageSnapshot {
                five_hour: window(20.0),
                seven_day: window(75.0),
                seven_day_oi: None,
            })
        },
        &mut quota,
    );
    assert!(log.applied);
    assert_eq!(log.fetches, 1);
    assert!(quota.has_state, "the poll must have recorded state");
    assert_eq!(quota.utilization_5h, bits(0.20));
    assert_eq!(quota.utilization_7d, bits(0.75));
}

#[test]
fn poll_account_records_no_state_on_fetch_error() {
    let mut quota = AccountQuota::new();
    let log = drive(
        poll_account(account("acct")),
        Some(CLAUDE_LOGIN),
        claude_login(),
        |_, _| None,
        &mut quota,
    );
    assert_eq!(log.fetches, 1);
    assert_eq!(log.skipped, Some(SkipReason::FetchFailed));
    assert!(!quota.has_state, "a failed usage fetch must not record state");
}

#[test]
fn poll_account_skips_note_usage_on_unrecognizable_200_body() {
    let mut quota = AccountQuota::new();
    let log = drive(
        poll_account(account("acct")),
        Some(CLAUDE_LOGIN),
        claude_login(),
        |_, _| Some(UsageSnapshot { five_hour: None, seven_day: None, seven_day_oi: None }),
        &mut quota,
    );
    assert!(!log.applied, "an empty snapshot must not count as applied");
    assert_eq!(log.skipped, Some(SkipReason::NoWindows));
    assert!(!quota.has_state, "an empty snapshot must not mark the account observed");
}

#[test]
fn poll_account_applies_partial_snapshot_with_only_fable_window() {
    let mut quota = AccountQuota::new();
    let log = drive(
        poll_account(account("acct")),
        Some(CLAUDE_LOGIN),
        claude_login(),
        |_, _| {
            Some(UsageSnapshot { five_hour: None, seven_day: None, seven_day_oi: window(42.0) })
        },
        &mut quota,
    );
    assert!(log.applied, "a valid Fable window must make the snapshot apply");
    assert!(quota.has_state);
    assert_eq!(quota.utilization_5h, None);
    assert_eq!(quota.utilization_7d, None);
    assert_eq!(quota.utilization_7d_oi, bits(0.42));
}

#[test]
fn poll_account_skips_non_refreshable_without_fetching() {
    let mut quota = AccountQuota::new();
    let log = drive(
        poll_account(account("acct")),
        Some(CLAUDE_SETUP),
        claude_login(),
        |_, _| panic!("a skipped account must not be fetched"),
        &mut quota,
    );
    assert_eq!(log.skipped, Some(SkipReason::NotRefreshable));
    assert_eq!((log.files.len(), log.resolved, log.fetches), (1, 0, 0));
    assert!(!quota.has_state, "a skipped account records no state");

    // With a token from the environment not even a file is read.
    let log = drive(
        poll_account(env_account("acct")),
        Some(CLAUDE_LOGIN),
        claude_login(),
        |_, _| panic!("a skipped account must not be fetched"),
        &mut quota,
    );
    assert_eq!(log.skipped, Some(SkipReason::NotRefreshable));
    assert!(log.files.is_empty());
}

#[test]
fn a_poll_needs_a_credential_of_its_family() {
    let mut quota = AccountQuota::new();
    let unresolved = drive(
        poll_account(account("acct")),
        Some(CLAUDE_LOGIN),
        None,
        |_, _| panic!("no credential"),
        &mut quota,
    );
    assert_eq!(unresolved.skipped, Some(SkipReason::CredentialUnresolved));
    for credential in [codex_login("acct"), Some(Credential::Other)] {
        let other = drive(
            poll_account(account("acct")),
            Some(CLAUDE_LOGIN),
            credential,
            |_, _| panic!("wrong credential"),
            &mut quota,
        );
        assert_eq!(other.skipped, Some(SkipReason::CredentialOfOtherKind));
        assert_eq!(other.resolved, 1);
    }
    assert!(!quota.has_state);
}

#[test]
fn a_poll_out_of_turn_is_over() {
    let mut poll = poll_account(account("acct"));
    assert!(matches!(
        poll.next(AccountEvent::UsageFetched(None)),
        AccountAction::Skip(SkipReason::OutOfTurn)
    ));
    assert!(matches!(
        poll.next(AccountEvent::Begin),
        AccountAction::Skip(SkipReason::OutOfTurn)
    ));
    let mut pass = PollPass::new(vec![provider("a", AuthMode::ClaudeOauth, false)]);
    assert!(matches!(pass.next(PassEvent::AccountsSynced), PassAction::Finish));
    assert!(matches!(pass.next(PassEvent::Begin), PassAction::Finish));
}

#[test]
fn codex_poll_applies_wham_snapshot() {
    let request = usage_request("http://host", "x.acct-apply.y", "acct-apply", "agent", "1.0");
    assert_eq!(request.url, "http://host/wham/usage");
    let headers: Vec<(&str, &str)> =
        request.headers.iter().map(|(name, value)| (name.as_str(), value.as_str())).collect();
    assert_eq!(
        headers,
        vec![
            ("authorization", "Bearer x.acct-apply.y"),
            ("chatgpt-account-id", "acct-apply"),
            ("originator", "codex_cli_rs"),
            ("user-agent", "agent"),
            ("version", "1.0"),
        ]
    );

    let mut quota = AccountQuota::new();
    let log = drive_codex(
        "acct-apply",
        (200, "200 OK"),
        r#"{"rate_limit":{"primary_window":{"used_percent":18.0},"secondary_window":{"used_percent":64.0}}}"#,
        &mut quota,
    );
    assert!(log.applied, "a valid snapshot must be applied");
    assert!(quota.has_state);
    assert_eq!(quota.utilization_5h, bits(0.18));
    assert_eq!(quota.utilization_7d, bits(0.64));
}

#[test]
fn codex_poll_tolerates_alternate_field_names() {
    let mut quota = AccountQuota::new();
    let log = drive_codex(
        "acct-alt",
        (200, "200 OK"),
        r#"{"rate_limits":{"five_hour_limit":{"used_percent":22.0},"weekly_limit":{"used_percent":91.0}}}"#,
        &mut quota,
    );
    assert!(log.applied);
    assert_eq!(quota.utilization_5h, bits(0.22));
    assert_eq!(quota.utilization_7d, bits(0.91));
}

#[test]
fn codex_poll_accepts_epoch_and_rfc3339_resets() {
    let mut quota = AccountQuota::new();
    let log = drive_codex(
        "acct-resets",
        (200, "200 OK"),
        r#"{"primary_window":{"used_percent":5.0,"resets_at":1800000000},"secondary_window":{"used_percent":9.0,"resets_at":"2026-09-01T00:00:00Z"}}"#,
        &mut quota,
    );
    assert!(log.applied);
    assert_eq!(quota.reset_5h, Some(1_800_000_000));
    assert!(quota.reset_7d.is_some());
    assert_eq!(quota.reset_7d, Some(1_788_220_800));
}

#[test]
fn reset_less_wham_poll_does_not_erase_header_reset() {
    let future_reset = 4_000_000_000;
    let mut quota = AccountQuota::new();
    quota.has_state = true;
    quota.utilization_5h = bits(0.10);
    quota.reset_5h = Some(future_reset);
    quota.utilization_7d = bits(0.90);
    let log = drive_codex(
        "acct-reset-preserve",
        (200, "200 OK"),
        r#"{"primary_window":{"used_percent":55.0}}"#,
        &mut quota,
    );
    assert!(log.applied);
    assert_eq!(quota.utilization_5h, bits(0.55));
    assert_eq!(
        quota.reset_5h,
        Some(future_reset),
        "a reset-less poll must not erase the header-derived reset"
    );
    assert_eq!(quota.utilization_7d, bits(0.90), "an unreported window stays");
}

#[test]
fn codex_poll_records_no_state_on_error() {
    let mut quota = AccountQuota::new();
    let refused = drive_codex("acct-error", (500, "500 Internal Server Error"), "boom", &mut quota);
    assert!(!refused.applied);
    assert!(!quota.has_state, "a 500 must not record state");

    let unreadable = drive_codex(
        "acct-error",
        (200, "200 OK"),
        r#"{ "totally_unexpected": true }"#,
        &mut quota,
    );
    assert!(!unreadable.applied);
    assert_eq!(unreadable.skipped, Some(SkipReason::FetchFailed));
    assert!(!quota.has_state, "an unrecognizable body must not record state");
}

#[test]
fn codex_poll_skips_note_usage_on_empty_snapshot() {
    let mut quota = AccountQuota::new();
    let log = drive_codex("acct-empty", (200, "200 OK"), r#"{"primary_window": {}}"#, &mut quota);
    assert!(!log.applied, "an empty snapshot must not count as applied");
    assert_eq!(log.skipped, Some(SkipReason::NoWindows));
    assert!(!quota.has_state, "an empty snapshot must not mark the account observed");
}

#[test]
fn codex_poll_applies_partial_snapshot_when_one_window_is_malformed() {
    let mut quota = AccountQuota::new();
    let log = drive_codex(
        "acct-partial",
        (200, "200 OK"),
        r#"{"primary_window":{"used_percent":12.0},"secondary_window":{"used_percent":150.0}}"#,
        &mut quota,
    );
    assert!(log.applied, "a snapshot with at least one valid window must still apply");
    assert!(quota.has_state);
    assert_eq!(quota.utilization_5h, bits(0.12));
    assert_eq!(quota.utilization_7d, None);
}

#[test]
fn codex_poll_skips_non_refreshable() {
    let mut quota = AccountQuota::new();
    let file = codex_credential_json("x.acct-static.y", None, "acct-static");
    let log = drive(
        poll_codex_account(account("codex-acct"), true),
        Some(&file),
        codex_login("acct-static"),
        |_, _| panic!("a static account must not be fetched"),
        &mut quota,
    );
    assert!(!log.applied, "a non-refreshable account must be skipped");
    assert_eq!(log.resolved, 0);
}

#[test]
fn codex_poll_gated_on_chatgpt_backend() {
    let providers = vec![provider("codex", AuthMode::ChatgptOauth, true)];
    assert!(is_chatgpt_backend(&providers, "codex"));
    assert!(!is_chatgpt_backend(&providers, "not-configured"));
    let mut quota = AccountQuota::new();
    let file = codex_credential_json("x.acct-gate.y", Some("refresh"), "acct-gate");
    let log = drive(
        poll_codex_account_of(account("codex-acct"), &providers, "not-configured"),
        Some(&file),
        codex_login("acct-gate"),
        |_, _| panic!("a gated poll must not fetch"),
        &mut quota,
    );
    assert!(!log.applied, "a gated poll must not apply a snapshot");
    assert_eq!(log.skipped, Some(SkipReason::NotChatGptBackend));
    assert!(log.files.is_empty());

    // Of a provider that is on the backend the same poll applies.
    let log = drive(
        poll_codex_account_of(account("codex-acct"), &providers, "codex"),
        Some(&file),
        codex_login("acct-gate"),
        |_, _| Some(UsageSnapshot { five_hour: window(7.0), seven_day: None, seven_day_oi: None }),
        &mut quota,
    );
    assert!(log.applied);
    assert_eq!(quota.utilization_5h, bits(0.07));

    // Of one that points elsewhere it does not, whatever its name.
    let elsewhere = vec![provider("codex", AuthMode::ChatgptOauth, false)];
    let log = drive(
        poll_codex_account_of(account("codex-acct"), &elsewhere, "codex"),
        Some(&file),
        codex_login("acct-gate"),
        |_, _| panic!("a gated poll must not fetch"),
        &mut quota,
    );
    assert_eq!(log.skipped, Some(SkipReason::NotChatGptBackend));
}

fn provider(name: &str, auth: AuthMode, chatgpt_backend: bool) -> ProviderEntry {
    ProviderEntry { name: name.to_string(), auth, chatgpt_backend }
}

/// What the usage endpoint of a family answers.
enum Usage {
    /// The snapshot of a `claude_oauth` login, or a failed fetch.
    Oauth(Option<UsageSnapshot>),
    /// The body of a successful answer to a `chatgpt_oauth` login.
    Wham(&'static str),
}

/// An account of a provider under test: its configuration, its key, the file
/// that its configuration names, and what its endpoint answers.
struct Member {
    config: AccountConfig,
    key: &'static str,
    file: Option<&'static str>,
    usage: Usage,
}

fn member(name: &str, key: &'static str, file: Option<&'static str>, usage: Usage) -> Member {
    Member { config: account(name), key, file, usage }
}

/// A `claude_oauth` usage that reports the five-hour window alone.
fn five_hour(percent: f64) -> Usage {
    Usage::Oauth(Some(UsageSnapshot {
        five_hour: window(percent),
        seven_day: None,
        seven_day_oi: None,
    }))
}

/// What a driver did over one pass, and what the pool then knows.
struct PassLog {
    resolved: Vec<usize>,
    synced: Vec<usize>,
    read: Vec<(usize, usize)>,
    polled: Vec<(usize, usize, Family)>,
    /// The syncs and polls, in order.
    effects: Vec<String>,
    fetches: usize,
    quotas: HashMap<String, AccountQuota>,
}

impl PassLog {
    /// What the pool knows of the account with a key.
    fn quota(&self, key: &str) -> AccountQuota {
        self.quotas.get(key).copied().unwrap_or_else(AccountQuota::new)
    }
}

/// Drives the poll of one account of a pass against its canned answers.
fn drive_member(
    family: Family,
    providers: &Vec<ProviderEntry>,
    provider: &str,
    member: &Member,
    quota: &mut AccountQuota,
) -> Log {
    let (poll, credential) = match family {
        Family::Claude => (poll_account(member.config.clone()), claude_login()),
        Family::Codex => (
            poll_codex_account_of(member.config.clone(), providers, provider),
            codex_login(member.key),
        ),
    };
    drive(
        poll,
        member.file,
        credential,
        |_, account_id| match (&member.usage, account_id) {
            (Usage::Oauth(snapshot), None) => *snapshot,
            (Usage::Wham(body), Some(id)) => {
                assert_eq!(id, member.key);
                read_usage_response(200, "200 OK", body).ok()
            }
            _ => panic!("an endpoint of the other family was asked"),
        },
        quota,
    )
}

/// Drives one pass over a pool that knows nothing yet.
fn drive_pass(providers: Vec<ProviderEntry>, members: Vec<Option<Vec<Member>>>) -> PassLog {
    drive_pass_on(HashMap::new(), providers, members)
}

/// Drives one pass, and every poll that it asks for, against canned answers.
fn drive_pass_on(
    quotas: HashMap<String, AccountQuota>,
    providers: Vec<ProviderEntry>,
    members: Vec<Option<Vec<Member>>>,
) -> PassLog {
    let mut log = PassLog {
        resolved: Vec::new(),
        synced: Vec::new(),
        read: Vec::new(),
        polled: Vec::new(),
        effects: Vec::new(),
        fetches: 0,
        quotas,
    };
    let mut pass = PollPass::new(providers.clone());
    let mut event = PassEvent::Begin;
    loop {
        match pass.next(event) {
            PassAction::ResolveAccounts { provider, .. } => {
                log.resolved.push(provider);
                event = PassEvent::AccountsResolved(members[provider].as_ref().map(|list| {
                    list.iter()
                        .map(|m| PoolAccount {
                            config: m.config.clone(),
                            key: m.key.to_string(),
                        })
                        .collect()
                }));
            }
            PassAction::SyncAccounts { provider } => {
                log.synced.push(provider);
                log.effects.push(format!("sync {provider}"));
                event = PassEvent::AccountsSynced;
            }
            PassAction::ReadFile { provider, account, .. } => {
                log.read.push((provider, account));
                let file = members[provider].as_ref().unwrap()[account].file;
                event = PassEvent::FileRead(file.map(|text| text.as_bytes().to_vec()));
            }
            PassAction::PollAccount { provider, account, family } => {
                log.polled.push((provider, account, family));
                log.effects.push(format!("poll {provider} {account}"));
                let member = &members[provider].as_ref().unwrap()[account];
                let mut quota = log.quota(member.key);
                let name = providers[provider].name.as_str();
                let poll = drive_member(family, &providers, name, member, &mut quota);
                log.fetches += poll.fetches;
                if poll.applied {
                    log.quotas.insert(member.key.to_string(), quota);
                }
                event = PassEvent::AccountPolled(poll.applied);
            }
            PassAction::Finish => return log,
        }
    }
}

#[test]
fn poll_all_polls_only_claude_oauth_providers() {
    let usage = Usage::Oauth(Some(UsageSnapshot {
        five_hour: window(12.0),
        seven_day: window(34.0),
        seven_day_oi: None,
    }));
    let log = drive_pass(
        vec![
            provider("anthropic", AuthMode::Other, false),
            provider("oauth-pool", AuthMode::ClaudeOauth, false),
        ],
        vec![
            Some(vec![member("acct", "p", Some(CLAUDE_LOGIN), five_hour(99.0))]),
            Some(vec![member("acct", "c", Some(CLAUDE_LOGIN), usage)]),
        ],
    );
    assert_eq!(log.resolved, vec![1]);
    assert_eq!(log.synced, vec![1]);
    assert_eq!(log.polled, vec![(1, 0, Family::Claude)]);
    assert_eq!(log.fetches, 1);
    assert!(log.quota("c").has_state, "the pass must apply the usage snapshot");
    assert_eq!(log.quota("c").utilization_5h, bits(0.12));
    assert_eq!(log.quota("c").utilization_7d, bits(0.34));
    assert!(!log.quota("p").has_state);
}

#[test]
fn poll_all_deduplicates_physical_accounts_across_upstreams() {
    let accounts = || Some(vec![member("acct", "shared-uuid", Some(CLAUDE_LOGIN), five_hour(10.0))]);
    let (primary, secondary) = (accounts(), accounts());
    let keys = [primary.as_ref().unwrap()[0].key, secondary.as_ref().unwrap()[0].key];
    let log = drive_pass(
        vec![
            provider("primary", AuthMode::ClaudeOauth, false),
            provider("secondary", AuthMode::ClaudeOauth, false),
        ],
        vec![primary, secondary],
    );
    assert_eq!(log.fetches, 1);
    for key in keys {
        assert_eq!(log.quota(key).utilization_5h, bits(0.10));
    }
    assert_eq!(log.polled, vec![(0, 0, Family::Claude)]);
    assert_eq!(log.synced, vec![0, 1]);
    assert_eq!(log.read, vec![(0, 0), (1, 0)]);
}

#[test]
fn a_failed_alias_does_not_block_the_next() {
    let log = drive_pass(
        vec![
            provider("a", AuthMode::ClaudeOauth, false),
            provider("b", AuthMode::ClaudeOauth, false),
            provider("c", AuthMode::ClaudeOauth, false),
        ],
        vec![
            Some(vec![member("acct", "shared-uuid", Some(CLAUDE_LOGIN), Usage::Oauth(None))]),
            Some(vec![
                member("acct", "shared-uuid", Some(CLAUDE_LOGIN), five_hour(30.0)),
                member("other", "other-uuid", Some(CLAUDE_LOGIN), five_hour(31.0)),
            ]),
            Some(vec![member("acct", "shared-uuid", Some(CLAUDE_LOGIN), five_hour(32.0))]),
        ],
    );
    assert_eq!(
        log.polled,
        vec![(0, 0, Family::Claude), (1, 0, Family::Claude), (1, 1, Family::Claude)]
    );
    assert_eq!(
        log.effects,
        vec!["sync 0", "poll 0 0", "sync 1", "poll 1 0", "poll 1 1", "sync 2"]
    );
    assert_eq!(log.quota("shared-uuid").utilization_5h, bits(0.30));
    assert_eq!(log.quota("other-uuid").utilization_5h, bits(0.31));
}

#[test]
fn a_later_alias_does_not_block_an_earlier_one() {
    let log = drive_pass(
        vec![provider("a", AuthMode::ClaudeOauth, false)],
        vec![Some(vec![
            member("first", "shared-uuid", Some(CLAUDE_LOGIN), Usage::Oauth(None)),
            member("second", "shared-uuid", Some(CLAUDE_LOGIN), five_hour(40.0)),
            member("third", "shared-uuid", Some(CLAUDE_LOGIN), five_hour(50.0)),
        ])],
    );
    assert_eq!(log.polled, vec![(0, 0, Family::Claude), (0, 1, Family::Claude)]);
    assert_eq!(log.quota("shared-uuid").utilization_5h, bits(0.40));
}

#[test]
fn a_pass_notes_each_account_once_and_leaves_the_rest() {
    let mut before = AccountQuota::new();
    before.has_state = true;
    before.utilization_5h = bits(0.90);
    before.reset_5h = Some(4_000_000_000);
    before.utilization_7d = bits(0.80);
    let mut quotas = HashMap::new();
    for key in ["shared-uuid", "failing", "static", "absent"] {
        quotas.insert(key.to_string(), before);
    }
    let nothing = UsageSnapshot { five_hour: None, seven_day: None, seven_day_oi: None };
    let log = drive_pass_on(
        quotas,
        vec![
            provider("a", AuthMode::ClaudeOauth, false),
            provider("b", AuthMode::ClaudeOauth, false),
        ],
        vec![
            Some(vec![
                member("empty", "shared-uuid", Some(CLAUDE_LOGIN), Usage::Oauth(Some(nothing))),
                member("failing", "failing", Some(CLAUDE_LOGIN), Usage::Oauth(None)),
                member("static", "static", Some(CLAUDE_SETUP), five_hour(1.0)),
            ]),
            Some(vec![
                member("second", "shared-uuid", Some(CLAUDE_LOGIN), five_hour(21.0)),
                member("third", "shared-uuid", Some(CLAUDE_LOGIN), five_hour(22.0)),
                member("new", "new", Some(CLAUDE_LOGIN), five_hour(23.0)),
            ]),
        ],
    );
    assert_eq!(
        log.effects,
        vec!["sync 0", "poll 0 0", "poll 0 1", "sync 1", "poll 1 0", "poll 1 2"]
    );
    let mut after = before;
    after.utilization_5h = bits(0.21);
    assert_eq!(log.quota("shared-uuid"), after);
    for key in ["failing", "static", "absent"] {
        assert_eq!(log.quota(key), before, "{key}");
    }
    let mut fresh = AccountQuota::new();
    fresh.has_state = true;
    fresh.utilization_5h = bits(0.23);
    assert_eq!(log.quota("new"), fresh);
    assert_eq!(log.quotas.len(), 5);
}

#[test]
fn non_refreshable_alias_does_not_block_refreshable_alias() {
    let static_alias = Member {
        config: env_account("static-alias"),
        key: "shared-uuid",
        file: None,
        usage: five_hour(99.0),
    };
    let log = drive_pass(
        vec![
            provider("a-static", AuthMode::ClaudeOauth, false),
            provider("b-refreshable", AuthMode::ClaudeOauth, false),
        ],
        vec![
            Some(vec![
                static_alias,
                member("setup", "shared-uuid", Some(CLAUDE_SETUP), five_hour(98.0)),
            ]),
            Some(vec![member("refreshable-alias", "shared-uuid", Some(CLAUDE_LOGIN), five_hour(42.0))]),
        ],
    );
    assert_eq!(
        log.polled,
        vec![(1, 0, Family::Claude)],
        "the refreshable alias must be polled"
    );
    assert_eq!(log.fetches, 1);
    assert_eq!(log.quota("shared-uuid").utilization_5h, bits(0.42));
    assert_eq!(log.read, vec![(0, 1), (1, 0)]);
}

#[test]
fn poll_all_polls_both_families() {
    const CODEX_LOGIN: &str = r#"{"auth_mode":"ChatGPT","tokens":{"access_token":"x.acct-both.y","account_id":"acct-both","refresh_token":"refresh"}}"#;
    const REPORT: &str = r#"{"primary_window":{"used_percent":66.0}}"#;
    let log = drive_pass(
        vec![
            provider("oauth-pool", AuthMode::ClaudeOauth, false),
            provider("codex", AuthMode::ChatgptOauth, true),
            provider("elsewhere", AuthMode::ChatgptOauth, false),
        ],
        vec![
            Some(vec![member("acct", "c", Some(CLAUDE_LOGIN), five_hour(15.0))]),
            Some(vec![
                member("codex-acct", "acct-both", Some(CODEX_LOGIN), Usage::Wham(REPORT)),
                member("misfiled", "m", Some(CLAUDE_LOGIN), Usage::Wham(REPORT)),
            ]),
            Some(vec![member("codex-acct", "x", Some(CODEX_LOGIN), Usage::Wham(REPORT))]),
        ],
    );
    assert_eq!(log.resolved, vec![0, 1]);
    assert_eq!(log.polled, vec![(0, 0, Family::Claude), (1, 0, Family::Codex)]);
    assert_eq!(log.fetches, 2);
    assert!(log.quota("c").has_state);
    assert_eq!(log.quota("c").utilization_5h, bits(0.15));
    assert!(log.quota("acct-both").has_state);
    assert_eq!(log.quota("acct-both").utilization_5h, bits(0.66));
    assert!(!log.quota("m").has_state);
    assert!(!log.quota("x").has_state);
}

#[test]
fn an_unresolved_provider_is_passed_over() {
    let accounts = || Some(vec![member("acct", "k", Some(CLAUDE_LOGIN), five_hour(25.0))]);
    let log = drive_pass(
        vec![
            provider("a", AuthMode::ClaudeOauth, false),
            provider("b", AuthMode::ClaudeOauth, false),
            provider("c", AuthMode::ClaudeOauth, false),
        ],
        vec![None, Some(Vec::new()), accounts()],
    );
    assert_eq!(log.resolved, vec![0, 1, 2]);
    assert_eq!(log.synced, vec![1, 2]);
    assert_eq!(log.polled, vec![(2, 0, Family::Claude)]);
    assert_eq!(log.quota("k").utilization_5h, bits(0.25));

    // Without it the same is synced and polled, one place earlier.
    let without = drive_pass(
        vec![
            provider("b", AuthMode::ClaudeOauth, false),
            provider("c", AuthMode::ClaudeOauth, false),
        ],
        vec![Some(Vec::new()), accounts()],
    );
    assert_eq!(without.synced, vec![0, 1]);
    assert_eq!(without.polled, vec![(1, 0, Family::Claude)]);
    assert_eq!(without.quotas, log.quotas);

    let empty = drive_pass(Vec::new(), Vec::new());
    assert!(empty.resolved.is_empty());
}

#[test]
fn spawn_usage_poller_is_noop_without_pool_config() {
    assert_eq!(usage_poller_plan(None), PollerPlan::Off);
    let disabled = PoolSettings { usage_refresh_seconds: None, usage_refresh_interval: None };
    assert_eq!(usage_poller_plan(Some(disabled)), PollerPlan::Off);
}

#[test]
fn a_raised_interval_is_reported() {
    let raised = PoolSettings {
        usage_refresh_seconds: Some(30),
        usage_refresh_interval: Some(60),
    };
    assert_eq!(
        usage_poller_plan(Some(raised)),
        PollerPlan::Every { interval_seconds: 60, clamped_from: Some(30) }
    );
    let kept = PoolSettings {
        usage_refresh_seconds: Some(300),
        usage_refresh_interval: Some(300),
    };
    assert_eq!(
        usage_poller_plan(Some(kept)),
        PollerPlan::Every { interval_seconds: 300, clamped_from: None }
    );
}

#[test]
fn noting_a_snapshot_twice_changes_nothing() {
    let snapshot = UsageSnapshot {
        five_hour: Some(UsageWindow { utilization: 1, resets_at: Some(5) }),
        seven_day: Some(UsageWindow { utilization: 2, resets_at: None }),
        seven_day_oi: None,
    };
    let mut quota = AccountQuota::new();
    quota.reset_7d = Some(9);
    quota.reset_7d_oi = Some(11);
    quota.note_usage(&snapshot);
    let once = quota;
    quota.note_usage(&snapshot);
    assert_eq!(quota, once);
    assert_eq!((quota.reset_5h, quota.reset_7d, quota.reset_7d_oi), (Some(5), Some(9), Some(11)));
    assert_eq!(quota.utilization_7d_oi, None);
}
