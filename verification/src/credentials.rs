//! Which accounts a usage endpoint can be asked about.
//!
//! Only an imported login, one that carries a refresh token, can call the
//! endpoints. A credential taken from the environment is static, and so is a
//! credential file without a refresh token.

use vstd::prelude::*;

use crate::json::{json_of_bytes, Json, JsonView};

verus! {

/// The two kinds of accounts that are polled.
#[derive(Clone, Copy, Debug, PartialEq, Eq, Structural)]
pub enum Family {
    Claude,
    Codex,
}

/// What polling reads of an account's configuration.
#[derive(Debug)]
pub struct AccountConfig {
    pub name: String,
    /// The path of the credential file, where one is configured.
    pub credentials: Option<String>,
    /// The environment variable that supplies the token, where one does.
    pub token_env: Option<String>,
}

/// The content of an account's configuration.
pub ghost struct AccountView {
    pub name: Seq<char>,
    pub credentials: Option<Seq<char>>,
    pub token_env: Option<Seq<char>>,
}

/// The text of an optional string.
pub open spec fn optional_text(text: Option<String>) -> Option<Seq<char>> {
    match text {
        Some(t) => Some(t@),
        None => None,
    }
}

impl View for AccountConfig {
    type V = AccountView;

    open spec fn view(&self) -> AccountView {
        AccountView {
            name: self.name@,
            credentials: optional_text(self.credentials),
            token_env: optional_text(self.token_env),
        }
    }
}

/// A copy of an optional string.
fn copy_optional(text: &Option<String>) -> (copy: Option<String>)
    ensures
        optional_text(copy) == optional_text(*text),
{
    match text {
        Some(t) => Some(t.clone()),
        None => None,
    }
}

impl Clone for AccountConfig {
    fn clone(&self) -> (copy: AccountConfig)
        ensures
            copy@ == self@,
    {
        AccountConfig {
            name: self.name.clone(),
            credentials: copy_optional(&self.credentials),
            token_env: copy_optional(&self.token_env),
        }
    }
}

/// Where an account's credential comes from.
#[derive(Debug)]
pub enum CredentialSource {
    /// The environment; there is no file.
    Environment,
    /// The file at this path.
    File(String),
    /// The file that the account store keeps under this name.
    Store(String),
}

/// Where an account's credential comes from.
pub ghost enum SourceView {
    Environment,
    File(Seq<char>),
    Store(Seq<char>),
}

impl View for CredentialSource {
    type V = SourceView;

    open spec fn view(&self) -> SourceView {
        match *self {
            CredentialSource::Environment => SourceView::Environment,
            CredentialSource::File(path) => SourceView::File(path@),
            CredentialSource::Store(name) => SourceView::Store(name@),
        }
    }
}

/// Where an account's credential comes from: the environment where that is
/// configured, else the configured file, else the store.
pub open spec fn source_of(account: AccountView) -> SourceView {
    match (account.token_env, account.credentials) {
        (Some(_), _) => SourceView::Environment,
        (None, Some(path)) => SourceView::File(path),
        (None, None) => SourceView::Store(account.name),
    }
}

/// Where an account's credential comes from.
pub fn credential_source(account: &AccountConfig) -> (source: CredentialSource)
    ensures
        source@ == source_of(account@),
{
    if account.token_env.is_some() {
        return CredentialSource::Environment;
    }
    match &account.credentials {
        Some(path) => CredentialSource::File(path.clone()),
        None => CredentialSource::Store(account.name.clone()),
    }
}

/// The refresh token of a credential document, at the place where its family
/// keeps it.
pub open spec fn refresh_token_of(family: Family, document: JsonView) -> Option<Seq<char>> {
    let (section, name) = match family {
        Family::Claude => ("claudeAiOauth"@, "refreshToken"@),
        Family::Codex => ("tokens"@, "refresh_token"@),
    };
    match document.get(section) {
        Some(login) => match login.get(name) {
            Some(token) => token.as_str(),
            None => None,
        },
        None => None,
    }
}

/// Whether a credential document is an imported login: it holds a refresh
/// token that is not empty.
pub open spec fn is_imported(family: Family, document: JsonView) -> bool {
    refresh_token_of(family, document) matches Some(token) && token.len() > 0
}

/// Whether the contents of a credential file, if it could be read, are an
/// imported login.
pub open spec fn holds_login(family: Family, contents: Option<Seq<u8>>) -> bool {
    match contents {
        Some(bytes) => json_of_bytes(bytes) matches Some(document) && is_imported(family, document),
        None => false,
    }
}

/// Whether an account can be polled, given the contents of its credential file.
pub open spec fn is_refreshable(
    family: Family,
    account: AccountView,
    contents: Option<Seq<u8>>,
) -> bool {
    account.token_env is None && holds_login(family, contents)
}

/// The bytes of optional contents.
pub open spec fn optional_bytes(contents: Option<&[u8]>) -> Option<Seq<u8>> {
    match contents {
        Some(bytes) => Some(bytes@),
        None => None,
    }
}

/// Whether the text at `section` and `name` of a document is there and not
/// empty.
fn has_text_at(document: &Json, section: &str, name: &str) -> (yes: bool)
    ensures
        yes == {
            &&& document@.get(section@) matches Some(login)
            &&& login.get(name@) matches Some(token)
            &&& token.as_str() matches Some(text)
            &&& text.len() > 0
        },
{
    match document.get(section) {
        Some(login) => match login.get(name) {
            Some(token) => match token.as_str() {
                Some(text) => !text.is_empty(),
                None => false,
            },
            None => false,
        },
        None => false,
    }
}

/// Whether a credential document is an imported login of its family.
pub fn document_has_refresh_token(family: Family, document: &Json) -> (imported: bool)
    ensures
        imported == is_imported(family, document@),
{
    match family {
        Family::Claude => has_text_at(document, "claudeAiOauth", "refreshToken"),
        Family::Codex => has_text_at(document, "tokens", "refresh_token"),
    }
}

/// Whether the credential file of a `claude_oauth` account, given its contents
/// where it could be read, holds a refresh token: a setup token's file does not.
pub fn credential_file_has_refresh_token(contents: Option<&[u8]>) -> (imported: bool)
    ensures
        imported == holds_login(Family::Claude, optional_bytes(contents)),
{
    match contents {
        Some(bytes) => match Json::from_bytes(bytes) {
            Some(document) => document_has_refresh_token(Family::Claude, &document),
            None => false,
        },
        None => false,
    }
}

/// Whether the credential file of a `chatgpt_oauth` account, given its contents
/// where it could be read, holds a refresh token.
pub fn codex_credential_file_has_refresh_token(contents: Option<&[u8]>) -> (imported: bool)
    ensures
        imported == holds_login(Family::Codex, optional_bytes(contents)),
{
    match contents {
        Some(bytes) => match Json::from_bytes(bytes) {
            Some(document) => document_has_refresh_token(Family::Codex, &document),
            None => false,
        },
        None => false,
    }
}

/// Whether a `claude_oauth` account can be polled, given the contents of its
/// credential file where it could be read.
pub fn account_is_refreshable(account: &AccountConfig, contents: Option<&[u8]>) -> (yes: bool)
    ensures
        yes == is_refreshable(Family::Claude, account@, optional_bytes(contents)),
{
    if account.token_env.is_some() {
        return false;
    }
    credential_file_has_refresh_token(contents)
}

/// Whether a `chatgpt_oauth` account can be polled, given the contents of its
/// credential file where it could be read.
pub fn codex_account_is_refreshable(account: &AccountConfig, contents: Option<&[u8]>) -> (yes: bool)
    ensures
        yes == is_refreshable(Family::Codex, account@, optional_bytes(contents)),
{
    if account.token_env.is_some() {
        return false;
    }
    codex_credential_file_has_refresh_token(contents)
}

/// A credential from the environment is static, whatever any file holds.
pub proof fn law_environment_is_static(
    family: Family,
    account: AccountView,
    contents: Option<Seq<u8>>,
)
    requires
        account.token_env is Some,
    ensures
        !is_refreshable(family, account, contents),
        source_of(account) == SourceView::Environment,
{
}

/// A file that cannot be read, is not JSON, or keeps no refresh token where its
/// family does, makes no account pollable.
pub proof fn law_only_imported_logins(
    family: Family,
    account: AccountView,
    contents: Option<Seq<u8>>,
)
    ensures
        is_refreshable(family, account, contents) ==> {
            &&& contents matches Some(bytes)
            &&& json_of_bytes(bytes) matches Some(document)
            &&& refresh_token_of(family, document) matches Some(token)
            &&& token != Seq::<char>::empty()
        },
{
}

/// Without a token from the environment, a configured path is the source of the
/// credential, and without a path the account store is, under the account's
/// name.
pub proof fn law_configured_file_comes_before_the_store(account: AccountView, path: Seq<char>)
    requires
        account.token_env is None,
    ensures
        account.credentials == Some(path) ==> source_of(account) == SourceView::File(path),
        account.credentials is None ==> source_of(account) == SourceView::Store(account.name),
{
}

/// Whether a document is an object whose member `section` is an object whose
/// member `name` is a text that is not empty.
pub open spec fn keeps_text(document: JsonView, section: Seq<char>, name: Seq<char>) -> bool {
    document matches JsonView::Object(outer) && outer.contains_key(section) && (outer[section]
        matches JsonView::Object(inner) && inner.contains_key(name) && (inner[name]
        matches JsonView::Text(text) && text.len() > 0))
}

/// An account is refreshable exactly if no environment variable supplies its
/// token and its credential file, wherever that is kept, could be read, is JSON,
/// and keeps a refresh token that is not empty: a `claude_oauth` one at
/// `claudeAiOauth` and `refreshToken`, a `chatgpt_oauth` one at `tokens` and
/// `refresh_token`.
pub proof fn law_refreshable_accounts(account: AccountView, bytes: Seq<u8>)
    ensures
        is_refreshable(Family::Claude, account, Some(bytes)) <==> account.token_env is None && (
        json_of_bytes(bytes) matches Some(document) && keeps_text(
            document,
            "claudeAiOauth"@,
            "refreshToken"@,
        )),
        is_refreshable(Family::Codex, account, Some(bytes)) <==> account.token_env is None && (
        json_of_bytes(bytes) matches Some(document) && keeps_text(
            document,
            "tokens"@,
            "refresh_token"@,
        )),
        !is_refreshable(Family::Claude, account, None),
        !is_refreshable(Family::Codex, account, None),
{
}

/// Where its credential file is kept, and what it is called, makes no account
/// more or less refreshable.
pub proof fn law_refreshable_wherever_the_file_is_kept(
    family: Family,
    account: AccountView,
    other: AccountView,
    contents: Option<Seq<u8>>,
)
    requires
        account.token_env is None,
        other.token_env is None,
    ensures
        is_refreshable(family, account, contents) == is_refreshable(family, other, contents),
        is_refreshable(family, account, contents) == holds_login(family, contents),
{
}

/// Which documents are imported logins.
pub proof fn law_imported_documents(document: JsonView)
    ensures
        is_imported(Family::Claude, document) <==> keeps_text(
            document,
            "claudeAiOauth"@,
            "refreshToken"@,
        ),
        is_imported(Family::Codex, document) <==> keeps_text(
            document,
            "tokens"@,
            "refresh_token"@,
        ),
{
}

/// A configuration and a source stand for the texts that they hold.
pub proof fn law_accounts_stand_for_themselves(
    account: AccountConfig,
    source: CredentialSource,
    contents: Option<&[u8]>,
)
    ensures
        account@.name == account.name@,
        account@.credentials == match account.credentials {
            Some(path) => Some(path@),
            None => None,
        },
        account@.token_env == match account.token_env {
            Some(variable) => Some(variable@),
            None => None,
        },
        source matches CredentialSource::Environment ==> source@ == SourceView::Environment,
        source matches CredentialSource::File(path) ==> source@ == SourceView::File(path@),
        source matches CredentialSource::Store(name) ==> source@ == SourceView::Store(name@),
        optional_bytes(contents) == match contents {
            Some(bytes) => Some(bytes@),
            None => None,
        },
{
}

} // verus!
