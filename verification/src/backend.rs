//! Connections to mail servers: which one an account needs, how long a
//! connection is kept, and what is tried again.
use vstd::prelude::*;

use crate::model;
use crate::model::{Account, AccountId, BackendKind};
use crate::text;
use crate::text::{chars_of, first_index_of, str_eq, string_of};

verus! {

// ---------------------------------------------------------------------
// Errors
// ---------------------------------------------------------------------

/// Why a mail server could not be used.
#[derive(Debug, PartialEq, Eq)]
pub enum MailError {
    /// The server refused the credentials.
    Auth(String),
    /// The account is gone.
    NotFound,
    Other(String),
}

/// The contents of a [`MailError`].
pub enum MailErrorModel {
    Auth(Seq<char>),
    NotFound,
    Other(Seq<char>),
}

impl View for MailError {
    type V = MailErrorModel;

    open spec fn view(&self) -> MailErrorModel {
        match self {
            MailError::Auth(m) => MailErrorModel::Auth(m@),
            MailError::NotFound => MailErrorModel::NotFound,
            MailError::Other(m) => MailErrorModel::Other(m@),
        }
    }
}

/// Why an account's row could not be loaded.
#[derive(Debug, PartialEq, Eq)]
pub enum LookupError {
    NotFound,
    Failed(String),
}

// ---------------------------------------------------------------------
// Kept connections
// ---------------------------------------------------------------------

/// How long a connection is used before it is built anew, in milliseconds:
/// half an hour, well within the life of an access token.
pub const MAX_BACKEND_AGE_MS: u64 = 1_800_000;

/// The place that is kept for an account's connection.
#[derive(Debug, Clone, Copy, PartialEq, Eq, Structural)]
pub enum Slot {
    /// There is none.
    Absent,
    /// The connection is being built, or could not be built yet.
    Empty,
    /// There is a connection of this age in milliseconds.
    Filled { age_ms: u64 },
}

/// How a caller gets its connection.
#[derive(Debug, Clone, Copy, PartialEq, Eq, Structural)]
pub enum SlotStep {
    /// Use the connection that is there.
    UseCached,
    /// Wait at the same place, so that the connection is built once.
    Share,
    /// Set up a new place and build there.
    Renew,
}

/// How a caller gets its connection, by what is kept for the account.
pub fn slot_step(slot: Slot) -> (r: SlotStep)
    ensures
        r == match slot {
            Slot::Absent => SlotStep::Renew,
            Slot::Empty => SlotStep::Share,
            Slot::Filled { age_ms } => if age_ms < MAX_BACKEND_AGE_MS {
                SlotStep::UseCached
            } else {
                SlotStep::Renew
            },
        },
{
    match slot {
        Slot::Absent => SlotStep::Renew,
        Slot::Empty => SlotStep::Share,
        Slot::Filled { age_ms } => {
            if age_ms < MAX_BACKEND_AGE_MS {
                SlotStep::UseCached
            } else {
                SlotStep::Renew
            }
        },
    }
}

/// How an attempt ended.
#[derive(Debug, Clone, Copy, PartialEq, Eq, Structural)]
pub enum AttemptEnd {
    Succeeded,
    /// The server refused the credentials.
    AuthFailed,
    Failed,
}

/// What follows an attempt.
#[derive(Debug, Clone, Copy, PartialEq, Eq, Structural)]
pub enum RetryStep {
    /// Hand over how the attempt ended.
    Finish,
    /// Drop the connection, get a new one and try again.
    EvictAndRetry,
}

/// What follows an attempt: refused credentials are renewed once, everything
/// else is final.
pub open spec fn step_after(earlier_attempts: u32, end: AttemptEnd) -> RetryStep {
    if earlier_attempts == 0 && end == AttemptEnd::AuthFailed {
        RetryStep::EvictAndRetry
    } else {
        RetryStep::Finish
    }
}

/// Nothing is tried more than twice, and again only where the server refused
/// the credentials.
pub proof fn law_nothing_is_tried_three_times(first: AttemptEnd, second: AttemptEnd)
    ensures
        step_after(1, second) == RetryStep::Finish,
        step_after(0, first) == RetryStep::EvictAndRetry ==> first == AttemptEnd::AuthFailed,
{
}

/// See [`step_after`].
pub fn with_auth_retry(earlier_attempts: u32, end: AttemptEnd) -> (r: RetryStep)
    ensures
        r == step_after(earlier_attempts, end),
{
    match end {
        AttemptEnd::AuthFailed => {
            if earlier_attempts == 0 {
                RetryStep::EvictAndRetry
            } else {
                RetryStep::Finish
            }
        },
        _ => RetryStep::Finish,
    }
}

// ---------------------------------------------------------------------
// Where an account connects to
// ---------------------------------------------------------------------

/// What a session with an IMAP server is opened with.
#[derive(Debug, PartialEq, Eq)]
pub struct ImapDialParams {
    pub host: String,
    pub port: u16,
    pub email: String,
    pub access_token: String,
}

/// The contents of [`ImapDialParams`].
pub struct ImapDialModel {
    pub host: Seq<char>,
    pub port: u16,
    pub email: Seq<char>,
    pub access_token: Seq<char>,
}

impl View for ImapDialParams {
    type V = ImapDialModel;

    open spec fn view(&self) -> ImapDialModel {
        ImapDialModel {
            host: self.host@,
            port: self.port,
            email: self.email@,
            access_token: self.access_token@,
        }
    }
}

/// What a session with a JMAP server is opened with.
#[derive(Debug, PartialEq, Eq)]
pub struct JmapDialParams {
    pub session_url: String,
    pub access_token: String,
}

/// The contents of [`JmapDialParams`].
pub struct JmapDialModel {
    pub session_url: Seq<char>,
    pub access_token: Seq<char>,
}

impl View for JmapDialParams {
    type V = JmapDialModel;

    open spec fn view(&self) -> JmapDialModel {
        JmapDialModel { session_url: self.session_url@, access_token: self.access_token@ }
    }
}

/// What an account connects with.
#[derive(Debug, PartialEq, Eq)]
pub enum DialPlan {
    Imap(ImapDialParams),
    Jmap(JmapDialParams),
}

/// The contents of a [`DialPlan`].
pub enum DialModel {
    Imap(ImapDialModel),
    Jmap(JmapDialModel),
}

impl View for DialPlan {
    type V = DialModel;

    open spec fn view(&self) -> DialModel {
        match self {
            DialPlan::Imap(p) => DialModel::Imap(p@),
            DialPlan::Jmap(p) => DialModel::Jmap(p@),
        }
    }
}

/// The provider in an account id: what stands before the first colon.
pub open spec fn provider_in(id: Seq<char>) -> Option<Seq<char>> {
    if id.contains(':') {
        Some(text::before_first(id, ':'))
    } else {
        None
    }
}

/// See [`provider_in`].
pub fn provider_slug_from_id(id: &AccountId) -> (r: Option<String>)
    ensures
        model::opt_text(r) == provider_in(id@),
{
    let v = chars_of(id.0.as_str());
    let i: usize = first_index_of(&v, ':');
    proof {
        text::lemma_first_where_bounds(v@, text::is_char(':'));
    }
    if i < v.len() {
        assert(v@.subrange(0, i as int) =~= id@.take(i as int));
        assert(id@.contains(id@[i as int]));
        Some(string_of(&v, 0, i))
    } else {
        assert forall|j: int| 0 <= j < id@.len() implies id@[j] != ':' by {
            assert(!text::is_char(':')(v@[j]));
        }
        None
    }
}

/// What the credentials of an account come to: its provider and an access
/// token, or why there is none.
pub open spec fn credentials(
    id: Seq<char>,
    provider_known: bool,
    token: Result<Seq<char>, Seq<char>>,
) -> Result<(Seq<char>, Seq<char>), MailErrorModel> {
    match provider_in(id) {
        None => Err(
            MailErrorModel::Other(
                "account id "@ + id + " does not follow `<provider>:<email>`"@,
            ),
        ),
        Some(slug) => if !provider_known {
            Err(MailErrorModel::Other("unknown provider: "@ + slug))
        } else {
            match token {
                Err(e) => Err(MailErrorModel::Auth("refresh access token: "@ + e)),
                Ok(t) => Ok((slug, t)),
            }
        },
    }
}

/// The contents of an answer to a token request.
pub open spec fn token_text(t: Result<String, String>) -> Result<Seq<char>, Seq<char>> {
    match t {
        Ok(s) => Ok(s@),
        Err(s) => Err(s@),
    }
}

/// See [`credentials`].
fn credentials_of(id: &AccountId, provider_known: bool, token: &Result<String, String>) -> (r:
    Result<(String, String), MailError>)
    ensures
        match r {
            Ok(p) => credentials(id@, provider_known, token_text(*token)) == Ok::<
                (Seq<char>, Seq<char>),
                MailErrorModel,
            >((p.0@, p.1@)),
            Err(e) => credentials(id@, provider_known, token_text(*token)) == Err::<
                (Seq<char>, Seq<char>),
                MailErrorModel,
            >(e@),
        },
{
    match provider_slug_from_id(id) {
        None => {
            let mut m = "account id ".to_owned();
            m.append(id.0.as_str());
            m.append(" does not follow `<provider>:<email>`");
            Err(MailError::Other(m))
        },
        Some(slug) => {
            if !provider_known {
                let mut m = "unknown provider: ".to_owned();
                m.append(slug.as_str());
                return Err(MailError::Other(m));
            }
            match token {
                Err(e) => {
                    let mut m = "refresh access token: ".to_owned();
                    m.append(e.as_str());
                    Err(MailError::Auth(m))
                },
                Ok(t) => Ok((slug, t.clone())),
            }
        },
    }
}

/// How an IMAP account connects, once its credentials are there.
pub open spec fn imap_dial(slug: Seq<char>, email: Seq<char>, token: Seq<char>) -> Result<
    ImapDialModel,
    MailErrorModel,
> {
    if slug == "gmail"@ {
        Ok(
            ImapDialModel {
                host: "imap.gmail.com"@,
                port: 993,
                email,
                access_token: token,
            },
        )
    } else {
        Err(MailErrorModel::Other("no hardcoded IMAP host for provider "@ + slug))
    }
}

/// See [`imap_dial`].
fn imap_dial_of(slug: String, email: &String, token: String) -> (r: Result<
    ImapDialParams,
    MailError,
>)
    ensures
        match r {
            Ok(p) => imap_dial(slug@, email@, token@) == Ok::<ImapDialModel, MailErrorModel>(p@),
            Err(e) => imap_dial(slug@, email@, token@) == Err::<ImapDialModel, MailErrorModel>(e@),
        },
{
    if str_eq(slug.as_str(), "gmail") {
        Ok(
            ImapDialParams {
                host: "imap.gmail.com".to_owned(),
                port: 993,
                email: email.clone(),
                access_token: token,
            },
        )
    } else {
        let mut m = "no hardcoded IMAP host for provider ".to_owned();
        m.append(slug.as_str());
        Err(MailError::Other(m))
    }
}

/// How a JMAP account connects, once its credentials are there.
pub open spec fn jmap_dial(slug: Seq<char>, token: Seq<char>) -> Result<
    JmapDialModel,
    MailErrorModel,
> {
    if slug == "fastmail"@ {
        Ok(
            JmapDialModel {
                session_url: "https://api.fastmail.com/.well-known/jmap"@,
                access_token: token,
            },
        )
    } else {
        Err(MailErrorModel::Other("no hardcoded JMAP session URL for provider "@ + slug))
    }
}

/// See [`jmap_dial`].
fn jmap_dial_of(slug: String, token: String) -> (r: Result<JmapDialParams, MailError>)
    ensures
        match r {
            Ok(p) => jmap_dial(slug@, token@) == Ok::<JmapDialModel, MailErrorModel>(p@),
            Err(e) => jmap_dial(slug@, token@) == Err::<JmapDialModel, MailErrorModel>(e@),
        },
{
    if str_eq(slug.as_str(), "fastmail") {
        Ok(
            JmapDialParams {
                session_url: "https://api.fastmail.com/.well-known/jmap".to_owned(),
                access_token: token,
            },
        )
    } else {
        let mut m = "no hardcoded JMAP session URL for provider ".to_owned();
        m.append(slug.as_str());
        Err(MailError::Other(m))
    }
}

/// How an account connects.
pub open spec fn dial(
    account: Account,
    provider_known: bool,
    token: Result<Seq<char>, Seq<char>>,
) -> Result<DialModel, MailErrorModel> {
    match credentials(account.id@, provider_known, token) {
        Err(e) => Err(e),
        Ok((slug, t)) => match account.kind {
            BackendKind::ImapSmtp => match imap_dial(slug, account.email_address@, t) {
                Ok(p) => Ok(DialModel::Imap(p)),
                Err(e) => Err(e),
            },
            BackendKind::Jmap => match jmap_dial(slug, t) {
                Ok(p) => Ok(DialModel::Jmap(p)),
                Err(e) => Err(e),
            },
            BackendKind::Other => Err(
                MailErrorModel::Other(
                    "account "@ + account.id@ + " uses an unsupported backend kind"@,
                ),
            ),
        },
    }
}

/// How an account connects, given whether its provider is known and what the
/// request for an access token gave.
pub fn open(account: &Account, provider_known: bool, token: &Result<String, String>) -> (r: Result<
    DialPlan,
    MailError,
>)
    ensures
        match r {
            Ok(p) => dial(*account, provider_known, token_text(*token)) == Ok::<
                DialModel,
                MailErrorModel,
            >(p@),
            Err(e) => dial(*account, provider_known, token_text(*token)) == Err::<
                DialModel,
                MailErrorModel,
            >(e@),
        },
{
    let (slug, t) = match credentials_of(&account.id, provider_known, token) {
        Ok(p) => p,
        Err(e) => return Err(e),
    };
    match account.kind {
        BackendKind::ImapSmtp => match imap_dial_of(slug, &account.email_address, t) {
            Ok(p) => Ok(DialPlan::Imap(p)),
            Err(e) => Err(e),
        },
        BackendKind::Jmap => match jmap_dial_of(slug, t) {
            Ok(p) => Ok(DialPlan::Jmap(p)),
            Err(e) => Err(e),
        },
        BackendKind::Other => {
            let mut m = "account ".to_owned();
            m.append(account.id.0.as_str());
            m.append(" uses an unsupported backend kind");
            Err(MailError::Other(m))
        },
    }
}

/// The report of an account that could not be loaded for a connection.
pub fn load_failed(id: &AccountId, reason: &str) -> (r: MailError)
    ensures
        r@ == MailErrorModel::Other(
            "loading account "@ + id@ + " for backend factory: "@ + reason@,
        ),
{
    let mut m = "loading account ".to_owned();
    m.append(id.0.as_str());
    m.append(" for backend factory: ");
    m.append(reason);
    MailError::Other(m)
}

/// What a watcher of an IMAP account connects with.
pub open spec fn imap_watch_dial(
    id: Seq<char>,
    account: Result<Account, LookupError>,
    provider_known: bool,
    token: Result<Seq<char>, Seq<char>>,
) -> Result<ImapDialModel, MailErrorModel> {
    match account {
        Err(LookupError::NotFound) => Err(MailErrorModel::NotFound),
        Err(LookupError::Failed(e)) => Err(
            MailErrorModel::Other("loading account "@ + id + " for IDLE: "@ + e@),
        ),
        Ok(a) => if a.kind != BackendKind::ImapSmtp {
            Err(
                MailErrorModel::Other(
                    "account "@ + a.id@ + " is not IMAP-backed; IDLE doesn't apply"@,
                ),
            )
        } else {
            match credentials(a.id@, provider_known, token) {
                Err(e) => Err(e),
                Ok((slug, t)) => imap_dial(slug, a.email_address@, t),
            }
        },
    }
}

/// See [`imap_watch_dial`].
pub fn fresh_imap_params(
    id: &AccountId,
    account: &Result<Account, LookupError>,
    provider_known: bool,
    token: &Result<String, String>,
) -> (r: Result<ImapDialParams, MailError>)
    ensures
        match r {
            Ok(p) => imap_watch_dial(id@, *account, provider_known, token_text(*token)) == Ok::<
                ImapDialModel,
                MailErrorModel,
            >(p@),
            Err(e) => imap_watch_dial(id@, *account, provider_known, token_text(*token)) == Err::<
                ImapDialModel,
                MailErrorModel,
            >(e@),
        },
{
    match account {
        Err(LookupError::NotFound) => Err(MailError::NotFound),
        Err(LookupError::Failed(e)) => {
            let mut m = "loading account ".to_owned();
            m.append(id.0.as_str());
            m.append(" for IDLE: ");
            m.append(e.as_str());
            Err(MailError::Other(m))
        },
        Ok(a) => {
            if a.kind != BackendKind::ImapSmtp {
                let mut m = "account ".to_owned();
                m.append(a.id.0.as_str());
                m.append(" is not IMAP-backed; IDLE doesn't apply");
                return Err(MailError::Other(m));
            }
            match credentials_of(&a.id, provider_known, token) {
                Ok((slug, t)) => imap_dial_of(slug, &a.email_address, t),
                Err(e) => Err(e),
            }
        },
    }
}

/// What a watcher of a JMAP account connects with.
pub open spec fn jmap_watch_dial(
    id: Seq<char>,
    account: Result<Account, LookupError>,
    provider_known: bool,
    token: Result<Seq<char>, Seq<char>>,
) -> Result<JmapDialModel, MailErrorModel> {
    match account {
        Err(LookupError::NotFound) => Err(MailErrorModel::NotFound),
        Err(LookupError::Failed(e)) => Err(
            MailErrorModel::Other("loading account "@ + id + " for JMAP push: "@ + e@),
        ),
        Ok(a) => if a.kind != BackendKind::Jmap {
            Err(
                MailErrorModel::Other(
                    "account "@ + a.id@ + " is not JMAP-backed; EventSource doesn't apply"@,
                ),
            )
        } else {
            match credentials(a.id@, provider_known, token) {
                Err(e) => Err(e),
                Ok((slug, t)) => jmap_dial(slug, t),
            }
        },
    }
}

/// See [`jmap_watch_dial`].
pub fn fresh_jmap_params(
    id: &AccountId,
    account: &Result<Account, LookupError>,
    provider_known: bool,
    token: &Result<String, String>,
) -> (r: Result<JmapDialParams, MailError>)
    ensures
        match r {
            Ok(p) => jmap_watch_dial(id@, *account, provider_known, token_text(*token)) == Ok::<
                JmapDialModel,
                MailErrorModel,
            >(p@),
            Err(e) => jmap_watch_dial(id@, *account, provider_known, token_text(*token)) == Err::<
                JmapDialModel,
                MailErrorModel,
            >(e@),
        },
{
    match account {
        Err(LookupError::NotFound) => Err(MailError::NotFound),
        Err(LookupError::Failed(e)) => {
            let mut m = "loading account ".to_owned();
            m.append(id.0.as_str());
            m.append(" for JMAP push: ");
            m.append(e.as_str());
            Err(MailError::Other(m))
        },
        Ok(a) => {
            if a.kind != BackendKind::Jmap {
                let mut m = "account ".to_owned();
                m.append(a.id.0.as_str());
                m.append(" is not JMAP-backed; EventSource doesn't apply");
                return Err(MailError::Other(m));
            }
            match credentials_of(&a.id, provider_known, token) {
                Ok((slug, t)) => jmap_dial_of(slug, t),
                Err(e) => Err(e),
            }
        },
    }
}

// ---------------------------------------------------------------------
// What is tried, and where an account connects to
// ---------------------------------------------------------------------

/// What the server refused is tried once more with fresh credentials; anything
/// else is final.
pub proof fn law_refused_credentials_are_renewed_once(earlier: u32, end: AttemptEnd)
    ensures
        step_after(0, AttemptEnd::AuthFailed) == RetryStep::EvictAndRetry,
        earlier > 0 ==> step_after(earlier, end) == RetryStep::Finish,
        end != AttemptEnd::AuthFailed ==> step_after(earlier, end) == RetryStep::Finish,
{
}

/// An account connects to the server of its provider, by its own kind, address
/// and token; and it connects only where its provider is known and gave a
/// token.
pub proof fn law_accounts_connect_to_their_provider(
    account: Account,
    provider_known: bool,
    token: Result<Seq<char>, Seq<char>>,
)
    ensures
        provider_known && token is Ok && account.kind == BackendKind::ImapSmtp && provider_in(
            account.id@,
        ) == Some("gmail"@) ==> dial(account, provider_known, token) == Ok::<
            DialModel,
            MailErrorModel,
        >(
            DialModel::Imap(
                ImapDialModel {
                    host: "imap.gmail.com"@,
                    port: 993,
                    email: account.email_address@,
                    access_token: token->Ok_0,
                },
            ),
        ),
        provider_known && token is Ok && account.kind == BackendKind::Jmap && provider_in(
            account.id@,
        ) == Some("fastmail"@) ==> dial(account, provider_known, token) == Ok::<
            DialModel,
            MailErrorModel,
        >(
            DialModel::Jmap(
                JmapDialModel {
                    session_url: "https://api.fastmail.com/.well-known/jmap"@,
                    access_token: token->Ok_0,
                },
            ),
        ),
        !provider_known || token is Err || provider_in(account.id@) is None ==> dial(
            account,
            provider_known,
            token,
        ) is Err,
        provider_known && provider_in(account.id@) is Some && token is Err ==> dial(
            account,
            provider_known,
            token,
        ) == Err::<DialModel, MailErrorModel>(
            MailErrorModel::Auth("refresh access token: "@ + token->Err_0),
        ),
{
}

/// A watcher connects to the same server as everything else, and only to one of
/// its own kind. That the account is gone is told apart from every other
/// failure.
pub proof fn law_watchers_connect_likewise(
    id: Seq<char>,
    account: Account,
    provider_known: bool,
    token: Result<Seq<char>, Seq<char>>,
)
    ensures
        account.kind == BackendKind::ImapSmtp ==> (match imap_watch_dial(
            id,
            Ok(account),
            provider_known,
            token,
        ) {
            Ok(p) => dial(account, provider_known, token) == Ok::<DialModel, MailErrorModel>(
                DialModel::Imap(p),
            ),
            Err(e) => dial(account, provider_known, token) == Err::<DialModel, MailErrorModel>(e),
        }),
        account.kind == BackendKind::Jmap ==> (match jmap_watch_dial(
            id,
            Ok(account),
            provider_known,
            token,
        ) {
            Ok(p) => dial(account, provider_known, token) == Ok::<DialModel, MailErrorModel>(
                DialModel::Jmap(p),
            ),
            Err(e) => dial(account, provider_known, token) == Err::<DialModel, MailErrorModel>(e),
        }),
        account.kind != BackendKind::ImapSmtp ==> imap_watch_dial(
            id,
            Ok(account),
            provider_known,
            token,
        ) is Err,
        account.kind != BackendKind::Jmap ==> jmap_watch_dial(
            id,
            Ok(account),
            provider_known,
            token,
        ) is Err,
        imap_watch_dial(id, Err(LookupError::NotFound), provider_known, token) == Err::<
            ImapDialModel,
            MailErrorModel,
        >(MailErrorModel::NotFound),
        jmap_watch_dial(id, Err(LookupError::NotFound), provider_known, token) == Err::<
            JmapDialModel,
            MailErrorModel,
        >(MailErrorModel::NotFound),
{
}

/// An account's id names its provider: what stands before its first colon.
pub proof fn law_the_provider_stands_first(provider: Seq<char>, rest: Seq<char>)
    requires
        !provider.contains(':'),
    ensures
        provider_in(provider + seq![':'] + rest) == Some(provider),
        provider_in(provider) is None,
{
    let id = provider + seq![':'] + rest;
    assert(id[provider.len() as int] == ':');
    assert forall|j: int| 0 <= j < provider.len() implies !text::is_char(':')(#[trigger] id[j]) by {
        assert(id[j] == provider[j]);
    }
    text::lemma_first_where(id, text::is_char(':'), provider.len() as int);
    assert(id.take(provider.len() as int) =~= provider);
}

/// A connection is used for half an hour.
pub proof fn law_connections_last_half_an_hour()
    ensures
        MAX_BACKEND_AGE_MS == 30 * 60 * 1000,
{
}

} // verus!
