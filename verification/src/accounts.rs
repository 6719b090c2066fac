//! Adding and removing accounts.
use vstd::prelude::*;

use crate::backend;
use crate::backend::provider_slug_from_id;
use crate::inputs::AccountsAddOauthInput;
use crate::model;
use crate::model::{Account, AccountId, BackendKind, IpcError, IpcErrorKind};
use crate::text;

verus! {

/// The event that tells every window that accounts were added or removed.
pub const ACCOUNTS_EVENT: &'static str = "accounts_changed";

/// Which protocol a provider speaks.
#[derive(Debug, Clone, Copy, PartialEq, Eq, Structural)]
pub enum ProviderKind {
    ImapSmtp,
    Jmap,
    Other,
}

/// Where signing in failed.
#[derive(Debug, Clone, Copy, PartialEq, Eq, Structural)]
pub enum AuthErrorKind {
    /// The browser could not be opened.
    Browser,
    /// The provider answered with a refusal.
    AuthResponse,
    /// The provider gave no tokens.
    TokenExchange,
    Other,
}

/// Why signing in failed.
#[derive(Debug, PartialEq, Eq)]
pub struct AuthError {
    pub kind: AuthErrorKind,
    pub text: String,
}

/// What signing in gave.
#[derive(Debug, Clone, Copy, PartialEq, Eq, Structural)]
pub struct SignIn {
    /// There is a token with which access can be renewed.
    pub has_refresh_token: bool,
}

/// How a failure to sign in is reported.
pub open spec fn auth_error_kind(kind: AuthErrorKind) -> IpcErrorKind {
    match kind {
        AuthErrorKind::AuthResponse => IpcErrorKind::Permission,
        AuthErrorKind::TokenExchange => IpcErrorKind::Permission,
        _ => IpcErrorKind::Internal,
    }
}

/// The report of a failure to sign in.
pub fn map_auth_error(e: &AuthError) -> (r: IpcError)
    ensures
        r.kind == auth_error_kind(e.kind),
        r.message@ == "OAuth flow: "@ + e.text@,
{
    let kind = match e.kind {
        AuthErrorKind::AuthResponse => IpcErrorKind::Permission,
        AuthErrorKind::TokenExchange => IpcErrorKind::Permission,
        _ => IpcErrorKind::Internal,
    };
    let mut message = "OAuth flow: ".to_owned();
    message.append(e.text.as_str());
    IpcError { kind, message }
}

/// The id of an account: its provider and its address.
pub open spec fn account_id(provider: Seq<char>, email: Seq<char>) -> Seq<char> {
    provider + ":"@ + email
}

/// What adding an account comes to: its kind, or the kind of failure and its
/// text.
pub open spec fn added_kind(
    provider: Seq<char>,
    known: Option<ProviderKind>,
    sign_in: Result<SignIn, AuthError>,
) -> Result<BackendKind, (IpcErrorKind, Seq<char>)> {
    match known {
        None => Err((IpcErrorKind::NotFound, "unknown provider: "@ + provider)),
        Some(kind) => match sign_in {
            Err(e) => Err((auth_error_kind(e.kind), "OAuth flow: "@ + e.text@)),
            Ok(s) => if !s.has_refresh_token {
                Err(
                    (
                        IpcErrorKind::Internal,
                        "provider returned no refresh_token (user must include offline_access scope)"@,
                    ),
                )
            } else {
                match kind {
                    ProviderKind::ImapSmtp => Ok(BackendKind::ImapSmtp),
                    ProviderKind::Jmap => Ok(BackendKind::Jmap),
                    ProviderKind::Other => Err(
                        (
                            IpcErrorKind::Internal,
                            "provider "@ + provider + " uses an unsupported backend kind"@,
                        ),
                    ),
                }
            },
        },
    }
}

/// The account that is added once the user has signed in. `known` tells what
/// is known of the provider; `now` is in seconds since the Unix epoch.
pub fn accounts_add_oauth(
    input: &AccountsAddOauthInput,
    known: Option<ProviderKind>,
    sign_in: &Result<SignIn, AuthError>,
    now: i64,
) -> (r: Result<Account, IpcError>)
    ensures
        match r {
            Ok(a) => {
                &&& added_kind(input.provider@, known, *sign_in) == Ok::<
                    BackendKind,
                    (IpcErrorKind, Seq<char>),
                >(a.kind)
                &&& a.id@ == account_id(input.provider@, input.email@)
                &&& a.display_name@ == input.email@
                &&& a.email_address@ == input.email@
                &&& a.created_at == now
                &&& a.signature is None
                &&& a.notify_enabled
            },
            Err(e) => added_kind(input.provider@, known, *sign_in) == Err::<
                BackendKind,
                (IpcErrorKind, Seq<char>),
            >((e.kind, e.message@)),
        },
{
    let provider_kind = match known {
        Some(k) => k,
        None => {
            let mut message = "unknown provider: ".to_owned();
            message.append(input.provider.as_str());
            return Err(IpcError { kind: IpcErrorKind::NotFound, message });
        },
    };
    match sign_in {
        Err(e) => return Err(map_auth_error(e)),
        Ok(s) => {
            if !s.has_refresh_token {
                return Err(
                    IpcError {
                        kind: IpcErrorKind::Internal,
                        message:
                            "provider returned no refresh_token (user must include offline_access scope)".to_owned(),
                    },
                );
            }
        },
    }
    let kind = match provider_kind {
        ProviderKind::ImapSmtp => BackendKind::ImapSmtp,
        ProviderKind::Jmap => BackendKind::Jmap,
        ProviderKind::Other => {
            let mut message = "provider ".to_owned();
            message.append(input.provider.as_str());
            message.append(" uses an unsupported backend kind");
            return Err(IpcError { kind: IpcErrorKind::Internal, message });
        },
    };
    let mut id = input.provider.clone();
    id.append(":");
    id.append(input.email.as_str());
    Ok(
        Account {
            id: AccountId(id),
            kind,
            display_name: input.email.clone(),
            email_address: input.email.clone(),
            created_at: now,
            signature: None,
            notify_enabled: true,
        },
    )
}

/// How the row of an added account is written.
#[derive(Debug, Clone, Copy, PartialEq, Eq, Structural)]
pub enum RowWrite {
    Insert,
    Update,
}

/// An account that is added again replaces its row.
pub fn account_write(found: bool) -> (r: RowWrite)
    ensures
        r == if found {
            RowWrite::Update
        } else {
            RowWrite::Insert
        },
{
    if found {
        RowWrite::Update
    } else {
        RowWrite::Insert
    }
}

/// The report of a token that could not be kept.
pub fn token_not_kept(reason: &str) -> (r: IpcError)
    ensures
        r.kind == IpcErrorKind::Internal,
        r.message@ == "persist refresh token: "@ + reason@,
{
    let mut message = "persist refresh token: ".to_owned();
    message.append(reason);
    IpcError { kind: IpcErrorKind::Internal, message }
}

/// The signature that is kept: an empty one is none.
pub open spec fn kept_signature(signature: Option<Seq<char>>) -> Option<Seq<char>> {
    match signature {
        Some(s) => if s.len() == 0 {
            None
        } else {
            Some(s)
        },
        None => None,
    }
}

/// See [`kept_signature`].
pub fn signature_to_keep(signature: Option<String>) -> (r: Option<String>)
    ensures
        model::opt_text(r) == kept_signature(model::opt_text(signature)),
{
    match signature {
        Some(s) => {
            if s.as_str().is_empty() {
                None
            } else {
                Some(s)
            }
        },
        None => None,
    }
}

/// The provider whose token is revoked when an account is removed, if the
/// account's id names one. Its token is deleted here in any case.
pub fn revocation_provider(id: &AccountId) -> (r: Option<String>)
    ensures
        model::opt_text(r) == backend::provider_in(id@),
{
    provider_slug_from_id(id)
}

/// Are the collected correspondents dropped with the account? They belong to
/// no account of their own, so they go with the last one.
pub fn drops_contacts(remaining_accounts: usize) -> (r: bool)
    ensures
        r == (remaining_accounts == 0),
{
    remaining_accounts == 0
}

/// The id of an account names the provider that the account was added with, as
/// long as the provider's name holds no colon; the address may hold any.
pub proof fn law_account_id_names_its_provider(provider: Seq<char>, email: Seq<char>)
    requires
        !provider.contains(':'),
    ensures
        backend::provider_in(account_id(provider, email)) == Some(provider),
{
    reveal_strlit(":");
    let id = account_id(provider, email);
    let n = provider.len() as int;
    assert(id[n] == ':');
    assert(id.contains(':'));
    assert forall|j: int| 0 <= j < n implies !text::is_char(':')(#[trigger] id[j]) by {
        assert(id[j] == provider[j]);
        assert(provider.contains(provider[j]));
    }
    text::lemma_first_where(id, text::is_char(':'), n);
    assert(id.take(n) =~= provider);
}

/// An account is added exactly where the provider is known and supported and
/// the sign-in gave a token that can be refreshed, and is then of the
/// provider's kind.
pub proof fn law_an_account_is_added_after_a_full_sign_in(
    provider: Seq<char>,
    known: Option<ProviderKind>,
    sign_in: Result<SignIn, AuthError>,
)
    ensures
        added_kind(provider, known, sign_in) is Ok <==> (known == Some(ProviderKind::ImapSmtp)
            || known == Some(ProviderKind::Jmap)) && sign_in is Ok
            && sign_in->Ok_0.has_refresh_token,
        added_kind(provider, known, sign_in) is Ok ==> (added_kind(provider, known, sign_in)->Ok_0
            == BackendKind::ImapSmtp <==> known == Some(ProviderKind::ImapSmtp)) && (added_kind(
            provider,
            known,
            sign_in,
        )->Ok_0 == BackendKind::Jmap <==> known == Some(ProviderKind::Jmap)),
{
}

/// A sign-in that the provider refused is a matter of permission; any other
/// failure is the program's own.
pub proof fn law_refusals_are_told_apart(kind: AuthErrorKind)
    ensures
        auth_error_kind(kind) == IpcErrorKind::Permission <==> kind == AuthErrorKind::AuthResponse
            || kind == AuthErrorKind::TokenExchange,
        auth_error_kind(kind) == IpcErrorKind::Permission || auth_error_kind(kind)
            == IpcErrorKind::Internal,
{
}

/// An account is found again by provider and address: two accounts with the
/// same provider have the same id only if they have the same address.
pub proof fn law_account_ids_differ(provider: Seq<char>, email: Seq<char>, other: Seq<char>)
    ensures
        account_id(provider, email) == account_id(provider, other) ==> email == other,
        account_id(provider, email).len() == provider.len() + 1 + email.len(),
{
    reveal_strlit(":");
    let a = account_id(provider, email);
    let n = provider.len() as int + 1;
    assert(a.skip(n) =~= email);
    assert(account_id(provider, other).skip(n) =~= other);
}

/// A signature is kept as it was written; an empty one clears it.
pub proof fn law_signatures_are_kept_as_written(s: Seq<char>)
    ensures
        s.len() > 0 ==> kept_signature(Some(s)) == Some(s),
        s.len() == 0 ==> kept_signature(Some(s)) is None,
        kept_signature(None) is None,
{
}

/// A change of the accounts is announced by the event that windows wait for.
pub proof fn law_accounts_have_their_event()
    ensures
        ACCOUNTS_EVENT@ == "accounts_changed"@,
{
}

} // verus!
