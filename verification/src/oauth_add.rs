//! The window in which an account is added.
use vstd::prelude::*;

use crate::inputs::{AccountsAddOauthInput, OauthProviderInfo};
use crate::model;
use crate::model::Account;
use crate::text;
use crate::text::{str_eq, trim};

verus! {

/// How long the window stays open after an account was added, in milliseconds.
pub const CLOSE_AFTER_MS: u32 = 1_500;

/// How far adding an account has come.
#[derive(Debug, PartialEq, Eq)]
pub enum FlowState {
    Picker,
    Waiting { provider_name: String },
    Success(Account),
    Error(String),
}

/// The window's state.
#[derive(Debug, PartialEq, Eq)]
pub struct OauthFlow {
    pub state: FlowState,
    pub email: String,
    pub selected: Option<OauthProviderInfo>,
}

impl OauthFlow {
    /// A window that was just opened.
    pub fn new() -> (r: OauthFlow)
        ensures
            r.state is Picker,
            r.email@ == Seq::<char>::empty(),
            r.selected is None,
    {
        OauthFlow { state: FlowState::Picker, email: String::new(), selected: None }
    }

    /// Is this the provider that was chosen?
    pub fn is_selected(&self, provider: &OauthProviderInfo) -> (r: bool)
        ensures
            r == (self.selected is Some && self.selected->0.slug@ == provider.slug@),
    {
        match &self.selected {
            Some(p) => str_eq(p.slug.as_str(), provider.slug.as_str()),
            None => false,
        }
    }

    /// Can signing in start? A provider and an address are needed.
    pub open spec fn is_ready(self) -> bool {
        self.selected is Some && text::trimmed(self.email@).len() > 0
    }

    /// See [`OauthFlow::is_ready`].
    pub fn can_submit(&self) -> (r: bool)
        ensures
            r == self.is_ready(),
    {
        let email = trim(self.email.as_str());
        self.selected.is_some() && !email.as_str().is_empty()
    }

    /// Starts signing in, and gives the request for the host. Nothing happens
    /// while a provider or an address is missing.
    pub fn submit(&mut self) -> (r: Option<AccountsAddOauthInput>)
        ensures
            final(self).email == old(self).email,
            final(self).selected == old(self).selected,
            match r {
                Some(i) => {
                    &&& old(self).is_ready()
                    &&& i.provider@ == old(self).selected->0.slug@
                    &&& i.email@ == text::trimmed(old(self).email@)
                    &&& final(self).state matches FlowState::Waiting { provider_name }
                        && provider_name@ == old(self).selected->0.name@
                },
                None => !old(self).is_ready() && final(self).state == old(self).state,
            },
    {
        let email = trim(self.email.as_str());
        if email.as_str().is_empty() {
            return None;
        }
        let (slug, name) = match &self.selected {
            Some(p) => (p.slug.clone(), p.name.clone()),
            None => return None,
        };
        self.state = FlowState::Waiting { provider_name: name };
        Some(AccountsAddOauthInput { provider: slug, email })
    }

    /// The host answered. The window closes by itself once the account was
    /// added.
    pub fn answered(&mut self, answer: Result<Account, String>) -> (closes: bool)
        ensures
            final(self).email == old(self).email,
            final(self).selected == old(self).selected,
            closes == (answer is Ok),
            final(self).state == match answer {
                Ok(a) => FlowState::Success(a),
                Err(e) => FlowState::Error(e),
            },
    {
        match answer {
            Ok(a) => {
                self.state = FlowState::Success(a);
                true
            },
            Err(e) => {
                self.state = FlowState::Error(e);
                false
            },
        }
    }

    /// Goes back to the choice of a provider after a failure. What was chosen
    /// and typed stays.
    pub fn try_again(&mut self)
        ensures
            *final(self) == (OauthFlow { state: FlowState::Picker, ..*old(self) }),
    {
        self.state = FlowState::Picker;
    }

    /// What the window tells the user, where it tells anything.
    pub open spec fn status(self) -> Option<Seq<char>> {
        match self.state {
            FlowState::Picker => None,
            FlowState::Waiting { provider_name } => Some(
                "Waiting for browser approval at "@ + provider_name@ + "…"@,
            ),
            FlowState::Success(a) => Some("Added "@ + a.email_address@ + "."@),
            FlowState::Error(e) => Some(e@),
        }
    }

    /// See [`OauthFlow::status`].
    pub fn status_text(&self) -> (r: Option<String>)
        ensures
            model::opt_text(r) == self.status(),
    {
        match &self.state {
            FlowState::Picker => None,
            FlowState::Waiting { provider_name } => {
                let mut t = "Waiting for browser approval at ".to_owned();
                t.append(provider_name.as_str());
                t.append("…");
                Some(t)
            },
            FlowState::Success(a) => {
                let mut t = "Added ".to_owned();
                t.append(a.email_address.as_str());
                t.append(".");
                Some(t)
            },
            FlowState::Error(e) => Some(e.clone()),
        }
    }
}

/// A failed attempt loses nothing: after going back the same request can be
/// made again.
pub proof fn law_a_failure_keeps_what_was_entered(before: OauthFlow, failed: OauthFlow)
    requires
        before.is_ready(),
        failed.email == before.email,
        failed.selected == before.selected,
    ensures
        (OauthFlow { state: FlowState::Picker, ..failed }).is_ready(),
        (OauthFlow { state: FlowState::Picker, ..failed }).selected == before.selected,
        (OauthFlow { state: FlowState::Picker, ..failed }).email == before.email,
{
}

/// An account can be added once a provider is chosen and an address is entered.
pub proof fn law_a_provider_and_an_address_are_needed(f: OauthFlow)
    ensures
        f.is_ready() <==> f.selected is Some && text::trimmed(f.email@).len() > 0,
{
}

/// The window says how the attempt stands: whom it waits for, whom it added, or
/// what failed.
pub proof fn law_the_attempt_says_how_it_stands(f: OauthFlow)
    ensures
        f.state is Picker ==> f.status() is None,
        f.state matches FlowState::Waiting { provider_name } ==> f.status() == Some(
            "Waiting for browser approval at "@ + provider_name@ + "…"@,
        ),
        f.state matches FlowState::Success(a) ==> f.status() == Some(
            "Added "@ + a.email_address@ + "."@,
        ),
        f.state matches FlowState::Error(e) ==> f.status() == Some(e@),
{
}

/// The window stays for a second and a half after it has added an account.
pub proof fn law_the_window_stays_for_a_moment()
    ensures
        CLOSE_AFTER_MS == 1_500,
{
}

} // verus!
