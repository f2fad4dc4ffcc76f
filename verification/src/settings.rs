//! Deployment settings and the session-token accessor.
//!
//! The settings arrive from configuration files (read by the driver)
//! and stay immutable for a run, except for the host address, which a
//! worker dedicated to a remote host points at that host. The token
//! accessor memoizes the one agent token a run mints: minting itself
//! is an outside signing call whose result the driver hands in.

use vstd::prelude::*;

verus! {

/// The per-deployment connection and identity settings.
#[derive(Debug, Clone)]
pub struct IoticsSettings {
    pub host_address: String,
    pub resolver_address: String,
    pub token_duration: usize,
    pub user_did: String,
    pub agent_did: String,
    pub agent_key_name: String,
    pub agent_name: String,
    pub agent_secret: String,
}

/// The whole configuration a run works under.
#[derive(Debug, Clone)]
pub struct Settings {
    pub iotics: IoticsSettings,
}

/// The character-level content of the settings.
pub struct IoticsSettingsView {
    pub host_address: Seq<char>,
    pub resolver_address: Seq<char>,
    pub token_duration: int,
    pub user_did: Seq<char>,
    pub agent_did: Seq<char>,
    pub agent_key_name: Seq<char>,
    pub agent_name: Seq<char>,
    pub agent_secret: Seq<char>,
}

impl View for IoticsSettings {
    type V = IoticsSettingsView;

    open spec fn view(&self) -> IoticsSettingsView {
        IoticsSettingsView {
            host_address: self.host_address@,
            resolver_address: self.resolver_address@,
            token_duration: self.token_duration as int,
            user_did: self.user_did@,
            agent_did: self.agent_did@,
            agent_key_name: self.agent_key_name@,
            agent_name: self.agent_name@,
            agent_secret: self.agent_secret@,
        }
    }
}

impl View for Settings {
    type V = IoticsSettingsView;

    open spec fn view(&self) -> IoticsSettingsView {
        self.iotics@
    }
}

/// Duplicate the settings, content for content.
pub fn clone_settings(s: &Settings) -> (r: Settings)
    ensures
        r@ == s@,
{
    Settings {
        iotics: IoticsSettings {
            host_address: s.iotics.host_address.clone(),
            resolver_address: s.iotics.resolver_address.clone(),
            token_duration: s.iotics.token_duration,
            user_did: s.iotics.user_did.clone(),
            agent_did: s.iotics.agent_did.clone(),
            agent_key_name: s.iotics.agent_key_name.clone(),
            agent_name: s.iotics.agent_name.clone(),
            agent_secret: s.iotics.agent_secret.clone(),
        },
    }
}

/// The view of an optional token.
pub open spec fn token_view(t: Option<String>) -> Option<Seq<char>> {
    match t {
        Some(s) => Some(s@),
        None => None,
    }
}

/// Explicit per-worker authentication state: the settings a worker
/// connects with, and the one agent token of the run, minted lazily
/// and then reused.
#[derive(Debug)]
pub struct AuthBuilder {
    pub settings: Settings,
    pub token: Option<String>,
}

impl AuthBuilder {
    /// A fresh builder around the given settings, with no token yet.
    pub fn new(settings: Settings) -> (r: AuthBuilder)
        ensures
            r.settings == settings,
            r.token is None,
    {
        AuthBuilder { settings, token: None }
    }

    /// A dedicated copy for one worker, carrying over the settings and
    /// whatever token the run has minted so far.
    pub fn from(auth_builder: &AuthBuilder) -> (r: AuthBuilder)
        ensures
            r.settings@ == auth_builder.settings@,
            token_view(r.token) == token_view(auth_builder.token),
    {
        let token = match &auth_builder.token {
            Some(t) => Some(t.clone()),
            None => None,
        };
        AuthBuilder { settings: clone_settings(&auth_builder.settings), token }
    }

    /// Point this builder at another host; everything else, the token
    /// included, stays as it was.
    pub fn update_host(&mut self, new_host_address: String)
        ensures
            final(self).settings.iotics.host_address == new_host_address,
            final(self).settings.iotics.resolver_address == old(
                self,
            ).settings.iotics.resolver_address,
            final(self).settings.iotics.token_duration == old(self).settings.iotics.token_duration,
            final(self).settings.iotics.user_did == old(self).settings.iotics.user_did,
            final(self).settings.iotics.agent_did == old(self).settings.iotics.agent_did,
            final(self).settings.iotics.agent_key_name == old(
                self,
            ).settings.iotics.agent_key_name,
            final(self).settings.iotics.agent_name == old(self).settings.iotics.agent_name,
            final(self).settings.iotics.agent_secret == old(self).settings.iotics.agent_secret,
            final(self).token == old(self).token,
    {
        self.settings.iotics.host_address = new_host_address;
    }

    /// The host address this builder connects to.
    pub fn get_host(&self) -> (r: String)
        ensures
            r@ == self.settings.iotics.host_address@,
    {
        self.settings.iotics.host_address.clone()
    }

    /// The session token: the memoized one when a call already minted
    /// it, else the bearer form of the freshly minted token handed in,
    /// which is then memoized. A second call never re-mints.
    pub fn get_token(&mut self, minted: &str) -> (r: String)
        ensures
            final(self).settings == old(self).settings,
            match old(self).token {
                Some(t) => r@ == t@ && final(self).token == old(self).token,
                None => r@ == "bearer "@ + minted@ && token_view(final(self).token) == Some(r@),
            },
    {
        match &self.token {
            Some(t) => t.clone(),
            None => {
                let mut token = String::from_str("bearer ");
                token.append(minted);
                let out = token.clone();
                self.token = Some(token);
                out
            },
        }
    }
}

} // verus!
