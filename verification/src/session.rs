//! The session context: the loaded configuration together with the client
//! settings derived from it.

use vstd::prelude::*;

use crate::config::GameConfig;

verus! {

/// The settings the API client is driven by: the root URL of the remote
/// service and the bearer credential presented on authenticated calls.
pub struct ClientConfig {
    pub base_path: String,
    pub bearer_access_token: Option<String>,
}

/// Abstract value of a [`ClientConfig`].
pub ghost struct ClientConfigView {
    pub base_path: Seq<char>,
    pub bearer_access_token: Option<Seq<char>>,
}

impl View for ClientConfig {
    type V = ClientConfigView;

    open spec fn view(&self) -> ClientConfigView {
        ClientConfigView {
            base_path: self.base_path@,
            bearer_access_token: match self.bearer_access_token {
                Some(ref t) => Some(t@),
                None => None,
            },
        }
    }
}

/// The client settings are exactly the ones the configuration calls for:
/// its root URL verbatim, and its access token as the bearer credential.
pub open spec fn derived_from(api: ClientConfigView, cfg: crate::config::GameConfigView) -> bool {
    &&& api.base_path == cfg.base_path
    &&& api.bearer_access_token == Some(cfg.access_token)
}

/// One running session: the persisted configuration plus the client
/// settings derived from it.
pub struct ConfigWrapper {
    pub user_config: GameConfig,
    pub api_config: ClientConfig,
}

impl ConfigWrapper {
    /// The session is well formed when its client settings are a pure
    /// function of its configuration: they never desync.
    pub open spec fn wf(self) -> bool {
        derived_from(self.api_config@, self.user_config@)
    }

    /// Builds a session around a loaded configuration, deriving the client
    /// settings from it.
    pub fn new(game_config: GameConfig) -> (r: ConfigWrapper)
        ensures
            r.user_config@ == game_config@,
            r.wf(),
    {
        let base_path = game_config.base_path.clone();
        let token = game_config.access_token.clone();
        ConfigWrapper {
            user_config: game_config,
            api_config: ClientConfig { base_path, bearer_access_token: Some(token) },
        }
    }

    /// Re-derives the client settings from the configuration as it stands,
    /// leaving the configuration itself untouched.
    pub fn update(&mut self)
        ensures
            final(self).user_config@ == old(self).user_config@,
            final(self).wf(),
    {
        self.api_config.base_path = self.user_config.base_path.clone();
        self.api_config.bearer_access_token = Some(self.user_config.access_token.clone());
    }

    /// Records a successful registration: the returned token, the call sign
    /// registered under, and the faction joined become the session's
    /// identity, and the client settings are re-derived at once so every
    /// later call in the same run presents the new token.
    pub fn apply_registration(&mut self, token: String, call_sign: String, faction: String)
        ensures
            final(self).user_config@.access_token == token@,
            final(self).user_config@.call_sign == call_sign@,
            final(self).user_config@.faction == faction@,
            final(self).user_config@.base_path == old(self).user_config@.base_path,
            final(self).user_config@.request_timeout_secs == old(
                self,
            ).user_config@.request_timeout_secs,
            final(self).user_config@.headquarters == old(self).user_config@.headquarters,
            final(self).wf(),
            final(self).api_config@.bearer_access_token == Some(token@),
            final(self).api_config@.base_path == old(self).user_config@.base_path,
    {
        self.user_config.access_token = token;
        self.user_config.call_sign = call_sign;
        self.user_config.faction = faction;
        self.update();
    }
}

} // verus!
