//! The persisted configuration record of a session.

use vstd::prelude::*;

verus! {

/// The settings of one session, as they are persisted in the config file:
/// connection parameters plus the identity the player registered under.
pub struct GameConfig {
    pub request_timeout_secs: i32,
    pub base_path: String,
    pub access_token: String,
    pub call_sign: String,
    pub faction: String,
    pub headquarters: String,
}

/// Abstract value of a [`GameConfig`]: the same fields over mathematical
/// sequences of characters.
pub ghost struct GameConfigView {
    pub request_timeout_secs: int,
    pub base_path: Seq<char>,
    pub access_token: Seq<char>,
    pub call_sign: Seq<char>,
    pub faction: Seq<char>,
    pub headquarters: Seq<char>,
}

impl View for GameConfig {
    type V = GameConfigView;

    open spec fn view(&self) -> GameConfigView {
        GameConfigView {
            request_timeout_secs: self.request_timeout_secs as int,
            base_path: self.base_path@,
            access_token: self.access_token@,
            call_sign: self.call_sign@,
            faction: self.faction@,
            headquarters: self.headquarters@,
        }
    }
}

impl GameConfig {
    /// An entirely empty configuration: no connection parameters and no
    /// identity at all.
    pub fn new() -> (r: GameConfig)
        ensures
            r@.request_timeout_secs == 0,
            r@.base_path.len() == 0,
            r@.access_token.len() == 0,
            r@.call_sign.len() == 0,
            r@.faction.len() == 0,
            r@.headquarters.len() == 0,
    {
        GameConfig {
            request_timeout_secs: 0,
            base_path: String::new(),
            access_token: String::new(),
            call_sign: String::new(),
            faction: String::new(),
            headquarters: String::new(),
        }
    }
}

/// The configuration written for a first-time user: the production API
/// root, a five-second request timeout, and an empty identity that a later
/// registration fills in.
pub open spec fn default_config() -> GameConfigView {
    GameConfigView {
        request_timeout_secs: 5,
        base_path: "https://api.spacetraders.io/v2"@,
        access_token: Seq::empty(),
        call_sign: Seq::empty(),
        faction: Seq::empty(),
        headquarters: Seq::empty(),
    }
}

impl Default for GameConfig {
    /// The first-time user's configuration, as [`default_config`] gives it.
    fn default() -> (r: GameConfig)
        ensures
            r@ == default_config(),
    {
        GameConfig {
            request_timeout_secs: 5,
            base_path: String::from_str("https://api.spacetraders.io/v2"),
            access_token: String::new(),
            call_sign: String::new(),
            faction: String::new(),
            headquarters: String::new(),
        }
    }
}

} // verus!
