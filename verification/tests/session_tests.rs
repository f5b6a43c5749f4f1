use stclient::ConfigWrapper;
use stclient::GameConfig;
use stclient::RegistrationData;
use stclient::handle_dump_config;
use stclient::handle_register;

fn base_config() -> GameConfig {
    GameConfig {
        request_timeout_secs: 5,
        base_path: String::from("https://api.example.test/v2"),
        access_token: String::from(""),
        call_sign: String::from(""),
        faction: String::from(""),
        headquarters: String::from(""),
    }
}

#[test]
fn new_session_derives_the_client_settings() {
    let mut c = base_config();
    c.access_token = String::from("tok");
    let ctx = ConfigWrapper::new(c);
    assert_eq!(ctx.api_config.base_path, "https://api.example.test/v2");
    assert_eq!(ctx.api_config.bearer_access_token.as_deref(), Some("tok"));
}

#[test]
fn apply_registration_exposes_token_and_base_path() {
    let mut ctx = ConfigWrapper::new(base_config());
    ctx.apply_registration(
        String::from("fresh-token"),
        String::from("BADGER"),
        String::from("COSMIC"),
    );
    assert_eq!(ctx.user_config.access_token, "fresh-token");
    assert_eq!(ctx.user_config.call_sign, "BADGER");
    assert_eq!(ctx.user_config.faction, "COSMIC");
    assert_eq!(ctx.api_config.bearer_access_token.as_deref(), Some("fresh-token"));
    assert_eq!(ctx.api_config.base_path, "https://api.example.test/v2");
}

#[test]
fn registration_scenario_updates_session_and_dump() {
    let mut ctx = ConfigWrapper::new(base_config());
    let outcome = Ok(RegistrationData {
        token: String::from("tkn123"),
        faction_name: String::from("COSMIC"),
    });
    let msg = handle_register(&mut ctx, &String::from("BADGER"), outcome);
    assert_eq!(
        msg,
        "Successfully registered. Got token ( this will be saved on exit ) tkn123"
    );
    assert_eq!(ctx.user_config.access_token, "tkn123");
    assert_eq!(ctx.user_config.call_sign, "BADGER");
    let dump = handle_dump_config(&ctx);
    assert!(dump.contains("tkn123"));
    assert!(dump.contains("BADGER"));
}

#[test]
fn failed_registration_leaves_the_session_alone() {
    let mut ctx = ConfigWrapper::new(base_config());
    let msg = handle_register(
        &mut ctx,
        &String::from("BADGER"),
        Err(String::from("connection refused")),
    );
    assert_eq!(msg, "Failed to register player connection refused");
    assert_eq!(ctx.user_config.access_token, "");
    assert_eq!(ctx.user_config.call_sign, "");
}
