use stclient::Args;
use stclient::FileStore;
use stclient::GameConfig;
use stclient::LoadError;
use stclient::StartupAction;
use stclient::backup_name;
use stclient::now_timestamp;
use stclient::parse_config;
use stclient::rotate_decision;
use stclient::rotate_done_message;
use stclient::startup_decision;
use stclient::to_json;

#[test]
fn startup_loads_when_the_file_exists() {
    assert_eq!(startup_decision(true, None), StartupAction::LoadExisting);
    assert_eq!(startup_decision(true, Some(false)), StartupAction::LoadExisting);
}

#[test]
fn startup_declined_halts_without_writing() {
    assert_eq!(startup_decision(false, Some(false)), StartupAction::HaltWithoutWriting);
    assert_eq!(startup_decision(false, None), StartupAction::HaltWithoutWriting);
}

#[test]
fn startup_accepted_creates_the_default_and_halts() {
    assert_eq!(startup_decision(false, Some(true)), StartupAction::CreateDefaultAndHalt);
    let mut store = FileStore::new();
    store.write_file(String::from("spacetraders.json"), to_json(&GameConfig::default()));
    let text = store.read_file(&String::from("spacetraders.json")).unwrap();
    let written = parse_config(&text).unwrap();
    assert_eq!(written.base_path, "https://api.spacetraders.io/v2");
    assert_eq!(written.access_token, "");
}

#[test]
fn rotate_decision_follows_the_prompt() {
    assert!(rotate_decision(Ok(true)).is_none());
    assert_eq!(rotate_decision(Ok(false)).unwrap(), "Existing config unchanged");
    assert_eq!(
        rotate_decision(Err(String::from("no tty"))).unwrap(),
        "Failed to read prompt no tty"
    );
    assert_eq!(rotate_done_message(), "Success");
}

#[test]
fn backup_names_join_path_and_stamp() {
    assert_eq!(
        backup_name(&String::from("spacetraders.json"), &String::from("20260101120000")),
        "spacetraders.json.20260101120000"
    );
}

#[test]
fn rotate_keeps_the_old_content_under_the_stamp() {
    let mut store = FileStore::new();
    let old_text = to_json(&GameConfig {
        request_timeout_secs: 9,
        base_path: String::from("https://api.example.test/v2"),
        access_token: String::from("tok"),
        call_sign: String::from("BADGER"),
        faction: String::from("COSMIC"),
        headquarters: String::from(""),
    });
    let path = String::from("spacetraders.json");
    store.write_file(path.clone(), old_text.clone());
    store.write_file(String::from("other.txt"), String::from("untouched"));
    let stamp = String::from("20260101120000");
    store.rotate(&path, &stamp).unwrap();
    let fresh = store.read_file(&path).unwrap();
    assert_eq!(fresh, to_json(&GameConfig::default()));
    let backed_up = store.read_file(&String::from("spacetraders.json.20260101120000")).unwrap();
    assert_eq!(backed_up, old_text);
    assert_eq!(store.read_file(&String::from("other.txt")).unwrap(), "untouched");
    assert_eq!(store.files.len(), 3);
}

#[test]
fn rotate_without_a_file_writes_nothing() {
    let mut store = FileStore::new();
    assert!(store.rotate(&String::from("spacetraders.json"), &String::from("1")).is_err());
    assert_eq!(store.files.len(), 0);
}

#[test]
fn load_distinguishes_absent_from_malformed() {
    let mut store = FileStore::new();
    let name = String::from("spacetraders.json");
    assert!(matches!(store.load_config(&name), Err(LoadError::NotFound)));
    store.write_file(name.clone(), String::from("scrambled"));
    assert!(matches!(store.load_config(&name), Err(LoadError::Malformed)));
}

#[test]
fn save_then_load_keeps_the_config() {
    let mut store = FileStore::new();
    let name = String::from("spacetraders.json");
    let c = GameConfig {
        request_timeout_secs: 12,
        base_path: String::from("https://api.example.test/v2"),
        access_token: String::from("tok"),
        call_sign: String::from("BADGER"),
        faction: String::from("COSMIC"),
        headquarters: String::from("X1-DF55"),
    };
    store.save_config(name.clone(), &c);
    let back = store.load_config(&name).unwrap();
    assert_eq!(back.request_timeout_secs, 12);
    assert_eq!(back.access_token, "tok");
    assert_eq!(back.headquarters, "X1-DF55");
}

#[test]
fn timestamps_are_at_least_fourteen_characters() {
    assert!(now_timestamp().len() >= 14);
}

#[test]
fn default_arguments_name_the_config_file() {
    let args = Args::default();
    assert_eq!(args.config_file, "spacetraders.json");
}
