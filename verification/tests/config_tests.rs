use stclient::GameConfig;
use stclient::parse_config;
use stclient::to_json;

fn sample_config() -> GameConfig {
    GameConfig {
        request_timeout_secs: 30,
        base_path: String::from("https://api.example.test/v2"),
        access_token: String::from("tok-abc-123"),
        call_sign: String::from("BADGER"),
        faction: String::from("COSMIC"),
        headquarters: String::from("X1-DF55-20250Z"),
    }
}

#[test]
fn roundtrip_of_a_filled_config() {
    let c = sample_config();
    let text = to_json(&c);
    let back = parse_config(&text).unwrap();
    assert_eq!(back.request_timeout_secs, c.request_timeout_secs);
    assert_eq!(back.base_path, c.base_path);
    assert_eq!(back.access_token, c.access_token);
    assert_eq!(back.call_sign, c.call_sign);
    assert_eq!(back.faction, c.faction);
    assert_eq!(back.headquarters, c.headquarters);
}

#[test]
fn roundtrip_of_the_empty_config() {
    let c = GameConfig::new();
    let text = to_json(&c);
    let back = parse_config(&text).unwrap();
    assert_eq!(back.request_timeout_secs, 0);
    assert_eq!(back.base_path, "");
    assert_eq!(back.access_token, "");
}

#[test]
fn roundtrip_of_a_negative_timeout() {
    let mut c = GameConfig::new();
    c.request_timeout_secs = -17;
    let text = to_json(&c);
    let back = parse_config(&text).unwrap();
    assert_eq!(back.request_timeout_secs, -17);
}

#[test]
fn default_config_writes_the_documented_text() {
    let text = to_json(&GameConfig::default());
    let expected = "{\n  \"request_timeout_secs\": 5,\n  \"base_path\": \"https://api.spacetraders.io/v2\",\n  \"access_token\": \"\",\n  \"call_sign\": \"\",\n  \"faction\": \"\",\n  \"headquarters\": \"\"\n}";
    assert_eq!(text, expected);
}

#[test]
fn parse_rejects_empty_text() {
    assert!(parse_config("").is_err());
}

#[test]
fn parse_rejects_garbage() {
    assert!(parse_config("not a config at all").is_err());
}

#[test]
fn parse_rejects_a_truncated_file() {
    let text = to_json(&GameConfig::default());
    let cut = &text[..text.len() - 2];
    assert!(parse_config(cut).is_err());
}

#[test]
fn parse_rejects_trailing_text() {
    let mut text = to_json(&GameConfig::default());
    text.push_str(" ");
    assert!(parse_config(&text).is_err());
}

#[test]
fn parse_rejects_an_invalid_escape() {
    let text = "{\n  \"request_timeout_secs\": 5,\n  \"base_path\": \"a\\b\",\n  \"access_token\": \"\",\n  \"call_sign\": \"\",\n  \"faction\": \"\",\n  \"headquarters\": \"\"\n}";
    assert!(parse_config(text).is_err());
}

#[test]
fn quotes_and_backslashes_are_escaped_in_the_file() {
    let mut c = GameConfig::new();
    c.access_token = String::from("a\"b\\c");
    let text = to_json(&c);
    assert!(text.contains("\"access_token\": \"a\\\"b\\\\c\""));
}

#[test]
fn roundtrip_of_quotes_and_backslashes() {
    let mut c = GameConfig::new();
    c.access_token = String::from("a\"b\\c");
    c.call_sign = String::from("\\\\start");
    c.headquarters = String::from("end\"");
    let back = parse_config(&to_json(&c)).unwrap();
    assert_eq!(back.access_token, "a\"b\\c");
    assert_eq!(back.call_sign, "\\\\start");
    assert_eq!(back.headquarters, "end\"");
}

#[test]
fn parse_rejects_an_oversized_timeout() {
    let text = "{\n  \"request_timeout_secs\": 99999999999,\n  \"base_path\": \"\",\n  \"access_token\": \"\",\n  \"call_sign\": \"\",\n  \"faction\": \"\",\n  \"headquarters\": \"\"\n}";
    assert!(parse_config(text).is_err());
}

#[test]
fn parse_rejects_a_leading_zero_timeout() {
    let text = "{\n  \"request_timeout_secs\": 007,\n  \"base_path\": \"\",\n  \"access_token\": \"\",\n  \"call_sign\": \"\",\n  \"faction\": \"\",\n  \"headquarters\": \"\"\n}";
    assert!(parse_config(text).is_err());
}

#[test]
fn parse_reads_a_timeout_at_the_signed_bounds() {
    let text = "{\n  \"request_timeout_secs\": 2147483647,\n  \"base_path\": \"\",\n  \"access_token\": \"\",\n  \"call_sign\": \"\",\n  \"faction\": \"\",\n  \"headquarters\": \"\"\n}";
    assert_eq!(parse_config(text).unwrap().request_timeout_secs, 2147483647);
    let low = "{\n  \"request_timeout_secs\": -2147483648,\n  \"base_path\": \"\",\n  \"access_token\": \"\",\n  \"call_sign\": \"\",\n  \"faction\": \"\",\n  \"headquarters\": \"\"\n}";
    assert_eq!(parse_config(low).unwrap().request_timeout_secs, -2147483648);
}
