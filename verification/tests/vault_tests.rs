use shipcat::config::VaultConfig;
use shipcat::ext::HttpReply;
use shipcat::vault::{classify_reply, parse_list_body, parse_secret_body, Mode, Vault, VaultError};

fn vault_config() -> VaultConfig {
    VaultConfig { url: "http://localhost:8200".to_string(), folder: "dev-uk".to_string() }
}

#[test]
fn mocked_mode_reads_fixed_value_regardless_of_key() {
    let client = Vault::mocked(&vault_config());
    assert_eq!(client.mode(), Mode::Mocked);
    let a = client.read(&"dev-uk/test-shipcat/FAKE_SECRET".to_string()).unwrap();
    let b = client.read(&"anything/else/AT_ALL".to_string()).unwrap();
    assert_eq!(a, "aGVsbG8gd29ybGQ=");
    assert_eq!(a, b);
}

#[test]
fn regional_client_keeps_address_and_token() {
    let client = Vault::regional(&vault_config(), "s.token".to_string());
    assert_eq!(client.mode(), Mode::Standard);
    assert_eq!(client.addr, "http://localhost:8200");
    assert_eq!(client.token, "s.token");
}

#[test]
fn read_body_with_string_value_parses() {
    let body = "{\"data\":{\"value\":\"hello\"},\"lease_duration\":3600}".to_string();
    let r = parse_secret_body(&"secret/dev-uk/test-shipcat/FAKE_SECRET".to_string(), &body);
    assert_eq!(r.unwrap(), "hello");
}

#[test]
fn read_body_with_integer_value_coerces_to_decimal_string() {
    let body = "{\"data\":{\"value\":-2},\"lease_duration\":3600}".to_string();
    let r = parse_secret_body(&"secret/dev-uk/test-shipcat/FAKE_NUMBER".to_string(), &body);
    assert_eq!(r.unwrap(), "-2");
}

#[test]
fn read_body_without_value_key_is_invalid_secret_form() {
    let body = "{\"data\":{\"other\":\"x\"},\"lease_duration\":3600}".to_string();
    let pth = "secret/dev-uk/test-shipcat/BROKEN".to_string();
    let r = parse_secret_body(&pth, &body);
    assert!(matches!(r, Err(VaultError::InvalidSecretForm(p)) if p == pth));
}

#[test]
fn list_body_filters_sub_folders() {
    let body =
        "{\"data\":{\"keys\":[\"FAKE_NUMBER\",\"FAKE_SECRET\",\"fake-file\",\"sub/\"]}}".to_string();
    let r = parse_list_body(&"http://localhost:8200/v1/secret/dev-uk".to_string(), &body);
    assert_eq!(
        r.unwrap(),
        vec!["FAKE_NUMBER".to_string(), "FAKE_SECRET".to_string(), "fake-file".to_string()]
    );
}

#[test]
fn non_2xx_reply_is_a_status_error_naming_status_and_url() {
    let url = "http://localhost:8200/v1/secret/dev-uk/x".to_string();
    let reply = HttpReply { status: 403, body: "permission denied".to_string() };
    let r = classify_reply(&url, reply);
    match r {
        Err(VaultError::UnexpectedHttpStatus(s, u)) => {
            assert_eq!(s, 403);
            assert_eq!(u, url);
            let msg = VaultError::UnexpectedHttpStatus(s, u).describe();
            assert_eq!(
                msg,
                "unexpected HTTP status 403 from http://localhost:8200/v1/secret/dev-uk/x"
            );
        }
        _ => panic!("expected a status error"),
    }
    let ok = classify_reply(&url, HttpReply { status: 200, body: "fine".to_string() });
    assert_eq!(ok.unwrap(), "fine");
}

#[test]
fn vault_error_messages_name_their_subject() {
    let e = VaultError::InvalidSecretForm("secret/dev-uk/webapp/KEY".to_string());
    assert_eq!(
        e.describe(),
        "secret 'secret/dev-uk/webapp/KEY' does not have the 'value' key"
    );
    assert_eq!(VaultError::MissingAddr.describe(), "VAULT_ADDR not specified");
    let u = VaultError::Url("http://localhost:8200/v1/x".to_string());
    assert!(u.describe().contains("http://localhost:8200/v1/x"));
}

#[test]
fn list_body_without_keys_is_an_error_naming_the_url() {
    let body = "{\"data\":{}}".to_string();
    let url = "http://localhost:8200/v1/secret/dev-uk".to_string();
    let r = parse_list_body(&url, &body);
    assert!(matches!(r, Err(VaultError::ListMissingKeys(u)) if u == url));
}
