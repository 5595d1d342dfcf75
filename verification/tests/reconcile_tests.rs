use shipcat::config::VaultConfig;
use shipcat::envvars::EnvVars;
use shipcat::manifest::Manifest;
use shipcat::reconcile::{cross_reference, SecretError};
use shipcat::structs::Sidecar;
use shipcat::vault::Vault;

fn vault_config() -> VaultConfig {
    VaultConfig { url: "http://localhost:8200".to_string(), folder: "dev-uk".to_string() }
}

fn mocked_client() -> Vault {
    Vault::mocked(&vault_config())
}

fn manifest_with_env(plain: Vec<(&str, &str)>, templated: Vec<(&str, &str)>) -> Manifest {
    let mut m = Manifest::default();
    m.name = "webapp".to_string();
    m.env = EnvVars {
        plain: plain.iter().map(|(k, v)| (k.to_string(), v.to_string())).collect(),
        templated: templated.iter().map(|(k, v)| (k.to_string(), v.to_string())).collect(),
    };
    m
}

#[test]
fn mocked_reads_fill_vault_sourced_keys() {
    let mut m = manifest_with_env(
        vec![("PLAIN", "value"), ("DATABASE_URL", "IN_VAULT")],
        vec![],
    );
    let client = mocked_client();
    assert!(m.secrets(&client, &vault_config()).is_ok());
    assert_eq!(m.secrets.len(), 1);
    assert_eq!(m.secrets[0].0, "DATABASE_URL");
    assert_eq!(m.secrets[0].1, "aGVsbG8gd29ybGQ=");
}

#[test]
fn reconciliation_is_idempotent_against_unchanged_store() {
    let mut m = manifest_with_env(
        vec![("DATABASE_URL", "IN_VAULT")],
        vec![("AUTH_SECRET", "rendered")],
    );
    m.secretFiles = vec![("keystore".to_string(), "IN_VAULT".to_string())];
    let client = mocked_client();
    assert!(m.secrets(&client, &vault_config()).is_ok());
    let first_secrets = m.secrets.clone();
    let first_files = m.secretFiles.clone();
    assert!(m.secrets(&client, &vault_config()).is_ok());
    assert_eq!(m.secrets, first_secrets);
    assert_eq!(m.secretFiles, first_files);
}

#[test]
fn template_conflict_with_different_values_always_fails() {
    let mut m = manifest_with_env(vec![], vec![("AUTH", "one")]);
    m.sidecars = vec![Sidecar {
        name: "redis".to_string(),
        version: None,
        env: EnvVars {
            plain: vec![],
            templated: vec![("AUTH".to_string(), "two".to_string())],
        },
    }];
    let client = mocked_client();
    let r = m.secrets(&client, &vault_config());
    assert!(matches!(r, Err(SecretError::TemplateConflict(k)) if k == "AUTH"));
}

#[test]
fn template_repetition_with_identical_values_succeeds() {
    let mut m = manifest_with_env(vec![], vec![("AUTH", "same")]);
    m.sidecars = vec![Sidecar {
        name: "redis".to_string(),
        version: None,
        env: EnvVars {
            plain: vec![],
            templated: vec![("AUTH".to_string(), "same".to_string())],
        },
    }];
    let client = mocked_client();
    assert!(m.secrets(&client, &vault_config()).is_ok());
    assert_eq!(m.secrets.len(), 1);
    assert_eq!(m.secrets[0].1, "same");
}

#[test]
fn vault_and_template_sourcing_with_different_values_fails() {
    let mut m = manifest_with_env(
        vec![("TOKEN", "IN_VAULT")],
        vec![("TOKEN", "not-the-store-value")],
    );
    let client = mocked_client();
    let r = m.secrets(&client, &vault_config());
    assert!(matches!(r, Err(SecretError::SourceConflict(k)) if k == "TOKEN"));
}

#[test]
fn vault_and_template_sourcing_with_identical_values_succeeds() {
    let mut m = manifest_with_env(
        vec![("TOKEN", "IN_VAULT")],
        vec![("TOKEN", "aGVsbG8gd29ybGQ=")],
    );
    let client = mocked_client();
    assert!(m.secrets(&client, &vault_config()).is_ok());
    assert_eq!(m.secrets.len(), 1);
    assert_eq!(m.secrets[0].0, "TOKEN");
    assert_eq!(m.secrets[0].1, "aGVsbG8gd29ybGQ=");
}

#[test]
fn secret_files_replaced_and_checked_as_base64() {
    let mut m = manifest_with_env(vec![], vec![]);
    m.secretFiles = vec![
        ("good".to_string(), "aGVsbG8gd29ybGQgYmFzZTY0Cg==".to_string()),
        ("fetched".to_string(), "IN_VAULT".to_string()),
    ];
    let client = mocked_client();
    assert!(m.secrets(&client, &vault_config()).is_ok());
    assert_eq!(m.secretFiles[0].1, "aGVsbG8gd29ybGQgYmFzZTY0Cg==");
    assert_eq!(m.secretFiles[1].1, "aGVsbG8gd29ybGQ=");
}

#[test]
fn non_base64_secret_file_fails_naming_file() {
    let mut m = manifest_with_env(vec![], vec![]);
    m.secretFiles = vec![("broken".to_string(), "not base64 at all!!".to_string())];
    let client = mocked_client();
    let r = m.secrets(&client, &vault_config());
    assert!(matches!(r, Err(SecretError::NotBase64(k)) if k == "broken"));
}

#[test]
fn env_secrets_collected_across_all_containers() {
    let mut m = manifest_with_env(vec![("A", "IN_VAULT")], vec![]);
    m.sidecars = vec![Sidecar {
        name: "redis".to_string(),
        version: None,
        env: EnvVars {
            plain: vec![("B".to_string(), "IN_VAULT".to_string()), ("A".to_string(), "IN_VAULT".to_string())],
            templated: vec![],
        },
    }];
    let client = mocked_client();
    assert!(m.secrets(&client, &vault_config()).is_ok());
    let keys: Vec<&str> = m.secrets.iter().map(|p| p.0.as_str()).collect();
    assert_eq!(keys, vec!["A", "B"]);
}

#[test]
fn verify_secrets_exist_trivial_when_nothing_declared() {
    let m = manifest_with_env(vec![("PLAIN", "v")], vec![]);
    let client = mocked_client();
    assert!(m.verify_secrets_exist(&client, &vault_config()).is_ok());
}

#[test]
fn cross_reference_reports_first_missing_key() {
    let keys = vec!["A".to_string(), "B".to_string()];
    let files = vec!["f".to_string()];
    let found = vec!["A".to_string(), "f".to_string()];
    let r = cross_reference(&keys, &files, &found);
    assert!(matches!(r, Err(SecretError::MissingSecret(k)) if k == "B"));
    let found_all = vec!["A".to_string(), "B".to_string(), "f".to_string()];
    assert!(cross_reference(&keys, &files, &found_all).is_ok());
    let missing_file = vec!["A".to_string(), "B".to_string()];
    let r2 = cross_reference(&keys, &files, &missing_file);
    assert!(matches!(r2, Err(SecretError::MissingSecretFile(k)) if k == "f"));
}

#[test]
fn secret_error_messages_name_service_and_key() {
    let svc = "webapp".to_string();
    let e = SecretError::SourceConflict("TOKEN".to_string());
    assert_eq!(
        e.describe(&svc),
        "webapp: secret TOKEN can not be both templated and fetched from vault"
    );
    let t = SecretError::TemplateConflict("AUTH".to_string());
    assert!(t.describe(&svc).contains("AUTH"));
    assert!(t.describe(&svc).starts_with("webapp: "));
    let b = SecretError::NotBase64("keystore".to_string());
    assert_eq!(b.describe(&svc), "webapp: secret keystore is not base64 encoded");
}

#[test]
fn conflict_errors_leave_the_manifest_untouched() {
    let mut m = manifest_with_env(
        vec![("TOKEN", "IN_VAULT")],
        vec![("TOKEN", "not-the-store-value")],
    );
    m.secretFiles = vec![("file".to_string(), "aGVsbG8=".to_string())];
    let client = mocked_client();
    let r = m.secrets(&client, &vault_config());
    assert!(matches!(r, Err(SecretError::SourceConflict(_))));
    assert!(m.secrets.is_empty());
    assert_eq!(m.secretFiles[0].1, "aGVsbG8=");
}

#[test]
fn standard_client_with_nothing_declared_succeeds_without_the_store() {
    // No vault-sourced keys and no sentinel files: the outcome is decided
    // by the library alone, so even a live-store handle never reaches the
    // network.
    let mut m = manifest_with_env(vec![("PLAIN", "v")], vec![("AUTH", "rendered")]);
    m.secretFiles = vec![("good".to_string(), "aGVsbG8=".to_string())];
    let client = Vault::regional(&vault_config(), "s.token".to_string());
    assert!(m.secrets(&client, &vault_config()).is_ok());
    assert_eq!(m.secrets, vec![("AUTH".to_string(), "rendered".to_string())]);
    assert_eq!(m.secretFiles[0].1, "aGVsbG8=");
}

#[test]
fn reconciled_secrets_bind_each_key_once() {
    let mut m = manifest_with_env(
        vec![("A", "IN_VAULT"), ("B", "IN_VAULT")],
        vec![("A", "aGVsbG8gd29ybGQ="), ("C", "tpl")],
    );
    m.sidecars = vec![Sidecar {
        name: "redis".to_string(),
        version: None,
        env: EnvVars {
            plain: vec![("A".to_string(), "IN_VAULT".to_string())],
            templated: vec![("C".to_string(), "tpl".to_string())],
        },
    }];
    let client = mocked_client();
    assert!(m.secrets(&client, &vault_config()).is_ok());
    let mut keys: Vec<&str> = m.secrets.iter().map(|p| p.0.as_str()).collect();
    let total = keys.len();
    keys.sort();
    keys.dedup();
    assert_eq!(keys.len(), total);
    assert_eq!(keys, vec!["A", "B", "C"]);
}

#[test]
fn get_vault_path_honours_overrides() {
    let mut m = manifest_with_env(vec![], vec![]);
    assert_eq!(m.get_vault_path(&vault_config()), "dev-uk/webapp");
    m.vault = Some(shipcat::structs::VaultOpts {
        name: "otherapp".to_string(),
        region: None,
    });
    assert_eq!(m.get_vault_path(&vault_config()), "dev-uk/otherapp");
    m.vault = Some(shipcat::structs::VaultOpts {
        name: "otherapp".to_string(),
        region: Some("dev-us".to_string()),
    });
    assert_eq!(m.get_vault_path(&vault_config()), "dev-us/otherapp");
}
