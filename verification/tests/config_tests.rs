use shipcat::config::{git_sha_ok, Config, ManifestDefaults, Region, Team, VaultConfig, VersionScheme};
use shipcat::envvars::EnvVars;
use shipcat::strutil::name_ok;
use shipcat::structs::{Probe, Resources, ResourceSet, RollingUpdate, Tolerations, TolerationOperator, UpgradeBound};

fn conf() -> Config {
    Config {
        defaults: ManifestDefaults {
            imagePrefix: "quay.io/org".to_string(),
            chart: "base".to_string(),
            replicaCount: 1,
            imageSize: 512,
        },
        teams: vec![Team { name: "doves".to_string() }, Team { name: "owls".to_string() }],
        regions: vec![
            Region {
                name: "dev-uk".to_string(),
                namespace: "dev".to_string(),
                environment: "dev".to_string(),
                versioningScheme: VersionScheme::GitShaOrSemver,
                vault: VaultConfig {
                    url: "http://localhost:8200".to_string(),
                    folder: "dev-uk".to_string(),
                },
            },
        ],
        locations: vec!["uk".to_string(), "us".to_string()],
    }
}

#[test]
fn listers_hand_out_names_in_order() {
    let c = conf();
    assert_eq!(c.region_names(), vec!["dev-uk".to_string()]);
    assert_eq!(c.location_names(), vec!["uk".to_string(), "us".to_string()]);
    assert_eq!(c.team_names(), vec!["doves".to_string(), "owls".to_string()]);
}

#[test]
fn service_name_rule() {
    assert!(name_ok(&"webapp".to_string()));
    assert!(name_ok(&"chatbot-reporting".to_string()));
    assert!(!name_ok(&"".to_string()));
    assert!(!name_ok(&"-webapp".to_string()));
    assert!(!name_ok(&"webapp-".to_string()));
    assert!(!name_ok(&"Webapp".to_string()));
    assert!(!name_ok(&"a".repeat(51)));
}

#[test]
fn git_sha_rule() {
    assert!(git_sha_ok(&"0123456789abcdef0123456789abcdef01234567".to_string()));
    assert!(!git_sha_ok(&"0123456789ABCDEF0123456789abcdef01234567".to_string()));
    assert!(!git_sha_ok(&"0123456".to_string()));
}

#[test]
fn env_var_names_are_checked() {
    let good = EnvVars {
        plain: vec![("DATABASE_URL".to_string(), "IN_VAULT".to_string())],
        templated: vec![("AUTH_2".to_string(), "v".to_string())],
    };
    assert!(good.verify());
    let bad = EnvVars {
        plain: vec![("database-url".to_string(), "x".to_string())],
        templated: vec![],
    };
    assert!(!bad.verify());
    let starts_with_digit = EnvVars {
        plain: vec![("2FA".to_string(), "x".to_string())],
        templated: vec![],
    };
    assert!(!starts_with_digit.verify());
    let duplicate_key = EnvVars {
        plain: vec![
            ("TOKEN".to_string(), "a".to_string()),
            ("TOKEN".to_string(), "b".to_string()),
        ],
        templated: vec![],
    };
    assert!(!duplicate_key.verify());
}

#[test]
fn resources_must_fit_their_limits() {
    let ok = Resources {
        requests: ResourceSet { cpu_millis: 100, memory_mb: 100 },
        limits: ResourceSet { cpu_millis: 300, memory_mb: 300 },
    };
    assert!(ok.verify());
    let over = Resources {
        requests: ResourceSet { cpu_millis: 400, memory_mb: 100 },
        limits: ResourceSet { cpu_millis: 300, memory_mb: 300 },
    };
    assert!(!over.verify());
}

#[test]
fn rolling_update_rules() {
    let ok = RollingUpdate {
        maxUnavailable: Some(UpgradeBound::Percent(0)),
        maxSurge: Some(UpgradeBound::Percent(50)),
    };
    assert!(ok.verify(4));
    let both_zero = RollingUpdate {
        maxUnavailable: Some(UpgradeBound::Percent(0)),
        maxSurge: Some(UpgradeBound::Count(0)),
    };
    assert!(!both_zero.verify(4));
    let neither = RollingUpdate { maxUnavailable: None, maxSurge: None };
    assert!(!neither.verify(4));
    let over_pct = RollingUpdate {
        maxUnavailable: Some(UpgradeBound::Percent(150)),
        maxSurge: None,
    };
    assert!(!over_pct.verify(4));
}

#[test]
fn probe_declares_exactly_one_transport() {
    let http = Probe {
        httpPath: Some("/health".to_string()),
        tcpPort: None,
        initialDelaySeconds: 5,
        periodSeconds: 10,
    };
    assert!(http.verify());
    let both = Probe {
        httpPath: Some("/health".to_string()),
        tcpPort: Some(6379),
        initialDelaySeconds: 5,
        periodSeconds: 10,
    };
    assert!(!both.verify());
}

#[test]
fn toleration_value_follows_operator() {
    let eq = Tolerations {
        key: "dedicated".to_string(),
        operator: TolerationOperator::Equal,
        value: Some("hugenode".to_string()),
        effect: "NoSchedule".to_string(),
    };
    assert!(eq.verify());
    let exists_with_value = Tolerations {
        key: "dedicated".to_string(),
        operator: TolerationOperator::Exists,
        value: Some("x".to_string()),
        effect: "NoSchedule".to_string(),
    };
    assert!(!exists_with_value.verify());
}
