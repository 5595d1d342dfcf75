use shipcat::config::{ManifestDefaults, Region, VaultConfig, VersionScheme};
use shipcat::envvars::EnvVars;
use shipcat::manifest::Manifest;
use shipcat::merge::{merge, merge_pairs, MergeError};
use shipcat::config::{Config, Team};
use shipcat::structs::{Contact, CronJob, Metadata, Port, ResourceSet, Resources, Sidecar, Worker};

fn region() -> Region {
    Region {
        name: "dev-uk".to_string(),
        namespace: "dev".to_string(),
        environment: "dev".to_string(),
        versioningScheme: VersionScheme::GitShaOrSemver,
        vault: VaultConfig { url: "http://localhost:8200".to_string(), folder: "dev-uk".to_string() },
    }
}

fn defaults() -> ManifestDefaults {
    ManifestDefaults {
        imagePrefix: "quay.io/org".to_string(),
        chart: "base".to_string(),
        replicaCount: 1,
        imageSize: 512,
    }
}

fn named(name: &str) -> Manifest {
    let mut m = Manifest::default();
    m.name = name.to_string();
    m
}

#[test]
fn region_override_takes_precedence_over_base() {
    let mut base = named("webapp");
    base.version = Some("1.0.0".to_string());
    base.replicaCount = Some(2);
    let mut over = Manifest::default();
    over.version = Some("2.0.0".to_string());
    let m = merge(base, over, &defaults(), &region()).unwrap();
    assert_eq!(m.version, Some("2.0.0".to_string()));
    assert_eq!(m.replicaCount, Some(2));
}

#[test]
fn unset_scalars_inherit_from_defaults() {
    let base = named("webapp");
    let over = Manifest::default();
    let m = merge(base, over, &defaults(), &region()).unwrap();
    assert_eq!(m.image, Some("quay.io/org/webapp".to_string()));
    assert_eq!(m.chart, Some("base".to_string()));
    assert_eq!(m.replicaCount, Some(1));
    assert_eq!(m.imageSize, Some(512));
    assert_eq!(m.region, "dev-uk");
    assert_eq!(m.environment, "dev");
    assert_eq!(m.namespace, "dev");
}

#[test]
fn env_merges_by_key_with_override_winning() {
    let mut base = named("webapp");
    base.env = EnvVars {
        plain: vec![
            ("A".to_string(), "base-a".to_string()),
            ("B".to_string(), "base-b".to_string()),
        ],
        templated: vec![],
    };
    let mut over = Manifest::default();
    over.env = EnvVars {
        plain: vec![
            ("B".to_string(), "over-b".to_string()),
            ("C".to_string(), "over-c".to_string()),
        ],
        templated: vec![],
    };
    let m = merge(base, over, &defaults(), &region()).unwrap();
    assert_eq!(
        m.env.plain,
        vec![
            ("A".to_string(), "base-a".to_string()),
            ("B".to_string(), "over-b".to_string()),
            ("C".to_string(), "over-c".to_string()),
        ]
    );
}

#[test]
fn plain_collections_append_override_entries() {
    let mut base = named("webapp");
    base.ports = vec![Port { name: "data".to_string(), port: 6121 }];
    let mut over = Manifest::default();
    over.ports = vec![Port { name: "rpc".to_string(), port: 6122 }];
    let m = merge(base, over, &defaults(), &region()).unwrap();
    assert_eq!(m.ports.len(), 2);
    assert_eq!(m.ports[0].name, "data");
    assert_eq!(m.ports[1].name, "rpc");
}

#[test]
fn missing_image_without_prefix_is_a_pipeline_defect() {
    let base = named("webapp");
    let over = Manifest::default();
    let mut d = defaults();
    d.imagePrefix = String::new();
    let r = merge(base, over, &d, &region());
    assert_eq!(r.err(), Some(MergeError::MissingImage));
    assert!(MergeError::MissingImage.describe(&"webapp".to_string()).contains("image"));
}

#[test]
fn missing_chart_without_default_is_a_pipeline_defect() {
    let base = named("webapp");
    let over = Manifest::default();
    let mut d = defaults();
    d.chart = String::new();
    assert_eq!(merge(base, over, &d, &region()).err(), Some(MergeError::MissingChart));
}

#[test]
fn empty_region_namespace_is_a_pipeline_defect() {
    let base = named("webapp");
    let over = Manifest::default();
    let mut reg = region();
    reg.namespace = String::new();
    assert_eq!(merge(base, over, &defaults(), &reg).err(), Some(MergeError::MissingNamespace));
}

#[test]
fn merge_pairs_overrides_and_appends() {
    let base = vec![("A".to_string(), "1".to_string()), ("B".to_string(), "2".to_string())];
    let over = vec![("B".to_string(), "3".to_string()), ("C".to_string(), "4".to_string())];
    let m = merge_pairs(&base, &over);
    assert_eq!(
        m,
        vec![
            ("A".to_string(), "1".to_string()),
            ("B".to_string(), "3".to_string()),
            ("C".to_string(), "4".to_string()),
        ]
    );
}

#[test]
fn merged_manifest_with_requirements_passes_validation() {
    let mut base = named("webapp");
    base.regions = vec!["dev-uk".to_string()];
    base.metadata = Some(Metadata {
        team: "doves".to_string(),
        repo: "https://github.com/org/webapp".to_string(),
        contacts: vec![Contact { name: "E".to_string(), slack: "@e".to_string() }],
    });
    base.resources = Some(Resources {
        requests: ResourceSet { cpu_millis: 100, memory_mb: 100 },
        limits: ResourceSet { cpu_millis: 200, memory_mb: 200 },
    });
    let over = Manifest::default();
    let m = merge(base, over, &defaults(), &region()).unwrap();
    let conf = Config {
        defaults: defaults(),
        teams: vec![Team { name: "doves".to_string() }],
        regions: vec![region()],
        locations: vec![],
    };
    assert_eq!(m.verify(&conf, &region()), Ok(()));
}

#[test]
fn set_version_overrides_only_when_given() {
    let mut m = named("webapp");
    m.version = Some("1.0.0".to_string());
    let m2 = m.set_version(&Some("2.0.0".to_string()));
    assert_eq!(m2.version, Some("2.0.0".to_string()));
    let m3 = m2.set_version(&None);
    assert_eq!(m3.version, Some("2.0.0".to_string()));
    assert_eq!(m3.name, "webapp");
}

#[test]
fn get_secrets_returns_values_only() {
    let mut m = named("webapp");
    m.secrets = vec![
        ("A".to_string(), "s1".to_string()),
        ("B".to_string(), "s2".to_string()),
    ];
    assert_eq!(m.get_secrets(), vec!["s1".to_string(), "s2".to_string()]);
}

#[test]
fn get_env_vars_orders_containers() {
    let mut m = named("webapp");
    m.env = EnvVars { plain: vec![("MAIN".to_string(), "1".to_string())], templated: vec![] };
    m.sidecars = vec![Sidecar {
        name: "redis".to_string(),
        version: None,
        env: EnvVars { plain: vec![("SIDE".to_string(), "2".to_string())], templated: vec![] },
    }];
    m.workers = vec![Worker {
        name: "worker".to_string(),
        replicaCount: 1,
        resources: None,
        ports: vec![],
        command: vec![],
        env: EnvVars { plain: vec![("WORK".to_string(), "3".to_string())], templated: vec![] },
    }];
    m.cronJobs = vec![CronJob {
        name: "cron".to_string(),
        schedule: "1 0 * * *".to_string(),
        command: vec![],
        env: EnvVars { plain: vec![("CRON".to_string(), "4".to_string())], templated: vec![] },
    }];
    let envs = m.get_env_vars();
    assert_eq!(envs.len(), 4);
    assert_eq!(envs[0].plain[0].0, "MAIN");
    assert_eq!(envs[1].plain[0].0, "SIDE");
    assert_eq!(envs[2].plain[0].0, "WORK");
    assert_eq!(envs[3].plain[0].0, "CRON");
}
