use shipcat::config::{Config, ManifestDefaults, Region, Team, VaultConfig, VersionScheme};
use shipcat::manifest::Manifest;
use shipcat::structs::{Contact, Gate, Kong, Metadata, ResourceSet, Resources};
use shipcat::validate::ValidationError;

fn region() -> Region {
    Region {
        name: "dev-uk".to_string(),
        namespace: "dev".to_string(),
        environment: "dev".to_string(),
        versioningScheme: VersionScheme::GitShaOrSemver,
        vault: VaultConfig { url: "http://localhost:8200".to_string(), folder: "dev-uk".to_string() },
    }
}

fn conf() -> Config {
    Config {
        defaults: ManifestDefaults {
            imagePrefix: "quay.io/org".to_string(),
            chart: "base".to_string(),
            replicaCount: 1,
            imageSize: 512,
        },
        teams: vec![Team { name: "doves".to_string() }],
        regions: vec![region()],
        locations: vec!["uk".to_string()],
    }
}

fn base_manifest() -> Manifest {
    let mut m = Manifest::default();
    m.name = "webapp".to_string();
    m.regions = vec!["dev-uk".to_string()];
    m.region = "dev-uk".to_string();
    m.metadata = Some(Metadata {
        team: "doves".to_string(),
        repo: "https://github.com/org/webapp".to_string(),
        contacts: vec![Contact { name: "Eirik".to_string(), slack: "@clux".to_string() }],
    });
    m.resources = Some(Resources {
        requests: ResourceSet { cpu_millis: 100, memory_mb: 100 },
        limits: ResourceSet { cpu_millis: 300, memory_mb: 300 },
    });
    m.replicaCount = Some(2);
    m.image = Some("quay.io/org/webapp".to_string());
    m.imageSize = Some(512);
    m.chart = Some("base".to_string());
    m.namespace = "dev".to_string();
    m.environment = "dev".to_string();
    m
}

#[test]
fn valid_manifest_passes() {
    let m = base_manifest();
    assert_eq!(m.verify(&conf(), &region()), Ok(()));
}

#[test]
fn http_port_without_health_check_fails_naming_service() {
    let mut m = base_manifest();
    m.httpPort = Some(8000);
    let r = m.verify(&conf(), &region());
    assert_eq!(r, Err(ValidationError::MissingHealthCheck));
    let msg = r.unwrap_err().describe(&m.name);
    assert!(msg.contains("webapp"));
    assert!(msg.contains("health check"));
}

#[test]
fn external_service_skips_body_checks() {
    let mut m = base_manifest();
    m.external = true;
    m.resources = None;
    m.replicaCount = None;
    m.image = None;
    m.metadata = None;
    assert_eq!(m.verify(&conf(), &region()), Ok(()));
}

#[test]
fn external_service_still_faces_region_and_name_checks() {
    let mut m = base_manifest();
    m.external = true;
    m.name = "Webapp".to_string();
    assert_eq!(m.verify(&conf(), &region()), Err(ValidationError::BadName));
    let mut m2 = base_manifest();
    m2.external = true;
    m2.region = "dev-us".to_string();
    assert_eq!(m2.verify(&conf(), &region()), Err(ValidationError::UnsupportedRegion));
}

#[test]
fn zero_replicas_fails() {
    let mut m = base_manifest();
    m.replicaCount = Some(0);
    m.httpPort = None;
    assert_eq!(m.verify(&conf(), &region()), Err(ValidationError::ZeroReplicas));
    let msg = ValidationError::ZeroReplicas.describe(&m.name);
    assert!(msg.contains("replicaCount"));
}

#[test]
fn missing_image_flips_result_naming_field() {
    let mut m = base_manifest();
    m.image = None;
    let r = m.verify(&conf(), &region());
    assert_eq!(r, Err(ValidationError::MissingImage));
    assert!(r.unwrap_err().describe(&m.name).contains("image"));
    assert!(ValidationError::MissingImage.internal());
}

#[test]
fn missing_image_size_flips_result() {
    let mut m = base_manifest();
    m.imageSize = None;
    assert_eq!(m.verify(&conf(), &region()), Err(ValidationError::MissingImageSize));
}

#[test]
fn missing_chart_flips_result() {
    let mut m = base_manifest();
    m.chart = None;
    assert_eq!(m.verify(&conf(), &region()), Err(ValidationError::MissingChart));
}

#[test]
fn missing_resources_flips_result_naming_field() {
    let mut m = base_manifest();
    m.resources = None;
    let r = m.verify(&conf(), &region());
    assert_eq!(r, Err(ValidationError::MissingResources));
    assert!(r.unwrap_err().describe(&m.name).contains("resources"));
    assert!(!ValidationError::MissingResources.internal());
}

#[test]
fn missing_metadata_flips_result() {
    let mut m = base_manifest();
    m.metadata = None;
    assert_eq!(m.verify(&conf(), &region()), Err(ValidationError::MissingMetadata));
}

#[test]
fn unknown_team_fails() {
    let mut m = base_manifest();
    if let Some(md) = &mut m.metadata {
        md.team = "ravens".to_string();
    }
    assert_eq!(m.verify(&conf(), &region()), Err(ValidationError::InvalidMetadata));
}

#[test]
fn bad_name_fails() {
    let mut m = base_manifest();
    m.name = "Webapp".to_string();
    assert_eq!(m.verify(&conf(), &region()), Err(ValidationError::BadName));
    let mut m2 = base_manifest();
    m2.name = "webapp-".to_string();
    assert_eq!(m2.verify(&conf(), &region()), Err(ValidationError::BadName));
}

#[test]
fn unsupported_region_fails() {
    let mut m = base_manifest();
    m.region = "dev-us".to_string();
    assert_eq!(m.verify(&conf(), &region()), Err(ValidationError::UnsupportedRegion));
}

#[test]
fn gate_without_kong_fails() {
    let mut m = base_manifest();
    m.gate = Some(Gate { websockets: false, public: false });
    assert_eq!(m.verify(&conf(), &region()), Err(ValidationError::GateWithoutKong));
}

#[test]
fn gate_public_mismatch_fails() {
    let mut m = base_manifest();
    m.kong = Some(Kong { uris: Some("/webapp".to_string()), strip_uri: true });
    m.gate = Some(Gate { websockets: false, public: true });
    assert_eq!(m.verify(&conf(), &region()), Err(ValidationError::GatePublicMismatch));
}

#[test]
fn bad_version_fails_against_scheme() {
    let mut m = base_manifest();
    m.version = Some("not a version".to_string());
    assert_eq!(m.verify(&conf(), &region()), Err(ValidationError::BadVersion));
    let mut m2 = base_manifest();
    m2.version = Some("1.2.3".to_string());
    assert_eq!(m2.verify(&conf(), &region()), Ok(()));
    let mut m3 = base_manifest();
    m3.version = Some("0123456789abcdef0123456789abcdef01234567".to_string());
    assert_eq!(m3.verify(&conf(), &region()), Ok(()));
}

#[test]
fn semver_only_scheme_rejects_git_shas() {
    let mut reg = region();
    reg.versioningScheme = VersionScheme::Semver;
    let mut m = base_manifest();
    m.version = Some("0123456789abcdef0123456789abcdef01234567".to_string());
    assert_eq!(m.verify(&conf(), &reg), Err(ValidationError::BadVersion));
}
