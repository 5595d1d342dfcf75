//! The canonical, fully-resolved description of one deployable service in
//! one region, together with its simplest accessors. Merging, validation
//! and secret reconciliation live in their own modules.
use vstd::prelude::*;

use crate::config::VaultConfig;
use crate::envvars::EnvVars;
use crate::structs::{
    AutoScaling, ConfigMap, CronJob, DataHandling, Dependency, ElastiCache, Gate, HealthCheck,
    HostAlias, InitContainer, Kafka, Kong, LifeCycle, Metadata, PersistentVolume, Port, Probe,
    Rbac, Rds, Resources, RollingUpdate, Sidecar, Tolerations, VaultOpts, Volume, VolumeMount,
    Worker,
};
use crate::strutil::{pairs_view, strs_view, values_of};

verus! {

/// The stage a manifest has reached: freshly deserialized and merged, or
/// completed with secrets and ready for rollout.
#[derive(Clone, Copy, Debug, PartialEq, Eq, Structural)]
pub enum ManifestType {
    Base,
    Completed,
}

/// Main manifest: one service in one region.
///
/// The output-only fields `region`, `environment`, `namespace`, `secrets`
/// and `kind` are never supplied by a user; the merge and reconciliation
/// steps fill them.
#[derive(Clone, Debug)]
pub struct Manifest {
    /// Name of the service; follows the service-name rule.
    pub name: String,
    /// Whether the service should be publicly reachable.
    pub publiclyAccessible: bool,
    /// A reference-only entry outside the cluster; cancels validation.
    pub external: bool,
    /// Disallows use of this service in all regions.
    pub disabled: bool,
    /// Regions this service may deploy to.
    pub regions: Vec<String>,
    /// Contacts and repository metadata.
    pub metadata: Option<Metadata>,
    /// Chart used to render the service.
    pub chart: Option<String>,
    /// Image to run.
    pub image: Option<String>,
    /// Uncompressed image size in mebibytes, for wait-time estimation.
    pub imageSize: Option<u32>,
    /// Image tag to run.
    pub version: Option<String>,
    /// Command override for the image.
    pub command: Vec<String>,
    /// Data sources and handling strategies.
    pub dataHandling: Option<DataHandling>,
    /// Language the service is written in.
    pub language: Option<String>,
    /// Compute resource requests and limits.
    pub resources: Option<Resources>,
    /// Replica count of the main deployment.
    pub replicaCount: Option<u32>,
    /// Environment variables of the main container.
    pub env: EnvVars,
    /// Secret files; values are base64, or the vault sentinel.
    pub secretFiles: Vec<(String, String)>,
    /// Config files inlined into a config map.
    pub configs: Option<ConfigMap>,
    /// Overrides of the secret-store path.
    pub vault: Option<VaultOpts>,
    /// HTTP port exposed by the service.
    pub httpPort: Option<u32>,
    /// Named ports opened beside the HTTP one.
    pub ports: Vec<Port>,
    /// Externally exposed port.
    pub externalPort: Option<u32>,
    /// The older health-check abstraction.
    pub health: Option<HealthCheck>,
    /// Declared dependencies on other services.
    pub dependencies: Vec<Dependency>,
    /// Independent worker deployments.
    pub workers: Vec<Worker>,
    /// Sidecar containers injected into every pod.
    pub sidecars: Vec<Sidecar>,
    /// Readiness probe gating rolling upgrades.
    pub readinessProbe: Option<Probe>,
    /// Liveness probe; failing pods are killed.
    pub livenessProbe: Option<Probe>,
    /// Container lifecycle hooks.
    pub lifecycle: Option<LifeCycle>,
    /// Rolling-update parameters of the main deployment.
    pub rollingUpdate: Option<RollingUpdate>,
    /// Horizontal autoscaler bounds.
    pub autoScaling: Option<AutoScaling>,
    /// Node taints the pods tolerate.
    pub tolerations: Vec<Tolerations>,
    /// Entries added to every pod's hosts file.
    pub hostAliases: Vec<HostAlias>,
    /// Containers run before the main one boots.
    pub initContainers: Vec<InitContainer>,
    /// Volumes made available to pods.
    pub volumes: Vec<Volume>,
    /// Mounts of the declared volumes.
    pub volumeMounts: Vec<VolumeMount>,
    /// Persistent volumes handed to the chart.
    pub persistentVolumes: Vec<PersistentVolume>,
    /// Scheduled one-off jobs.
    pub cronJobs: Vec<CronJob>,
    /// Annotations set on the service object.
    pub serviceAnnotations: Vec<(String, String)>,
    /// Labels set on every object.
    pub labels: Vec<(String, String)>,
    /// Gateway routing configuration.
    pub kong: Option<Kong>,
    /// Gate setup; requires a gateway configuration.
    pub gate: Option<Gate>,
    /// Hosts overriding the gateway's.
    pub hosts: Vec<String>,
    /// Marker that the service consumes the message bus.
    pub kafka: Option<Kafka>,
    /// Source ranges allowed through a load balancer.
    pub sourceRanges: Vec<String>,
    /// Role-based access rules granted to the service.
    pub rbac: Vec<Rbac>,
    /// A managed relational database.
    pub database: Option<Rds>,
    /// A managed cache.
    pub redis: Option<ElastiCache>,
    /// Region this manifest was resolved for (output only).
    pub region: String,
    /// Environment this manifest was resolved for (output only).
    pub environment: String,
    /// Namespace this manifest deploys into (output only).
    pub namespace: String,
    /// Secrets the reconciliation step resolved (output only).
    pub secrets: Vec<(String, String)>,
    /// Stage this manifest has reached (output only).
    pub kind: ManifestType,
}

/// A manifest with no field set: every flag false, every collection empty,
/// every optional absent, and the stage at `Base`.
pub open spec fn blank_manifest(m: Manifest) -> bool {
    &&& m.name@ == Seq::<char>::empty()
    &&& !m.publiclyAccessible
    &&& !m.external
    &&& !m.disabled
    &&& m.regions@.len() == 0
    &&& m.metadata is None
    &&& m.chart is None
    &&& m.image is None
    &&& m.imageSize is None
    &&& m.version is None
    &&& m.command@.len() == 0
    &&& m.dataHandling is None
    &&& m.language is None
    &&& m.resources is None
    &&& m.replicaCount is None
    &&& m.env.plain@.len() == 0
    &&& m.env.templated@.len() == 0
    &&& m.secretFiles@.len() == 0
    &&& m.configs is None
    &&& m.vault is None
    &&& m.httpPort is None
    &&& m.ports@.len() == 0
    &&& m.externalPort is None
    &&& m.health is None
    &&& m.dependencies@.len() == 0
    &&& m.workers@.len() == 0
    &&& m.sidecars@.len() == 0
    &&& m.readinessProbe is None
    &&& m.livenessProbe is None
    &&& m.lifecycle is None
    &&& m.rollingUpdate is None
    &&& m.autoScaling is None
    &&& m.tolerations@.len() == 0
    &&& m.hostAliases@.len() == 0
    &&& m.initContainers@.len() == 0
    &&& m.volumes@.len() == 0
    &&& m.volumeMounts@.len() == 0
    &&& m.persistentVolumes@.len() == 0
    &&& m.cronJobs@.len() == 0
    &&& m.serviceAnnotations@.len() == 0
    &&& m.labels@.len() == 0
    &&& m.kong is None
    &&& m.gate is None
    &&& m.hosts@.len() == 0
    &&& m.kafka is None
    &&& m.sourceRanges@.len() == 0
    &&& m.rbac@.len() == 0
    &&& m.database is None
    &&& m.redis is None
    &&& m.region@ == Seq::<char>::empty()
    &&& m.environment@ == Seq::<char>::empty()
    &&& m.namespace@ == Seq::<char>::empty()
    &&& m.secrets@.len() == 0
    &&& m.kind == ManifestType::Base
}

impl Default for Manifest {
    /// The blank manifest every resolution starts from.
    fn default() -> (r: Self)
        ensures
            blank_manifest(r),
    {
        Manifest {
            name: String::new(),
            publiclyAccessible: false,
            external: false,
            disabled: false,
            regions: Vec::new(),
            metadata: None,
            chart: None,
            image: None,
            imageSize: None,
            version: None,
            command: Vec::new(),
            dataHandling: None,
            language: None,
            resources: None,
            replicaCount: None,
            env: EnvVars::empty(),
            secretFiles: Vec::new(),
            configs: None,
            vault: None,
            httpPort: None,
            ports: Vec::new(),
            externalPort: None,
            health: None,
            dependencies: Vec::new(),
            workers: Vec::new(),
            sidecars: Vec::new(),
            readinessProbe: None,
            livenessProbe: None,
            lifecycle: None,
            rollingUpdate: None,
            autoScaling: None,
            tolerations: Vec::new(),
            hostAliases: Vec::new(),
            initContainers: Vec::new(),
            volumes: Vec::new(),
            volumeMounts: Vec::new(),
            persistentVolumes: Vec::new(),
            cronJobs: Vec::new(),
            serviceAnnotations: Vec::new(),
            labels: Vec::new(),
            kong: None,
            gate: None,
            hosts: Vec::new(),
            kafka: None,
            sourceRanges: Vec::new(),
            rbac: Vec::new(),
            database: None,
            redis: None,
            region: String::new(),
            environment: String::new(),
            namespace: String::new(),
            secrets: Vec::new(),
            kind: ManifestType::Base,
        }
    }
}

impl Manifest {
    /// Override the declared version with an optional one from the caller;
    /// everything else is kept.
    pub fn set_version(self, ver: &Option<String>) -> (r: Self)
        ensures
            match ver {
                Some(v) => r.version matches Some(rv) && rv@ == v@,
                None => match (r.version, self.version) {
                    (Some(rv), Some(sv)) => rv@ == sv@,
                    (None, None) => true,
                    _ => false,
                },
            },
            r == (Manifest { version: r.version, ..self }),
    {
        match ver {
            Some(v) => Manifest { version: Some(v.clone()), ..self },
            None => self,
        }
    }

    /// The secret-store folder for this service: the vault override's
    /// region and name when one is declared, else the region folder and
    /// the service's own name, joined by a slash.
    pub open spec fn vault_path_view(self, vc: VaultConfig) -> Seq<char> {
        match self.vault {
            Some(vopts) => {
                let folder = match vopts.region {
                    Some(reg) => reg@,
                    None => vc.folder@,
                };
                folder + "/"@ + vopts.name@
            },
            None => vc.folder@ + "/"@ + self.name@,
        }
    }

    /// Computes the secret-store folder for this service.
    pub fn get_vault_path(&self, vc: &VaultConfig) -> (r: String)
        ensures
            r@ == self.vault_path_view(*vc),
    {
        let (svc, reg): (String, String) = match &self.vault {
            Some(vopts) => {
                let folder = match &vopts.region {
                    Some(reg) => reg.clone(),
                    None => vc.folder.clone(),
                };
                (vopts.name.clone(), folder)
            },
            None => (self.name.clone(), vc.folder.clone()),
        };
        let joined = reg.concat("/");
        joined.concat(svc.as_str())
    }

    /// The resolved secrets without their keys, for obfuscation.
    pub fn get_secrets(&self) -> (r: Vec<String>)
        ensures
            strs_view(r@) == values_of(pairs_view(self.secrets@)),
    {
        let mut out: Vec<String> = Vec::new();
        let mut i: usize = 0;
        while i < self.secrets.len()
            invariant
                i <= self.secrets.len(),
                strs_view(out@) =~= values_of(pairs_view(self.secrets@)).take(i as int),
            decreases self.secrets.len() - i,
        {
            let ghost prev = out@;
            out.push(self.secrets[i].1.clone());
            proof {
                crate::strutil::lemma_strs_view_push(prev, self.secrets@[i as int].1);
                crate::strutil::lemma_take_one_more(
                    values_of(pairs_view(self.secrets@)),
                    i as int,
                );
                assert(values_of(pairs_view(self.secrets@))[i as int]
                    == self.secrets@[i as int].1@);
            }
            i += 1;
        }
        assert(values_of(pairs_view(self.secrets@)).take(self.secrets.len() as int)
            =~= values_of(pairs_view(self.secrets@)));
        out
    }

    /// The environment-variable containers of this manifest, in a fixed
    /// order: the main container first, then each sidecar, each worker and
    /// each cron job.
    pub fn get_env_vars(&self) -> (r: Vec<EnvVars>)
        ensures
            r@.len() == 1 + self.sidecars@.len() + self.workers@.len() + self.cronJobs@.len(),
            r@[0].plain_view() == self.env.plain_view(),
            r@[0].templated_view() == self.env.templated_view(),
            forall|i: int|
                0 <= i < self.sidecars@.len() ==> (#[trigger] r@[1 + i]).plain_view()
                    == self.sidecars@[i].env.plain_view() && r@[1 + i].templated_view()
                    == self.sidecars@[i].env.templated_view(),
            forall|i: int|
                0 <= i < self.workers@.len() ==> (#[trigger] r@[1 + self.sidecars@.len() + i]).plain_view() == self.workers@[i].env.plain_view() && r@[1 + self.sidecars@.len() + i].templated_view() == self.workers@[i].env.templated_view(),
            forall|i: int|
                0 <= i < self.cronJobs@.len() ==> (#[trigger] r@[1 + self.sidecars@.len() + self.workers@.len() + i]).plain_view() == self.cronJobs@[i].env.plain_view() && r@[1 + self.sidecars@.len() + self.workers@.len() + i].templated_view() == self.cronJobs@[i].env.templated_view(),
    {
        let mut out: Vec<EnvVars> = Vec::new();
        out.push(self.env.clone());
        let mut i: usize = 0;
        while i < self.sidecars.len()
            invariant
                i <= self.sidecars.len(),
                out@.len() == 1 + i,
                out@[0].plain_view() == self.env.plain_view(),
                out@[0].templated_view() == self.env.templated_view(),
                forall|j: int|
                    0 <= j < i ==> (#[trigger] out@[1 + j]).plain_view()
                        == self.sidecars@[j].env.plain_view() && out@[1 + j].templated_view()
                        == self.sidecars@[j].env.templated_view(),
            decreases self.sidecars.len() - i,
        {
            out.push(self.sidecars[i].env.clone());
            i += 1;
        }
        let mut i: usize = 0;
        while i < self.workers.len()
            invariant
                i <= self.workers.len(),
                out@.len() == 1 + self.sidecars@.len() + i,
                out@[0].plain_view() == self.env.plain_view(),
                out@[0].templated_view() == self.env.templated_view(),
                forall|j: int|
                    0 <= j < self.sidecars@.len() ==> (#[trigger] out@[1 + j]).plain_view()
                        == self.sidecars@[j].env.plain_view() && out@[1 + j].templated_view()
                        == self.sidecars@[j].env.templated_view(),
                forall|j: int|
                    0 <= j < i ==> (#[trigger] out@[1 + self.sidecars@.len() + j]).plain_view()
                        == self.workers@[j].env.plain_view() && out@[1 + self.sidecars@.len() + j].templated_view() == self.workers@[j].env.templated_view(),
            decreases self.workers.len() - i,
        {
            out.push(self.workers[i].env.clone());
            i += 1;
        }
        let mut i: usize = 0;
        while i < self.cronJobs.len()
            invariant
                i <= self.cronJobs.len(),
                out@.len() == 1 + self.sidecars@.len() + self.workers@.len() + i,
                out@[0].plain_view() == self.env.plain_view(),
                out@[0].templated_view() == self.env.templated_view(),
                forall|j: int|
                    0 <= j < self.sidecars@.len() ==> (#[trigger] out@[1 + j]).plain_view()
                        == self.sidecars@[j].env.plain_view() && out@[1 + j].templated_view()
                        == self.sidecars@[j].env.templated_view(),
                forall|j: int|
                    0 <= j < self.workers@.len() ==> (#[trigger] out@[1 + self.sidecars@.len() + j]).plain_view() == self.workers@[j].env.plain_view() && out@[1 + self.sidecars@.len() + j].templated_view() == self.workers@[j].env.templated_view(),
                forall|j: int|
                    0 <= j < i ==> (#[trigger] out@[1 + self.sidecars@.len() + self.workers@.len() + j]).plain_view() == self.cronJobs@[j].env.plain_view() && out@[1 + self.sidecars@.len() + self.workers@.len() + j].templated_view() == self.cronJobs@[j].env.templated_view(),
            decreases self.cronJobs.len() - i,
        {
            out.push(self.cronJobs[i].env.clone());
            i += 1;
        }
        out
    }
}

} // verus!
