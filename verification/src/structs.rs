//! The sub-structures a manifest is built from, each with its own
//! well-formedness predicate and a checker that decides it exactly.
use vstd::prelude::*;

use crate::strutil::{contains_str, name_ok, strs_view, valid_name};

verus! {

/// Team contacts and source-repository metadata for a service.
#[derive(Clone, Debug)]
pub struct Metadata {
    /// Owning team; must be one of the teams the configuration declares.
    pub team: String,
    /// Source repository URL, used to build release and diff links.
    pub repo: String,
    /// People to notify on rollouts.
    pub contacts: Vec<Contact>,
}

/// One person attached to a service.
#[derive(Clone, Debug)]
pub struct Contact {
    pub name: String,
    /// Chat handle, written `@name`.
    pub slack: String,
}

impl Contact {
    /// A contact is well-formed when its handle is non-empty and starts
    /// with `@`.
    pub open spec fn valid(self) -> bool {
        self.slack@.len() >= 1 && self.slack@[0] == '@'
    }

    /// Decides `valid`.
    pub fn verify(&self) -> (r: bool)
        ensures
            r == self.valid(),
    {
        if self.slack.as_str().unicode_len() < 1 {
            return false;
        }
        self.slack.as_str().get_char(0) == '@'
    }
}

impl Metadata {
    /// Metadata is well-formed against a team list when the team is one of
    /// the declared names and every contact is well-formed.
    pub open spec fn valid(self, teams: Seq<Seq<char>>) -> bool {
        &&& teams.contains(self.team@)
        &&& forall|i: int| 0 <= i < self.contacts.len() ==> (#[trigger] self.contacts[i]).valid()
    }

    /// Decides `valid` against the given team names.
    pub fn verify(&self, teams: &Vec<String>) -> (r: bool)
        ensures
            r == self.valid(strs_view(teams@)),
    {
        if !contains_str(teams, &self.team) {
            return false;
        }
        let mut i: usize = 0;
        while i < self.contacts.len()
            invariant
                i <= self.contacts.len(),
                forall|j: int| 0 <= j < i ==> (#[trigger] self.contacts[j]).valid(),
            decreases self.contacts.len() - i,
        {
            if !self.contacts[i].verify() {
                return false;
            }
            i += 1;
        }
        true
    }
}

/// One side of a compute resource declaration, in fixed units.
#[derive(Clone, Copy, Debug)]
pub struct ResourceSet {
    /// CPU in milli-cores.
    pub cpu_millis: u32,
    /// Memory in mebibytes.
    pub memory_mb: u32,
}

/// Requested and limiting compute resources.
#[derive(Clone, Copy, Debug)]
pub struct Resources {
    pub requests: ResourceSet,
    pub limits: ResourceSet,
}

impl Resources {
    /// Resources are well-formed when every quantity is positive and no
    /// request exceeds its limit.
    pub open spec fn valid(self) -> bool {
        &&& self.requests.cpu_millis >= 1
        &&& self.requests.memory_mb >= 1
        &&& self.requests.cpu_millis <= self.limits.cpu_millis
        &&& self.requests.memory_mb <= self.limits.memory_mb
    }

    /// Decides `valid`.
    pub fn verify(&self) -> (r: bool)
        ensures
            r == self.valid(),
    {
        self.requests.cpu_millis >= 1 && self.requests.memory_mb >= 1
            && self.requests.cpu_millis <= self.limits.cpu_millis
            && self.requests.memory_mb <= self.limits.memory_mb
    }
}

/// The older health abstraction: an HTTP URI polled after a boot wait.
#[derive(Clone, Debug)]
pub struct HealthCheck {
    /// Path of the health endpoint; must start with `/`.
    pub uri: String,
    /// Seconds to wait before the first poll.
    pub wait: u32,
}

impl HealthCheck {
    pub open spec fn valid(self) -> bool {
        self.uri@.len() >= 1 && self.uri@[0] == '/'
    }

    /// Decides `valid`.
    pub fn verify(&self) -> (r: bool)
        ensures
            r == self.valid(),
    {
        if self.uri.as_str().unicode_len() < 1 {
            return false;
        }
        self.uri.as_str().get_char(0) == '/'
    }
}

/// A readiness or liveness probe: exactly one of an HTTP path or a TCP port.
#[derive(Clone, Debug)]
pub struct Probe {
    /// HTTP path to poll, when probing over HTTP.
    pub httpPath: Option<String>,
    /// TCP port to connect to, when probing over TCP.
    pub tcpPort: Option<u32>,
    pub initialDelaySeconds: u32,
    pub periodSeconds: u32,
}

impl Probe {
    /// A probe is well-formed when it declares exactly one transport.
    pub open spec fn valid(self) -> bool {
        self.httpPath is Some <==> self.tcpPort is None
    }

    /// Decides `valid`.
    pub fn verify(&self) -> (r: bool)
        ensures
            r == self.valid(),
    {
        self.httpPath.is_some() != self.tcpPort.is_some()
    }
}

/// A declared dependency on another service.
#[derive(Clone, Debug)]
pub struct Dependency {
    /// Name of the depended-on service; follows the service-name rule.
    pub name: String,
}

impl Dependency {
    pub open spec fn valid(self) -> bool {
        valid_name(self.name@)
    }

    /// Decides `valid`.
    pub fn verify(&self) -> (r: bool)
        ensures
            r == self.valid(),
    {
        name_ok(&self.name)
    }
}

/// An alias injected into `/etc/hosts` of every pod.
#[derive(Clone, Debug)]
pub struct HostAlias {
    pub ip: String,
    pub hostnames: Vec<String>,
}

impl HostAlias {
    /// Well-formed when the address is non-empty and at least one hostname
    /// is given.
    pub open spec fn valid(self) -> bool {
        self.ip@.len() >= 1 && self.hostnames.len() >= 1
    }

    /// Decides `valid`.
    pub fn verify(&self) -> (r: bool)
        ensures
            r == self.valid(),
    {
        self.ip.as_str().unicode_len() >= 1 && self.hostnames.len() >= 1
    }
}

/// How a toleration matches a node taint.
#[derive(Clone, Copy, Debug, PartialEq, Eq, Structural)]
pub enum TolerationOperator {
    Equal,
    Exists,
}

/// A node taint the service tolerates.
#[derive(Clone, Debug)]
pub struct Tolerations {
    pub key: String,
    pub operator: TolerationOperator,
    pub value: Option<String>,
    pub effect: String,
}

impl Tolerations {
    /// Well-formed when the key is non-empty and a value is given exactly
    /// for the `Equal` operator.
    pub open spec fn valid(self) -> bool {
        &&& self.key@.len() >= 1
        &&& (self.operator == TolerationOperator::Equal <==> self.value is Some)
    }

    /// Decides `valid`.
    pub fn verify(&self) -> (r: bool)
        ensures
            r == self.valid(),
    {
        self.key.as_str().unicode_len() >= 1
            && ((self.operator == TolerationOperator::Equal) == self.value.is_some())
    }
}

/// A container run before the main one boots.
#[derive(Clone, Debug)]
pub struct InitContainer {
    pub name: String,
    pub image: String,
    pub command: Vec<String>,
}

impl InitContainer {
    pub open spec fn valid(self) -> bool {
        valid_name(self.name@) && self.image@.len() >= 1
    }

    /// Decides `valid`.
    pub fn verify(&self) -> (r: bool)
        ensures
            r == self.valid(),
    {
        name_ok(&self.name) && self.image.as_str().unicode_len() >= 1
    }
}

/// A named port opened by the service.
#[derive(Clone, Debug)]
pub struct Port {
    pub name: String,
    pub port: u32,
}

impl Port {
    /// Well-formed when the name is non-empty and the port is in range.
    pub open spec fn valid(self) -> bool {
        self.name@.len() >= 1 && 1 <= self.port < 65536
    }

    /// Decides `valid`.
    pub fn verify(&self) -> (r: bool)
        ensures
            r == self.valid(),
    {
        self.name.as_str().unicode_len() >= 1 && 1 <= self.port && self.port < 65536
    }
}

/// One role-based access rule granted to the service.
#[derive(Clone, Debug)]
pub struct Rbac {
    pub apiGroups: Vec<String>,
    pub resources: Vec<String>,
    pub verbs: Vec<String>,
}

impl Rbac {
    /// Well-formed when no list is empty.
    pub open spec fn valid(self) -> bool {
        self.apiGroups.len() >= 1 && self.resources.len() >= 1 && self.verbs.len() >= 1
    }

    /// Decides `valid`.
    pub fn verify(&self) -> (r: bool)
        ensures
            r == self.valid(),
    {
        self.apiGroups.len() >= 1 && self.resources.len() >= 1 && self.verbs.len() >= 1
    }
}

/// Access mode of a persistent volume claim.
#[derive(Clone, Copy, Debug, PartialEq, Eq, Structural)]
pub enum AccessMode {
    ReadWriteOnce,
    ReadOnlyMany,
    ReadWriteMany,
}

/// A persistent volume handed to the chart.
#[derive(Clone, Debug)]
pub struct PersistentVolume {
    pub name: String,
    pub storageClass: String,
    pub accessMode: AccessMode,
    /// Size in gibibytes.
    pub size_gb: u32,
}

impl PersistentVolume {
    pub open spec fn valid(self) -> bool {
        valid_name(self.name@) && self.size_gb >= 1
    }

    /// Decides `valid`.
    pub fn verify(&self) -> (r: bool)
        ensures
            r == self.valid(),
    {
        name_ok(&self.name) && self.size_gb >= 1
    }
}

/// A templated config file inlined into a config map.
#[derive(Clone, Debug)]
pub struct ConfigMappedFile {
    pub name: String,
    pub dest: String,
}

/// Config files mounted into every pod.
#[derive(Clone, Debug)]
pub struct ConfigMap {
    /// Mount point; must be a directory path ending in `/`.
    pub mount: String,
    pub files: Vec<ConfigMappedFile>,
}

impl ConfigMap {
    /// Well-formed when the mount point ends in `/` and every file has a
    /// non-empty source name.
    pub open spec fn valid(self) -> bool {
        &&& self.mount@.len() >= 1
        &&& self.mount@[self.mount@.len() - 1] == '/'
        &&& forall|i: int|
            0 <= i < self.files.len() ==> (#[trigger] self.files[i]).name@.len() >= 1
    }

    /// Decides `valid`.
    pub fn verify(&self) -> (r: bool)
        ensures
            r == self.valid(),
    {
        let n = self.mount.as_str().unicode_len();
        if n < 1 {
            return false;
        }
        if self.mount.as_str().get_char(n - 1) != '/' {
            return false;
        }
        let mut i: usize = 0;
        while i < self.files.len()
            invariant
                i <= self.files.len(),
                forall|j: int| 0 <= j < i ==> (#[trigger] self.files[j]).name@.len() >= 1,
            decreases self.files.len() - i,
        {
            if self.files[i].name.as_str().unicode_len() < 1 {
                return false;
            }
            i += 1;
        }
        true
    }
}

/// A surge or unavailability bound for a rolling update, either as a
/// percentage of the replica count or as an absolute pod count.
#[derive(Clone, Copy, Debug, PartialEq, Eq, Structural)]
pub enum UpgradeBound {
    Percent(u32),
    Count(u32),
}

/// Rolling-update parameters of the main deployment.
#[derive(Clone, Copy, Debug)]
pub struct RollingUpdate {
    pub maxUnavailable: Option<UpgradeBound>,
    pub maxSurge: Option<UpgradeBound>,
}

impl RollingUpdate {
    /// Whether a bound is effectively zero pods.
    pub open spec fn bound_is_zero(b: UpgradeBound) -> bool {
        b == UpgradeBound::Percent(0) || b == UpgradeBound::Count(0)
    }

    /// Rolling-update parameters are well-formed for a replica count when
    /// at least one bound is declared, percentages stay within 100, counts
    /// stay within the replica count, and the two bounds are not both zero
    /// (which would forbid any progress).
    pub open spec fn valid(self, replicas: u32) -> bool {
        &&& self.maxUnavailable is Some || self.maxSurge is Some
        &&& match self.maxUnavailable {
            Some(UpgradeBound::Percent(p)) => p <= 100,
            Some(UpgradeBound::Count(c)) => c <= replicas,
            None => true,
        }
        &&& match self.maxSurge {
            Some(UpgradeBound::Percent(p)) => p <= 100,
            Some(UpgradeBound::Count(_)) => true,
            None => true,
        }
        &&& !{
            &&& (match self.maxUnavailable {
                Some(b) => Self::bound_is_zero(b),
                None => true,
            })
            &&& (match self.maxSurge {
                Some(b) => Self::bound_is_zero(b),
                None => true,
            })
        }
    }

    /// Decides `valid` for the given replica count.
    pub fn verify(&self, replicas: u32) -> (r: bool)
        ensures
            r == self.valid(replicas),
    {
        if self.maxUnavailable.is_none() && self.maxSurge.is_none() {
            return false;
        }
        let una_ok = match self.maxUnavailable {
            Some(UpgradeBound::Percent(p)) => p <= 100,
            Some(UpgradeBound::Count(c)) => c <= replicas,
            None => true,
        };
        let sur_ok = match self.maxSurge {
            Some(UpgradeBound::Percent(p)) => p <= 100,
            Some(UpgradeBound::Count(_)) => true,
            None => true,
        };
        if !una_ok || !sur_ok {
            return false;
        }
        let una_zero = match self.maxUnavailable {
            Some(UpgradeBound::Percent(p)) => p == 0,
            Some(UpgradeBound::Count(c)) => c == 0,
            None => true,
        };
        let sur_zero = match self.maxSurge {
            Some(UpgradeBound::Percent(p)) => p == 0,
            Some(UpgradeBound::Count(c)) => c == 0,
            None => true,
        };
        !(una_zero && sur_zero)
    }
}

/// Horizontal autoscaler bounds.
#[derive(Clone, Copy, Debug)]
pub struct AutoScaling {
    pub minReplicas: u32,
    pub maxReplicas: u32,
}

/// A named volume made available to pods.
#[derive(Clone, Debug)]
pub struct Volume {
    pub name: String,
}

/// A mount of a declared volume.
#[derive(Clone, Debug)]
pub struct VolumeMount {
    pub name: String,
    pub mountPath: String,
    pub readOnly: bool,
}

/// Commands run on container lifecycle events.
#[derive(Clone, Debug)]
pub struct LifeCycle {
    pub postStart: Option<String>,
    pub preStop: Option<String>,
}

/// Gateway routing configuration for the service.
#[derive(Clone, Debug)]
pub struct Kong {
    pub uris: Option<String>,
    pub strip_uri: bool,
}

/// Gate setup for a service.
#[derive(Clone, Copy, Debug)]
pub struct Gate {
    pub websockets: bool,
    pub public: bool,
}

/// Marker that the service consumes the message bus.
#[derive(Clone, Copy, Debug)]
pub struct Kafka {
}

/// A managed relational database provisioned for the service.
#[derive(Clone, Debug)]
pub struct Rds {
    pub engine: String,
    pub version: String,
    /// Storage in gibibytes.
    pub size_gb: u32,
    pub instanceClass: String,
}

impl Rds {
    /// Well-formed when an engine is named and the storage is positive.
    pub open spec fn valid(self) -> bool {
        self.engine@.len() >= 1 && self.size_gb >= 1
    }

    /// Decides `valid`.
    pub fn verify(&self) -> (r: bool)
        ensures
            r == self.valid(),
    {
        self.engine.as_str().unicode_len() >= 1 && self.size_gb >= 1
    }
}

/// A managed cache provisioned for the service.
#[derive(Clone, Debug)]
pub struct ElastiCache {
    pub nodes: u32,
    pub nodeType: String,
}

impl ElastiCache {
    pub open spec fn valid(self) -> bool {
        self.nodes >= 1 && self.nodeType@.len() >= 1
    }

    /// Decides `valid`.
    pub fn verify(&self) -> (r: bool)
        ensures
            r == self.valid(),
    {
        self.nodes >= 1 && self.nodeType.as_str().unicode_len() >= 1
    }
}

/// One declared data store and how its fields are protected.
#[derive(Clone, Debug)]
pub struct DataStore {
    pub backend: String,
    pub encrypted: bool,
}

/// Data sources and handling strategies.
#[derive(Clone, Debug)]
pub struct DataHandling {
    pub stores: Vec<DataStore>,
}

impl DataHandling {
    /// Well-formed when every declared store is encrypted.
    pub open spec fn valid(self) -> bool {
        forall|i: int| 0 <= i < self.stores.len() ==> (#[trigger] self.stores[i]).encrypted
    }

    /// Decides `valid`.
    pub fn verify(&self) -> (r: bool)
        ensures
            r == self.valid(),
    {
        let mut i: usize = 0;
        while i < self.stores.len()
            invariant
                i <= self.stores.len(),
                forall|j: int| 0 <= j < i ==> (#[trigger] self.stores[j]).encrypted,
            decreases self.stores.len() - i,
        {
            if !self.stores[i].encrypted {
                return false;
            }
            i += 1;
        }
        true
    }
}

/// Overrides of the service name and region folder used when computing the
/// secret-store path.
#[derive(Clone, Debug)]
pub struct VaultOpts {
    pub name: String,
    pub region: Option<String>,
}

/// An auxiliary deployment scaled independently of the main one.
#[derive(Clone, Debug)]
pub struct Worker {
    pub name: String,
    pub replicaCount: u32,
    pub resources: Option<Resources>,
    pub ports: Vec<Port>,
    pub command: Vec<String>,
    pub env: crate::envvars::EnvVars,
}

impl Worker {
    /// Well-formed when the name follows the service-name rule, at least
    /// one replica is asked for, declared resources are well-formed, and
    /// every port is well-formed.
    pub open spec fn valid(self) -> bool {
        &&& valid_name(self.name@)
        &&& self.replicaCount >= 1
        &&& match self.resources {
            Some(r) => r.valid(),
            None => true,
        }
        &&& forall|i: int| 0 <= i < self.ports.len() ==> (#[trigger] self.ports[i]).valid()
        &&& self.env.valid()
    }

    /// Decides `valid`.
    pub fn verify(&self) -> (r: bool)
        ensures
            r == self.valid(),
    {
        if !name_ok(&self.name) || self.replicaCount < 1 || !self.env.verify() {
            return false;
        }
        let res_ok = match &self.resources {
            Some(r) => r.verify(),
            None => true,
        };
        if !res_ok {
            return false;
        }
        let mut i: usize = 0;
        while i < self.ports.len()
            invariant
                i <= self.ports.len(),
                forall|j: int| 0 <= j < i ==> (#[trigger] self.ports[j]).valid(),
            decreases self.ports.len() - i,
        {
            if !self.ports[i].verify() {
                return false;
            }
            i += 1;
        }
        true
    }
}

/// A container injected beside the main one in every pod.
#[derive(Clone, Debug)]
pub struct Sidecar {
    pub name: String,
    pub version: Option<String>,
    pub env: crate::envvars::EnvVars,
}

impl Sidecar {
    pub open spec fn valid(self) -> bool {
        valid_name(self.name@) && self.env.valid()
    }

    /// Decides `valid`.
    pub fn verify(&self) -> (r: bool)
        ensures
            r == self.valid(),
    {
        name_ok(&self.name) && self.env.verify()
    }
}

/// A scheduled one-off image run as a cron job.
#[derive(Clone, Debug)]
pub struct CronJob {
    pub name: String,
    pub schedule: String,
    pub command: Vec<String>,
    pub env: crate::envvars::EnvVars,
}

impl CronJob {
    /// Well-formed when the name follows the service-name rule and a
    /// schedule is given.
    pub open spec fn valid(self) -> bool {
        valid_name(self.name@) && self.schedule@.len() >= 1 && self.env.valid()
    }

    /// Decides `valid`.
    pub fn verify(&self) -> (r: bool)
        ensures
            r == self.valid(),
    {
        name_ok(&self.name) && self.schedule.as_str().unicode_len() >= 1 && self.env.verify()
    }
}

} // verus!
