//! The validator: an ordered sequence of structural and cross-field checks
//! on a resolved manifest, stopping at the first violated invariant and
//! naming it. A declarative form of the same condition is proved equal to
//! the ordered checker.
use vstd::prelude::*;

use crate::config::{Config, Region};
use crate::manifest::Manifest;
use crate::strutil::{contains_str, name_ok, strs_view, valid_name};

verus! {

/// The first invariant a manifest violates, if any. User errors ask for a
/// manifest fix; the `Missing*` field errors after the per-element checks
/// signal a defect in the resolution pipeline instead.
#[derive(Clone, Copy, Debug, PartialEq, Eq, Structural)]
pub enum ValidationError {
    /// The target region is not in the manifest's region list.
    UnsupportedRegion,
    /// The service name breaks the naming rule.
    BadName,
    /// A data store is declared without encryption.
    InvalidDataHandling,
    /// No metadata block was declared.
    MissingMetadata,
    /// The metadata block names an unknown team or a bad contact.
    InvalidMetadata,
    /// The declared version does not satisfy the region's scheme.
    BadVersion,
    /// A gate block without a gateway block.
    GateWithoutKong,
    /// Mismatched public visibility settings across subsystems.
    GatePublicMismatch,
    /// No resource block was declared.
    MissingResources,
    /// The resource block is inconsistent.
    InvalidResources,
    /// A dependency entry breaks its rule.
    InvalidDependency,
    /// A host alias entry breaks its rule.
    InvalidHostAlias,
    /// A toleration entry breaks its rule.
    InvalidToleration,
    /// An init container entry breaks its rule.
    InvalidInitContainer,
    /// A worker entry breaks its rule.
    InvalidWorker,
    /// A sidecar entry breaks its rule.
    InvalidSidecar,
    /// A cron job entry breaks its rule.
    InvalidCronJob,
    /// A port entry breaks its rule.
    InvalidPort,
    /// An access rule entry breaks its rule.
    InvalidRbac,
    /// A persistent volume entry breaks its rule.
    InvalidPersistentVolume,
    /// The config-map block breaks its rule.
    InvalidConfigMap,
    /// No replica count was filled in by the merge (pipeline defect).
    MissingReplicaCount,
    /// The replica count is zero.
    ZeroReplicas,
    /// The rolling-update parameters are inconsistent.
    InvalidRollingUpdate,
    /// An environment variable name breaks its rule.
    InvalidEnvVars,
    /// No image was filled in by the merge (pipeline defect).
    MissingImage,
    /// No image size was filled in by the merge (pipeline defect).
    MissingImageSize,
    /// No chart was filled in by the merge (pipeline defect).
    MissingChart,
    /// No namespace was filled in by the merge (pipeline defect).
    MissingNamespace,
    /// The manifest lists no regions at all.
    MissingRegions,
    /// No environment was filled in by the merge (pipeline defect).
    MissingEnvironment,
    /// An HTTP port is exposed without any health check.
    MissingHealthCheck,
    /// The managed database block breaks its rule.
    InvalidDatabase,
    /// The managed cache block breaks its rule.
    InvalidRedis,
}

impl ValidationError {
    /// Whether this error signals a defect in the resolution pipeline
    /// rather than a manifest a user should fix.
    pub open spec fn is_internal(self) -> bool {
        match self {
            ValidationError::MissingReplicaCount => true,
            ValidationError::MissingImage => true,
            ValidationError::MissingImageSize => true,
            ValidationError::MissingChart => true,
            ValidationError::MissingNamespace => true,
            ValidationError::MissingRegions => true,
            ValidationError::MissingEnvironment => true,
            _ => false,
        }
    }

    /// Decides `is_internal`.
    pub fn internal(&self) -> (r: bool)
        ensures
            r == self.is_internal(),
    {
        match self {
            ValidationError::MissingReplicaCount => true,
            ValidationError::MissingImage => true,
            ValidationError::MissingImageSize => true,
            ValidationError::MissingChart => true,
            ValidationError::MissingNamespace => true,
            ValidationError::MissingRegions => true,
            ValidationError::MissingEnvironment => true,
            _ => false,
        }
    }

    /// The reason text of this error.
    pub open spec fn reason_view(self) -> Seq<char> {
        match self {
            ValidationError::UnsupportedRegion => "unsupported region for this service"@,
            ValidationError::BadName => "use a short, lower case service name with dashes"@,
            ValidationError::InvalidDataHandling => "data stores must be encrypted"@,
            ValidationError::MissingMetadata => "missing metadata"@,
            ValidationError::InvalidMetadata => "metadata names an unknown team or contact"@,
            ValidationError::BadVersion => "version does not satisfy the region's scheme"@,
            ValidationError::GateWithoutKong => "can't have a gate configuration without a kong one"@,
            ValidationError::GatePublicMismatch => "publiclyAccessible and gate.public must be equal"@,
            ValidationError::MissingResources => "resources is mandatory"@,
            ValidationError::InvalidResources => "resource requests must be positive and within limits"@,
            ValidationError::InvalidDependency => "invalid dependency entry"@,
            ValidationError::InvalidHostAlias => "invalid host alias entry"@,
            ValidationError::InvalidToleration => "invalid toleration entry"@,
            ValidationError::InvalidInitContainer => "invalid init container entry"@,
            ValidationError::InvalidWorker => "invalid worker entry"@,
            ValidationError::InvalidSidecar => "invalid sidecar entry"@,
            ValidationError::InvalidCronJob => "invalid cron job entry"@,
            ValidationError::InvalidPort => "invalid port entry"@,
            ValidationError::InvalidRbac => "invalid rbac entry"@,
            ValidationError::InvalidPersistentVolume => "invalid persistent volume entry"@,
            ValidationError::InvalidConfigMap => "invalid config map"@,
            ValidationError::MissingReplicaCount => "replicaCount should be set at this point"@,
            ValidationError::ZeroReplicas => "need replicaCount to be at least 1"@,
            ValidationError::InvalidRollingUpdate => "invalid rolling update parameters"@,
            ValidationError::InvalidEnvVars => "invalid environment variable name"@,
            ValidationError::MissingImage => "image should be set at this point"@,
            ValidationError::MissingImageSize => "imageSize must be set at this point"@,
            ValidationError::MissingChart => "chart must be set at this point"@,
            ValidationError::MissingNamespace => "namespace must be set at this point"@,
            ValidationError::MissingRegions => "no regions specified"@,
            ValidationError::MissingEnvironment => "ended up with an empty environment"@,
            ValidationError::MissingHealthCheck => "has an httpPort but no health check"@,
            ValidationError::InvalidDatabase => "invalid managed database block"@,
            ValidationError::InvalidRedis => "invalid managed cache block"@,
        }
    }

    /// The full message for a service: its name, a separator, the reason.
    pub fn describe(&self, svc: &String) -> (r: String)
        ensures
            r@ == svc@ + ": "@ + self.reason_view(),
    {
        let lit: &str = match self {
            ValidationError::UnsupportedRegion => "unsupported region for this service",
            ValidationError::BadName => "use a short, lower case service name with dashes",
            ValidationError::InvalidDataHandling => "data stores must be encrypted",
            ValidationError::MissingMetadata => "missing metadata",
            ValidationError::InvalidMetadata => "metadata names an unknown team or contact",
            ValidationError::BadVersion => "version does not satisfy the region's scheme",
            ValidationError::GateWithoutKong => "can't have a gate configuration without a kong one",
            ValidationError::GatePublicMismatch => "publiclyAccessible and gate.public must be equal",
            ValidationError::MissingResources => "resources is mandatory",
            ValidationError::InvalidResources => "resource requests must be positive and within limits",
            ValidationError::InvalidDependency => "invalid dependency entry",
            ValidationError::InvalidHostAlias => "invalid host alias entry",
            ValidationError::InvalidToleration => "invalid toleration entry",
            ValidationError::InvalidInitContainer => "invalid init container entry",
            ValidationError::InvalidWorker => "invalid worker entry",
            ValidationError::InvalidSidecar => "invalid sidecar entry",
            ValidationError::InvalidCronJob => "invalid cron job entry",
            ValidationError::InvalidPort => "invalid port entry",
            ValidationError::InvalidRbac => "invalid rbac entry",
            ValidationError::InvalidPersistentVolume => "invalid persistent volume entry",
            ValidationError::InvalidConfigMap => "invalid config map",
            ValidationError::MissingReplicaCount => "replicaCount should be set at this point",
            ValidationError::ZeroReplicas => "need replicaCount to be at least 1",
            ValidationError::InvalidRollingUpdate => "invalid rolling update parameters",
            ValidationError::InvalidEnvVars => "invalid environment variable name",
            ValidationError::MissingImage => "image should be set at this point",
            ValidationError::MissingImageSize => "imageSize must be set at this point",
            ValidationError::MissingChart => "chart must be set at this point",
            ValidationError::MissingNamespace => "namespace must be set at this point",
            ValidationError::MissingRegions => "no regions specified",
            ValidationError::MissingEnvironment => "ended up with an empty environment",
            ValidationError::MissingHealthCheck => "has an httpPort but no health check",
            ValidationError::InvalidDatabase => "invalid managed database block",
            ValidationError::InvalidRedis => "invalid managed cache block",
        };
        let head = svc.clone();
        head.concat(": ").concat(lit)
    }
}

impl Manifest {
    /// The identity checks run for every manifest, external ones
    /// included: region membership and the naming rule, nothing more.
    pub open spec fn identity_valid(self) -> bool {
        &&& strs_view(self.regions@).contains(self.region@)
        &&& valid_name(self.name@)
    }

    /// The full checks run for a non-external manifest, as one declarative
    /// conjunction over all fields and elements.
    pub open spec fn body_valid(self, conf: Config, region: Region) -> bool {
        &&& (match self.dataHandling {
            Some(dh) => dh.valid(),
            None => true,
        })
        &&& (match self.metadata {
            Some(md) => md.valid(conf.team_names_view()),
            None => false,
        })
        &&& (match self.version {
            Some(v) => region.versioningScheme.accepts(v@),
            None => true,
        })
        &&& (match self.gate {
            Some(g) => self.kong is Some && g.public == self.publiclyAccessible,
            None => true,
        })
        &&& (match self.resources {
            Some(res) => res.valid(),
            None => false,
        })
        &&& (forall|i: int|
            0 <= i < self.dependencies@.len() ==> (#[trigger] self.dependencies@[i]).valid())
        &&& (forall|i: int|
            0 <= i < self.hostAliases@.len() ==> (#[trigger] self.hostAliases@[i]).valid())
        &&& (forall|i: int|
            0 <= i < self.tolerations@.len() ==> (#[trigger] self.tolerations@[i]).valid())
        &&& (forall|i: int|
            0 <= i < self.initContainers@.len() ==> (#[trigger] self.initContainers@[i]).valid())
        &&& (forall|i: int| 0 <= i < self.workers@.len() ==> (#[trigger] self.workers@[i]).valid())
        &&& (forall|i: int|
            0 <= i < self.sidecars@.len() ==> (#[trigger] self.sidecars@[i]).valid())
        &&& (forall|i: int|
            0 <= i < self.cronJobs@.len() ==> (#[trigger] self.cronJobs@[i]).valid())
        &&& (forall|i: int| 0 <= i < self.ports@.len() ==> (#[trigger] self.ports@[i]).valid())
        &&& (forall|i: int| 0 <= i < self.rbac@.len() ==> (#[trigger] self.rbac@[i]).valid())
        &&& (forall|i: int|
            0 <= i < self.persistentVolumes@.len() ==> (
            #[trigger] self.persistentVolumes@[i]).valid())
        &&& (match self.configs {
            Some(c) => c.valid(),
            None => true,
        })
        &&& self.replicaCount matches Some(n) && n >= 1
        &&& (match (self.rollingUpdate, self.replicaCount) {
            (Some(ru), Some(n)) => ru.valid(n),
            _ => true,
        })
        &&& self.env.valid()
        &&& self.image is Some
        &&& self.imageSize is Some
        &&& self.chart is Some
        &&& self.namespace@.len() != 0
        &&& self.regions@.len() != 0
        &&& self.environment@.len() != 0
        &&& (self.httpPort is Some ==> self.health is Some || self.readinessProbe is Some)
        &&& (match self.database {
            Some(db) => db.valid(),
            None => true,
        })
        &&& (match self.redis {
            Some(rd) => rd.valid(),
            None => true,
        })
    }

    /// What validation accepts: the identity checks always, and the body
    /// checks unless the service is external — an external manifest is a
    /// reference-only entry that only its region and name can disqualify.
    pub open spec fn manifest_valid(self, conf: Config, region: Region) -> bool {
        self.identity_valid() && (self.external || self.body_valid(conf, region))
    }

    /// The ordered identity checks: region membership, then the naming
    /// rule. These run for every manifest, external ones included, and
    /// are the only checks an external manifest faces.
    pub open spec fn identity_spec(self) -> Result<(), ValidationError> {
        if !strs_view(self.regions@).contains(self.region@) {
            Err(ValidationError::UnsupportedRegion)
        } else if !valid_name(self.name@) {
            Err(ValidationError::BadName)
        } else {
            Ok(())
        }
    }

    /// The ordered data-handling, metadata, version, gate and resource
    /// checks.
    pub open spec fn head_spec(self, conf: Config, region: Region) -> Result<
        (),
        ValidationError,
    > {
        if !(match self.dataHandling {
            Some(dh) => dh.valid(),
            None => true,
        }) {
            Err(ValidationError::InvalidDataHandling)
        } else if self.metadata is None {
            Err(ValidationError::MissingMetadata)
        } else if !(match self.metadata {
            Some(md) => md.valid(conf.team_names_view()),
            None => false,
        }) {
            Err(ValidationError::InvalidMetadata)
        } else if !(match self.version {
            Some(v) => region.versioningScheme.accepts(v@),
            None => true,
        }) {
            Err(ValidationError::BadVersion)
        } else if self.gate is Some && self.kong is None {
            Err(ValidationError::GateWithoutKong)
        } else if !(match self.gate {
            Some(g) => g.public == self.publiclyAccessible,
            None => true,
        }) {
            Err(ValidationError::GatePublicMismatch)
        } else if self.resources is None {
            Err(ValidationError::MissingResources)
        } else if !(match self.resources {
            Some(res) => res.valid(),
            None => false,
        }) {
            Err(ValidationError::InvalidResources)
        } else {
            Ok(())
        }
    }

    /// The ordered per-element checks over every vectorised sub-structure,
    /// and the config-map block.
    pub open spec fn elements_spec(self) -> Result<(), ValidationError> {
        if !(forall|i: int|
            0 <= i < self.dependencies@.len() ==> (#[trigger] self.dependencies@[i]).valid()) {
            Err(ValidationError::InvalidDependency)
        } else if !(forall|i: int|
            0 <= i < self.hostAliases@.len() ==> (#[trigger] self.hostAliases@[i]).valid()) {
            Err(ValidationError::InvalidHostAlias)
        } else if !(forall|i: int|
            0 <= i < self.tolerations@.len() ==> (#[trigger] self.tolerations@[i]).valid()) {
            Err(ValidationError::InvalidToleration)
        } else if !(forall|i: int|
            0 <= i < self.initContainers@.len() ==> (
            #[trigger] self.initContainers@[i]).valid()) {
            Err(ValidationError::InvalidInitContainer)
        } else if !(forall|i: int|
            0 <= i < self.workers@.len() ==> (#[trigger] self.workers@[i]).valid()) {
            Err(ValidationError::InvalidWorker)
        } else if !(forall|i: int|
            0 <= i < self.sidecars@.len() ==> (#[trigger] self.sidecars@[i]).valid()) {
            Err(ValidationError::InvalidSidecar)
        } else if !(forall|i: int|
            0 <= i < self.cronJobs@.len() ==> (#[trigger] self.cronJobs@[i]).valid()) {
            Err(ValidationError::InvalidCronJob)
        } else if !(forall|i: int|
            0 <= i < self.ports@.len() ==> (#[trigger] self.ports@[i]).valid()) {
            Err(ValidationError::InvalidPort)
        } else if !(forall|i: int| 0 <= i < self.rbac@.len() ==> (#[trigger] self.rbac@[i]).valid()) {
            Err(ValidationError::InvalidRbac)
        } else if !(forall|i: int|
            0 <= i < self.persistentVolumes@.len() ==> (
            #[trigger] self.persistentVolumes@[i]).valid()) {
            Err(ValidationError::InvalidPersistentVolume)
        } else if !(match self.configs {
            Some(c) => c.valid(),
            None => true,
        }) {
            Err(ValidationError::InvalidConfigMap)
        } else {
            Ok(())
        }
    }

    /// The ordered closing checks: replica sanity, rolling-update
    /// consistency, environment variable names, the fields the pipeline
    /// guarantees, HTTP exposure and the managed stores.
    pub open spec fn tail_spec(self) -> Result<(), ValidationError> {
        if self.replicaCount is None {
            Err(ValidationError::MissingReplicaCount)
        } else if !(self.replicaCount matches Some(n) && n >= 1) {
            Err(ValidationError::ZeroReplicas)
        } else if !(match (self.rollingUpdate, self.replicaCount) {
            (Some(ru), Some(n)) => ru.valid(n),
            _ => true,
        }) {
            Err(ValidationError::InvalidRollingUpdate)
        } else if !self.env.valid() {
            Err(ValidationError::InvalidEnvVars)
        } else if self.image is None {
            Err(ValidationError::MissingImage)
        } else if self.imageSize is None {
            Err(ValidationError::MissingImageSize)
        } else if self.chart is None {
            Err(ValidationError::MissingChart)
        } else if self.namespace@.len() == 0 {
            Err(ValidationError::MissingNamespace)
        } else if self.regions@.len() == 0 {
            Err(ValidationError::MissingRegions)
        } else if self.environment@.len() == 0 {
            Err(ValidationError::MissingEnvironment)
        } else if self.httpPort is Some && self.health is None && self.readinessProbe is None {
            Err(ValidationError::MissingHealthCheck)
        } else if !(match self.database {
            Some(db) => db.valid(),
            None => true,
        }) {
            Err(ValidationError::InvalidDatabase)
        } else if !(match self.redis {
            Some(rd) => rd.valid(),
            None => true,
        }) {
            Err(ValidationError::InvalidRedis)
        } else {
            Ok(())
        }
    }

    /// The ordered checker: the first violated invariant, or success; an
    /// external service passes everything past the identity checks.
    pub open spec fn verify_spec(self, conf: Config, region: Region) -> Result<
        (),
        ValidationError,
    > {
        if self.identity_spec() is Err {
            self.identity_spec()
        } else if self.external {
            Ok(())
        } else if self.head_spec(conf, region) is Err {
            self.head_spec(conf, region)
        } else if self.elements_spec() is Err {
            self.elements_spec()
        } else {
            self.tail_spec()
        }
    }

    /// Runs the identity checks in order.
    pub fn verify_identity(&self) -> (r: Result<(), ValidationError>)
        ensures
            r == self.identity_spec(),
    {
        if !contains_str(&self.regions, &self.region) {
            return Err(ValidationError::UnsupportedRegion);
        }
        if !name_ok(&self.name) {
            return Err(ValidationError::BadName);
        }
        Ok(())
    }

    /// Runs the data-handling, metadata, version, gate and resource
    /// checks in order.
    pub fn verify_head(&self, conf: &Config, region: &Region) -> (r: Result<
        (),
        ValidationError,
    >)
        ensures
            r == self.head_spec(*conf, *region),
    {
        let dh_ok = match &self.dataHandling {
            Some(dh) => dh.verify(),
            None => true,
        };
        if !dh_ok {
            return Err(ValidationError::InvalidDataHandling);
        }
        match &self.metadata {
            Some(md) => {
                let teams = conf.team_names();
                if !md.verify(&teams) {
                    return Err(ValidationError::InvalidMetadata);
                }
            },
            None => {
                return Err(ValidationError::MissingMetadata);
            },
        }
        let ver_ok = match &self.version {
            Some(v) => region.versioningScheme.verify(v),
            None => true,
        };
        if !ver_ok {
            return Err(ValidationError::BadVersion);
        }
        match &self.gate {
            Some(g) => {
                if self.kong.is_none() {
                    return Err(ValidationError::GateWithoutKong);
                }
                if g.public != self.publiclyAccessible {
                    return Err(ValidationError::GatePublicMismatch);
                }
            },
            None => {},
        }
        match &self.resources {
            Some(res) => {
                if !res.verify() {
                    return Err(ValidationError::InvalidResources);
                }
            },
            None => {
                return Err(ValidationError::MissingResources);
            },
        }
        Ok(())
    }

    /// Runs the per-element checks in order.
    #[verifier::loop_isolation(false)]
    pub fn verify_elements(&self) -> (r: Result<(), ValidationError>)
        ensures
            r == self.elements_spec(),
    {
        let mut i: usize = 0;
        while i < self.dependencies.len()
            invariant
                i <= self.dependencies.len(),
                forall|j: int| 0 <= j < i ==> (#[trigger] self.dependencies@[j]).valid(),
            decreases self.dependencies.len() - i,
        {
            if !self.dependencies[i].verify() {
                proof {
                    assert(!self.dependencies@[i as int].valid());
                }
                return Err(ValidationError::InvalidDependency);
            }
            i += 1;
        }
        let mut i: usize = 0;
        while i < self.hostAliases.len()
            invariant
                i <= self.hostAliases.len(),
                forall|j: int| 0 <= j < i ==> (#[trigger] self.hostAliases@[j]).valid(),
            decreases self.hostAliases.len() - i,
        {
            if !self.hostAliases[i].verify() {
                proof {
                    assert(!self.hostAliases@[i as int].valid());
                }
                return Err(ValidationError::InvalidHostAlias);
            }
            i += 1;
        }
        let mut i: usize = 0;
        while i < self.tolerations.len()
            invariant
                i <= self.tolerations.len(),
                forall|j: int| 0 <= j < i ==> (#[trigger] self.tolerations@[j]).valid(),
            decreases self.tolerations.len() - i,
        {
            if !self.tolerations[i].verify() {
                proof {
                    assert(!self.tolerations@[i as int].valid());
                }
                return Err(ValidationError::InvalidToleration);
            }
            i += 1;
        }
        let mut i: usize = 0;
        while i < self.initContainers.len()
            invariant
                i <= self.initContainers.len(),
                forall|j: int| 0 <= j < i ==> (#[trigger] self.initContainers@[j]).valid(),
            decreases self.initContainers.len() - i,
        {
            if !self.initContainers[i].verify() {
                proof {
                    assert(!self.initContainers@[i as int].valid());
                }
                return Err(ValidationError::InvalidInitContainer);
            }
            i += 1;
        }
        let mut i: usize = 0;
        while i < self.workers.len()
            invariant
                i <= self.workers.len(),
                forall|j: int| 0 <= j < i ==> (#[trigger] self.workers@[j]).valid(),
            decreases self.workers.len() - i,
        {
            if !self.workers[i].verify() {
                proof {
                    assert(!self.workers@[i as int].valid());
                }
                return Err(ValidationError::InvalidWorker);
            }
            i += 1;
        }
        let mut i: usize = 0;
        while i < self.sidecars.len()
            invariant
                i <= self.sidecars.len(),
                forall|j: int| 0 <= j < i ==> (#[trigger] self.sidecars@[j]).valid(),
            decreases self.sidecars.len() - i,
        {
            if !self.sidecars[i].verify() {
                proof {
                    assert(!self.sidecars@[i as int].valid());
                }
                return Err(ValidationError::InvalidSidecar);
            }
            i += 1;
        }
        let mut i: usize = 0;
        while i < self.cronJobs.len()
            invariant
                i <= self.cronJobs.len(),
                forall|j: int| 0 <= j < i ==> (#[trigger] self.cronJobs@[j]).valid(),
            decreases self.cronJobs.len() - i,
        {
            if !self.cronJobs[i].verify() {
                proof {
                    assert(!self.cronJobs@[i as int].valid());
                }
                return Err(ValidationError::InvalidCronJob);
            }
            i += 1;
        }
        let mut i: usize = 0;
        while i < self.ports.len()
            invariant
                i <= self.ports.len(),
                forall|j: int| 0 <= j < i ==> (#[trigger] self.ports@[j]).valid(),
            decreases self.ports.len() - i,
        {
            if !self.ports[i].verify() {
                proof {
                    assert(!self.ports@[i as int].valid());
                }
                return Err(ValidationError::InvalidPort);
            }
            i += 1;
        }
        let mut i: usize = 0;
        while i < self.rbac.len()
            invariant
                i <= self.rbac.len(),
                forall|j: int| 0 <= j < i ==> (#[trigger] self.rbac@[j]).valid(),
            decreases self.rbac.len() - i,
        {
            if !self.rbac[i].verify() {
                proof {
                    assert(!self.rbac@[i as int].valid());
                }
                return Err(ValidationError::InvalidRbac);
            }
            i += 1;
        }
        let mut i: usize = 0;
        while i < self.persistentVolumes.len()
            invariant
                i <= self.persistentVolumes.len(),
                forall|j: int| 0 <= j < i ==> (#[trigger] self.persistentVolumes@[j]).valid(),
            decreases self.persistentVolumes.len() - i,
        {
            if !self.persistentVolumes[i].verify() {
                proof {
                    assert(!self.persistentVolumes@[i as int].valid());
                }
                return Err(ValidationError::InvalidPersistentVolume);
            }
            i += 1;
        }
        let cfg_ok = match &self.configs {
            Some(c) => c.verify(),
            None => true,
        };
        if !cfg_ok {
            return Err(ValidationError::InvalidConfigMap);
        }
        Ok(())
    }

    /// Runs the closing checks in order.
    pub fn verify_tail(&self) -> (r: Result<(), ValidationError>)
        ensures
            r == self.tail_spec(),
    {
        match self.replicaCount {
            None => {
                return Err(ValidationError::MissingReplicaCount);
            },
            Some(n) => {
                if n < 1 {
                    return Err(ValidationError::ZeroReplicas);
                }
                let ru_ok = match &self.rollingUpdate {
                    Some(ru) => ru.verify(n),
                    None => true,
                };
                if !ru_ok {
                    return Err(ValidationError::InvalidRollingUpdate);
                }
            },
        }
        if !self.env.verify() {
            return Err(ValidationError::InvalidEnvVars);
        }
        if self.image.is_none() {
            return Err(ValidationError::MissingImage);
        }
        if self.imageSize.is_none() {
            return Err(ValidationError::MissingImageSize);
        }
        if self.chart.is_none() {
            return Err(ValidationError::MissingChart);
        }
        if self.namespace.as_str().unicode_len() == 0 {
            return Err(ValidationError::MissingNamespace);
        }
        if self.regions.len() == 0 {
            return Err(ValidationError::MissingRegions);
        }
        if self.environment.as_str().unicode_len() == 0 {
            return Err(ValidationError::MissingEnvironment);
        }
        if self.httpPort.is_some() && self.health.is_none() && self.readinessProbe.is_none() {
            return Err(ValidationError::MissingHealthCheck);
        }
        let db_ok = match &self.database {
            Some(db) => db.verify(),
            None => true,
        };
        if !db_ok {
            return Err(ValidationError::InvalidDatabase);
        }
        let rd_ok = match &self.redis {
            Some(rd) => rd.verify(),
            None => true,
        };
        if !rd_ok {
            return Err(ValidationError::InvalidRedis);
        }
        Ok(())
    }

    /// Verify assumptions about a manifest populated by the merge step:
    /// returns the first violated invariant; an external service passes
    /// everything past the identity checks.
    pub fn verify(&self, conf: &Config, region: &Region) -> (r: Result<(), ValidationError>)
        requires
            self.region@.len() != 0,
        ensures
            r == self.verify_spec(*conf, *region),
            r is Ok <==> self.manifest_valid(*conf, *region),
    {
        proof {
            self.lemma_verify_spec_exact(*conf, *region);
        }
        let rid = self.verify_identity();
        if rid.is_err() {
            return rid;
        }
        if self.external {
            return Ok(());
        }
        let rh = self.verify_head(conf, region);
        if rh.is_err() {
            return rh;
        }
        let re = self.verify_elements();
        if re.is_err() {
            return re;
        }
        self.verify_tail()
    }

    /// The identity stage succeeds exactly when the identity conjunction
    /// holds.
    pub proof fn lemma_identity_exact(self)
        ensures
            self.identity_spec() is Ok <==> self.identity_valid(),
    {
    }

    /// The three non-identity stages together succeed exactly when the
    /// declarative body conjunction holds.
    pub proof fn lemma_body_exact(self, conf: Config, region: Region)
        ensures
            (self.head_spec(conf, region) is Ok && self.elements_spec() is Ok && self.tail_spec()
                is Ok) <==> self.body_valid(conf, region),
    {
    }

    /// The ordered checker succeeds exactly when the declarative condition
    /// holds: validation accepts a manifest if and only if every identity
    /// check, every mandatory field and every per-element check is in
    /// order, an external service passing everything past the identity
    /// checks; violating any one of them flips the result.
    pub proof fn lemma_verify_spec_exact(self, conf: Config, region: Region)
        ensures
            self.verify_spec(conf, region) is Ok <==> self.manifest_valid(conf, region),
    {
        self.lemma_identity_exact();
        self.lemma_body_exact(conf, region);
    }
}

} // verus!
