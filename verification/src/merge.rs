//! The manifest merge engine: layers a region override over a service's
//! base manifest, appends or key-merges the collections, fills the
//! implicit fields from the global defaults and the region, and fails
//! when a field the pipeline owes the rest of the system cannot be
//! filled. The engine is pure: it reads nothing but its arguments.
use vstd::prelude::*;

use crate::config::{ManifestDefaults, Region};
use crate::envvars::EnvVars;
use crate::manifest::{Manifest, ManifestType};
use crate::reconcile::union_keep_left;
use crate::strutil::{find_value, has_key, key_value, lemma_pairs_view_push, lemma_take_one_more,
    pairs_view};

verus! {

/// A field the pipeline guarantees that could not be filled: always a
/// defect in configuration or code, never a user error.
#[derive(Clone, Copy, Debug, PartialEq, Eq, Structural)]
pub enum MergeError {
    /// No image declared and no image prefix configured to derive one.
    MissingImage,
    /// No chart declared and none configured.
    MissingChart,
    /// The region supplies no namespace.
    MissingNamespace,
}

impl MergeError {
    /// The reason text of this error.
    pub open spec fn reason_view(self) -> Seq<char> {
        match self {
            MergeError::MissingImage => "image was not propagated internally"@,
            MergeError::MissingChart => "chart was not propagated internally"@,
            MergeError::MissingNamespace => "namespace was not propagated internally"@,
        }
    }

    /// The full message for a service: its name, a separator, the reason.
    pub fn describe(&self, svc: &String) -> (r: String)
        ensures
            r@ == svc@ + ": "@ + self.reason_view(),
    {
        let lit: &str = match self {
            MergeError::MissingImage => "image was not propagated internally",
            MergeError::MissingChart => "chart was not propagated internally",
            MergeError::MissingNamespace => "namespace was not propagated internally",
        };
        let head = svc.clone();
        head.concat(": ").concat(lit)
    }
}

/// A base association list with the override's values taken on shared
/// keys and the override's new keys appended in order.
pub open spec fn keyed_merge(
    base: Seq<(Seq<char>, Seq<char>)>,
    over: Seq<(Seq<char>, Seq<char>)>,
) -> Seq<(Seq<char>, Seq<char>)> {
    union_keep_left(
        base.map_values(
            |p: (Seq<char>, Seq<char>)|
                if has_key(over, p.0) {
                    (p.0, key_value(over, p.0))
                } else {
                    p
                },
        ),
        over,
    )
}

/// Merges two association lists by key: the override's value wins on a
/// shared key, its new keys are appended in order.
pub fn merge_pairs(base: &Vec<(String, String)>, over: &Vec<(String, String)>) -> (r: Vec<
    (String, String),
>)
    ensures
        pairs_view(r@) == keyed_merge(pairs_view(base@), pairs_view(over@)),
{
    let ghost bv = pairs_view(base@);
    let ghost ov = pairs_view(over@);
    let ghost left = bv.map_values(
        |p: (Seq<char>, Seq<char>)|
            if has_key(ov, p.0) {
                (p.0, key_value(ov, p.0))
            } else {
                p
            },
    );
    let mut out: Vec<(String, String)> = Vec::new();
    let mut i: usize = 0;
    while i < base.len()
        invariant
            i <= base.len(),
            bv == pairs_view(base@),
            ov == pairs_view(over@),
            left == bv.map_values(
                |p: (Seq<char>, Seq<char>)|
                    if has_key(ov, p.0) {
                        (p.0, key_value(ov, p.0))
                    } else {
                        p
                    },
            ),
            pairs_view(out@) =~= left.take(i as int),
        decreases base.len() - i,
    {
        proof {
            assert(bv[i as int] == (base@[i as int].0@, base@[i as int].1@));
            assert(left[i as int] == (if has_key(ov, bv[i as int].0) {
                (bv[i as int].0, key_value(ov, bv[i as int].0))
            } else {
                bv[i as int]
            }));
        }
        let ghost prev = out@;
        match find_value(over, &base[i].0) {
            Some(v) => {
                let p = (base[i].0.clone(), v);
                out.push(p);
                proof {
                    lemma_pairs_view_push(prev, p);
                    assert(pairs_view(out@) =~= left.take(i + 1));
                }
            },
            None => {
                let p = (base[i].0.clone(), base[i].1.clone());
                assert(p.0 == base@[i as int].0 && p.1 == base@[i as int].1);
                out.push(p);
                proof {
                    lemma_pairs_view_push(prev, p);
                    assert(pairs_view(out@) =~= left.take(i + 1));
                }
            },
        }
        i += 1;
    }
    assert(left.take(base.len() as int) =~= left);
    let mut i: usize = 0;
    while i < over.len()
        invariant
            i <= over.len(),
            bv == pairs_view(base@),
            ov == pairs_view(over@),
            left == bv.map_values(
                |p: (Seq<char>, Seq<char>)|
                    if has_key(ov, p.0) {
                        (p.0, key_value(ov, p.0))
                    } else {
                        p
                    },
            ),
            pairs_view(out@) =~= union_keep_left(left, ov.take(i as int)),
        decreases over.len() - i,
    {
        proof {
            lemma_take_one_more(ov, i as int);
            assert(ov.take(i + 1).drop_last() =~= ov.take(i as int));
            assert(ov.take(i + 1).last() == ov[i as int]);
            assert(ov[i as int] == (over@[i as int].0@, over@[i as int].1@));
        }
        let found = key_in_left(base, over, &over[i].0);
        proof {
            assert(found == has_key(left, ov[i as int].0));
        }
        if !found {
            let p = (over[i].0.clone(), over[i].1.clone());
            assert(p.0 == over@[i as int].0 && p.1 == over@[i as int].1);
            let ghost prev = out@;
            out.push(p);
            proof {
                lemma_pairs_view_push(prev, p);
                assert(pairs_view(out@) =~= union_keep_left(left, ov.take(i + 1)));
            }
        } else {
            assert(pairs_view(out@) =~= union_keep_left(left, ov.take(i + 1)));
        }
        i += 1;
    }
    assert(ov.take(over.len() as int) =~= ov);
    out
}

/// Whether the merged left side (the base with overridden values) holds
/// a key; it does exactly when the base does, since overriding keeps
/// every key.
fn key_in_left(base: &Vec<(String, String)>, over: &Vec<(String, String)>, k: &String) -> (r:
    bool)
    ensures
        r == has_key(
            pairs_view(base@).map_values(
                |p: (Seq<char>, Seq<char>)|
                    if has_key(pairs_view(over@), p.0) {
                        (p.0, key_value(pairs_view(over@), p.0))
                    } else {
                        p
                    },
            ),
            k@,
        ),
{
    let ghost bv = pairs_view(base@);
    let ghost ov = pairs_view(over@);
    let ghost left = bv.map_values(
        |p: (Seq<char>, Seq<char>)|
            if has_key(ov, p.0) {
                (p.0, key_value(ov, p.0))
            } else {
                p
            },
    );
    let r = match find_value(base, k) {
        Some(_) => true,
        None => false,
    };
    proof {
        assert(left.len() == bv.len());
        if r {
            let w = choose|j: int| 0 <= j < bv.len() && bv[j].0 == k@;
            assert(left[w].0 == k@);
        } else {
            assert forall|j: int| 0 <= j < left.len() implies (#[trigger] left[j]).0 != k@ by {
                assert(left[j].0 == bv[j].0);
            }
        }
    }
    r
}

/// Combines a service's base manifest with its region override and the
/// global defaults into one canonical manifest for the region.
///
/// The identity block (name, flags, regions, metadata) comes from the
/// base alone; scalar fields take the override's value when set, else
/// the base's, else the default; the keyed maps merge with the override
/// winning; the plain collections append the override's entries after
/// the base's; and the output-only region, environment and namespace
/// fields are filled from the region. A guaranteed field that cannot be
/// filled is a `MergeError`, a pipeline defect distinct from any user
/// error.
pub fn merge(
    base: Manifest,
    over: Manifest,
    defaults: &ManifestDefaults,
    region: &Region,
) -> (r: Result<Manifest, MergeError>)
    ensures
        r matches Ok(m) ==> {
            &&& m.name == base.name
            &&& m.publiclyAccessible == base.publiclyAccessible
            &&& m.external == base.external
            &&& m.disabled == base.disabled
            &&& m.regions == base.regions
            &&& m.metadata == base.metadata
            &&& (m.chart matches Some(c) && (match (over.chart, base.chart) {
                (Some(oc), _) => c@ == oc@,
                (None, Some(bc)) => c@ == bc@,
                (None, None) => c@ == defaults.chart@,
            }))
            &&& (m.image matches Some(im) && (match (over.image, base.image) {
                (Some(oi), _) => im@ == oi@,
                (None, Some(bi)) => im@ == bi@,
                (None, None) => im@ == defaults.imagePrefix@ + "/"@ + base.name@,
            }))
            &&& m.imageSize == (match (over.imageSize, base.imageSize) {
                (Some(oi), _) => Some(oi),
                (None, Some(bi)) => Some(bi),
                (None, None) => Some(defaults.imageSize),
            })
            &&& m.version == (if over.version is Some {
                over.version
            } else {
                base.version
            })
            &&& m.command@ == base.command@ + over.command@
            &&& m.dataHandling == (if over.dataHandling is Some {
                over.dataHandling
            } else {
                base.dataHandling
            })
            &&& m.language == (if over.language is Some {
                over.language
            } else {
                base.language
            })
            &&& m.resources == (if over.resources is Some {
                over.resources
            } else {
                base.resources
            })
            &&& m.replicaCount == (match (over.replicaCount, base.replicaCount) {
                (Some(oc), _) => Some(oc),
                (None, Some(bc)) => Some(bc),
                (None, None) => Some(defaults.replicaCount),
            })
            &&& m.env.plain_view() == keyed_merge(base.env.plain_view(), over.env.plain_view())
            &&& m.env.templated_view() == keyed_merge(
                base.env.templated_view(),
                over.env.templated_view(),
            )
            &&& pairs_view(m.secretFiles@) == keyed_merge(
                pairs_view(base.secretFiles@),
                pairs_view(over.secretFiles@),
            )
            &&& m.configs == (if over.configs is Some {
                over.configs
            } else {
                base.configs
            })
            &&& m.vault == (if over.vault is Some {
                over.vault
            } else {
                base.vault
            })
            &&& m.httpPort == (if over.httpPort is Some {
                over.httpPort
            } else {
                base.httpPort
            })
            &&& m.ports@ == base.ports@ + over.ports@
            &&& m.externalPort == (if over.externalPort is Some {
                over.externalPort
            } else {
                base.externalPort
            })
            &&& m.health == (if over.health is Some {
                over.health
            } else {
                base.health
            })
            &&& m.dependencies@ == base.dependencies@ + over.dependencies@
            &&& m.workers@ == base.workers@ + over.workers@
            &&& m.sidecars@ == base.sidecars@ + over.sidecars@
            &&& m.readinessProbe == (if over.readinessProbe is Some {
                over.readinessProbe
            } else {
                base.readinessProbe
            })
            &&& m.livenessProbe == (if over.livenessProbe is Some {
                over.livenessProbe
            } else {
                base.livenessProbe
            })
            &&& m.lifecycle == (if over.lifecycle is Some {
                over.lifecycle
            } else {
                base.lifecycle
            })
            &&& m.rollingUpdate == (if over.rollingUpdate is Some {
                over.rollingUpdate
            } else {
                base.rollingUpdate
            })
            &&& m.autoScaling == (if over.autoScaling is Some {
                over.autoScaling
            } else {
                base.autoScaling
            })
            &&& m.tolerations@ == base.tolerations@ + over.tolerations@
            &&& m.hostAliases@ == base.hostAliases@ + over.hostAliases@
            &&& m.initContainers@ == base.initContainers@ + over.initContainers@
            &&& m.volumes@ == base.volumes@ + over.volumes@
            &&& m.volumeMounts@ == base.volumeMounts@ + over.volumeMounts@
            &&& m.persistentVolumes@ == base.persistentVolumes@ + over.persistentVolumes@
            &&& m.cronJobs@ == base.cronJobs@ + over.cronJobs@
            &&& pairs_view(m.serviceAnnotations@) == keyed_merge(
                pairs_view(base.serviceAnnotations@),
                pairs_view(over.serviceAnnotations@),
            )
            &&& pairs_view(m.labels@) == keyed_merge(
                pairs_view(base.labels@),
                pairs_view(over.labels@),
            )
            &&& m.kong == (if over.kong is Some {
                over.kong
            } else {
                base.kong
            })
            &&& m.gate == (if over.gate is Some {
                over.gate
            } else {
                base.gate
            })
            &&& m.hosts@ == base.hosts@ + over.hosts@
            &&& m.kafka == (if over.kafka is Some {
                over.kafka
            } else {
                base.kafka
            })
            &&& m.sourceRanges@ == base.sourceRanges@ + over.sourceRanges@
            &&& m.rbac@ == base.rbac@ + over.rbac@
            &&& m.database == (if over.database is Some {
                over.database
            } else {
                base.database
            })
            &&& m.redis == (if over.redis is Some {
                over.redis
            } else {
                base.redis
            })
            &&& m.region@ == region.name@
            &&& m.environment@ == region.environment@
            &&& m.namespace@ == region.namespace@
            &&& m.secrets@.len() == 0
            &&& m.kind == ManifestType::Base
        },
        r is Err <==> (over.image is None && base.image is None && defaults.imagePrefix@.len()
            == 0) || (over.chart is None && base.chart is None && defaults.chart@.len() == 0) || (
        region.namespace@.len() == 0),
        r matches Err(MergeError::MissingImage) <==> (over.image is None && base.image is None
            && defaults.imagePrefix@.len() == 0),
        r matches Err(MergeError::MissingChart) <==> !(over.image is None && base.image is None
            && defaults.imagePrefix@.len() == 0) && (over.chart is None && base.chart is None
            && defaults.chart@.len() == 0),
{
    let image: Option<String> = match (over.image, base.image) {
        (Some(oi), _) => Some(oi),
        (None, Some(bi)) => Some(bi),
        (None, None) => {
            if defaults.imagePrefix.as_str().unicode_len() == 0 {
                return Err(MergeError::MissingImage);
            }
            Some(defaults.imagePrefix.clone().concat("/").concat(base.name.as_str()))
        },
    };
    let chart: Option<String> = match (over.chart, base.chart) {
        (Some(oc), _) => Some(oc),
        (None, Some(bc)) => Some(bc),
        (None, None) => {
            if defaults.chart.as_str().unicode_len() == 0 {
                return Err(MergeError::MissingChart);
            }
            Some(defaults.chart.clone())
        },
    };
    if region.namespace.as_str().unicode_len() == 0 {
        return Err(MergeError::MissingNamespace);
    }
    let imageSize: Option<u32> = match (over.imageSize, base.imageSize) {
        (Some(oi), _) => Some(oi),
        (None, Some(bi)) => Some(bi),
        (None, None) => Some(defaults.imageSize),
    };
    let replicaCount: Option<u32> = match (over.replicaCount, base.replicaCount) {
        (Some(oc), _) => Some(oc),
        (None, Some(bc)) => Some(bc),
        (None, None) => Some(defaults.replicaCount),
    };
    let env = EnvVars {
        plain: merge_pairs(&base.env.plain, &over.env.plain),
        templated: merge_pairs(&base.env.templated, &over.env.templated),
    };
    let secretFiles = merge_pairs(&base.secretFiles, &over.secretFiles);
    let serviceAnnotations = merge_pairs(&base.serviceAnnotations, &over.serviceAnnotations);
    let labels = merge_pairs(&base.labels, &over.labels);
    let mut command = base.command;
    let mut over_command = over.command;
    command.append(&mut over_command);
    let mut ports = base.ports;
    let mut over_ports = over.ports;
    ports.append(&mut over_ports);
    let mut dependencies = base.dependencies;
    let mut over_dependencies = over.dependencies;
    dependencies.append(&mut over_dependencies);
    let mut workers = base.workers;
    let mut over_workers = over.workers;
    workers.append(&mut over_workers);
    let mut sidecars = base.sidecars;
    let mut over_sidecars = over.sidecars;
    sidecars.append(&mut over_sidecars);
    let mut tolerations = base.tolerations;
    let mut over_tolerations = over.tolerations;
    tolerations.append(&mut over_tolerations);
    let mut hostAliases = base.hostAliases;
    let mut over_hostAliases = over.hostAliases;
    hostAliases.append(&mut over_hostAliases);
    let mut initContainers = base.initContainers;
    let mut over_initContainers = over.initContainers;
    initContainers.append(&mut over_initContainers);
    let mut volumes = base.volumes;
    let mut over_volumes = over.volumes;
    volumes.append(&mut over_volumes);
    let mut volumeMounts = base.volumeMounts;
    let mut over_volumeMounts = over.volumeMounts;
    volumeMounts.append(&mut over_volumeMounts);
    let mut persistentVolumes = base.persistentVolumes;
    let mut over_persistentVolumes = over.persistentVolumes;
    persistentVolumes.append(&mut over_persistentVolumes);
    let mut cronJobs = base.cronJobs;
    let mut over_cronJobs = over.cronJobs;
    cronJobs.append(&mut over_cronJobs);
    let mut hosts = base.hosts;
    let mut over_hosts = over.hosts;
    hosts.append(&mut over_hosts);
    let mut sourceRanges = base.sourceRanges;
    let mut over_sourceRanges = over.sourceRanges;
    sourceRanges.append(&mut over_sourceRanges);
    let mut rbac = base.rbac;
    let mut over_rbac = over.rbac;
    rbac.append(&mut over_rbac);
    Ok(
        Manifest {
            name: base.name,
            publiclyAccessible: base.publiclyAccessible,
            external: base.external,
            disabled: base.disabled,
            regions: base.regions,
            metadata: base.metadata,
            chart,
            image,
            imageSize,
            version: if over.version.is_some() {
                over.version
            } else {
                base.version
            },
            command,
            dataHandling: if over.dataHandling.is_some() {
                over.dataHandling
            } else {
                base.dataHandling
            },
            language: if over.language.is_some() {
                over.language
            } else {
                base.language
            },
            resources: if over.resources.is_some() {
                over.resources
            } else {
                base.resources
            },
            replicaCount,
            env,
            secretFiles,
            configs: if over.configs.is_some() {
                over.configs
            } else {
                base.configs
            },
            vault: if over.vault.is_some() {
                over.vault
            } else {
                base.vault
            },
            httpPort: if over.httpPort.is_some() {
                over.httpPort
            } else {
                base.httpPort
            },
            ports,
            externalPort: if over.externalPort.is_some() {
                over.externalPort
            } else {
                base.externalPort
            },
            health: if over.health.is_some() {
                over.health
            } else {
                base.health
            },
            dependencies,
            workers,
            sidecars,
            readinessProbe: if over.readinessProbe.is_some() {
                over.readinessProbe
            } else {
                base.readinessProbe
            },
            livenessProbe: if over.livenessProbe.is_some() {
                over.livenessProbe
            } else {
                base.livenessProbe
            },
            lifecycle: if over.lifecycle.is_some() {
                over.lifecycle
            } else {
                base.lifecycle
            },
            rollingUpdate: if over.rollingUpdate.is_some() {
                over.rollingUpdate
            } else {
                base.rollingUpdate
            },
            autoScaling: if over.autoScaling.is_some() {
                over.autoScaling
            } else {
                base.autoScaling
            },
            tolerations,
            hostAliases,
            initContainers,
            volumes,
            volumeMounts,
            persistentVolumes,
            cronJobs,
            serviceAnnotations,
            labels,
            kong: if over.kong.is_some() {
                over.kong
            } else {
                base.kong
            },
            gate: if over.gate.is_some() {
                over.gate
            } else {
                base.gate
            },
            hosts,
            kafka: if over.kafka.is_some() {
                over.kafka
            } else {
                base.kafka
            },
            sourceRanges,
            rbac,
            database: if over.database.is_some() {
                over.database
            } else {
                base.database
            },
            redis: if over.redis.is_some() {
                over.redis
            } else {
                base.redis
            },
            region: region.name.clone(),
            environment: region.environment.clone(),
            namespace: region.namespace.clone(),
            secrets: Vec::new(),
            kind: ManifestType::Base,
        },
    )
}

} // verus!
