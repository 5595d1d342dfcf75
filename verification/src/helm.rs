//! Rollout-facing data: the requested upgrade mode, per-service rollout
//! errors, fallback-version inference, and the wait-budget estimate that
//! bounds how long a rolling upgrade is polled before it counts as timed
//! out.
use vstd::prelude::*;

use crate::manifest::Manifest;
use crate::structs::{RollingUpdate, UpgradeBound};

verus! {

/// The action requested for one service.
#[derive(Clone, Copy, Debug, PartialEq, Eq, Structural)]
pub enum UpgradeMode {
    /// Fresh install of a service not yet present.
    Install,
    /// Normal upgrade, not waiting for the rollout.
    Upgrade,
    /// Upgrade and wait for the rollout to come online.
    UpgradeWait,
    /// Upgrade, wait, and roll back automatically on failure or timeout.
    UpgradeWaitMaybeRollback,
    /// Show what would change; mutate nothing.
    Diff,
    /// Explicitly roll back to the previous release.
    Rollback,
}

impl UpgradeMode {
    /// Whether this mode mutates the cluster.
    pub open spec fn mutating(self) -> bool {
        self != UpgradeMode::Diff
    }

    /// Decides `mutating`.
    pub fn is_mutating(&self) -> (r: bool)
        ensures
            r == self.mutating(),
    {
        *self != UpgradeMode::Diff
    }

    /// Whether this mode waits for the rollout after dispatch.
    pub open spec fn waiting(self) -> bool {
        self == UpgradeMode::Install || self == UpgradeMode::UpgradeWait || self
            == UpgradeMode::UpgradeWaitMaybeRollback
    }

    /// Decides `waiting`.
    pub fn is_waiting(&self) -> (r: bool)
        ensures
            r == self.waiting(),
    {
        *self == UpgradeMode::Install || *self == UpgradeMode::UpgradeWait || *self
            == UpgradeMode::UpgradeWaitMaybeRollback
    }

    /// Whether failure or timeout triggers an automatic rollback.
    pub open spec fn rollback_on_failure(self) -> bool {
        self == UpgradeMode::UpgradeWaitMaybeRollback
    }

    /// Decides `rollback_on_failure`.
    pub fn is_rollback_on_failure(&self) -> (r: bool)
        ensures
            r == self.rollback_on_failure(),
    {
        *self == UpgradeMode::UpgradeWaitMaybeRollback
    }

    /// Whether a concrete version must be known before dispatch.
    pub open spec fn needs_version(self) -> bool {
        self == UpgradeMode::Install || self == UpgradeMode::Upgrade || self
            == UpgradeMode::UpgradeWait || self == UpgradeMode::UpgradeWaitMaybeRollback
    }

    /// Decides `needs_version`.
    pub fn is_needs_version(&self) -> (r: bool)
        ensures
            r == self.needs_version(),
    {
        *self == UpgradeMode::Install || *self == UpgradeMode::Upgrade || *self
            == UpgradeMode::UpgradeWait || *self == UpgradeMode::UpgradeWaitMaybeRollback
    }
}

/// Per-service rollout errors. Each is non-fatal to the run as a whole:
/// the orchestrator records it and the report enumerates it.
#[derive(Clone, Debug)]
pub enum HelmError {
    /// No version in the manifest and none installed; holds the service.
    MissingRollingVersion(String),
    /// A manifest key was not propagated internally; holds the key.
    ManifestFailure(String),
    /// The upgrade invocation itself failed; holds the service.
    HelmUpgradeFailure(String),
    /// The rollout did not come online within the wait budget; holds the
    /// service and the budget in seconds.
    UpgradeTimeout(String, u32),
}

impl HelmError {
    /// The message of this error.
    pub fn describe(&self) -> (r: String)
        ensures
            match self {
                HelmError::MissingRollingVersion(n) => r@ == n@
                    + " has no version in manifest and is not installed yet"@,
                HelmError::ManifestFailure(k) => r@ == "manifest key '"@ + k@
                    + "' was not propagated internally - bug!"@,
                HelmError::HelmUpgradeFailure(n) => r@ == "helm upgrade of '"@ + n@ + "' failed"@,
                HelmError::UpgradeTimeout(n, secs) => r@ == n@ + " upgrade timed out waiting"@
                    + crate::strutil::dec_view(secs as int)
                    + "s for deployment(s) to come online"@,
            },
    {
        match self {
            HelmError::MissingRollingVersion(n) => n.clone().concat(
                " has no version in manifest and is not installed yet",
            ),
            HelmError::ManifestFailure(k) => String::from_str("manifest key '").concat(
                k.as_str(),
            ).concat("' was not propagated internally - bug!"),
            HelmError::HelmUpgradeFailure(n) => String::from_str("helm upgrade of '").concat(
                n.as_str(),
            ).concat("' failed"),
            HelmError::UpgradeTimeout(n, secs) => n.clone().concat(" upgrade timed out waiting")
                .concat(crate::strutil::u32_string(*secs).as_str()).concat(
                "s for deployment(s) to come online",
            ),
        }
    }
}

/// Fallback-version inference: the version the rollout will use is the
/// manifest's, else the one already installed; with neither, the service
/// fails on its own without touching its siblings.
pub fn choose_version(declared: &Option<String>, installed: &Option<String>, svc: &String) -> (r:
    Result<String, HelmError>)
    ensures
        declared matches Some(v) ==> (r matches Ok(s) && s@ == v@),
        declared is None ==> (installed matches Some(v) ==> (r matches Ok(s) && s@ == v@)),
        declared is None && installed is None ==> (r matches Err(
            HelmError::MissingRollingVersion(n),
        ) && n@ == svc@),
{
    match declared {
        Some(v) => Ok(v.clone()),
        None => match installed {
            Some(v) => Ok(v.clone()),
            None => Err(HelmError::MissingRollingVersion(svc.clone())),
        },
    }
}

/// How many pods one rolling cycle replaces, from the surge bound: a
/// percentage of the replica count (at least one pod), an absolute
/// count clamped to the replicas, or a quarter of the replicas when no
/// bound is declared.
pub open spec fn surge_pods(ru: Option<RollingUpdate>, replicas: u32) -> int {
    let quarter: int = if replicas / 4 >= 1 {
        (replicas / 4) as int
    } else {
        1
    };
    match ru {
        Some(r) => match r.maxSurge {
            Some(UpgradeBound::Percent(p)) => {
                let pc: int = if p > 100 {
                    100
                } else {
                    p as int
                };
                if (replicas as int) * pc / 100 >= 1 {
                    (replicas as int) * pc / 100
                } else {
                    1
                }
            },
            Some(UpgradeBound::Count(c)) => if c >= 1 {
                if c <= replicas {
                    c as int
                } else {
                    replicas as int
                }
            } else {
                1int
            },
            None => quarter,
        },
        None => quarter,
    }
}

/// The wait budget in seconds for one rollout: image pull time from the
/// image size, a boot grace period, both doubled per rolling cycle, and
/// one cycle for every surge-batch of replicas. A heuristic upper bound
/// on rollout duration, not an exact prediction; capped at the integer
/// range.
pub open spec fn wait_estimate(image_mb: int, replicas: int, surge: int) -> int {
    let pull = image_mb / 4 + 30;
    let cycles0 = (replicas + surge - 1) / surge;
    let cycles = if cycles0 > replicas {
        replicas
    } else {
        cycles0
    };
    let raw = (pull + 60) * cycles;
    if raw > 0xFFFF_FFFF {
        0xFFFF_FFFF
    } else {
        raw
    }
}

impl Manifest {
    /// Estimate how long to wait for this manifest's rollout, from its
    /// image size, replica count and rolling-update surge parameters; an
    /// undeclared image size or replica count falls back to a small
    /// constant so the estimate stays defined.
    pub fn estimate_wait_time(&self) -> (r: u32)
        ensures
            r == wait_estimate(
                (match self.imageSize {
                    Some(s) => s as int,
                    None => 512,
                }),
                (match self.replicaCount {
                    Some(c) => if c >= 1 {
                        c as int
                    } else {
                        1
                    },
                    None => 1,
                }),
                surge_pods(
                    self.rollingUpdate,
                    (match self.replicaCount {
                        Some(c) => if c >= 1 {
                            c
                        } else {
                            1
                        },
                        None => 1,
                    }),
                ),
            ),
    {
        let image_mb: u64 = match self.imageSize {
            Some(s) => s as u64,
            None => 512,
        };
        let replicas: u32 = match self.replicaCount {
            Some(c) => if c >= 1 {
                c
            } else {
                1
            },
            None => 1,
        };
        let quarter: u64 = if replicas / 4 >= 1 {
            (replicas / 4) as u64
        } else {
            1
        };
        let surge: u64 = match &self.rollingUpdate {
            Some(r) => match r.maxSurge {
                Some(UpgradeBound::Percent(p)) => {
                    let pc: u64 = if p > 100 {
                        100
                    } else {
                        p as u64
                    };
                    proof {
                        assert((replicas as u64) * pc <= 0xFFFF_FFFFu64 * 100) by (nonlinear_arith)
                            requires
                                replicas as u64 <= 0xFFFF_FFFFu64,
                                pc <= 100,
                        ;
                    }
                    let s = (replicas as u64) * pc / 100;
                    if s >= 1 {
                        s
                    } else {
                        1
                    }
                },
                Some(UpgradeBound::Count(c)) => if c >= 1 {
                    if c <= replicas {
                        c as u64
                    } else {
                        replicas as u64
                    }
                } else {
                    1
                },
                None => quarter,
            },
            None => quarter,
        };
        let pull: u64 = image_mb / 4 + 30;
        let cycles0: u64 = ((replicas as u64) + surge - 1) / surge;
        let cycles: u64 = if cycles0 > replicas as u64 {
            replicas as u64
        } else {
            cycles0
        };
        proof {
            assert((pull + 60) * cycles <= 0x4000_005Au64 * 0xFFFF_FFFFu64) by (nonlinear_arith)
                requires
                    pull + 60 <= 0x4000_005Au64,
                    cycles <= 0xFFFF_FFFFu64,
            ;
        }
        let raw: u64 = (pull + 60) * cycles;
        if raw > 0xFFFF_FFFF {
            0xFFFF_FFFFu32
        } else {
            raw as u32
        }
    }
}

} // verus!
