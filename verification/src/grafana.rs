//! Composition of deployment annotations for the metrics dashboard: the
//! structured event a REST sink receives about an upgrade or rollback.
use vstd::prelude::*;

use crate::ext::now_millis;

verus! {

/// At what time the annotation should be made.
#[derive(Clone, Copy, Debug)]
pub enum TimeSpec {
    /// The wall clock at the moment of composition.
    Now,
    /// A fixed time, in milliseconds since the epoch.
    Time(u64),
}

/// The type of annotation event.
#[derive(Clone, Copy, Debug, PartialEq, Eq, Structural)]
pub enum Event {
    Upgrade,
    Rollback,
}

/// A representation of one deployment event.
#[derive(Clone, Debug)]
pub struct Annotation {
    pub event: Event,
    pub service: String,
    pub version: String,
    pub region: String,
    pub time: TimeSpec,
}

/// The body of one annotation request: when, what happened, and the
/// dashboard tags to file it under.
#[derive(Clone, Debug)]
pub struct AnnotationPayload {
    /// Milliseconds since the epoch.
    pub time: u64,
    pub text: String,
    pub tags: Vec<String>,
}

/// A time specification as milliseconds since the epoch: a fixed time is
/// itself; the current time is whatever the clock reads, of which
/// nothing is promised.
pub fn unix_timestamp(spec: &TimeSpec) -> (r: u64)
    ensures
        spec matches TimeSpec::Time(t) ==> r == t,
{
    match spec {
        TimeSpec::Now => now_millis(),
        TimeSpec::Time(t) => *t,
    }
}

impl Annotation {
    /// The annotation text: the event name, the service with its
    /// version, and the region.
    pub open spec fn text_view(self) -> Seq<char> {
        (match self.event {
            Event::Upgrade => "Upgrade"@,
            Event::Rollback => "Rollback"@,
        }) + " "@ + self.service@ + "="@ + self.version@ + " in "@ + self.region@
    }

    /// Builds the structured annotation event at the given time: the
    /// text naming the event, service, version and region, and the tags
    /// for all deploys, the region's and the service's.
    pub fn payload(&self, at: u64) -> (r: AnnotationPayload)
        ensures
            r.time == at,
            r.text@ == self.text_view(),
            r.tags@.len() == 3,
            r.tags@[0]@ == "all-deploys"@,
            r.tags@[1]@ == self.region@ + "-deploys"@,
            r.tags@[2]@ == self.service@ + "-deploys"@,
    {
        let ev: &str = match self.event {
            Event::Upgrade => "Upgrade",
            Event::Rollback => "Rollback",
        };
        let text = String::from_str(ev).concat(" ").concat(self.service.as_str()).concat(
            "=",
        ).concat(self.version.as_str()).concat(" in ").concat(self.region.as_str());
        let mut tags: Vec<String> = Vec::new();
        tags.push("all-deploys".to_owned());
        tags.push(self.region.clone().concat("-deploys"));
        tags.push(self.service.clone().concat("-deploys"));
        AnnotationPayload { time: at, text, tags }
    }
}

} // verus!
