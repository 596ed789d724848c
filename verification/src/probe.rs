//! The health probe of a candidate host: where it is sent and how its answer
//! is judged. Sending it is left to the caller.

use crate::error::ProbeFailure;
use crate::http_status;
use vstd::prelude::*;

verus! {

/// What came of the one request that probes a host.
#[derive(Clone, Copy, Debug, PartialEq, Eq, Structural)]
pub enum Probe {
    /// The host answered with this status code.
    Answered { status: u16 },
    /// The request did not complete.
    Failed,
}

/// A host that asks to join the pool, with the outcome of its probe.
#[derive(Debug)]
pub struct Candidate {
    pub host: String,
    pub probe: Probe,
}

/// The address a host is probed at: the host followed by `/health`.
pub open spec fn health_url_of(host: Seq<char>) -> Seq<char> {
    host + "/health"@
}

/// Builds the address at which `host` is probed.
pub fn health_url(host: &str) -> (url: String)
    ensures
        url@ == health_url_of(host@),
{
    let mut url = String::from_str(host);
    url.append("/health");
    url
}

impl Probe {
    /// How the probe is judged: a host passes if and only if it answered
    /// with a status that means success, whichever of them it is.
    pub open spec fn verdict(self) -> Result<(), ProbeFailure> {
        match self {
            Probe::Answered { status } => if http_status::success(status) {
                Ok(())
            } else {
                Err(ProbeFailure::Unhealthy)
            },
            Probe::Failed => Err(ProbeFailure::RequestFailed),
        }
    }
}

impl Candidate {
    /// The host as a member of the pool, if its probe lets it in.
    pub open spec fn admitted(self) -> Option<Seq<char>> {
        if self.probe.verdict() is Ok {
            Some(self.host@)
        } else {
            None
        }
    }
}

/// The hosts among `candidates` that passed their probe, in the order in
/// which they were offered.
pub open spec fn reachable_hosts(candidates: Seq<Candidate>) -> Seq<Seq<char>> {
    candidates.filter_map(|candidate: Candidate| candidate.admitted())
}

/// Some host is reachable if and only if some candidate passed its probe, and
/// there are never more reachable hosts than candidates.
pub proof fn lemma_reachable_hosts(candidates: Seq<Candidate>)
    ensures
        reachable_hosts(candidates).len() <= candidates.len(),
        reachable_hosts(candidates).len() == 0 <==> forall|i: int|
            0 <= i < candidates.len() ==> #[trigger] candidates[i].probe.verdict() is Err,
    decreases candidates.len(),
{
    if candidates.len() > 0 {
        let rest = candidates.drop_last();
        lemma_reachable_hosts(rest);
        if reachable_hosts(candidates).len() == 0 {
            assert forall|i: int| 0 <= i < candidates.len() implies #[trigger] candidates[i].probe.verdict() is Err by {
                if i < rest.len() {
                    assert(rest[i] == candidates[i]);
                }
            }
        } else if candidates.last().probe.verdict() is Err {
            let i = choose|i: int| 0 <= i < rest.len() && !(#[trigger] rest[i].probe.verdict() is Err);
            assert(candidates[i] == rest[i]);
        }
    }
}

/// Of two candidates of which one passed its probe and the other did not,
/// the one that passed is the only reachable host, whichever was offered
/// first.
pub proof fn lemma_only_the_reachable_of_two(passed: Candidate, failed: Candidate)
    requires
        passed.probe.verdict() is Ok,
        failed.probe.verdict() is Err,
    ensures
        reachable_hosts(seq![passed, failed]) == seq![passed.host@],
        reachable_hosts(seq![failed, passed]) == seq![passed.host@],
{
    let entry = |candidate: Candidate| candidate.admitted();
    let first = seq![passed, failed];
    let second = seq![failed, passed];
    first.lemma_filter_map_take_succ(entry, 0);
    first.lemma_filter_map_take_succ(entry, 1);
    second.lemma_filter_map_take_succ(entry, 0);
    second.lemma_filter_map_take_succ(entry, 1);
    assert(first.take(2) == first);
    assert(second.take(2) == second);
    assert(first.take(0).filter_map(entry) == Seq::<Seq<char>>::empty());
    assert(second.take(0).filter_map(entry) == Seq::<Seq<char>>::empty());
}

} // verus!
