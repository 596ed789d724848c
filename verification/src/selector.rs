//! The pool of hosts and the shared cursor that selects from it.

use crate::cursor::{
    cursor_after, lemma_cursor_after_is_modular, lemma_cursor_stays_in_bounds,
    lemma_full_round_returns, next_index,
};
use crate::error::{PoolError, ProbeFailure, SelectError};
use crate::http_status;
use crate::probe::{lemma_reachable_hosts, reachable_hosts, Candidate, Probe};
use std::sync::atomic::AtomicUsize;
use vstd::prelude::*;

verus! {

/// A fixed, non-empty pool of hosts with a cursor that any number of threads
/// may advance at once.
///
/// The view is the pool: the hosts in their order, each as its characters.
/// The cursor is shared mutable state and has no place in the view.
pub struct RoundRobin {
    hosts: Vec<String>,
    host_idx: AtomicUsize,
}

impl View for RoundRobin {
    type V = Seq<Seq<char>>;

    closed spec fn view(&self) -> Seq<Seq<char>> {
        self.hosts.deep_view()
    }
}

/// What a selection returns once the cursor update has handed back `fetched`:
/// the host at the fetched position, or the reason why there is none.
pub open spec fn selection(pool: Seq<Seq<char>>, fetched: Result<usize, usize>) -> Result<
    Seq<char>,
    SelectError,
> {
    match fetched {
        Ok(index) => if index < pool.len() {
            Ok(pool[index as int])
        } else {
            Err(SelectError::IndexOutOfRange { index })
        },
        Err(_) => Err(SelectError::CursorUpdateFailed),
    }
}

/// What the selection numbered `k`, counting from zero, returns in a run of
/// selections that no other selection interleaves with, the cursor standing
/// at `start` before the first.
pub open spec fn nth_selection(pool: Seq<Seq<char>>, start: nat, k: nat) -> Result<
    Seq<char>,
    SelectError,
> {
    selection(pool, Ok(cursor_after(start, k, pool.len()) as usize))
}

/// The model of a selection's result: the host as its characters.
pub open spec fn outcome(result: Result<&str, SelectError>) -> Result<Seq<char>, SelectError> {
    match result {
        Ok(host) => Ok(host@),
        Err(error) => Err(error),
    }
}

/// `AtomicUsize::fetch_update` on the cursor, sequentially consistent, with
/// [`next_index`] as the update. The update never declines, so the call hands
/// back `Ok` with the value the cursor held just before; which value that is
/// depends on what other threads have done, and nothing is claimed of it.
#[verifier::external_body]
fn fetch_and_advance(cursor: &AtomicUsize, len: usize) -> (fetched: Result<usize, usize>)
    ensures
        fetched is Ok,
{
    cursor.fetch_update(
        std::sync::atomic::Ordering::SeqCst,
        std::sync::atomic::Ordering::SeqCst,
        |current| Some(next_index(current, len)),
    )
}

impl RoundRobin {
    #[verifier::type_invariant]
    spec fn well_formed(self) -> bool {
        self.hosts.len() >= 1
    }

    /// Builds the pool from the candidates that passed their probe, in the
    /// order in which they were offered, and puts the cursor on the first.
    /// Those that failed are left out. Fails if and only if none passed.
    pub fn new(candidates: Vec<Candidate>) -> (built: Result<Self, PoolError>)
        ensures
            built is Err <==> forall|i: int|
                0 <= i < candidates.len() ==> #[trigger] candidates[i].probe.verdict() is Err,
            built matches Ok(pool) ==> pool@ == reachable_hosts(candidates@),
            built matches Err(error) ==> error == PoolError::Empty,
    {
        proof {
            lemma_reachable_hosts(candidates@);
        }
        let ghost offered = candidates@;
        let mut valid_hosts: Vec<String> = Vec::new();
        for candidate in iter: candidates
            invariant
                iter.seq() == offered,
                valid_hosts.deep_view() == reachable_hosts(offered.take(iter.index() as int)),
        {
            proof {
                offered.lemma_filter_map_take_succ(
                    |candidate: Candidate| candidate.admitted(),
                    iter.index() as int,
                );
            }
            match Self::health(candidate.probe) {
                Ok(_) => {
                    let ghost before = valid_hosts.deep_view();
                    valid_hosts.push(candidate.host);
                    assert(valid_hosts.deep_view() =~= before + seq![candidate.host@]);
                },
                Err(_) => {},
            }
        }
        assert(offered.take(offered.len() as int) =~= offered);
        RoundRobin::from_hosts(valid_hosts)
    }

    /// Judges the probe of a host: it passes if and only if the host answered
    /// with a status that means success, any from 200 to 299.
    pub fn health(probe: Probe) -> (verdict: Result<(), ProbeFailure>)
        ensures
            verdict == probe.verdict(),
    {
        match probe {
            Probe::Answered { status } => {
                if http_status::is_success(status) {
                    Ok(())
                } else {
                    Err(ProbeFailure::Unhealthy)
                }
            },
            Probe::Failed => Err(ProbeFailure::RequestFailed),
        }
    }

    /// Builds the pool from `hosts` as they are, without probing any of them,
    /// and puts the cursor on the first. Fails if and only if there is no host.
    pub fn from_hosts(hosts: Vec<String>) -> (built: Result<Self, PoolError>)
        ensures
            built is Err <==> hosts.len() == 0,
            built matches Ok(pool) ==> pool@ == hosts.deep_view(),
            built matches Err(error) ==> error == PoolError::Empty,
    {
        if hosts.len() < 1 {
            return Err(PoolError::Empty);
        }
        Ok(RoundRobin { hosts, host_idx: AtomicUsize::new(0) })
    }

    /// The hosts of the pool, in their order.
    pub fn hosts(&self) -> (hosts: &Vec<String>)
        ensures
            hosts.deep_view() == self@,
    {
        &self.hosts
    }

    /// The number of hosts in the pool, which is never zero.
    pub fn len(&self) -> (n: usize)
        ensures
            n == self@.len(),
            n >= 1,
    {
        proof {
            use_type_invariant(self);
        }
        self.hosts.len()
    }

    /// The host that a selection returns for what the cursor update handed
    /// back: the host at the position the cursor held before the update.
    pub fn select(&self, fetched: Result<usize, usize>) -> (selected: Result<&str, SelectError>)
        ensures
            outcome(selected) == selection(self@, fetched),
    {
        match fetched {
            Ok(index) => {
                if index < self.hosts.len() {
                    Ok(self.hosts[index].as_str())
                } else {
                    Err(SelectError::IndexOutOfRange { index })
                }
            },
            Err(_) => Err(SelectError::CursorUpdateFailed),
        }
    }

    /// Selects the host under the cursor and moves the cursor one step on, in
    /// one atomic update.
    ///
    /// Which host comes back depends on the cursor, which other threads share:
    /// it is one of the pool's, or else the cursor held a position outside the
    /// pool and the error names it.
    pub fn advance(&self) -> (selected: Result<&str, SelectError>)
        ensures
            exists|index: usize| outcome(selected) == #[trigger] selection(self@, Ok(index)),
    {
        let fetched = fetch_and_advance(&self.host_idx, self.hosts.len());
        self.select(fetched)
    }
}

/// Selection is round robin: from a position in the pool, the selection
/// numbered `k` returns the host `k` places after the start, counted around
/// the pool.
pub proof fn lemma_selection_is_round_robin(pool: Seq<Seq<char>>, start: nat, k: nat)
    requires
        pool.len() <= usize::MAX,
        start < pool.len(),
    ensures
        nth_selection(pool, start, k) == Ok::<Seq<char>, SelectError>(
            pool[((start + k) % pool.len()) as int],
        ),
{
    lemma_cursor_after_is_modular(start, k, pool.len());
    lemma_cursor_stays_in_bounds(start, k, pool.len());
}

/// A pool of `N` hosts is served in its own order: with the cursor on the
/// first host, the first `N` selections return the hosts as the pool lists
/// them, and the selection after those returns what the first returned.
pub proof fn lemma_round_serves_pool_in_order(pool: Seq<Seq<char>>)
    requires
        1 <= pool.len() <= usize::MAX,
    ensures
        forall|k: nat|
            k < pool.len() ==> #[trigger] nth_selection(pool, 0, k) == Ok::<Seq<char>, SelectError>(
                pool[k as int],
            ),
        nth_selection(pool, 0, pool.len()) == nth_selection(pool, 0, 0),
{
    let n = pool.len();
    assert forall|k: nat| k < n implies #[trigger] nth_selection(pool, 0, k) == Ok::<
        Seq<char>,
        SelectError,
    >(pool[k as int]) by {
        lemma_selection_is_round_robin(pool, 0, k);
        vstd::arithmetic::div_mod::lemma_small_mod(k, n);
    }
    lemma_full_round_returns(0, n);
}

/// Selections repeat with the pool's length as their period: from a position
/// in the pool, the selection numbered `k + N` returns what the selection
/// numbered `k` returned.
pub proof fn lemma_selection_repeats_each_round(pool: Seq<Seq<char>>, start: nat, k: nat)
    requires
        pool.len() <= usize::MAX,
        start < pool.len(),
    ensures
        nth_selection(pool, start, k + pool.len()) == nth_selection(pool, start, k),
{
    let n = pool.len();
    lemma_selection_is_round_robin(pool, start, k);
    lemma_selection_is_round_robin(pool, start, k + n);
    vstd::arithmetic::div_mod::lemma_mod_add_multiples_vanish(start as int + k as int, n as int);
}

} // verus!
