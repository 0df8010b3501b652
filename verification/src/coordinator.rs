//! Submission coordinator decision logic.
//!
//! The driver performs the network work — the dry-run against the chain
//! head, the operator confirmation, the concurrent submissions against
//! consecutive target blocks — and feeds every observation back here; each
//! decision along `BUILT -> SIMULATED -> SUBMITTED -> {MINED, EXPIRED,
//! FAILED}` is a pure function of the phase and the observed event.

use vstd::prelude::*;

verus! {

/// Lifecycle of one bundle run.
#[derive(Clone, Copy, Debug, PartialEq, Eq, Structural)]
pub enum BundlePhase {
    Built,
    Simulated,
    Submitted,
    Mined,
    Expired,
    Failed,
}

/// What the driver observed since the last decision.
pub enum CoordEvent {
    /// The relay simulated the bundle and returned per-transaction
    /// results; one flag per entry, set when that transaction reported an
    /// execution error.
    SimulationCompleted { tx_failed: Vec<bool> },
    /// The simulate call itself failed at the transport or relay level.
    SimulationTransportFailed,
    /// The operator declined to send after a successful simulation; the
    /// run aborts with nothing sent.
    OperatorDeclined,
    /// The operator confirmed; the retry fan-out goes out.
    OperatorConfirmed,
    /// Every submission resolved; the identifier of the first confirmed
    /// inclusion observed, if any target block included the bundle.
    SubmissionsResolved { first_mined: Option<u64> },
}

/// How a finished run ended: a confirmed inclusion with its mined
/// identifier, or every target block passing without inclusion.
#[derive(Clone, Copy, Debug, PartialEq, Eq, Structural)]
pub enum RunOutcome {
    Mined(u64),
    Expired,
}

/// No transaction of the simulated bundle reported an execution error.
pub open spec fn spec_simulation_clean(tx_failed: Seq<bool>) -> bool {
    forall|i: int| 0 <= i < tx_failed.len() ==> !tx_failed[i]
}

/// The transition table: a single failing transaction fails the whole
/// simulation, only a clean simulation may be submitted, an operator
/// refusal aborts, and a resolved fan-out ends in `Mined` exactly when
/// some target block confirmed.  Any event out of place fails the run.
pub open spec fn spec_step(phase: BundlePhase, ev: CoordEvent) -> BundlePhase {
    match (phase, ev) {
        (BundlePhase::Built, CoordEvent::SimulationCompleted { tx_failed }) => {
            if spec_simulation_clean(tx_failed@) {
                BundlePhase::Simulated
            } else {
                BundlePhase::Failed
            }
        },
        (BundlePhase::Simulated, CoordEvent::OperatorConfirmed) => BundlePhase::Submitted,
        (BundlePhase::Submitted, CoordEvent::SubmissionsResolved { first_mined }) => {
            if first_mined is Some {
                BundlePhase::Mined
            } else {
                BundlePhase::Expired
            }
        },
        _ => BundlePhase::Failed,
    }
}

/// Fail-fast inspection of the per-transaction simulation results: true
/// exactly when no entry reported an execution error.
pub fn validate_simulation(tx_failed: &Vec<bool>) -> (ok: bool)
    ensures
        ok == spec_simulation_clean(tx_failed@),
{
    let mut i: usize = 0;
    while i < tx_failed.len()
        invariant
            0 <= i <= tx_failed@.len(),
            forall|j: int| 0 <= j < i ==> !tx_failed@[j],
        decreases tx_failed@.len() - i,
    {
        if tx_failed[i] {
            return false;
        }
        i = i + 1;
    }
    true
}

/// One decision of the coordinator: the next phase for the observed event.
pub fn step(phase: BundlePhase, ev: &CoordEvent) -> (next: BundlePhase)
    ensures
        next == spec_step(phase, *ev),
{
    match (phase, ev) {
        (BundlePhase::Built, CoordEvent::SimulationCompleted { tx_failed }) => {
            if validate_simulation(tx_failed) {
                BundlePhase::Simulated
            } else {
                BundlePhase::Failed
            }
        },
        (BundlePhase::Simulated, CoordEvent::OperatorConfirmed) => BundlePhase::Submitted,
        (BundlePhase::Submitted, CoordEvent::SubmissionsResolved { first_mined }) => {
            if first_mined.is_some() {
                BundlePhase::Mined
            } else {
                BundlePhase::Expired
            }
        },
        _ => BundlePhase::Failed,
    }
}

/// Where a dry run of the bundle is aimed: insertion at one target block,
/// simulated against a state block, at a fixed timestamp.
#[derive(Clone, Copy, Debug, PartialEq, Eq, Structural)]
pub struct SimulationTarget {
    pub target_block: u64,
    pub sim_block: u64,
    pub sim_timestamp: u64,
}

/// The dry-run coordinates for the current chain head: insertion at the
/// next block, simulated against the head itself, at timestamp zero.
pub fn simulation_target(block_number: u64) -> (r: SimulationTarget)
    requires
        block_number < u64::MAX,
    ensures
        r.target_block == block_number + 1,
        r.sim_block == block_number,
        r.sim_timestamp == 0,
{
    SimulationTarget { target_block: block_number + 1, sim_block: block_number, sim_timestamp: 0 }
}

/// The consecutive future blocks the identical bundle is submitted
/// against: the `retries` block numbers right after the current head.
pub fn retry_targets(block_number: u64, retries: u64) -> (r: Vec<u64>)
    requires
        block_number + retries <= u64::MAX,
        retries <= usize::MAX,
    ensures
        r@.len() == retries,
        forall|i: int| 0 <= i < retries ==> r@[i] == block_number + 1 + i,
{
    let mut targets: Vec<u64> = Vec::new();
    let mut i: u64 = 0;
    while i < retries
        invariant
            block_number + retries <= u64::MAX,
            0 <= i <= retries,
            targets@.len() == i,
            forall|j: int| 0 <= j < i ==> targets@[j] == block_number + 1 + j,
        decreases retries - i,
    {
        targets.push(block_number + 1 + i);
        i = i + 1;
    }
    targets
}

/// The first confirmed inclusion in resolution order, if any.
pub open spec fn spec_first_mined(outcomes: Seq<Option<u64>>) -> Option<u64>
    decreases outcomes.len(),
{
    if outcomes.len() == 0 {
        None
    } else if outcomes[0] is Some {
        outcomes[0]
    } else {
        spec_first_mined(outcomes.drop_first())
    }
}

/// The first confirmation wins: the run is `Expired` exactly when every
/// submission was rejected, and otherwise ends `Mined` with the earliest
/// confirmed identifier, the later outcomes being ignored.
pub proof fn lemma_first_mined_exact(outcomes: Seq<Option<u64>>)
    ensures
        spec_first_mined(outcomes) is None <==> (forall|i: int|
            0 <= i < outcomes.len() ==> outcomes[i] is None),
        spec_first_mined(outcomes) matches Some(id) ==> exists|i: int|
            #![auto]
            0 <= i < outcomes.len() && outcomes[i] == Some(id) && (forall|j: int|
                0 <= j < i ==> outcomes[j] is None),
    decreases outcomes.len(),
{
    if outcomes.len() > 0 && outcomes[0] is None {
        let tail = outcomes.drop_first();
        lemma_first_mined_exact(tail);
        if forall|i: int| 0 <= i < outcomes.len() ==> outcomes[i] is None {
            assert forall|i: int| 0 <= i < tail.len() implies tail[i] is None by {
                assert(outcomes[i + 1] is None);
            }
            assert(spec_first_mined(tail) is None);
        }
        if spec_first_mined(outcomes) is None {
            assert forall|i: int| 0 <= i < outcomes.len() implies outcomes[i] is None by {
                if i > 0 {
                    assert(tail[i - 1] is None);
                }
            }
        } else {
            let id = spec_first_mined(outcomes)->Some_0;
            let i0 = choose|i: int|
                #![auto]
                0 <= i < tail.len() && tail[i] == Some(id) && (forall|j: int|
                    0 <= j < i ==> tail[j] is None);
            assert forall|j: int| 0 <= j < i0 + 1 implies outcomes[j] is None by {
                if j > 0 {
                    assert(tail[j - 1] is None);
                }
            }
            assert(outcomes[i0 + 1] == Some(id));
        }
    }
}

/// The run's final phase for a complete set of observations: a transport
/// failure or any failing transaction fails the run before anything is
/// sent, an operator refusal aborts it, and a resolved fan-out ends in
/// `Mined` exactly when some target block confirmed.
pub open spec fn spec_execute(
    transport_failed: bool,
    tx_failed: Seq<bool>,
    operator_confirmed: bool,
    outcomes: Seq<Option<u64>>,
) -> BundlePhase {
    if transport_failed || !spec_simulation_clean(tx_failed) {
        BundlePhase::Failed
    } else if !operator_confirmed {
        BundlePhase::Failed
    } else if spec_first_mined(outcomes) is Some {
        BundlePhase::Mined
    } else {
        BundlePhase::Expired
    }
}

/// Drive a whole run's decisions from the driver's observations: the
/// relay's dry-run result (or its transport failure), the operator gate,
/// and the resolved fan-out.  Returns the final phase, with the mined
/// identifier exactly when the run ends `Mined`.
pub fn execute(
    transport_failed: bool,
    tx_failed: &Vec<bool>,
    operator_confirmed: bool,
    outcomes: &Vec<Option<u64>>,
) -> (r: (BundlePhase, Option<u64>))
    ensures
        r.0 == spec_execute(transport_failed, tx_failed@, operator_confirmed, outcomes@),
        r.1 == (if r.0 is Mined {
            spec_first_mined(outcomes@)
        } else {
            Option::<u64>::None
        }),
{
    if transport_failed {
        return (BundlePhase::Failed, None);
    }
    if !validate_simulation(tx_failed) {
        return (BundlePhase::Failed, None);
    }
    if !operator_confirmed {
        return (BundlePhase::Failed, None);
    }
    match resolve_submissions(outcomes) {
        RunOutcome::Mined(id) => (BundlePhase::Mined, Some(id)),
        RunOutcome::Expired => (BundlePhase::Expired, None),
    }
}

/// Join the resolved submissions: accept the first confirmation observed
/// and ignore the rest; if every target block passed without inclusion,
/// the run expires rather than silently retrying.
pub fn resolve_submissions(outcomes: &Vec<Option<u64>>) -> (r: RunOutcome)
    ensures
        r == (match spec_first_mined(outcomes@) {
            Option::Some(id) => RunOutcome::Mined(id),
            Option::None => RunOutcome::Expired,
        }),
{
    let n = outcomes.len();
    proof {
        assert(outcomes@.skip(0) =~= outcomes@);
    }
    let mut i: usize = 0;
    while i < n
        invariant
            n == outcomes@.len(),
            0 <= i <= n,
            spec_first_mined(outcomes@) == spec_first_mined(outcomes@.skip(i as int)),
        decreases n - i,
    {
        proof {
            assert(outcomes@.skip(i as int).drop_first() =~= outcomes@.skip(i + 1));
            assert(outcomes@.skip(i as int)[0] == outcomes@[i as int]);
        }
        match outcomes[i] {
            Some(id) => {
                return RunOutcome::Mined(id);
            },
            None => {},
        }
        i = i + 1;
    }
    proof {
        assert(outcomes@.skip(n as int).len() == 0);
    }
    RunOutcome::Expired
}

} // verus!
