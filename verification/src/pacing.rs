//! The cadence of a run: how long a pass lasts, and how long to sleep once
//! its work is done.

use vstd::prelude::*;
use vstd::string::*;
use crate::mapping::MappingPolicy;

verus! {

/// Nanoseconds in one second.
pub const NANOS_PER_SEC: u32 = 1_000_000_000;

/// A length of time: whole seconds and the nanoseconds beyond them, always
/// fewer than a second's worth.
#[derive(Clone, Copy, Debug, PartialEq, Eq)]
pub struct Span {
    secs: u64,
    nanos: u32,
}

impl View for Span {
    type V = nat;

    /// The length in nanoseconds.
    closed spec fn view(&self) -> nat {
        (self.secs as nat) * (NANOS_PER_SEC as nat) + self.nanos as nat
    }
}

impl Span {
    #[verifier::type_invariant]
    spec fn normal(self) -> bool {
        self.nanos < NANOS_PER_SEC
    }

    /// A span of `secs` seconds and `nanos` nanoseconds, refused when
    /// `nanos` amounts to a second or more.
    pub fn new(secs: u64, nanos: u32) -> (made: Option<Span>)
        ensures
            made.is_some() <==> nanos < NANOS_PER_SEC,
            made matches Some(span) ==> span@ == secs * NANOS_PER_SEC + nanos,
    {
        if nanos < NANOS_PER_SEC {
            Some(Span { secs, nanos })
        } else {
            None
        }
    }

    /// A span of whole seconds.
    pub fn from_secs(secs: u64) -> (span: Span)
        ensures
            span@ == secs * NANOS_PER_SEC,
    {
        Span { secs, nanos: 0 }
    }

    /// The whole seconds of the span.
    pub fn secs(&self) -> (s: u64)
        ensures
            s == self@ / (NANOS_PER_SEC as nat),
    {
        proof {
            use_type_invariant(self);
            lemma_split(self.secs as nat, self.nanos as nat);
        }
        self.secs
    }

    /// The nanoseconds beyond the whole seconds.
    pub fn subsec_nanos(&self) -> (n: u32)
        ensures
            n == self@ % (NANOS_PER_SEC as nat),
            n < NANOS_PER_SEC,
    {
        proof {
            use_type_invariant(self);
            lemma_split(self.secs as nat, self.nanos as nat);
        }
        self.nanos
    }
}

/// Seconds and a remainder below one second are recovered from their sum by
/// division.
proof fn lemma_split(secs: nat, nanos: nat)
    requires
        nanos < 1_000_000_000,
    ensures
        (secs * 1_000_000_000 + nanos) / 1_000_000_000 == secs,
        (secs * 1_000_000_000 + nanos) % 1_000_000_000 == nanos,
{
    assert((secs * 1_000_000_000 + nanos) / 1_000_000_000 == secs && (secs * 1_000_000_000
        + nanos) % 1_000_000_000 == nanos) by (nonlinear_arith)
        requires
            nanos < 1_000_000_000,
    ;
}

/// The sleep that keeps the cadence, in nanoseconds: what is left of the
/// nominal length when the work took less, and none at all when the work
/// took as long or longer.
pub open spec fn pause_nanos(nominal: nat, elapsed: nat) -> Option<nat> {
    if elapsed < nominal {
        Some((nominal - elapsed) as nat)
    } else {
        None
    }
}

/// How long a pass lasts in all: its work, then its sleep if it has one.
pub open spec fn pass_nanos(nominal: nat, elapsed: nat) -> nat {
    match pause_nanos(nominal, elapsed) {
        Some(pause) => elapsed + pause,
        None => elapsed,
    }
}

/// How long a row of passes lasts, one after the other, given the time that
/// the work of each took.
pub open spec fn passes_nanos(nominal: nat, elapsed: Seq<nat>) -> nat
    decreases elapsed.len(),
{
    if elapsed.len() == 0 {
        0
    } else {
        passes_nanos(nominal, elapsed.drop_last()) + pass_nanos(nominal, elapsed.last())
    }
}

/// Decides the sleep after a pass whose work took `elapsed`, against a
/// nominal pass length of `nominal`. An overrun is not made up for later: it
/// only suppresses this one sleep.
pub fn pause_after(nominal: Span, elapsed: Span) -> (pause: Option<Span>)
    ensures
        pause.is_some() <==> elapsed@ < nominal@,
        pause matches Some(p) ==> p@ == nominal@ - elapsed@,
        (match pause {
            Some(p) => Some(p@),
            None => None,
        }) == pause_nanos(nominal@, elapsed@),
{
    proof {
        use_type_invariant(nominal);
        use_type_invariant(elapsed);
    }
    if elapsed.secs > nominal.secs || (elapsed.secs == nominal.secs && elapsed.nanos
        >= nominal.nanos) {
        None
    } else if nominal.nanos >= elapsed.nanos {
        Some(Span { secs: nominal.secs - elapsed.secs, nanos: nominal.nanos - elapsed.nanos })
    } else {
        Some(
            Span {
                secs: nominal.secs - elapsed.secs - 1,
                nanos: nominal.nanos + (NANOS_PER_SEC - elapsed.nanos),
            },
        )
    }
}

/// Why a plan was refused.
#[derive(Clone, Copy, Debug, PartialEq, Eq, Structural)]
pub enum PlanError {
    /// An interval cannot be cut into zero passes.
    NoPasses,
    /// More passes than the interval has seconds: a pass would last no time.
    PassTooShort,
}

/// What an error says of itself.
pub open spec fn plan_error_text(error: PlanError) -> Seq<char> {
    match error {
        PlanError::NoPasses => "an interval must be cut into at least one pass"@,
        PlanError::PassTooShort => "an interval cannot be cut into more passes than it has seconds"@,
    }
}

impl PlanError {
    /// A sentence that tells the user what was wrong with the plan.
    pub fn describe(&self) -> (text: String)
        ensures
            text@ == plan_error_text(*self),
    {
        match self {
            PlanError::NoPasses => String::from_str(
                "an interval must be cut into at least one pass",
            ),
            PlanError::PassTooShort => String::from_str(
                "an interval cannot be cut into more passes than it has seconds",
            ),
        }
    }
}

/// What a plan holds, as mathematics.
pub struct PlanModel {
    pub interval_secs: nat,
    pub passes_per_interval: nat,
    pub rows_per_table: nat,
    pub policy: MappingPolicy,
}

impl PlanModel {
    /// A plan is usable when its interval is cut into at least one pass and
    /// each pass lasts at least a second.
    pub open spec fn valid(self) -> bool {
        0 < self.passes_per_interval <= self.interval_secs
    }

    /// The nominal length of one pass, in whole seconds.
    pub open spec fn pass_secs(self) -> nat {
        self.interval_secs / self.passes_per_interval
    }
}

/// What a plan made from the given choices holds: each value that was chosen,
/// and for each that was not the value of the standard plan, which is a
/// minute per column, two passes, one row per table and the inverted policy.
pub open spec fn chosen_plan(
    interval_secs: Option<u64>,
    passes_per_interval: Option<u64>,
    rows_per_table: Option<usize>,
    policy: Option<MappingPolicy>,
) -> PlanModel {
    PlanModel {
        interval_secs: match interval_secs {
            Some(secs) => secs as nat,
            None => 60,
        },
        passes_per_interval: match passes_per_interval {
            Some(passes) => passes as nat,
            None => 2,
        },
        rows_per_table: match rows_per_table {
            Some(rows) => rows as nat,
            None => 1,
        },
        policy: match policy {
            Some(policy) => policy,
            None => MappingPolicy::InvertedIntensity,
        },
    }
}

/// The parameters of a run, checked once when the plan is made.
#[derive(Clone, Copy, Debug, PartialEq, Eq)]
pub struct RunPlan {
    interval_secs: u64,
    passes_per_interval: u64,
    rows_per_table: usize,
    policy: MappingPolicy,
}

impl View for RunPlan {
    type V = PlanModel;

    closed spec fn view(&self) -> PlanModel {
        PlanModel {
            interval_secs: self.interval_secs as nat,
            passes_per_interval: self.passes_per_interval as nat,
            rows_per_table: self.rows_per_table as nat,
            policy: self.policy,
        }
    }
}

impl RunPlan {
    #[verifier::type_invariant]
    pub open spec fn well_formed(self) -> bool {
        self@.valid()
    }

    /// A plan that gives each column `interval_secs` seconds, cut into
    /// `passes_per_interval` passes, over tables of `rows_per_table` rows.
    pub fn new(
        interval_secs: u64,
        passes_per_interval: u64,
        rows_per_table: usize,
        policy: MappingPolicy,
    ) -> (made: Result<RunPlan, PlanError>)
        ensures
            passes_per_interval == 0 ==> made == Err::<RunPlan, PlanError>(PlanError::NoPasses),
            passes_per_interval > interval_secs ==> made == Err::<RunPlan, PlanError>(
                PlanError::PassTooShort,
            ),
            0 < passes_per_interval <= interval_secs ==> made.is_ok() && made.unwrap()@ == (
            PlanModel {
                interval_secs: interval_secs as nat,
                passes_per_interval: passes_per_interval as nat,
                rows_per_table: rows_per_table as nat,
                policy,
            }),
    {
        if passes_per_interval == 0 {
            Err(PlanError::NoPasses)
        } else if passes_per_interval > interval_secs {
            Err(PlanError::PassTooShort)
        } else {
            Ok(RunPlan { interval_secs, passes_per_interval, rows_per_table, policy })
        }
    }

    /// The plan of a run left to itself: a minute per column in two passes,
    /// one row per table, load taken from half the intensity.
    pub fn standard() -> (plan: RunPlan)
        ensures
            plan@ == (PlanModel {
                interval_secs: 60,
                passes_per_interval: 2,
                rows_per_table: 1,
                policy: MappingPolicy::InvertedIntensity,
            }),
    {
        RunPlan {
            interval_secs: 60,
            passes_per_interval: 2,
            rows_per_table: 1,
            policy: MappingPolicy::InvertedIntensity,
        }
    }

    /// A plan made from the choices given: whatever was not chosen is taken
    /// from the standard plan. The plan is refused as in [`RunPlan::new`].
    pub fn customized(
        interval_secs: Option<u64>,
        passes_per_interval: Option<u64>,
        rows_per_table: Option<usize>,
        policy: Option<MappingPolicy>,
    ) -> (made: Result<RunPlan, PlanError>)
        ensures
            ({
                let chosen = chosen_plan(interval_secs, passes_per_interval, rows_per_table, policy);
                &&& chosen.passes_per_interval == 0 ==> made == Err::<RunPlan, PlanError>(
                    PlanError::NoPasses,
                )
                &&& chosen.passes_per_interval > chosen.interval_secs ==> made == Err::<
                    RunPlan,
                    PlanError,
                >(PlanError::PassTooShort)
                &&& chosen.valid() ==> made.is_ok() && made.unwrap()@ == chosen
            }),
    {
        let standard = RunPlan::standard();
        RunPlan::new(
            match interval_secs {
                Some(secs) => secs,
                None => standard.interval_secs,
            },
            match passes_per_interval {
                Some(passes) => passes,
                None => standard.passes_per_interval,
            },
            match rows_per_table {
                Some(rows) => rows,
                None => standard.rows_per_table,
            },
            match policy {
                Some(policy) => policy,
                None => standard.policy,
            },
        )
    }

    /// Seconds given to each column.
    pub fn interval_secs(&self) -> (secs: u64)
        ensures
            secs == self@.interval_secs,
            self@.valid(),
    {
        proof {
            use_type_invariant(self);
        }
        self.interval_secs
    }

    /// Passes that each interval is cut into.
    pub fn passes_per_interval(&self) -> (passes: u64)
        ensures
            passes == self@.passes_per_interval,
            self@.valid(),
    {
        proof {
            use_type_invariant(self);
        }
        self.passes_per_interval
    }

    /// Rows that each table holds.
    pub fn rows_per_table(&self) -> (rows: usize)
        ensures
            rows == self@.rows_per_table,
    {
        self.rows_per_table
    }

    /// The policy that turns pixels into load.
    pub fn policy(&self) -> (policy: MappingPolicy)
        ensures
            policy == self@.policy,
    {
        self.policy
    }

    /// The nominal length of one pass: the interval divided by the number of
    /// passes, in whole seconds. It is never zero.
    pub fn pass_length(&self) -> (length: Span)
        ensures
            length@ == self@.pass_secs() * NANOS_PER_SEC,
            length@ >= NANOS_PER_SEC,
            self@.valid(),
    {
        proof {
            use_type_invariant(self);
            lemma_pass_secs_bounds(self@);
        }
        let secs = self.interval_secs / self.passes_per_interval;
        assert(secs * NANOS_PER_SEC >= NANOS_PER_SEC) by (nonlinear_arith)
            requires
                secs >= 1,
        ;
        Span::from_secs(secs)
    }
}

impl Default for RunPlan {
    /// The standard plan.
    fn default() -> (plan: RunPlan)
        ensures
            plan@ == (PlanModel {
                interval_secs: 60,
                passes_per_interval: 2,
                rows_per_table: 1,
                policy: MappingPolicy::InvertedIntensity,
            }),
    {
        RunPlan::standard()
    }
}

/// The passes of a valid plan last at least a second each, and together they
/// fill the interval up to the remainder of the division: exactly, when the
/// number of passes divides the interval.
pub proof fn lemma_pass_secs_bounds(plan: PlanModel)
    requires
        plan.valid(),
    ensures
        1 <= plan.pass_secs(),
        plan.passes_per_interval * plan.pass_secs() + plan.interval_secs
            % plan.passes_per_interval == plan.interval_secs,
        plan.interval_secs % plan.passes_per_interval == 0 ==> plan.passes_per_interval
            * plan.pass_secs() == plan.interval_secs,
{
    let i = plan.interval_secs as int;
    let n = plan.passes_per_interval as int;
    assert(i / n >= 1 && n * (i / n) + i % n == i) by (nonlinear_arith)
        requires
            0 < n <= i,
    ;
}

/// A pass lasts as long as its work or as long as the nominal length,
/// whichever is more: never less than the nominal length, and exactly that
/// long when the work did not overrun.
pub proof fn lemma_pass_keeps_cadence(nominal: nat, elapsed: nat)
    ensures
        pass_nanos(nominal, elapsed) >= nominal,
        pass_nanos(nominal, elapsed) >= elapsed,
        elapsed <= nominal ==> pass_nanos(nominal, elapsed) == nominal,
        elapsed >= nominal ==> pass_nanos(nominal, elapsed) == elapsed,
{
}

/// A row of passes lasts at least as many nominal lengths as it has passes,
/// and exactly that many when no pass overran.
pub proof fn lemma_passes_keep_cadence(nominal: nat, elapsed: Seq<nat>)
    ensures
        passes_nanos(nominal, elapsed) >= elapsed.len() * nominal,
        (forall|i: int| 0 <= i < elapsed.len() ==> elapsed[i] <= nominal) ==> passes_nanos(
            nominal,
            elapsed,
        ) == elapsed.len() * nominal,
    decreases elapsed.len(),
{
    if elapsed.len() > 0 {
        let front = elapsed.drop_last();
        lemma_passes_keep_cadence(nominal, front);
        lemma_pass_keeps_cadence(nominal, elapsed.last());
        assert(elapsed.len() * nominal == front.len() * nominal + nominal) by (nonlinear_arith)
            requires
                elapsed.len() == front.len() + 1,
        ;
        if forall|i: int| 0 <= i < elapsed.len() ==> elapsed[i] <= nominal {
            assert(forall|i: int| 0 <= i < front.len() ==> front[i] == elapsed[i]);
            assert(elapsed.last() == elapsed[elapsed.len() - 1]);
        }
    } else {
        assert(elapsed.len() * nominal == 0) by (nonlinear_arith)
            requires
                elapsed.len() == 0,
        ;
    }
}

/// The passes of one interval, under a valid plan whose number of passes
/// divides the interval, last at least the whole interval, and exactly the
/// interval when no pass overran.
pub proof fn lemma_interval_keeps_cadence(plan: PlanModel, elapsed: Seq<nat>)
    requires
        plan.valid(),
        plan.interval_secs % plan.passes_per_interval == 0,
        elapsed.len() == plan.passes_per_interval,
    ensures
        passes_nanos(plan.pass_secs() * NANOS_PER_SEC as nat, elapsed) >= plan.interval_secs
            * NANOS_PER_SEC,
        (forall|i: int|
            0 <= i < elapsed.len() ==> elapsed[i] <= plan.pass_secs() * NANOS_PER_SEC)
            ==> passes_nanos(plan.pass_secs() * NANOS_PER_SEC as nat, elapsed)
            == plan.interval_secs * NANOS_PER_SEC,
{
    let nominal = plan.pass_secs() * NANOS_PER_SEC as nat;
    lemma_pass_secs_bounds(plan);
    lemma_passes_keep_cadence(nominal, elapsed);
    assert(elapsed.len() * nominal == plan.interval_secs * NANOS_PER_SEC) by (nonlinear_arith)
        requires
            elapsed.len() == plan.passes_per_interval,
            plan.passes_per_interval * plan.pass_secs() == plan.interval_secs,
            nominal == plan.pass_secs() * NANOS_PER_SEC,
    ;
}

} // verus!
