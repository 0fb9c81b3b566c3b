//! One trial: readiness before its launch, its command line, what is seen while
//! it runs, and its verdict.
use crate::json::{bool_at, json_model, member_flag, JsonModel};
use crate::queue::job::{Conditions, Invocation, Purpose};
use crate::queue::prelaunch::{observed, Observation};
use crate::text::{cat3, chars_of, told};
use vstd::prelude::*;

verus! {

/// What a result claims.
pub const RESULT_CLAIM: &'static str = "Preparation and exploratory-timing success do not qualify performance promotion. Exploratory timing may succeed when sampled_conditions_eligible is false; retain and stratify all observations. Outer process duration includes startup and is not token throughput. CPU counters belong to the queue, excluding its child. Backend reports/validators establish numerical correctness and phase timing. Sampled conditions cannot prove fixed clocks or absence of all competing work.";

/// How long something took.
#[derive(Clone, Copy, Debug, PartialEq, Eq, Structural)]
pub struct Elapsed {
    pub seconds: u64,
    pub nanos: u32,
}

/// Whether more than a number of seconds have passed.
pub open spec fn exceeds(elapsed: Elapsed, limit: u64) -> bool {
    elapsed.seconds > limit || (elapsed.seconds == limit && elapsed.nanos > 0)
}

fn has_exceeded(elapsed: Elapsed, limit: u64) -> (r: bool)
    ensures
        r == exceeds(elapsed, limit),
{
    elapsed.seconds > limit || (elapsed.seconds == limit && elapsed.nanos > 0)
}

// ---------------------------------------------------------------------------
// Readiness before the launch
// ---------------------------------------------------------------------------

pub open spec fn expiry(id: Seq<char>) -> Seq<char> {
    "job "@ + id + " expired before launch; no trial started"@
}

pub open spec fn before_probe(id: Seq<char>, elapsed: Elapsed, max_wait: u64, stopped: bool) -> Result<
    bool,
    Seq<char>,
> {
    if exceeds(elapsed, max_wait) {
        Err(expiry(id))
    } else {
        Ok(!stopped)
    }
}

/// Whether readiness may be probed at all: the job has not expired, and no stop
/// was requested.
pub fn gate_before_probe(id: &str, elapsed: Elapsed, max_wait: u64, stopped: bool) -> (r: Observation)
    ensures
        observed(r) == before_probe(id@, elapsed, max_wait, stopped),
{
    if has_exceeded(elapsed, max_wait) {
        return Err(cat3("job ", id, " expired before launch; no trial started"));
    }
    Ok(!stopped)
}

pub open spec fn after_probe(
    id: Seq<char>,
    probe: Result<bool, Seq<char>>,
    stopped: bool,
    elapsed: Elapsed,
    max_wait: u64,
) -> Result<bool, Seq<char>> {
    match probe {
        Err(message) => Err(message),
        Ok(ready) => if stopped {
            Ok(false)
        } else if exceeds(elapsed, max_wait) {
            Err(expiry(id))
        } else {
            Ok(ready)
        },
    }
}

/// Whether the host is ready after a probe. The probe takes time, so a stop and the
/// deadline are looked at again.
pub fn gate_after_probe(
    id: &str,
    probe: Observation,
    stopped: bool,
    elapsed: Elapsed,
    max_wait: u64,
) -> (r: Observation)
    ensures
        observed(r) == after_probe(id@, observed(probe), stopped, elapsed, max_wait),
{
    match probe {
        Err(message) => Err(message),
        Ok(ready) => {
            if stopped {
                return Ok(false);
            }
            if has_exceeded(elapsed, max_wait) {
                return Err(cat3("job ", id, " expired before launch; no trial started"));
            }
            Ok(ready)
        },
    }
}

pub open spec fn last_gate_outcome(observation: Result<bool, Seq<char>>) -> Result<(), Seq<char>> {
    match observation {
        Err(message) => Err(message),
        Ok(true) => Ok(()),
        Ok(false) => Err("launch gate lost after attempt setup; no trial started"@),
    }
}

/// The last gate, once the attempt owns durable output: it launches, or the
/// attempt is kept and the queue halts.
pub fn last_gate(observation: Observation) -> (r: Result<(), String>)
    ensures
        told(r) == last_gate_outcome(observed(observation)),
{
    match observation {
        Err(message) => Err(message),
        Ok(open) => {
            if open {
                Ok(())
            } else {
                Err("launch gate lost after attempt setup; no trial started".to_owned())
            }
        },
    }
}

/// A stop that is seen before or after a probe keeps the trial from launching.
pub proof fn stops_keep_trials_from_launching(
    id: Seq<char>,
    probe: Result<bool, Seq<char>>,
    elapsed: Elapsed,
    max_wait: u64,
)
    ensures
        before_probe(id, elapsed, max_wait, true) != Ok::<bool, Seq<char>>(true),
        after_probe(id, probe, true, elapsed, max_wait) != Ok::<bool, Seq<char>>(true),
        last_gate_outcome(after_probe(id, probe, true, elapsed, max_wait)) is Err,
{
}

// ---------------------------------------------------------------------------
// The command line
// ---------------------------------------------------------------------------

/// Whether a text goes on with a pattern at `i`.
pub open spec fn continues_with(s: Seq<char>, pattern: Seq<char>, i: int) -> bool {
    i + pattern.len() <= s.len() && s.subrange(i, i + pattern.len()) == pattern
}

/// A text from `i` on with every occurrence of a pattern replaced, from the left.
pub open spec fn replaced_from(s: Seq<char>, pattern: Seq<char>, by: Seq<char>, i: int) -> Seq<char>
    decreases s.len() - i,
{
    if i >= s.len() {
        Seq::empty()
    } else if pattern.len() > 0 && continues_with(s, pattern, i) {
        by + replaced_from(s, pattern, by, i + pattern.len())
    } else {
        seq![s[i]] + replaced_from(s, pattern, by, i + 1)
    }
}

/// A text in which `{output}` stands for the output directory.
pub open spec fn expanded(s: Seq<char>, output: Seq<char>) -> Seq<char> {
    replaced_from(s, "{output}"@, output, 0)
}

fn goes_on_with(s: &Vec<char>, pattern: &Vec<char>, i: usize) -> (r: bool)
    requires
        i <= s@.len(),
    ensures
        r == continues_with(s@, pattern@, i as int),
{
    if pattern.len() > s.len() - i {
        return false;
    }
    let total: usize = s.len();
    let mut k: usize = 0;
    while k < pattern.len()
        invariant
            k <= pattern@.len(),
            total == s@.len(),
            i + pattern@.len() <= s@.len(),
            forall|j: int| 0 <= j < k ==> s@[i + j] == pattern@[j],
        decreases pattern@.len() - k,
    {
        if s[i + k] != pattern[k] {
            assert(s@.subrange(i as int, i + pattern@.len())[k as int] != pattern@[k as int]);
            return false;
        }
        k = k + 1;
    }
    assert(s@.subrange(i as int, i + pattern@.len()) =~= pattern@);
    true
}

/// A text in which `{output}` stands for the output directory.
pub fn expand_output(s: &str, output: &str) -> (r: String)
    ensures
        r@ == expanded(s@, output@),
{
    let chars = chars_of(s);
    let pattern = chars_of("{output}");
    let mut out = String::new();
    let mut i: usize = 0;
    assert(out@ + replaced_from(s@, pattern@, output@, 0) =~= expanded(s@, output@));
    while i < chars.len()
        invariant
            i <= chars@.len(),
            chars@ == s@,
            pattern@ == "{output}"@,
            out@ + replaced_from(s@, pattern@, output@, i as int) == expanded(s@, output@),
        decreases chars@.len() - i,
    {
        let ghost before = out@;
        if pattern.len() > 0 && goes_on_with(&chars, &pattern, i) {
            out.push_str(output);
            proof {
                let rest = replaced_from(s@, pattern@, output@, i + pattern@.len());
                assert(before + (output@ + rest) =~= out@ + rest);
            }
            i = i + pattern.len();
        } else {
            out.push(chars[i]);
            proof {
                let rest = replaced_from(s@, pattern@, output@, i + 1);
                assert(before + (seq![s@[i as int]] + rest) =~= out@ + rest);
            }
            i = i + 1;
        }
    }
    assert(out@ + Seq::<char>::empty() =~= out@);
    out
}

pub open spec fn pairs(v: Seq<(String, String)>) -> Seq<(Seq<char>, Seq<char>)> {
    Seq::new(v.len(), |i: int| (v[i].0@, v[i].1@))
}

/// The variables of a trial, later ones in place of earlier ones: a fixed search
/// path and locale, then the job's own with their output directory.
pub open spec fn environment_of(call: Invocation, output: Seq<char>) -> Seq<(Seq<char>, Seq<char>)> {
    seq![("PATH"@, "/usr/bin:/bin:/usr/sbin:/sbin"@), ("LANG"@, "C"@)] + Seq::new(
        call.env@.len(),
        |i: int| (call.env@[i].0@, expanded(call.env@[i].1@, output)),
    )
}

pub fn launch_environment(call: &Invocation, output: &str) -> (r: Vec<(String, String)>)
    ensures
        pairs(r@) == environment_of(*call, output@),
{
    let mut variables: Vec<(String, String)> = Vec::new();
    variables.push(("PATH".to_owned(), "/usr/bin:/bin:/usr/sbin:/sbin".to_owned()));
    variables.push(("LANG".to_owned(), "C".to_owned()));
    let ghost whole = environment_of(*call, output@);
    assert(pairs(variables@) =~= whole.take(2));
    let mut i: usize = 0;
    while i < call.env.len()
        invariant
            i <= call.env@.len(),
            whole == environment_of(*call, output@),
            pairs(variables@) == whole.take(2 + i),
        decreases call.env@.len() - i,
    {
        let ghost before = variables@;
        let value = expand_output(call.env[i].1.as_str(), output);
        variables.push((call.env[i].0.as_str().to_owned(), value));
        assert(pairs(variables@) =~= pairs(before).push(whole[2 + i]));
        assert(whole.take(2 + i).push(whole[2 + i]) =~= whole.take(2 + i + 1));
        i = i + 1;
    }
    assert(whole.take(2 + i) =~= whole);
    variables
}

pub open spec fn arguments_of(call: Invocation, output: Seq<char>) -> Seq<Seq<char>> {
    Seq::new(call.args@.len(), |i: int| expanded(call.args@[i]@, output))
}

/// The arguments of a trial.
pub fn launch_arguments(call: &Invocation, output: &str) -> (r: Vec<String>)
    ensures
        crate::text::texts(r@) == arguments_of(*call, output@),
{
    let mut args: Vec<String> = Vec::new();
    let mut i: usize = 0;
    while i < call.args.len()
        invariant
            i <= call.args@.len(),
            args@.len() == i,
            forall|j: int|
                0 <= j < i ==> (#[trigger] args@[j])@ == expanded(call.args@[j]@, output@),
        decreases call.args@.len() - i,
    {
        args.push(expand_output(call.args[i].as_str(), output));
        i = i + 1;
    }
    assert(crate::text::texts(args@) =~= arguments_of(*call, output@));
    args
}

// ---------------------------------------------------------------------------
// The run
// ---------------------------------------------------------------------------

/// What was seen of a running trial: how many violations are kept, and whether
/// it is overdue.
#[derive(Clone, Copy, Debug, PartialEq, Eq, Structural)]
pub struct Watch {
    pub violations: usize,
    pub overdue: bool,
}

impl Watch {
    /// The watch after an observation: ready, not ready, or failed.
    pub open spec fn after(self, ready: Option<bool>) -> Watch {
        if ready != Some(true) && self.violations < 32 {
            Watch { violations: (self.violations + 1) as usize, ..self }
        } else {
            self
        }
    }

    /// The watch after a look at the clock.
    pub open spec fn timed(self, elapsed: Elapsed, max_run: u64) -> Watch {
        Watch { overdue: self.overdue || exceeds(elapsed, max_run), ..self }
    }

    pub fn new() -> (r: Watch)
        ensures
            r == (Watch { violations: 0, overdue: false }),
    {
        Watch { violations: 0, overdue: false }
    }

    /// Counts an observation of the conditions, and tells whether it is kept as a
    /// violation: of all that are not ready, the first 32.
    pub fn observe(&mut self, ready: Option<bool>) -> (kept: bool)
        ensures
            *final(self) == old(self).after(ready),
            kept == (ready != Some(true) && old(self).violations < 32),
    {
        let broken = match ready {
            Some(b) => !b,
            None => true,
        };
        if broken && self.violations < 32 {
            self.violations = self.violations + 1;
            return true;
        }
        false
    }

    /// Looks at the clock, and tells whether the trial became overdue. It is
    /// reported once, and the trial is left to finish.
    pub fn tick(&mut self, elapsed: Elapsed, max_run: u64) -> (newly: bool)
        ensures
            *final(self) == old(self).timed(elapsed, max_run),
            newly == (!old(self).overdue && exceeds(elapsed, max_run)),
    {
        if !self.overdue && has_exceeded(elapsed, max_run) {
            self.overdue = true;
            return true;
        }
        false
    }
}

/// The watch after some observations.
pub open spec fn watched(observations: Seq<Option<bool>>) -> Watch
    decreases observations.len(),
{
    if observations.len() == 0 {
        Watch { violations: 0, overdue: false }
    } else {
        watched(observations.drop_last()).after(observations.last())
    }
}

/// No violation is lost: a watch has none exactly where every observation was
/// ready, and it keeps 32 at most.
pub proof fn violations_are_remembered(observations: Seq<Option<bool>>)
    ensures
        watched(observations).violations <= 32,
        (watched(observations).violations == 0) == (forall|i: int|
            0 <= i < observations.len() ==> #[trigger] observations[i] == Some(true)),
    decreases observations.len(),
{
    if observations.len() > 0 {
        let before = observations.drop_last();
        violations_are_remembered(before);
        assert(observations[observations.len() - 1] == observations.last());
        if forall|i: int| 0 <= i < before.len() ==> #[trigger] before[i] == Some(true) {
            assert forall|i: int| 0 <= i < observations.len() - 1 implies #[trigger] observations[i]
                == Some(true) by {
                assert(before[i] == Some(true));
            }
        } else {
            let i = choose|i: int| 0 <= i < before.len() && #[trigger] before[i] != Some(true);
            assert(observations[i] != Some(true));
        }
    }
}

// ---------------------------------------------------------------------------
// The verdict
// ---------------------------------------------------------------------------

/// Whether a job of this purpose keeps its result when the conditions were not
/// eligible.
pub open spec fn keeps_ineligible(purpose: Purpose) -> bool {
    purpose != Purpose::Timing
}

pub fn purpose_accepts_ineligible(purpose: Purpose) -> (r: bool)
    ensures
        r == keeps_ineligible(purpose),
{
    matches!(
        purpose,
        Purpose::Preparation | Purpose::Correctness | Purpose::ExploratoryTiming
    )
}

/// Whether the controls of a whole phase were eligible. `fair` tells whether the
/// phase is valid for a comparison.
pub open spec fn phase_allows(phase: JsonModel, c: Conditions, fair: bool) -> bool {
    let eligible = bool_at(phase, "sampled_controls_eligible"@) == Some(true);
    if c.thermal_state == Some(0u64) {
        eligible
    } else if c.thermal_state is None && eligible {
        true
    } else {
        fair
    }
}

pub fn phase_eligible(phase: &serde_json::Value, c: &Conditions, fair: bool) -> (r: bool)
    ensures
        r == phase_allows(json_model(*phase), *c, fair),
{
    let eligible = match member_flag(phase, "sampled_controls_eligible") {
        Some(b) => b,
        None => false,
    };
    match c.thermal_state {
        Some(state) => {
            if state == 0 {
                eligible
            } else {
                fair
            }
        },
        None => eligible || fair,
    }
}

/// How a trial ended.
#[derive(Clone, Copy, Debug, PartialEq, Eq, Structural)]
pub struct Ending {
    pub purpose: Purpose,
    pub watch: Watch,
    pub exit_success: bool,
    pub files_unchanged: bool,
    pub phase_eligible: bool,
}

impl Ending {
    /// Whether the conditions were eligible throughout.
    pub open spec fn is_eligible(self) -> bool {
        self.watch.violations == 0 && !self.watch.overdue && self.phase_eligible
    }

    /// Whether the trial ran to a good end on unchanged files, in time.
    pub open spec fn completed(self) -> bool {
        self.exit_success && !self.watch.overdue && self.files_unchanged
    }

    /// Whether the trial is accepted, but for its validator.
    pub open spec fn acceptable(self) -> bool {
        self.completed() && (keeps_ineligible(self.purpose) || self.is_eligible())
    }

    pub fn eligible(&self) -> (r: bool)
        ensures
            r == self.is_eligible(),
    {
        self.watch.violations == 0 && !self.watch.overdue && self.phase_eligible
    }

    /// Whether the validator, where there is one, is to be run.
    pub fn needs_validation(&self) -> (r: bool)
        ensures
            r == self.acceptable(),
    {
        self.exit_success && !self.watch.overdue && self.files_unchanged && (
        purpose_accepts_ineligible(self.purpose) || self.eligible())
    }
}

/// The status of a result.
#[derive(Clone, Copy, Debug, PartialEq, Eq, Structural)]
pub enum Status {
    Succeeded,
    Rejected,
    Failed,
}

/// The status of a trial; `validated` is what its validator said, where it has one
/// and was run.
pub open spec fn status_of(ending: Ending, validated: Option<bool>) -> Status {
    if ending.acceptable() && validated != Some(false) {
        Status::Succeeded
    } else if ending.completed() && ending.purpose == Purpose::Timing && !ending.is_eligible() {
        Status::Rejected
    } else {
        Status::Failed
    }
}

pub open spec fn status_text(status: Status) -> Seq<char> {
    match status {
        Status::Succeeded => "succeeded"@,
        Status::Rejected => "rejected"@,
        Status::Failed => "failed"@,
    }
}

impl Status {
    pub fn text(self) -> (r: &'static str)
        ensures
            r@ == status_text(self),
    {
        match self {
            Status::Succeeded => "succeeded",
            Status::Rejected => "rejected",
            Status::Failed => "failed",
        }
    }

    /// Whether the queue goes on after the result.
    pub fn settles(self) -> (r: bool)
        ensures
            r == (self != Status::Failed),
    {
        !matches!(self, Status::Failed)
    }
}

/// The status of a trial.
pub fn conclude(ending: &Ending, validated: Option<bool>) -> (r: Status)
    ensures
        r == status_of(*ending, validated),
{
    let refused = match validated {
        Some(b) => !b,
        None => false,
    };
    if ending.needs_validation() && !refused {
        return Status::Succeeded;
    }
    if ending.exit_success && !ending.watch.overdue && ending.files_unchanged && matches!(
        ending.purpose,
        Purpose::Timing
    ) && !ending.eligible() {
        return Status::Rejected;
    }
    Status::Failed
}

/// A timing succeeds only under conditions that were eligible throughout; a
/// trial that broke them is rejected, not failed. Every other purpose keeps its
/// result. Nothing succeeds on changed files, overdue, or after a bad exit.
pub proof fn timings_need_eligible_conditions(ending: Ending, validated: Option<bool>)
    ensures
        status_of(ending, validated) == Status::Succeeded ==> ending.completed() && validated
            != Some(false) && (ending.purpose == Purpose::Timing ==> ending.is_eligible()),
        status_of(ending, validated) == Status::Rejected ==> ending.purpose == Purpose::Timing
            && !ending.is_eligible() && ending.completed(),
        ending.completed() && ending.purpose == Purpose::Timing && !ending.is_eligible()
            ==> status_of(ending, validated) == Status::Rejected,
        ending.completed() && ending.purpose != Purpose::Timing && validated != Some(false)
            ==> status_of(ending, validated) == Status::Succeeded,
{
}

} // verus!
