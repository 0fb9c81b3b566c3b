//! Observing launch eligibility while pinned files, possibly large, are hashed.
//!
//! A worker hashes the pins while readiness is sampled again and again. Whatever
//! happens, the worker is joined before the launch is decided, and readiness is
//! sampled once more after that.
use vstd::prelude::*;

verus! {

/// Whether the host is ready, or why it could not be sampled.
pub type Observation = Result<bool, String>;

pub open spec fn observed(o: Observation) -> Result<bool, Seq<char>> {
    match o {
        Ok(b) => Ok(b),
        Err(e) => Err(e@),
    }
}

/// Where a verification is.
#[derive(Debug)]
pub enum Stage {
    /// Readiness is sampled before anything is hashed.
    First,
    /// The worker is started.
    Starting,
    /// The worker hashes; one second is waited for it.
    Waiting,
    /// Readiness is sampled while the worker hashes.
    Polling,
    /// The worker is joined, after an observation.
    Joining { observation: Observation },
    /// Readiness is sampled a last time.
    Last,
    /// It is decided.
    Decided,
}

pub enum StageModel {
    First,
    Starting,
    Waiting,
    Polling,
    Joining { observation: Result<bool, Seq<char>> },
    Last,
    Decided,
}

/// What the host does next.
#[derive(Debug)]
pub enum Call {
    Observe,
    StartVerifier,
    WaitForVerifier,
    JoinVerifier,
    /// Launch, do not, or halt with an error.
    Decide { outcome: Observation },
}

pub enum CallModel {
    Observe,
    StartVerifier,
    WaitForVerifier,
    JoinVerifier,
    Decide { outcome: Result<bool, Seq<char>> },
}

/// What the host replies.
#[derive(Debug)]
pub enum Reply {
    Observed { observation: Observation },
    Started,
    Waited { completed: bool },
    Joined { outcome: Result<(), String> },
    Panicked,
}

pub enum ReplyModel {
    Observed { observation: Result<bool, Seq<char>> },
    Started,
    Waited { completed: bool },
    Joined { outcome: Result<(), Seq<char>> },
    Panicked,
}

impl View for Stage {
    type V = StageModel;

    open spec fn view(&self) -> StageModel {
        match *self {
            Stage::First => StageModel::First,
            Stage::Starting => StageModel::Starting,
            Stage::Waiting => StageModel::Waiting,
            Stage::Polling => StageModel::Polling,
            Stage::Joining { observation } => StageModel::Joining {
                observation: observed(observation),
            },
            Stage::Last => StageModel::Last,
            Stage::Decided => StageModel::Decided,
        }
    }
}

impl View for Call {
    type V = CallModel;

    open spec fn view(&self) -> CallModel {
        match *self {
            Call::Observe => CallModel::Observe,
            Call::StartVerifier => CallModel::StartVerifier,
            Call::WaitForVerifier => CallModel::WaitForVerifier,
            Call::JoinVerifier => CallModel::JoinVerifier,
            Call::Decide { outcome } => CallModel::Decide { outcome: observed(outcome) },
        }
    }
}

impl View for Reply {
    type V = ReplyModel;

    open spec fn view(&self) -> ReplyModel {
        match *self {
            Reply::Observed { observation } => ReplyModel::Observed {
                observation: observed(observation),
            },
            Reply::Started => ReplyModel::Started,
            Reply::Waited { completed } => ReplyModel::Waited { completed },
            Reply::Joined { outcome } => ReplyModel::Joined { outcome: crate::text::told(outcome) },
            Reply::Panicked => ReplyModel::Panicked,
        }
    }
}

/// Whether a reply answers the call of a stage.
pub open spec fn expects(stage: StageModel, reply: ReplyModel) -> bool {
    match stage {
        StageModel::First | StageModel::Polling | StageModel::Last => reply is Observed,
        StageModel::Starting => reply is Started,
        StageModel::Waiting => reply is Waited,
        StageModel::Joining { .. } => reply is Joined || reply is Panicked,
        StageModel::Decided => false,
    }
}

pub open spec fn decided(outcome: Result<bool, Seq<char>>) -> (StageModel, CallModel) {
    (StageModel::Decided, CallModel::Decide { outcome })
}

/// The stage and the call after a reply.
pub open spec fn resumed(stage: StageModel, reply: ReplyModel) -> (StageModel, CallModel) {
    match (stage, reply) {
        (StageModel::First, ReplyModel::Observed { observation }) => if observation == Ok::<
            bool,
            Seq<char>,
        >(true) {
            (StageModel::Starting, CallModel::StartVerifier)
        } else {
            decided(observation)
        },
        (StageModel::Starting, _) => (StageModel::Waiting, CallModel::WaitForVerifier),
        (StageModel::Waiting, ReplyModel::Waited { completed }) => if completed {
            (StageModel::Joining { observation: Ok(true) }, CallModel::JoinVerifier)
        } else {
            (StageModel::Polling, CallModel::Observe)
        },
        (StageModel::Polling, ReplyModel::Observed { observation }) => if observation == Ok::<
            bool,
            Seq<char>,
        >(true) {
            (StageModel::Waiting, CallModel::WaitForVerifier)
        } else {
            (StageModel::Joining { observation }, CallModel::JoinVerifier)
        },
        (StageModel::Joining { observation }, ReplyModel::Joined { outcome }) => match outcome {
            Err(message) => decided(Err(message)),
            Ok(_) => if observation == Ok::<bool, Seq<char>>(true) {
                (StageModel::Last, CallModel::Observe)
            } else {
                decided(observation)
            },
        },
        (StageModel::Joining { .. }, ReplyModel::Panicked) => decided(
            Err("prelaunch pin verifier panicked; no trial started"@),
        ),
        (StageModel::Last, ReplyModel::Observed { observation }) => decided(observation),
        _ => (stage, CallModel::Observe),
    }
}

/// A verification in progress.
#[derive(Debug)]
pub struct Prelaunch {
    stage: Stage,
}

impl View for Prelaunch {
    type V = StageModel;

    closed spec fn view(&self) -> StageModel {
        self.stage@
    }
}

impl Prelaunch {
    /// Starts with an observation: nothing is hashed unless the host is ready.
    pub fn begin() -> (r: (Prelaunch, Call))
        ensures
            r.0@ == StageModel::First,
            r.1@ == CallModel::Observe,
    {
        (Prelaunch { stage: Stage::First }, Call::Observe)
    }

    /// Takes the reply to the last call, and makes the next one.
    pub fn resume(&mut self, reply: Reply) -> (call: Call)
        requires
            expects(old(self)@, reply@),
        ensures
            (final(self)@, call@) == resumed(old(self)@, reply@),
    {
        let mut stage = Stage::Decided;
        std::mem::swap(&mut self.stage, &mut stage);
        match stage {
            Stage::First => match reply {
                Reply::Observed { observation: Ok(true) } => {
                    self.stage = Stage::Starting;
                    Call::StartVerifier
                },
                Reply::Observed { observation } => Call::Decide { outcome: observation },
                _ => Call::Observe,
            },
            Stage::Starting => {
                self.stage = Stage::Waiting;
                Call::WaitForVerifier
            },
            Stage::Waiting => match reply {
                Reply::Waited { completed: true } => {
                    self.stage = Stage::Joining { observation: Ok(true) };
                    Call::JoinVerifier
                },
                _ => {
                    self.stage = Stage::Polling;
                    Call::Observe
                },
            },
            Stage::Polling => match reply {
                Reply::Observed { observation: Ok(true) } => {
                    self.stage = Stage::Waiting;
                    Call::WaitForVerifier
                },
                Reply::Observed { observation } => {
                    self.stage = Stage::Joining { observation };
                    Call::JoinVerifier
                },
                _ => Call::Observe,
            },
            Stage::Joining { observation } => match reply {
                Reply::Joined { outcome: Err(message) } => Call::Decide { outcome: Err(message) },
                Reply::Joined { outcome: Ok(_) } => match observation {
                    Ok(true) => {
                        self.stage = Stage::Last;
                        Call::Observe
                    },
                    other => Call::Decide { outcome: other },
                },
                _ => Call::Decide {
                    outcome: Err(
                        "prelaunch pin verifier panicked; no trial started".to_owned(),
                    ),
                },
            },
            Stage::Last => match reply {
                Reply::Observed { observation } => Call::Decide { outcome: observation },
                _ => Call::Observe,
            },
            Stage::Decided => Call::Observe,
        }
    }
}

// ---------------------------------------------------------------------------
// Laws
// ---------------------------------------------------------------------------

/// The stage and the call after some replies.
pub open spec fn after(replies: Seq<ReplyModel>) -> (StageModel, CallModel)
    decreases replies.len(),
{
    if replies.len() == 0 {
        (StageModel::First, CallModel::Observe)
    } else {
        resumed(after(replies.drop_last()).0, replies.last())
    }
}

/// Whether every reply answers the call before it.
pub open spec fn fitting(replies: Seq<ReplyModel>) -> bool
    decreases replies.len(),
{
    replies.len() > 0 ==> fitting(replies.drop_last()) && expects(
        after(replies.drop_last()).0,
        replies.last(),
    )
}

pub open spec fn verifier_started(replies: Seq<ReplyModel>) -> bool {
    replies.contains(ReplyModel::Started)
}

pub open spec fn verifier_joined(replies: Seq<ReplyModel>) -> bool {
    exists|i: int|
        0 <= i < replies.len() && ((#[trigger] replies[i]) is Joined || replies[i] is Panicked)
}

/// Whether a reply says that the worker was joined and found every pin
/// unchanged.
pub open spec fn pins_verified(reply: ReplyModel) -> bool {
    reply is Joined && reply->outcome is Ok
}

pub open spec fn hashing(stage: StageModel) -> bool {
    stage is Waiting || stage is Polling || stage is Joining
}

proof fn progress(replies: Seq<ReplyModel>)
    requires
        fitting(replies),
    ensures
        ({
            let (stage, call) = after(replies);
            &&& hashing(stage) ==> verifier_started(replies) && !verifier_joined(replies)
            &&& stage is First || stage is Starting ==> !verifier_started(replies)
                && !verifier_joined(replies)
            &&& stage is Last ==> verifier_joined(replies) && replies.len() > 0
                && pins_verified(replies.last())
            &&& stage is Decided && verifier_started(replies) ==> verifier_joined(replies)
            &&& stage is Decided <==> call is Decide
            &&& call is StartVerifier <==> stage is Starting
            &&& call is Decide && call->Decide_outcome == Ok::<bool, Seq<char>>(true) ==> {
                &&& replies.len() >= 2
                &&& replies.last() == (ReplyModel::Observed { observation: Ok::<bool, Seq<char>>(true) })
                &&& pins_verified(replies[replies.len() - 2])
            }
        }),
    decreases replies.len(),
{
    if replies.len() > 0 {
        let before = replies.drop_last();
        progress(before);
        let last = replies.last();
        assert(replies[replies.len() - 1] == last);
        if before.len() > 0 {
            assert(replies[replies.len() - 2] == before.last());
        }
        if last is Started {
            assert(verifier_started(replies));
        }
        if last is Joined || last is Panicked {
            assert(verifier_joined(replies));
        }
        assert forall|i: int| 0 <= i < before.len() implies before[i] == replies[i] by {}
        if verifier_started(before) {
            let i = choose|i: int| 0 <= i < before.len() && before[i] == ReplyModel::Started;
            assert(replies[i] == ReplyModel::Started);
        }
        if verifier_joined(before) {
            let i = choose|i: int|
                0 <= i < before.len() && ((#[trigger] before[i]) is Joined || before[i] is Panicked);
            assert(replies[i] is Joined || replies[i] is Panicked);
        }
        if verifier_started(replies) && !(last is Started) {
            let i = choose|i: int| 0 <= i < replies.len() && replies[i] == ReplyModel::Started;
            assert(before[i] == ReplyModel::Started);
        }
        if verifier_joined(replies) && !(last is Joined) && !(last is Panicked) {
            let i = choose|i: int|
                0 <= i < replies.len() && ((#[trigger] replies[i]) is Joined || replies[i] is Panicked);
            assert(before[i] is Joined || before[i] is Panicked);
        }
    }
}

/// No decision is taken while the worker runs: where it was started, it was
/// joined.
pub proof fn decisions_follow_the_join(replies: Seq<ReplyModel>)
    requires
        fitting(replies),
        after(replies).1 is Decide,
    ensures
        verifier_started(replies) ==> verifier_joined(replies),
{
    progress(replies);
}

/// A launch is accepted only by an observation that the host is ready, made right
/// after the worker was joined and had found every pin unchanged.
pub proof fn launches_are_observed_after_verification(replies: Seq<ReplyModel>)
    requires
        fitting(replies),
        after(replies).1 == (CallModel::Decide { outcome: Ok::<bool, Seq<char>>(true) }),
    ensures
        replies.len() >= 2,
        replies.last() == (ReplyModel::Observed { observation: Ok::<bool, Seq<char>>(true) }),
        pins_verified(replies[replies.len() - 2]),
{
    progress(replies);
}

/// A refusal or an error of the first observation starts no worker.
pub proof fn refusals_start_nothing(observation: Result<bool, Seq<char>>)
    requires
        observation != Ok::<bool, Seq<char>>(true),
    ensures
        after(seq![ReplyModel::Observed { observation }]).1 == (CallModel::Decide {
            outcome: observation,
        }),
{
    reveal_with_fuel(after, 2);
    let replies = seq![ReplyModel::Observed { observation }];
    assert(replies.drop_last() =~= Seq::empty());
}

/// A pin that changed halts the launch, whatever was observed.
pub proof fn pin_failures_halt(observation: Result<bool, Seq<char>>, message: Seq<char>)
    ensures
        resumed(
            StageModel::Joining { observation },
            ReplyModel::Joined { outcome: Err(message) },
        ).1 == (CallModel::Decide { outcome: Err::<bool, Seq<char>>(message) }),
{
}

} // verus!
