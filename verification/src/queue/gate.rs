//! The launch gate: sampled power controls, disk space and activity, and when
//! together they let a job run.
use crate::json::{
    array_of, as_bits, at, at2, bits_of, bool_at, double_key, elements, finite_bits,
    is_finite_double, is_null, json_bytes_document, json_model, key_of_double, member, member2,
    member_flag, member_natural, member_text, models, natural_at, parse_bytes, text_at, JsonModel,
};
use crate::paths::{paths_equal, same_path};
use crate::queue::job::{Conditions, IdleLlamaServer};
use crate::queue::processes::{
    blockers, blocking_from, process_models, sightings, Process, ProcessModel, Sighting,
};
use crate::text::same;
use vstd::prelude::*;

verus! {

/// How old a sample may be: two and a half seconds, in nanoseconds.
pub const SAMPLE_LIMIT: u64 = 2_500_000_000;

/// The bits of the double 2500.
pub const AGE_LIMIT_BITS: u64 = 0x40a3_8800_0000_0000;

// ---------------------------------------------------------------------------
// Power controls
// ---------------------------------------------------------------------------

pub open spec fn is_null_at(document: JsonModel, key: Seq<char>) -> bool {
    at(document, key) == Some(JsonModel::Null)
}

/// A control that may be unknown, or must show no limit.
pub open spec fn unlimited(controls: JsonModel, key: Seq<char>) -> bool {
    is_null_at(controls, key) || natural_at(controls, key) == Some(100u64)
}

/// Whether a sample's age is finite and within bounds; in milliseconds.
pub open spec fn fresh(bits: u64) -> bool {
    finite_bits(bits) && 0 <= double_key(bits) <= double_key(AGE_LIMIT_BITS)
}

/// Whether controls are known, unrestricted and those that a job requires.
pub open spec fn controls_allow(controls: JsonModel, c: Conditions) -> bool {
    &&& text_at(controls, "power_source"@) == Some(c.power_source@)
    &&& bool_at(controls, "low_power_mode"@) is Some
    &&& c.low_power_mode is Some ==> bool_at(controls, "low_power_mode"@) == c.low_power_mode
    &&& natural_at(controls, "pmset_power_mode"@) is Some && natural_at(
        controls,
        "pmset_power_mode"@,
    )->0 <= 2
    &&& c.pmset_power_mode is Some ==> natural_at(controls, "pmset_power_mode"@)
        == c.pmset_power_mode
    &&& natural_at(controls, "thermal_state"@) is Some && natural_at(controls, "thermal_state"@)->0
        <= 3
    &&& c.thermal_state is Some ==> natural_at(controls, "thermal_state"@) == c.thermal_state
    &&& unlimited(controls, "cpu_speed_limit_percent"@)
    &&& unlimited(controls, "scheduler_limit_percent"@)
    &&& is_null_at(controls, "available_cpus"@) || (natural_at(controls, "available_cpus"@) is Some
        && natural_at(controls, "available_cpus"@)->0 > 0)
}

/// Whether an observation of the power controls lets a job run.
pub open spec fn observation_allows(observation: JsonModel, c: Conditions) -> bool {
    &&& match at(observation, "age_ms"@) {
        Some(age) => bits_of(age) is Some && fresh(bits_of(age)->0),
        None => false,
    }
    &&& is_null_at(observation, "observer_journal_error"@)
    &&& match at2(observation, "sample"@, "controls"@) {
        Some(controls) => controls_allow(controls, c),
        None => false,
    }
}

fn null_at(value: &serde_json::Value, key: &str) -> (r: bool)
    ensures
        r == is_null_at(json_model(*value), key@),
{
    match member(value, key) {
        Some(v) => is_null(v),
        None => false,
    }
}

fn not_limited(controls: &serde_json::Value, key: &str) -> (r: bool)
    ensures
        r == unlimited(json_model(*controls), key@),
{
    if null_at(controls, key) {
        return true;
    }
    match member_natural(controls, key) {
        Some(n) => n == 100,
        None => false,
    }
}

fn text_matches(controls: &serde_json::Value, key: &str, wanted: &str) -> (r: bool)
    ensures
        r == (text_at(json_model(*controls), key@) == Some(wanted@)),
{
    match member_text(controls, key) {
        Some(text) => same(text, wanted),
        None => false,
    }
}

fn flag_allowed(controls: &serde_json::Value, key: &str, wanted: Option<bool>) -> (r: bool)
    ensures
        r == (bool_at(json_model(*controls), key@) is Some && (wanted is Some ==> bool_at(
            json_model(*controls),
            key@,
        ) == wanted)),
{
    match member_flag(controls, key) {
        Some(b) => match wanted {
            Some(w) => b == w,
            None => true,
        },
        None => false,
    }
}

fn natural_allowed(controls: &serde_json::Value, key: &str, most: u64, wanted: Option<u64>) -> (r:
    bool)
    ensures
        r == (natural_at(json_model(*controls), key@) is Some && natural_at(
            json_model(*controls),
            key@,
        )->0 <= most && (wanted is Some ==> natural_at(json_model(*controls), key@) == wanted)),
{
    match member_natural(controls, key) {
        Some(n) => n <= most && match wanted {
            Some(w) => n == w,
            None => true,
        },
        None => false,
    }
}

fn cpus_available(controls: &serde_json::Value) -> (r: bool)
    ensures
        r == (is_null_at(json_model(*controls), "available_cpus"@) || (natural_at(
            json_model(*controls),
            "available_cpus"@,
        ) is Some && natural_at(json_model(*controls), "available_cpus"@)->0 > 0)),
{
    if null_at(controls, "available_cpus") {
        return true;
    }
    match member_natural(controls, "available_cpus") {
        Some(n) => n > 0,
        None => false,
    }
}

fn is_fresh(bits: u64) -> (r: bool)
    ensures
        r == fresh(bits),
{
    is_finite_double(bits) && key_of_double(bits) >= 0 && key_of_double(bits) <= key_of_double(
        AGE_LIMIT_BITS,
    )
}

/// Whether an observation of the power controls lets a job run: a fresh sample,
/// recorded without error, of known and unrestricted controls, each of them the
/// one that the job requires where it requires one.
pub fn controls_match(observation: &serde_json::Value, c: &Conditions) -> (r: bool)
    ensures
        r == observation_allows(json_model(*observation), *c),
{
    let age = match member(observation, "age_ms") {
        Some(age) => age,
        None => {
            return false;
        },
    };
    match as_bits(age) {
        Some(bits) => {
            if !is_fresh(bits) {
                return false;
            }
        },
        None => {
            return false;
        },
    }
    if !null_at(observation, "observer_journal_error") {
        return false;
    }
    let controls = match member2(observation, "sample", "controls") {
        Some(controls) => controls,
        None => {
            return false;
        },
    };
    text_matches(controls, "power_source", c.power_source.as_str()) && flag_allowed(
        controls,
        "low_power_mode",
        c.low_power_mode,
    ) && natural_allowed(controls, "pmset_power_mode", 2, c.pmset_power_mode) && natural_allowed(
        controls,
        "thermal_state",
        3,
        c.thermal_state,
    ) && not_limited(controls, "cpu_speed_limit_percent") && not_limited(
        controls,
        "scheduler_limit_percent",
    ) && cpus_available(controls)
}

/// A job that pins a control accepts no observation that a job which leaves it
/// open would not accept: pinning only restricts.
pub proof fn pinning_only_restricts(observation: JsonModel, pinned: Conditions, open: Conditions)
    requires
        observation_allows(observation, pinned),
        open.power_source@ == pinned.power_source@,
        open.low_power_mode is None || open.low_power_mode == pinned.low_power_mode,
        open.pmset_power_mode is None || open.pmset_power_mode == pinned.pmset_power_mode,
        open.thermal_state is None || open.thermal_state == pinned.thermal_state,
    ensures
        observation_allows(observation, open),
{
}

/// Unknown controls never pass, whatever a job leaves open.
pub proof fn unknown_controls_never_pass(observation: JsonModel, c: Conditions)
    requires
        observation_allows(observation, c),
    ensures
        at2(observation, "sample"@, "controls"@) is Some,
        ({
            let controls = at2(observation, "sample"@, "controls"@)->0;
            &&& text_at(controls, "power_source"@) is Some
            &&& bool_at(controls, "low_power_mode"@) is Some
            &&& natural_at(controls, "pmset_power_mode"@) is Some
            &&& natural_at(controls, "thermal_state"@) is Some
        }),
{
}

// ---------------------------------------------------------------------------
// Idle servers
// ---------------------------------------------------------------------------

/// Whether a server's answer lists slots, and none is at work.
pub open spec fn slots_quiet(document: Result<JsonModel, Seq<char>>) -> bool {
    match document {
        Ok(value) => match array_of(value) {
            Some(slots) => slots.len() > 0 && forall|i: int|
                0 <= i < slots.len() ==> bool_at(#[trigger] slots[i], "is_processing"@) == Some(
                    false,
                ),
            None => false,
        },
        Err(_) => false,
    }
}

pub fn slots_idle(bytes: &[u8]) -> (r: bool)
    ensures
        r == slots_quiet(json_bytes_document(bytes@)),
{
    match parse_bytes(bytes) {
        Ok(value) => slots_idle_in(&value),
        Err(_) => false,
    }
}

/// Whether a document lists slots, and none is at work.
pub fn slots_idle_in(value: &serde_json::Value) -> (r: bool)
    ensures
        r == slots_quiet(Ok(json_model(*value))),
{
    let slots = match elements(value) {
        Some(slots) => slots,
        None => {
            return false;
        },
    };
    if slots.len() == 0 {
        return false;
    }
    let ghost all = models(slots@);
    let mut i: usize = 0;
    while i < slots.len()
        invariant
            i <= slots@.len(),
            all == models(slots@),
            array_of(json_model(*value)) == Some(all),
            slots@.len() > 0,
            forall|j: int|
                0 <= j < i ==> bool_at(#[trigger] all[j], "is_processing"@) == Some(false),
        decreases slots@.len() - i,
    {
        assert(all[i as int] == json_model(slots@[i as int]));
        match member_flag(&slots[i], "is_processing") {
            Some(false) => {},
            _ => {
                assert(bool_at(all[i as int], "is_processing"@) != Some(false));
                return false;
            },
        }
        i = i + 1;
    }
    true
}

/// What a server answered: whether the request succeeded, and its output.
#[derive(Debug)]
pub struct SlotsAnswer {
    pub success: bool,
    pub output: Vec<u8>,
}

pub open spec fn answered_idle(answer: Option<SlotsAnswer>) -> bool {
    match answer {
        Some(a) => a.success && a.output@.len() <= 65536 && slots_quiet(
            json_bytes_document(a.output@),
        ),
        None => false,
    }
}

/// Whether a server's process is among the host's.
pub open spec fn server_present(processes: Seq<ProcessModel>, pid: u32) -> bool {
    exists|i: int|
        0 <= i < processes.len() && (#[trigger] processes[i]).pid == pid && processes[i].name
            == "llama-server"@
}

fn is_server_present(processes: &Vec<Process>, pid: u32) -> (r: bool)
    ensures
        r == server_present(process_models(processes@), pid),
{
    let ghost all = process_models(processes@);
    let mut i: usize = 0;
    while i < processes.len()
        invariant
            i <= processes@.len(),
            all == process_models(processes@),
            forall|j: int|
                0 <= j < i ==> !((#[trigger] all[j]).pid == pid && all[j].name
                    == "llama-server"@),
        decreases processes@.len() - i,
    {
        assert(all[i as int] == processes@[i as int]@);
        if processes[i].pid == pid && same(processes[i].name.as_str(), "llama-server") {
            return true;
        }
        i = i + 1;
    }
    false
}

// ---------------------------------------------------------------------------
// Shared samples
// ---------------------------------------------------------------------------

/// The free space of a disk, and when its sampling began.
#[derive(Debug)]
pub struct DiskSample {
    pub path: String,
    pub started: u64,
    pub free_bytes: u64,
}

/// What was found of a server, and when its sampling began.
#[derive(Clone, Copy, Debug, PartialEq, Eq, Structural)]
pub struct IdleCheck {
    pub pid: u32,
    pub port: u16,
    pub started: u64,
    pub idle: bool,
}

/// The processes of the host, and when their sampling began.
#[derive(Debug)]
pub struct ProcessSample {
    pub started: u64,
    pub processes: Vec<Process>,
}

/// The samples that one pass over the queue shares; never a job's decision.
#[derive(Debug)]
pub struct ProbeCache {
    pub disks: Vec<DiskSample>,
    pub processes: Option<ProcessSample>,
    pub idle: Vec<IdleCheck>,
}

/// What is still to be sampled for a job.
#[derive(Clone, Copy, Debug, PartialEq, Eq, Structural)]
pub enum ProbeCall {
    Processes,
    /// Ask a server for its slots; only where its process is there.
    Slots { server: IdleLlamaServer, present: bool },
}

/// The sample of a disk, from `i` on.
pub open spec fn disk_from(disks: Seq<DiskSample>, path: Seq<char>, i: int) -> Option<(u64, u64)>
    decreases disks.len() - i,
{
    if i >= disks.len() {
        None
    } else if same_path(disks[i].path@, path) {
        Some((disks[i].started, disks[i].free_bytes))
    } else {
        disk_from(disks, path, i + 1)
    }
}

/// The sample of a server, from `i` on.
pub open spec fn idle_from(idle: Seq<IdleCheck>, server: IdleLlamaServer, i: int) -> Option<IdleCheck>
    decreases idle.len() - i,
{
    if i >= idle.len() {
        None
    } else if idle[i].pid == server.pid && idle[i].port == server.port {
        Some(idle[i])
    } else {
        idle_from(idle, server, i + 1)
    }
}

/// The first server without a sample, from `i` on.
pub open spec fn unsampled_from(idle: Seq<IdleCheck>, servers: Seq<IdleLlamaServer>, i: int) -> Option<
    IdleLlamaServer,
>
    decreases servers.len() - i,
{
    if i >= servers.len() {
        None
    } else if idle_from(idle, servers[i], 0) is None {
        Some(servers[i])
    } else {
        unsampled_from(idle, servers, i + 1)
    }
}

impl ProbeCache {
    pub open spec fn models(&self) -> Seq<ProcessModel> {
        match self.processes {
            Some(sample) => process_models(sample.processes@),
            None => Seq::empty(),
        }
    }

    /// What is still to be sampled for a job.
    pub open spec fn missing(&self, c: Conditions) -> Option<ProbeCall> {
        if self.processes is None {
            Some(ProbeCall::Processes)
        } else {
            match unsampled_from(self.idle@, c.idle_llama_servers@, 0) {
                Some(server) => Some(
                    ProbeCall::Slots { server, present: server_present(self.models(), server.pid) },
                ),
                None => None,
            }
        }
    }

    pub fn new() -> (r: ProbeCache)
        ensures
            r.disks@.len() == 0,
            r.processes is None,
            r.idle@.len() == 0,
    {
        ProbeCache { disks: Vec::new(), processes: None, idle: Vec::new() }
    }

    /// The sample of a disk that this pass already took.
    pub fn disk(&self, path: &str) -> (r: Option<(u64, u64)>)
        ensures
            r == disk_from(self.disks@, path@, 0),
    {
        let mut i: usize = 0;
        while i < self.disks.len()
            invariant
                i <= self.disks@.len(),
                disk_from(self.disks@, path@, 0) == disk_from(self.disks@, path@, i as int),
            decreases self.disks@.len() - i,
        {
            if paths_equal(self.disks[i].path.as_str(), path) {
                return Some((self.disks[i].started, self.disks[i].free_bytes));
            }
            i = i + 1;
        }
        None
    }

    /// Keeps the sample of a disk.
    pub fn record_disk(&mut self, path: &str, started: u64, free_bytes: u64)
        ensures
            final(self).disks@.len() == old(self).disks@.len() + 1,
            final(self).disks@.take(old(self).disks@.len() as int) == old(self).disks@,
            final(self).disks@.last().path@ == path@,
            final(self).disks@.last().started == started,
            final(self).disks@.last().free_bytes == free_bytes,
            final(self).processes == old(self).processes,
            final(self).idle == old(self).idle,
    {
        let ghost before = self.disks@;
        self.disks.push(DiskSample { path: path.to_owned(), started, free_bytes });
        assert(self.disks@.take(before.len() as int) =~= before);
    }

    /// Keeps the processes of the host.
    pub fn record_processes(&mut self, started: u64, processes: Vec<Process>)
        ensures
            final(self).processes == Some(ProcessSample { started, processes }),
            final(self).disks == old(self).disks,
            final(self).idle == old(self).idle,
    {
        self.processes = Some(ProcessSample { started, processes });
    }

    fn sampled(&self, server: IdleLlamaServer) -> (r: Option<IdleCheck>)
        ensures
            r == idle_from(self.idle@, server, 0),
    {
        let mut i: usize = 0;
        while i < self.idle.len()
            invariant
                i <= self.idle@.len(),
                idle_from(self.idle@, server, 0) == idle_from(self.idle@, server, i as int),
            decreases self.idle@.len() - i,
        {
            if self.idle[i].pid == server.pid && self.idle[i].port == server.port {
                return Some(self.idle[i]);
            }
            i = i + 1;
        }
        None
    }

    /// What is still to be sampled for a job.
    pub fn next_probe(&self, c: &Conditions) -> (r: Option<ProbeCall>)
        ensures
            r == self.missing(*c),
    {
        let sample = match &self.processes {
            Some(sample) => sample,
            None => {
                return Some(ProbeCall::Processes);
            },
        };
        let servers = &c.idle_llama_servers;
        let mut i: usize = 0;
        while i < servers.len()
            invariant
                i <= servers@.len(),
                servers@ == c.idle_llama_servers@,
                self.processes == Some(*sample),
                unsampled_from(self.idle@, servers@, 0) == unsampled_from(
                    self.idle@,
                    servers@,
                    i as int,
                ),
            decreases servers@.len() - i,
        {
            if self.sampled(servers[i]).is_none() {
                let present = is_server_present(&sample.processes, servers[i].pid);
                return Some(ProbeCall::Slots { server: servers[i], present });
            }
            i = i + 1;
        }
        None
    }

    /// Keeps what was found of a server: it is idle where its process is there
    /// and its answer shows every slot idle.
    pub fn record_idle(
        &mut self,
        server: IdleLlamaServer,
        present: bool,
        started: u64,
        answer: Option<SlotsAnswer>,
    )
        ensures
            final(self).idle@ == old(self).idle@.push(
                IdleCheck {
                    pid: server.pid,
                    port: server.port,
                    started,
                    idle: present && answered_idle(answer),
                },
            ),
            final(self).disks == old(self).disks,
            final(self).processes == old(self).processes,
    {
        let answered = match &answer {
            Some(a) => a.success && a.output.len() <= 65536 && slots_idle(a.output.as_slice()),
            None => false,
        };
        self.idle.push(
            IdleCheck { pid: server.pid, port: server.port, started, idle: present && answered },
        );
    }
}

// ---------------------------------------------------------------------------
// Activity
// ---------------------------------------------------------------------------

/// What a job sees of the host's activity.
#[derive(Debug)]
pub struct Activity {
    pub oldest: u64,
    pub competing: Vec<Sighting>,
    pub observed: Vec<Sighting>,
    pub checks: Vec<IdleCheck>,
}

/// The samples of a job's servers, up to `n`.
pub open spec fn checks_of(idle: Seq<IdleCheck>, servers: Seq<IdleLlamaServer>, n: int) -> Seq<IdleCheck>
    decreases n,
{
    if n <= 0 {
        Seq::empty()
    } else {
        checks_of(idle, servers, n - 1).push(idle_from(idle, servers[n - 1], 0)->0)
    }
}

/// The start of the oldest sample, up to `n` servers.
pub open spec fn oldest_of(started: u64, checks: Seq<IdleCheck>) -> u64
    decreases checks.len(),
{
    if checks.len() == 0 {
        started
    } else {
        let rest = oldest_of(started, checks.drop_last());
        if checks.last().started < rest {
            checks.last().started
        } else {
            rest
        }
    }
}

/// Whether a process is a server that was found idle.
pub open spec fn excused(checks: Seq<IdleCheck>, pid: u32) -> bool {
    exists|i: int| 0 <= i < checks.len() && (#[trigger] checks[i]).idle && checks[i].pid == pid
}

/// Sightings but for idle servers, from `i` on.
pub open spec fn unexcused_from(found: Seq<(u32, Seq<char>)>, checks: Seq<IdleCheck>, i: int) -> Seq<
    (u32, Seq<char>),
>
    decreases found.len() - i,
{
    if i >= found.len() {
        Seq::empty()
    } else if excused(checks, found[i].0) {
        unexcused_from(found, checks, i + 1)
    } else {
        seq![found[i]] + unexcused_from(found, checks, i + 1)
    }
}

fn is_excused(checks: &Vec<IdleCheck>, pid: u32) -> (r: bool)
    ensures
        r == excused(checks@, pid),
{
    let mut i: usize = 0;
    while i < checks.len()
        invariant
            i <= checks@.len(),
            forall|j: int| 0 <= j < i ==> !((#[trigger] checks@[j]).idle && checks@[j].pid == pid),
        decreases checks@.len() - i,
    {
        if checks[i].idle && checks[i].pid == pid {
            assert(checks@[i as int].pid == pid);
            return true;
        }
        i = i + 1;
    }
    false
}

fn without_excused(found: Vec<Sighting>, checks: &Vec<IdleCheck>) -> (r: Vec<Sighting>)
    ensures
        sightings(r@) == unexcused_from(sightings(found@), checks@, 0),
{
    let ghost all = sightings(found@);
    let mut kept: Vec<Sighting> = Vec::new();
    let mut i: usize = 0;
    assert(sightings(kept@) + unexcused_from(all, checks@, 0) =~= unexcused_from(all, checks@, 0));
    while i < found.len()
        invariant
            i <= found@.len(),
            all == sightings(found@),
            sightings(kept@) + unexcused_from(all, checks@, i as int) == unexcused_from(
                all,
                checks@,
                0,
            ),
        decreases found@.len() - i,
    {
        let ghost rest = unexcused_from(all, checks@, i + 1);
        assert(all[i as int] == (found@[i as int].pid, found@[i as int].name@));
        if !is_excused(checks, found[i].pid) {
            let ghost before = kept@;
            kept.push(Sighting { pid: found[i].pid, name: found[i].name.as_str().to_owned() });
            proof {
                assert(sightings(kept@) =~= sightings(before).push(all[i as int]));
                assert(sightings(before) + (seq![all[i as int]] + rest) =~= sightings(kept@)
                    + rest);
            }
        }
        i = i + 1;
    }
    assert(sightings(kept@) + Seq::<(u32, Seq<char>)>::empty() =~= sightings(kept@));
    kept
}

proof fn sampled_servers(idle: Seq<IdleCheck>, servers: Seq<IdleLlamaServer>, from: int, i: int)
    requires
        0 <= from <= i < servers.len(),
        unsampled_from(idle, servers, from) is None,
    ensures
        idle_from(idle, servers[i], 0) is Some,
    decreases i - from,
{
    if from < i {
        sampled_servers(idle, servers, from + 1, i);
    }
}

impl ProbeCache {
    /// What a job sees of the sampled activity: the processes that compete with
    /// it, but for servers that are idle, those it only observes, and the
    /// servers' samples. `me` is this process, and `trial` the running one.
    pub fn activity(&self, c: &Conditions, me: u32, trial: Option<u32>) -> (r: Activity)
        requires
            self.missing(*c) is None,
        ensures
            r.checks@ == checks_of(
                self.idle@,
                c.idle_llama_servers@,
                c.idle_llama_servers@.len() as int,
            ),
            r.oldest == oldest_of(self.processes->0.started, r.checks@),
            sightings(r.competing@) == unexcused_from(
                blocking_from(self.models(), c.quiet_process_names@, me, trial, 0),
                r.checks@,
                0,
            ),
            sightings(r.observed@) == blocking_from(
                self.models(),
                c.observe_process_names@,
                me,
                trial,
                0,
            ),
    {
        let servers = &c.idle_llama_servers;
        let mut checks: Vec<IdleCheck> = Vec::new();
        let empty: Vec<Process> = Vec::new();
        let (started, processes): (u64, &Vec<Process>) = match &self.processes {
            Some(sample) => (sample.started, &sample.processes),
            None => (0, &empty),
        };
        let mut oldest: u64 = started;
        let mut i: usize = 0;
        while i < servers.len()
            invariant
                i <= servers@.len(),
                servers@ == c.idle_llama_servers@,
                self.missing(*c) is None,
                checks@ == checks_of(self.idle@, servers@, i as int),
                oldest == oldest_of(started, checks@),
            decreases servers@.len() - i,
        {
            proof {
                sampled_servers(self.idle@, servers@, 0, i as int);
            }
            if let Some(check) = self.sampled(servers[i]) {
                let ghost before = checks@;
                checks.push(check);
                assert(checks@.drop_last() =~= before);
                if check.started < oldest {
                    oldest = check.started;
                }
            }
            i = i + 1;
        }
        let quiet = blockers(processes, &c.quiet_process_names, me, trial);
        let competing = without_excused(quiet, &checks);
        let observed = blockers(processes, &c.observe_process_names, me, trial);
        Activity { oldest, competing, observed, checks }
    }
}

// ---------------------------------------------------------------------------
// Readiness
// ---------------------------------------------------------------------------

/// The age of a sample; nothing where it began later, or too long ago.
pub open spec fn age_of(started: u64, now: u64) -> Option<u64> {
    if now < started || now - started > SAMPLE_LIMIT {
        None
    } else {
        Some((now - started) as u64)
    }
}

/// The age of a sample in nanoseconds; nothing once it has expired.
pub fn sample_age(started: u64, now: u64) -> (r: Option<u64>)
    ensures
        r == age_of(started, now),
{
    if now < started || now - started > SAMPLE_LIMIT {
        return None;
    }
    Some(now - started)
}

/// Whether power or disk space already keep a job from running, so that no
/// activity need be sampled.
pub fn probe_blocked(initial: &serde_json::Value, free_bytes: u64, c: &Conditions) -> (r: bool)
    ensures
        r == (!observation_allows(json_model(*initial), *c) || free_bytes < c.minimum_free_bytes),
{
    !controls_match(initial, c) || free_bytes < c.minimum_free_bytes
}

pub open spec fn all_idle(checks: Seq<IdleCheck>) -> bool {
    forall|i: int| 0 <= i < checks.len() ==> (#[trigger] checks[i]).idle
}

/// Whether everything that was sampled lets a job run now.
pub open spec fn ready(
    observation: JsonModel,
    free_bytes: u64,
    c: Conditions,
    competing: nat,
    checks: Seq<IdleCheck>,
    began: u64,
    oldest: u64,
    now: u64,
) -> bool {
    &&& observation_allows(observation, c)
    &&& free_bytes >= c.minimum_free_bytes
    &&& competing == 0
    &&& all_idle(checks)
    &&& age_of(began, now) is Some
    &&& age_of(oldest, now) is Some
}

/// Whether a job may run: the controls match, space is left, nothing competes,
/// every exempted server is idle, and neither the probe, which began at `began`,
/// nor any of its samples took too long.
pub fn probe_ready(
    observation: &serde_json::Value,
    disk: (u64, u64),
    c: &Conditions,
    activity: &Activity,
    began: u64,
    now: u64,
) -> (r: bool)
    ensures
        r == ready(
            json_model(*observation),
            disk.1,
            *c,
            activity.competing@.len(),
            activity.checks@,
            began,
            if disk.0 < activity.oldest {
                disk.0
            } else {
                activity.oldest
            },
            now,
        ),
{
    let oldest: u64 = if disk.0 < activity.oldest {
        disk.0
    } else {
        activity.oldest
    };
    let mut idle = true;
    let mut i: usize = 0;
    while i < activity.checks.len()
        invariant
            i <= activity.checks@.len(),
            idle == forall|j: int| 0 <= j < i ==> (#[trigger] activity.checks@[j]).idle,
        decreases activity.checks@.len() - i,
    {
        if !activity.checks[i].idle {
            assert(!activity.checks@[i as int].idle);
            idle = false;
        }
        i = i + 1;
    }
    controls_match(observation, c) && disk.1 >= c.minimum_free_bytes && activity.competing.len()
        == 0 && idle && sample_age(began, now).is_some() && sample_age(oldest, now).is_some()
}

/// Samples expire: once one is too old it stays so, and a fresh one is at most
/// two and a half seconds old.
pub proof fn samples_expire(started: u64, now: u64, later: u64)
    requires
        started <= now <= later,
    ensures
        age_of(started, now) is None ==> age_of(started, later) is None,
        age_of(started, now) is Some ==> now - started <= 2_500_000_000,
        age_of(started, started) == Some(0u64),
{
}

} // verus!
