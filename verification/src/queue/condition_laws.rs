//! What is sampled before and during a trial, and what it decides.
use crate::json::{array_of, at, at2, bits_of, bool_at, double_key, finite_bits, natural_at, text_at, JsonModel};
use crate::paths::same_path;
use crate::queue::gate::{
    age_of, answered_idle, checks_of, disk_from, excused, idle_from, observation_allows, oldest_of,
    ready, server_present, slots_quiet, unexcused_from, unsampled_from, DiskSample, IdleCheck,
    SlotsAnswer,
};
use crate::queue::job::{Conditions, IdleLlamaServer, Invocation, Job};
use crate::queue::prelaunch::{expects, resumed, CallModel, ReplyModel, StageModel};
use crate::queue::processes::{
    blocking_from, descendant, descends, field_of, owned, process_of, processes_from, ProcessModel,
};
use crate::queue::selection::{selection_from, Sample};
use crate::queue::trial::{
    after_probe, arguments_of, before_probe, continues_with, environment_of, exceeds, expanded,
    phase_allows, replaced_from, status_of, Elapsed, Ending, Watch,
};
use crate::queue::worker::{joined_by, lasted, waiting_since, PendingModel};
use crate::text::{is_space, listed, numeral, skip_spaces, trimmed};
use vstd::prelude::*;

verus! {

// ---------------------------------------------------------------------------
// Controls
// ---------------------------------------------------------------------------

/// Controls that allow a trial were sampled two and a half seconds ago at most, on
/// the power source asked for, without a journal error; speed and scheduling are
/// unlimited or unknown, the modes are known ones, and what a job pins holds.
pub proof fn allowed_controls_are_fresh_and_unlimited(observation: JsonModel, c: Conditions)
    requires
        observation_allows(observation, c),
    ensures
        at(observation, "age_ms"@) is Some && bits_of(at(observation, "age_ms"@)->0) is Some,
        ({
            let age = bits_of(at(observation, "age_ms"@)->0)->0;
            &&& finite_bits(age)
            &&& double_key(0) <= double_key(age) <= double_key(0x40a3_8800_0000_0000)
        }),
        at(observation, "observer_journal_error"@) == Some(JsonModel::Null),
        at2(observation, "sample"@, "controls"@) is Some,
        ({
            let k = at2(observation, "sample"@, "controls"@)->0;
            &&& text_at(k, "power_source"@) == Some(c.power_source@)
            &&& natural_at(k, "pmset_power_mode"@) is Some && natural_at(
                k,
                "pmset_power_mode"@,
            )->0 <= 2
            &&& natural_at(k, "thermal_state"@) is Some && natural_at(k, "thermal_state"@)->0 <= 3
            &&& bool_at(k, "low_power_mode"@) is Some
            &&& at(k, "cpu_speed_limit_percent"@) == Some(JsonModel::Null) || natural_at(
                k,
                "cpu_speed_limit_percent"@,
            ) == Some(100u64)
            &&& at(k, "scheduler_limit_percent"@) == Some(JsonModel::Null) || natural_at(
                k,
                "scheduler_limit_percent"@,
            ) == Some(100u64)
            &&& at(k, "available_cpus"@) == Some(JsonModel::Null) || (natural_at(
                k,
                "available_cpus"@,
            ) is Some && natural_at(k, "available_cpus"@) != Some(0u64))
            &&& c.low_power_mode is Some ==> c.low_power_mode == bool_at(k, "low_power_mode"@)
            &&& c.pmset_power_mode is Some ==> c.pmset_power_mode == natural_at(
                k,
                "pmset_power_mode"@,
            )
            &&& c.thermal_state is Some ==> c.thermal_state == natural_at(k, "thermal_state"@)
        }),
{
}

/// A server is idle only where it answered, briefly, with slots none of which is at
/// work: an empty list, one busy slot or one that does not say refuses.
pub proof fn servers_are_idle_slot_by_slot(
    document: Result<JsonModel, Seq<char>>,
    slots: Seq<JsonModel>,
    k: int,
    answer: Option<SlotsAnswer>,
)
    requires
        document is Ok && array_of(document->Ok_0) == Some(slots),
        0 <= k < slots.len(),
    ensures
        slots_quiet(document) ==> bool_at(slots[k], "is_processing"@) == Some(false),
        (forall|i: int|
            0 <= i < slots.len() ==> bool_at(#[trigger] slots[i], "is_processing"@) == Some(false))
            ==> slots_quiet(document),
        slots_quiet(Ok(JsonModel::Array(Seq::empty()))) ==> false,
        answered_idle(answer) ==> answer is Some && answer->0.success && answer->0.output@.len()
            <= 65536,
{
    assert(array_of(JsonModel::Array(Seq::<JsonModel>::empty())) == Some(Seq::<JsonModel>::empty()));
}

proof fn first_disk(disks: Seq<DiskSample>, path: Seq<char>, i: int)
    requires
        0 <= i <= disks.len(),
    ensures
        match disk_from(disks, path, i) {
            Some(found) => exists|k: int|
                i <= k < disks.len() && same_path((#[trigger] disks[k]).path@, path) && found == (
                    disks[k].started,
                    disks[k].free_bytes,
                ) && forall|j: int| i <= j < k ==> !same_path((#[trigger] disks[j]).path@, path),
            None => forall|k: int|
                i <= k < disks.len() ==> !same_path((#[trigger] disks[k]).path@, path),
        },
    decreases disks.len() - i,
{
    if i < disks.len() && !same_path(disks[i].path@, path) {
        first_disk(disks, path, i + 1);
        if disk_from(disks, path, i) is Some {
            let found = disk_from(disks, path, i)->0;
            let k = choose|k: int|
                i + 1 <= k < disks.len() && same_path((#[trigger] disks[k]).path@, path) && found
                    == (disks[k].started, disks[k].free_bytes) && forall|j: int|
                    i + 1 <= j < k ==> !same_path((#[trigger] disks[j]).path@, path);
            assert(same_path(disks[k].path@, path));
        }
    }
}

/// A disk's sample is the first of its path: when it was taken, and what was free.
pub proof fn disks_are_sampled_by_path(disks: Seq<DiskSample>, path: Seq<char>)
    ensures
        disk_from(disks, path, 0) is None <==> forall|k: int|
            0 <= k < disks.len() ==> !same_path((#[trigger] disks[k]).path@, path),
        disk_from(disks, path, 0) matches Some(found) ==> exists|k: int|
            0 <= k < disks.len() && same_path((#[trigger] disks[k]).path@, path) && found.0
                == disks[k].started && found.1 == disks[k].free_bytes,
{
    first_disk(disks, path, 0);
}

proof fn first_check(idle: Seq<IdleCheck>, server: IdleLlamaServer, i: int)
    requires
        0 <= i <= idle.len(),
    ensures
        match idle_from(idle, server, i) {
            Some(found) => found.pid == server.pid && found.port == server.port && idle.contains(
                found,
            ),
            None => forall|k: int|
                i <= k < idle.len() ==> !((#[trigger] idle[k]).pid == server.pid && idle[k].port
                    == server.port),
        },
    decreases idle.len() - i,
{
    if i < idle.len() && !(idle[i].pid == server.pid && idle[i].port == server.port) {
        first_check(idle, server, i + 1);
    }
}

/// A server's check is of its process and its port; the next server to ask is the
/// first that has none.
pub proof fn checks_are_of_their_server(
    idle: Seq<IdleCheck>,
    servers: Seq<IdleLlamaServer>,
    i: int,
)
    requires
        0 <= i <= servers.len(),
    ensures
        match unsampled_from(idle, servers, i) {
            Some(server) => servers.contains(server) && forall|k: int|
                0 <= k < idle.len() ==> !((#[trigger] idle[k]).pid == server.pid && idle[k].port
                    == server.port),
            None => forall|j: int|
                i <= j < servers.len() ==> idle_from(idle, #[trigger] servers[j], 0) is Some,
        },
    decreases servers.len() - i,
{
    if i < servers.len() {
        first_check(idle, servers[i], 0);
        if idle_from(idle, servers[i], 0) is Some {
            checks_are_of_their_server(idle, servers, i + 1);
        }
    }
}

/// An activity has a check of each server, in the order of the servers.
pub proof fn every_server_has_its_check(
    idle: Seq<IdleCheck>,
    servers: Seq<IdleLlamaServer>,
    n: int,
    i: int,
)
    requires
        0 <= i < n <= servers.len(),
        unsampled_from(idle, servers, 0) is None,
    ensures
        checks_of(idle, servers, n).len() == n,
        checks_of(idle, servers, n)[i].pid == servers[i].pid,
        checks_of(idle, servers, n)[i].port == servers[i].port,
        idle.contains(checks_of(idle, servers, n)[i]),
    decreases n,
{
    checks_are_of_their_server(idle, servers, 0);
    if n > 1 && i < n - 1 {
        every_server_has_its_check(idle, servers, n - 1, i);
    } else if n > 1 {
        every_server_has_its_check(idle, servers, n - 1, 0);
    }
    assert(checks_of(idle, servers, 0).len() == 0);
    assert(idle_from(idle, servers[n - 1], 0) is Some);
    first_check(idle, servers[n - 1], 0);
}

/// The oldest sample is one of those taken, and none was taken before it.
pub proof fn the_oldest_sample_is_a_sample(started: u64, checks: Seq<IdleCheck>)
    ensures
        oldest_of(started, checks) <= started,
        forall|i: int|
            0 <= i < checks.len() ==> oldest_of(started, checks) <= (#[trigger] checks[i]).started,
        oldest_of(started, checks) == started || exists|i: int|
            0 <= i < checks.len() && (#[trigger] checks[i]).started == oldest_of(started, checks),
    decreases checks.len(),
{
    if checks.len() > 0 {
        let rest = checks.drop_last();
        the_oldest_sample_is_a_sample(started, rest);
        assert forall|i: int| 0 <= i < checks.len() implies oldest_of(started, checks) <= (
        #[trigger] checks[i]).started by {
            if i < rest.len() {
                assert(rest[i] == checks[i]);
            }
        }
        if oldest_of(started, checks) != started {
            if checks.last().started < oldest_of(started, rest) {
                assert(checks[checks.len() - 1].started == oldest_of(started, checks));
            } else {
                let i = choose|i: int|
                    0 <= i < rest.len() && (#[trigger] rest[i]).started == oldest_of(started, rest);
                assert(checks[i].started == oldest_of(started, checks));
            }
        }
    }
}

/// A process found at work is excused only by an idle check of the same process; the
/// others stay.
pub proof fn only_idle_servers_are_excused(
    found: Seq<(u32, Seq<char>)>,
    checks: Seq<IdleCheck>,
    i: int,
    x: (u32, Seq<char>),
)
    requires
        0 <= i <= found.len(),
    ensures
        unexcused_from(found, checks, i).contains(x) <==> (exists|k: int|
            i <= k < found.len() && #[trigger] found[k] == x) && !exists|j: int|
            0 <= j < checks.len() && (#[trigger] checks[j]).idle && checks[j].pid == x.0,
    decreases found.len() - i,
{
    if i < found.len() {
        only_idle_servers_are_excused(found, checks, i + 1, x);
        let rest = unexcused_from(found, checks, i + 1);
        let all = unexcused_from(found, checks, i);
        if !excused(checks, found[i].0) {
            assert(all[0] == found[i]);
            if rest.contains(x) {
                let k = choose|k: int| 0 <= k < rest.len() && rest[k] == x;
                assert(all[k + 1] == x);
            }
            if all.contains(x) && x != found[i] {
                let k = choose|k: int| 0 <= k < all.len() && all[k] == x;
                assert(rest[k - 1] == x);
            }
        }
        if (exists|k: int| i <= k < found.len() && #[trigger] found[k] == x) && x != found[i] {
            let k = choose|k: int| i <= k < found.len() && #[trigger] found[k] == x;
            assert(i + 1 <= k < found.len() && found[k] == x);
        }
    }
}

/// A trial may start where its controls allow it, its disk has room, nothing else is
/// at work, its servers are idle, and no sample is older than two and a half seconds.
pub proof fn readiness_takes_every_condition(
    observation: JsonModel,
    free_bytes: u64,
    c: Conditions,
    competing: nat,
    checks: Seq<IdleCheck>,
    began: u64,
    oldest: u64,
    now: u64,
)
    ensures
        ready(observation, free_bytes, c, competing, checks, began, oldest, now) <==> {
            &&& observation_allows(observation, c)
            &&& free_bytes >= c.minimum_free_bytes
            &&& competing == 0
            &&& forall|i: int| 0 <= i < checks.len() ==> (#[trigger] checks[i]).idle
            &&& began <= now <= began + 2_500_000_000
            &&& oldest <= now <= oldest + 2_500_000_000
        },
        age_of(began, now) is Some ==> began + age_of(began, now)->0 == now,
{
}

// ---------------------------------------------------------------------------
// Processes
// ---------------------------------------------------------------------------

proof fn spaces_skipped(s: Seq<char>, from: int)
    requires
        0 <= from <= s.len(),
    ensures
        from <= skip_spaces(s, from) <= s.len(),
        forall|i: int| from <= i < skip_spaces(s, from) ==> is_space(#[trigger] s[i]),
        skip_spaces(s, from) < s.len() ==> !is_space(s[skip_spaces(s, from)]),
    decreases s.len() - from,
{
    if from < s.len() && is_space(s[from]) {
        spaces_skipped(s, from + 1);
    }
}

proof fn space_found(s: Seq<char>, from: int)
    requires
        0 <= from <= s.len(),
    ensures
        from <= crate::queue::processes::space_from(s, from) <= s.len(),
        forall|i: int|
            from <= i < crate::queue::processes::space_from(s, from) ==> !is_space(#[trigger] s[i]),
        crate::queue::processes::space_from(s, from) < s.len() ==> is_space(
            s[crate::queue::processes::space_from(s, from)],
        ),
    decreases s.len() - from,
{
    if from < s.len() && !is_space(s[from]) {
        space_found(s, from + 1);
    }
}

/// A field runs up to the first white space; what follows it begins past that space.
/// The two and the space between them are the text.
pub proof fn fields_end_at_white_space(s: Seq<char>)
    ensures
        field_of(s) is None <==> forall|i: int| 0 <= i < s.len() ==> !is_space(#[trigger] s[i]),
        field_of(s) matches Some((field, rest)) ==> {
            &&& field.len() + rest.len() < s.len()
            &&& field == s.take(field.len() as int)
            &&& rest == s.skip(s.len() - rest.len())
            &&& forall|i: int| 0 <= i < field.len() ==> !is_space(#[trigger] field[i])
            &&& forall|i: int|
                field.len() <= i < s.len() - rest.len() ==> is_space(#[trigger] s[i])
            &&& rest.len() > 0 ==> !is_space(rest[0])
        },
{
    space_found(s, 0);
    let end = crate::queue::processes::space_from(s, 0);
    if end < s.len() {
        spaces_skipped(s, end);
        assert(s.subrange(skip_spaces(s, end), s.len() as int) =~= s.skip(skip_spaces(s, end)));
    }
}

/// A process is listed by its number, its parent's and its command, in that order,
/// and is named by the command's last component.
pub proof fn processes_are_what_their_line_lists(line: Seq<char>)
    requires
        process_of(line) is Ok,
    ensures
        field_of(trimmed(line)) is Some,
        ({
            let p = process_of(line)->Ok_0;
            let (pid, rest) = field_of(trimmed(line))->0;
            let (parent, command) = field_of(rest)->0;
            &&& numeral(pid, 0xffff_ffff) == Ok::<nat, crate::text::NumeralFault>(p.pid as nat)
            &&& field_of(rest) is Some
            &&& numeral(parent, 0xffff_ffff) == Ok::<nat, crate::text::NumeralFault>(
                p.parent as nat,
            )
            &&& crate::paths::file_name(trimmed(command)) == Some(p.name)
        }),
{
    let (pid, rest) = field_of(trimmed(line))->0;
    let (parent, command) = field_of(rest)->0;
    crate::text_laws::numerals_are_bounded(pid, 0xffff_ffff);
    crate::text_laws::numerals_are_bounded(parent, 0xffff_ffff);
}

/// Each line that is not blank lists one process, in the order of the lines.
pub proof fn processes_are_read_in_order(
    lines: Seq<Seq<char>>,
    i: int,
    read: Seq<ProcessModel>,
)
    requires
        0 <= i < lines.len(),
    ensures
        trimmed(lines[i]).len() == 0 ==> processes_from(lines, i, read) == processes_from(
            lines,
            i + 1,
            read,
        ),
        trimmed(lines[i]).len() > 0 && process_of(lines[i]) is Ok ==> processes_from(lines, i, read)
            == processes_from(lines, i + 1, read.push(process_of(lines[i])->Ok_0)),
        trimmed(lines[i]).len() > 0 && process_of(lines[i]) is Err ==> processes_from(
            lines,
            i,
            read,
        ) is Err,
        processes_from(lines, lines.len() as int, read) == Ok::<Seq<ProcessModel>, Seq<char>>(read),
{
}

/// The queue owns itself, its trial, and whatever descends from the trial, generation
/// by generation; without a trial it owns itself alone.
pub proof fn ownership_is_by_descent(
    processes: Seq<ProcessModel>,
    me: u32,
    trial: u32,
    i: int,
    j: int,
)
    requires
        0 <= i < processes.len(),
        0 <= j < processes.len(),
        processes[i].parent != me,
    ensures
        owned(processes, me, Some(trial), me),
        owned(processes, me, Some(trial), trial),
        processes[i].parent == trial ==> owned(processes, me, Some(trial), processes[i].pid),
        descendant(processes, me, trial, j) && processes[i].parent == processes[j].pid
            ==> descendant(processes, me, trial, i) && owned(
            processes,
            me,
            Some(trial),
            processes[i].pid,
        ),
        owned(processes, me, None, processes[i].pid) <==> processes[i].pid == me,
{
    if processes[i].parent == trial {
        assert(descends(processes, me, trial, seq![i]));
        assert(seq![i].last() == i);
        assert(descendant(processes, me, trial, i));
    }
    if descendant(processes, me, trial, j) && processes[i].parent == processes[j].pid {
        let chain = choose|chain: Seq<int>|
            #[trigger] descends(processes, me, trial, chain) && chain.last() == j;
        let longer = chain.push(i);
        assert(longer[longer.len() - 1] == i);
        assert(forall|k: int| 0 <= k < chain.len() ==> longer[k] == chain[k]);
        assert(descends(processes, me, trial, longer));
        assert(longer.last() == i);
        assert(descendant(processes, me, trial, i));
    }
}

/// What blocks a trial is exactly what runs under a name that must be quiet and is
/// not the queue's own.
pub proof fn blockers_are_listed_strangers(
    processes: Seq<ProcessModel>,
    names: Seq<String>,
    me: u32,
    trial: Option<u32>,
    i: int,
    x: (u32, Seq<char>),
)
    requires
        0 <= i <= processes.len(),
    ensures
        blocking_from(processes, names, me, trial, i).contains(x) <==> listed(names, x.1) && !owned(
            processes,
            me,
            trial,
            x.0,
        ) && exists|k: int|
            i <= k < processes.len() && (#[trigger] processes[k]).pid == x.0 && processes[k].name
                == x.1,
    decreases processes.len() - i,
{
    if i < processes.len() {
        blockers_are_listed_strangers(processes, names, me, trial, i + 1, x);
        let rest = blocking_from(processes, names, me, trial, i + 1);
        let all = blocking_from(processes, names, me, trial, i);
        let here = (processes[i].pid, processes[i].name);
        if !owned(processes, me, trial, processes[i].pid) && listed(names, processes[i].name) {
            assert(all[0] == here);
            if rest.contains(x) {
                let k = choose|k: int| 0 <= k < rest.len() && rest[k] == x;
                assert(all[k + 1] == x);
            }
            if all.contains(x) && x != here {
                let k = choose|k: int| 0 <= k < all.len() && all[k] == x;
                assert(rest[k - 1] == x);
            }
        }
        if x == here {
            assert(processes[i].pid == x.0 && processes[i].name == x.1);
        } else if exists|k: int|
            i <= k < processes.len() && (#[trigger] processes[k]).pid == x.0 && processes[k].name
                == x.1 {
            let k = choose|k: int|
                i <= k < processes.len() && (#[trigger] processes[k]).pid == x.0
                    && processes[k].name == x.1;
            assert(i + 1 <= k);
        }
    }
}

/// A server is present where a process of its number runs under the server's name.
pub proof fn servers_are_known_by_name(processes: Seq<ProcessModel>, i: int)
    requires
        0 <= i < processes.len(),
    ensures
        processes[i].name == "llama-server"@ ==> server_present(processes, processes[i].pid),
        server_present(processes, processes[i].pid) ==> exists|k: int|
            0 <= k < processes.len() && (#[trigger] processes[k]).pid == processes[i].pid
                && processes[k].name == "llama-server"@,
{
}

// ---------------------------------------------------------------------------
// Selection
// ---------------------------------------------------------------------------

/// A job waits from when it first did: joining again keeps its time, and another job
/// keeps its own.
pub proof fn jobs_wait_from_when_they_first_did(
    waiting: Seq<(Seq<char>, u64)>,
    id: Seq<char>,
    now: u64,
    other: Seq<char>,
)
    ensures
        waiting_since(joined_by(waiting, id, now), id, 0) == match waiting_since(waiting, id, 0) {
            Some(since) => Some(since),
            None => Some(now),
        },
        other != id ==> waiting_since(joined_by(waiting, id, now), other, 0) == waiting_since(
            waiting,
            other,
            0,
        ),
{
    if waiting_since(waiting, id, 0) is None {
        waits_in_the_longer(waiting, id, now, id, 0);
        waits_in_the_longer(waiting, id, now, other, 0);
    }
}

proof fn waits_in_the_longer(
    waiting: Seq<(Seq<char>, u64)>,
    id: Seq<char>,
    now: u64,
    other: Seq<char>,
    i: int,
)
    requires
        0 <= i <= waiting.len(),
    ensures
        waiting_since(waiting.push((id, now)), other, i) == match waiting_since(waiting, other, i) {
            Some(since) => Some(since),
            None => if other == id {
                Some(now)
            } else {
                None
            },
        },
    decreases waiting.len() - i,
{
    let longer = waiting.push((id, now));
    if i < waiting.len() {
        assert(longer[i] == waiting[i]);
        waits_in_the_longer(waiting, id, now, other, i + 1);
    } else {
        assert(longer[i] == (id, now));
        assert(waiting_since(longer, other, i + 1) is None);
    }
}

/// Jobs are looked at in order. One whose dependencies are not met is passed over and
/// noted so, without waiting; one that waits for longer than it may ends the selection;
/// the first whose conditions hold is selected.
pub proof fn the_first_ready_job_is_selected(
    jobs: Seq<Job>,
    samples: Seq<Sample>,
    i: int,
    waiting: Seq<(Seq<char>, u64)>,
    pending: Seq<PendingModel>,
)
    requires
        0 <= i < jobs.len() <= samples.len(),
        jobs.len() <= usize::MAX,
    ensures
        ({
            let r = selection_from(jobs, samples, i, waiting, pending);
            let id = jobs[i].id@;
            let entered = joined_by(waiting, id, samples[i].now);
            let since = waiting_since(entered, id, 0);
            &&& samples[i].dependencies is Err ==> r is Err
            &&& samples[i].dependencies == Ok::<bool, String>(false) ==> r == selection_from(
                jobs,
                samples,
                i + 1,
                waiting,
                pending.push((PendingModel::Dependencies { id })),
            )
            &&& samples[i].dependencies == Ok::<bool, String>(true) ==> {
                &&& since is Some
                &&& samples[i].now > since->0 + jobs[i].max_wait_seconds * 1_000_000_000 ==> r is Err
                &&& samples[i].now <= since->0 + jobs[i].max_wait_seconds * 1_000_000_000 && samples[
                i].conditions is Err ==> r is Err
                &&& samples[i].now <= since->0 + jobs[i].max_wait_seconds * 1_000_000_000 && samples[
                i].conditions == Ok::<bool, String>(true) ==> {
                    &&& r is Ok
                    &&& r->Ok_0.selected == Some(i as usize)
                    &&& r->Ok_0.waiting == entered
                    &&& r->Ok_0.pending.len() == pending.len() + 1
                    &&& r->Ok_0.pending.last() matches PendingModel::Conditions { id: named, .. }
                        && named == id
                }
                &&& samples[i].now <= since->0 + jobs[i].max_wait_seconds * 1_000_000_000 && samples[
                i].conditions == Ok::<bool, String>(false) ==> {
                    let noted = (PendingModel::Conditions {
                        id,
                        wait_seconds: (lasted(since->0, samples[i].observed) / 1_000_000_000) as u64,
                    });
                    r == selection_from(jobs, samples, i + 1, entered, pending.push(noted))
                }
            }
        }),
        selection_from(jobs, samples, jobs.len() as int, waiting, pending) is Ok,
        selection_from(jobs, samples, jobs.len() as int, waiting, pending)->Ok_0.selected is None,
{
    jobs_wait_from_when_they_first_did(waiting, jobs[i].id@, samples[i].now, jobs[i].id@);
}

// ---------------------------------------------------------------------------
// Trials
// ---------------------------------------------------------------------------

/// A time exceeds a limit where its nanoseconds do; a limit reached exactly does not.
pub proof fn limits_are_exceeded_by_the_nanosecond(elapsed: Elapsed, limit: u64)
    requires
        elapsed.nanos < 1_000_000_000,
    ensures
        exceeds(elapsed, limit) <==> elapsed.seconds * 1_000_000_000 + elapsed.nanos > limit
            * 1_000_000_000,
{
}

/// A trial is launched only where its probe is ready, nothing stopped it and its time
/// has not run out; a stop is no error, and running out of time is.
pub proof fn launches_pass_both_checks(
    id: Seq<char>,
    probe: Result<bool, Seq<char>>,
    stopped: bool,
    elapsed: Elapsed,
    max_wait: u64,
)
    ensures
        before_probe(id, elapsed, max_wait, stopped) is Err <==> exceeds(elapsed, max_wait),
        before_probe(id, elapsed, max_wait, stopped) == Ok::<bool, Seq<char>>(true) <==> !exceeds(
            elapsed,
            max_wait,
        ) && !stopped,
        after_probe(id, probe, stopped, elapsed, max_wait) == Ok::<bool, Seq<char>>(true) <==> probe
            == Ok::<bool, Seq<char>>(true) && !stopped && !exceeds(elapsed, max_wait),
        after_probe(id, probe, stopped, elapsed, max_wait) is Err <==> probe is Err || (!stopped
            && exceeds(elapsed, max_wait)),
        probe is Err ==> after_probe(id, probe, stopped, elapsed, max_wait) == probe,
{
}

/// The place of the output is written in where it is named, and nowhere else: text
/// before its name is kept as it is, and what follows is read on.
pub proof fn outputs_are_written_where_named(a: Seq<char>, b: Seq<char>, output: Seq<char>)
    requires
        forall|i: int| 0 <= i < a.len() ==> #[trigger] a[i] != '{',
    ensures
        expanded(a, output) == a,
        expanded(a + "{output}"@ + b, output) == a + output + expanded(b, output),
{
    reveal_strlit("{output}");
    let p = "{output}"@;
    assert(p.len() == 8 && p[0] == '{');
    unchanged_before(a, Seq::empty(), output, 0);
    assert(a + Seq::<char>::empty() =~= a);
    assert(replaced_from(a, p, output, a.len() as int) =~= Seq::<char>::empty());
    assert(a.skip(0) =~= a);
    assert(a + Seq::<char>::empty() =~= a);
    let s = a + p + b;
    assert(s =~= a + (p + b));
    unchanged_before(a, p + b, output, 0);
    assert(s.subrange(a.len() as int, a.len() as int + 8) =~= p);
    assert(continues_with(s, p, a.len() as int));
    read_on(a + p, b, output, 0);
    assert((a + p).len() == a.len() + 8);
    assert(s =~= (a + p) + b);
    assert(a.skip(0) + (output + expanded(b, output)) =~= a + output + expanded(b, output));
}

proof fn unchanged_before(a: Seq<char>, rest: Seq<char>, output: Seq<char>, i: int)
    requires
        0 <= i <= a.len(),
        forall|k: int| 0 <= k < a.len() ==> #[trigger] a[k] != '{',
        "{output}"@.len() == 8,
        "{output}"@[0] == '{',
    ensures
        replaced_from(a + rest, "{output}"@, output, i) == a.skip(i) + replaced_from(
            a + rest,
            "{output}"@,
            output,
            a.len() as int,
        ),
    decreases a.len() - i,
{
    let s = a + rest;
    let p = "{output}"@;
    if i < a.len() {
        unchanged_before(a, rest, output, i + 1);
        assert(s[i] == a[i]);
        if continues_with(s, p, i) {
            assert(s.subrange(i, i + p.len())[0] == s[i]);
        }
        assert(seq![s[i]] + a.skip(i + 1) =~= a.skip(i));
        assert(seq![s[i]] + (a.skip(i + 1) + replaced_from(s, p, output, a.len() as int))
            =~= a.skip(i) + replaced_from(s, p, output, a.len() as int));
    } else {
        assert(a.skip(i) =~= Seq::<char>::empty());
        assert(a.skip(i) + replaced_from(s, p, output, i) =~= replaced_from(s, p, output, i));
    }
}

proof fn read_on(before: Seq<char>, b: Seq<char>, output: Seq<char>, i: int)
    requires
        0 <= i <= b.len(),
        "{output}"@.len() == 8,
    ensures
        replaced_from(before + b, "{output}"@, output, before.len() + i) == replaced_from(
            b,
            "{output}"@,
            output,
            i,
        ),
    decreases b.len() - i,
{
    let s = before + b;
    let p = "{output}"@;
    let at = before.len() + i;
    if i < b.len() {
        assert(s[at] == b[i]);
        if i + 8 <= b.len() {
            assert(s.subrange(at, at + 8) =~= b.subrange(i, i + 8));
        }
        assert(continues_with(s, p, at) <==> continues_with(b, p, i));
        if continues_with(b, p, i) {
            read_on(before, b, output, i + 8);
        } else {
            read_on(before, b, output, i + 1);
        }
    }
}

/// A command gets the arguments and the environment of its job, in the job's order and
/// with the output's place written in; the environment begins with a fixed search path
/// and language, and holds nothing else.
pub proof fn commands_get_what_their_job_says(call: Invocation, output: Seq<char>, i: int)
    ensures
        arguments_of(call, output).len() == call.args@.len(),
        0 <= i < call.args@.len() ==> arguments_of(call, output)[i] == expanded(
            call.args@[i]@,
            output,
        ),
        environment_of(call, output).len() == call.env@.len() + 2,
        environment_of(call, output)[0] == ("PATH"@, "/usr/bin:/bin:/usr/sbin:/sbin"@),
        environment_of(call, output)[1] == ("LANG"@, "C"@),
        0 <= i < call.env@.len() ==> environment_of(call, output)[i + 2].0 == call.env@[i].0@
            && environment_of(call, output)[i + 2].1 == expanded(call.env@[i].1@, output),
{
}

/// A watch notes each sample that is not ready, up to its limit, and no other; once it
/// is overdue it stays so.
pub proof fn watches_note_what_they_see(w: Watch, ready: Option<bool>, elapsed: Elapsed, limit: u64)
    ensures
        ready == Some(true) ==> w.after(ready) == w,
        ready != Some(true) && w.violations < 32 ==> w.after(ready).violations == w.violations + 1,
        w.violations >= 32 ==> w.after(ready) == w,
        w.after(ready).overdue == w.overdue,
        w.timed(elapsed, limit).violations == w.violations,
        w.timed(elapsed, limit).overdue <==> w.overdue || exceeds(elapsed, limit),
{
}

/// A phase that pins the nominal thermal state must be eligible itself; one that pins
/// another rests on its own sampling; one that pins none may rest on either.
pub proof fn phases_are_held_to_their_pin(phase: JsonModel, c: Conditions, fair: bool)
    ensures
        c.thermal_state == Some(0u64) ==> (phase_allows(phase, c, fair) <==> bool_at(
            phase,
            "sampled_controls_eligible"@,
        ) == Some(true)),
        c.thermal_state is None ==> (phase_allows(phase, c, fair) <==> fair || bool_at(
            phase,
            "sampled_controls_eligible"@,
        ) == Some(true)),
        c.thermal_state is Some && c.thermal_state != Some(0u64) ==> (phase_allows(phase, c, fair)
            <==> fair),
{
}

/// A trial that did not exit well, ran over its time or changed a pinned file fails,
/// whatever it was for and whatever validated it; a timing taken under other conditions
/// than its own is rejected, and only a timing is.
pub proof fn endings_decide_the_status(e: Ending, validated: Option<bool>)
    ensures
        !e.exit_success || e.watch.overdue || !e.files_unchanged ==> status_of(e, validated)
            is Failed,
        e.exit_success && !e.watch.overdue && e.files_unchanged ==> {
            let eligible = e.watch.violations == 0 && e.phase_eligible;
            &&& e.purpose is Timing && !eligible ==> status_of(e, validated) is Rejected
            &&& (eligible || !(e.purpose is Timing)) && validated != Some(false) ==> status_of(
                e,
                validated,
            ) is Succeeded
            &&& (eligible || !(e.purpose is Timing)) && validated == Some(false) ==> status_of(
                e,
                validated,
            ) is Failed
        },
{
}

// ---------------------------------------------------------------------------
// Before the launch
// ---------------------------------------------------------------------------

/// Pins are verified only after a ready sample, readiness is sampled again for as long
/// as the verifier works, and what is decided is what was last observed or what the
/// verifier reported.
pub proof fn prelaunch_decides_by_what_it_saw(stage: StageModel, reply: ReplyModel)
    requires
        expects(stage, reply),
    ensures
        ({
            let (next, call) = resumed(stage, reply);
            let yes = Ok::<bool, Seq<char>>(true);
            &&& call is StartVerifier <==> stage is First && reply->observation == yes
            &&& stage is Starting ==> call is WaitForVerifier && next is Waiting
            &&& stage is Waiting && reply->completed ==> call is JoinVerifier && next == (
            StageModel::Joining { observation: yes })
            &&& stage is Waiting && !reply->completed ==> call is Observe && next is Polling
            &&& stage is Polling && reply->observation == yes ==> call is WaitForVerifier && next
                is Waiting
            &&& stage is Polling && reply->observation != yes ==> call is JoinVerifier && next == (
            StageModel::Joining { observation: reply->observation })
            &&& (stage is First && reply->observation != yes) || stage is Last ==> call == (
            CallModel::Decide { outcome: reply->observation })
            &&& stage is Joining && reply is Panicked ==> call is Decide
                && call->Decide_outcome is Err
            &&& stage is Joining && reply is Joined ==> match reply->outcome {
                Err(message) => call == (CallModel::Decide {
                    outcome: Err::<bool, Seq<char>>(message),
                }),
                Ok(_) => if stage->observation == yes {
                    call is Observe && next is Last
                } else {
                    call == (CallModel::Decide { outcome: stage->observation })
                },
            }
            &&& call is Decide <==> next is Decided
        }),
{
}

} // verus!
