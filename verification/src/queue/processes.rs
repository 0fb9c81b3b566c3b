//! The processes of a host, and which of them compete with a trial.
use crate::paths::{file_name, path_file_name};
use crate::text::{
    chars_of, fault_text, is_space, is_space_char, lines, lines_of, listed, lists, numeral,
    parse_numeral, skip_spaces, text_between, texts, trim_text, trimmed,
};
use vstd::prelude::*;

verus! {

/// A process.
#[derive(Debug)]
pub struct Process {
    pub pid: u32,
    pub parent: u32,
    pub name: String,
}

pub struct ProcessModel {
    pub pid: u32,
    pub parent: u32,
    pub name: Seq<char>,
}

impl View for Process {
    type V = ProcessModel;

    open spec fn view(&self) -> ProcessModel {
        ProcessModel { pid: self.pid, parent: self.parent, name: self.name@ }
    }
}

pub open spec fn process_models(processes: Seq<Process>) -> Seq<ProcessModel> {
    Seq::new(processes.len(), |i: int| processes[i]@)
}

// ---------------------------------------------------------------------------
// The listing
// ---------------------------------------------------------------------------

/// The first index at or after `from` that holds white space, or the length.
pub open spec fn space_from(s: Seq<char>, from: int) -> int
    decreases s.len() - from,
{
    if from >= s.len() {
        s.len() as int
    } else if is_space(s[from]) {
        from
    } else {
        space_from(s, from + 1)
    }
}

fn find_space(s: &Vec<char>) -> (r: usize)
    ensures
        r == space_from(s@, 0),
        r <= s@.len(),
{
    let mut i: usize = 0;
    while i < s.len() && !is_space_char(s[i])
        invariant
            i <= s@.len(),
            space_from(s@, 0) == space_from(s@, i as int),
        decreases s@.len() - i,
    {
        i = i + 1;
    }
    i
}

/// A field up to the first white space, and the rest behind it; nothing where
/// no white space follows.
pub open spec fn field_of(s: Seq<char>) -> Option<(Seq<char>, Seq<char>)> {
    let end = space_from(s, 0);
    if end >= s.len() {
        None
    } else {
        let next = skip_spaces(s, end);
        Some((s.take(end), s.subrange(next, s.len() as int)))
    }
}

fn take_field(s: &str) -> (r: Option<(String, String)>)
    ensures
        match r {
            Some(fields) => field_of(s@) == Some((fields.0@, fields.1@)),
            None => field_of(s@) is None,
        },
{
    let chars = chars_of(s);
    let end: usize = find_space(&chars);
    if end >= chars.len() {
        return None;
    }
    let mut next: usize = end;
    while next < chars.len() && is_space_char(chars[next])
        invariant
            end <= next <= chars@.len(),
            chars@ == s@,
            skip_spaces(s@, end as int) == skip_spaces(s@, next as int),
        decreases chars@.len() - next,
    {
        next = next + 1;
    }
    let field = text_between(&chars, 0, end);
    let rest = text_between(&chars, next, chars.len());
    assert(field@ =~= s@.take(end as int));
    Some((field, rest))
}

/// The process of a line: its number, its parent's, and the last component of
/// its command's path.
pub open spec fn process_of(line: Seq<char>) -> Result<ProcessModel, Seq<char>> {
    match field_of(trimmed(line)) {
        None => Err("missing process parent"@),
        Some((pid, rest)) => match numeral(pid, u32::MAX as nat) {
            Err(fault) => Err(fault_text(fault)),
            Ok(pid) => match field_of(rest) {
                None => Err("missing process command"@),
                Some((parent, command)) => match numeral(parent, u32::MAX as nat) {
                    Err(fault) => Err(fault_text(fault)),
                    Ok(parent) => match file_name(trimmed(command)) {
                        None => Err("missing process name"@),
                        Some(name) => Ok(
                            ProcessModel { pid: pid as u32, parent: parent as u32, name },
                        ),
                    },
                },
            },
        },
    }
}

/// The processes of the lines from `i` on, after those already read. Blank lines
/// do not count.
pub open spec fn processes_from(lines: Seq<Seq<char>>, i: int, read: Seq<ProcessModel>) -> Result<
    Seq<ProcessModel>,
    Seq<char>,
>
    decreases lines.len() - i,
{
    if i >= lines.len() {
        Ok(read)
    } else if trimmed(lines[i]).len() == 0 {
        processes_from(lines, i + 1, read)
    } else {
        match process_of(lines[i]) {
            Ok(process) => processes_from(lines, i + 1, read.push(process)),
            Err(message) => Err(message),
        }
    }
}

pub open spec fn process_told(r: Result<Process, String>) -> Result<ProcessModel, Seq<char>> {
    match r {
        Ok(process) => Ok(process@),
        Err(e) => Err(e@),
    }
}

pub open spec fn processes_told(r: Result<Vec<Process>, String>) -> Result<
    Seq<ProcessModel>,
    Seq<char>,
> {
    match r {
        Ok(processes) => Ok(process_models(processes@)),
        Err(e) => Err(e@),
    }
}

fn parse_process(line: &str) -> (r: Result<Process, String>)
    ensures
        process_told(r) == process_of(line@),
{
    let text = trim_text(line);
    let (first, rest) = match take_field(text.as_str()) {
        Some(fields) => fields,
        None => {
            return Err("missing process parent".to_owned());
        },
    };
    let pid: u64 = match parse_numeral(first.as_str(), u32::MAX as u64) {
        Ok(pid) => pid,
        Err(fault) => {
            return Err(fault.text().to_owned());
        },
    };
    let (second, command) = match take_field(rest.as_str()) {
        Some(fields) => fields,
        None => {
            return Err("missing process command".to_owned());
        },
    };
    let parent: u64 = match parse_numeral(second.as_str(), u32::MAX as u64) {
        Ok(parent) => parent,
        Err(fault) => {
            return Err(fault.text().to_owned());
        },
    };
    let path = trim_text(command.as_str());
    match path_file_name(path.as_str()) {
        Some(name) => Ok(Process { pid: pid as u32, parent: parent as u32, name }),
        None => Err("missing process name".to_owned()),
    }
}

/// Reads a listing of processes: number, parent and command on each line.
pub fn parse_processes(text: &str) -> (r: Result<Vec<Process>, String>)
    ensures
        processes_told(r) == processes_from(lines(text@), 0, Seq::empty()),
{
    let all = lines_of(text);
    let ghost whole = texts(all@);
    let mut found: Vec<Process> = Vec::new();
    let mut i: usize = 0;
    assert(process_models(found@) =~= Seq::empty());
    while i < all.len()
        invariant
            i <= all@.len(),
            whole == texts(all@),
            whole == lines(text@),
            processes_from(whole, 0, Seq::empty()) == processes_from(
                whole,
                i as int,
                process_models(found@),
            ),
        decreases all@.len() - i,
    {
        let line = all[i].as_str();
        assert(whole[i as int] == line@);
        let text_chars = chars_of(trim_text(line).as_str());
        if text_chars.len() > 0 {
            match parse_process(line) {
                Ok(process) => {
                    let ghost before = found@;
                    found.push(process);
                    assert(process_models(found@) =~= process_models(before).push(process@));
                },
                Err(message) => {
                    return Err(message);
                },
            }
        }
        i = i + 1;
    }
    Ok(found)
}

// ---------------------------------------------------------------------------
// Ownership
// ---------------------------------------------------------------------------

/// Whether a chain of processes leads down from the trial: each one's parent is
/// the one before it, the first one's the trial, and none is a child of this
/// process.
pub open spec fn descends(processes: Seq<ProcessModel>, me: u32, trial: u32, chain: Seq<int>) -> bool {
    &&& chain.len() > 0
    &&& forall|k: int|
        0 <= k < chain.len() ==> 0 <= #[trigger] chain[k] < processes.len()
            && processes[chain[k]].parent != me
    &&& processes[chain[0]].parent == trial
    &&& forall|k: int|
        1 <= k < chain.len() ==> processes[#[trigger] chain[k]].parent
            == processes[chain[k - 1]].pid
}

/// Whether a process descends from the trial.
pub open spec fn descendant(processes: Seq<ProcessModel>, me: u32, trial: u32, i: int) -> bool {
    exists|chain: Seq<int>|
        #[trigger] descends(processes, me, trial, chain) && chain.last() == i
}

/// Whether a process number belongs to this process, the running trial or a
/// descendant of the trial. Other children of this process do not.
pub open spec fn owned(processes: Seq<ProcessModel>, me: u32, trial: Option<u32>, pid: u32) -> bool {
    ||| pid == me
    ||| trial == Some(pid)
    ||| trial is Some && exists|i: int|
        0 <= i < processes.len() && (#[trigger] processes[i]).pid == pid && descendant(
            processes,
            me,
            trial->0,
            i,
        )
}

pub open spec fn unmarked(mine: Seq<bool>) -> nat
    decreases mine.len(),
{
    if mine.len() == 0 {
        0
    } else {
        unmarked(mine.drop_last()) + (if mine.last() {
            0nat
        } else {
            1
        })
    }
}

pub proof fn marking_decreases(mine: Seq<bool>, i: int)
    requires
        0 <= i < mine.len(),
        !mine[i],
    ensures
        unmarked(mine.update(i, true)) + 1 == unmarked(mine),
    decreases mine.len(),
{
    let next = mine.update(i, true);
    if i == mine.len() - 1 {
        assert(next.drop_last() =~= mine.drop_last());
    } else {
        assert(next.drop_last() =~= mine.drop_last().update(i, true));
        marking_decreases(mine.drop_last(), i);
    }
}

/// Whether a parent is the trial or a marked process.
pub open spec fn parent_marked(
    processes: Seq<ProcessModel>,
    trial: u32,
    mine: Seq<bool>,
    parent: u32,
) -> bool {
    parent == trial || exists|j: int|
        0 <= j < processes.len() && mine[j] && (#[trigger] processes[j]).pid == parent
}

fn is_parent_marked(processes: &Vec<Process>, trial: u32, mine: &Vec<bool>, parent: u32) -> (r: bool)
    requires
        mine@.len() == processes@.len(),
    ensures
        r == parent_marked(process_models(processes@), trial, mine@, parent),
{
    if parent == trial {
        return true;
    }
    let ghost models = process_models(processes@);
    let mut j: usize = 0;
    while j < processes.len()
        invariant
            j <= processes@.len(),
            models == process_models(processes@),
            mine@.len() == processes@.len(),
            forall|k: int| 0 <= k < j ==> !(mine@[k] && (#[trigger] models[k]).pid == parent),
        decreases processes@.len() - j,
    {
        if mine[j] && processes[j].pid == parent {
            assert(models[j as int].pid == parent);
            return true;
        }
        j = j + 1;
    }
    false
}

pub open spec fn marks_sound(processes: Seq<ProcessModel>, me: u32, trial: u32, mine: Seq<bool>) -> bool {
    forall|i: int|
        0 <= i < mine.len() && #[trigger] mine[i] ==> descendant(processes, me, trial, i)
}

proof fn marked_child_descends(
    processes: Seq<ProcessModel>,
    me: u32,
    trial: u32,
    mine: Seq<bool>,
    i: int,
)
    requires
        mine.len() == processes.len(),
        marks_sound(processes, me, trial, mine),
        0 <= i < processes.len(),
        processes[i].parent != me,
        parent_marked(processes, trial, mine, processes[i].parent),
    ensures
        descendant(processes, me, trial, i),
{
    if processes[i].parent == trial {
        let chain = seq![i];
        assert(descends(processes, me, trial, chain));
        assert(chain.last() == i);
    } else {
        let j = choose|j: int|
            0 <= j < processes.len() && mine[j] && (#[trigger] processes[j]).pid
                == processes[i].parent;
        assert(mine[j]);
        let up = choose|chain: Seq<int>|
            #[trigger] descends(processes, me, trial, chain) && chain.last() == j;
        let chain = up.push(i);
        assert(descends(processes, me, trial, chain)) by {
            assert forall|k: int| 1 <= k < chain.len() implies processes[#[trigger] chain[k]].parent
                == processes[chain[k - 1]].pid by {
                if k < up.len() {
                    assert(chain[k] == up[k] && chain[k - 1] == up[k - 1]);
                }
            }
        }
        assert(chain.last() == i);
    }
}

/// Marks that no process can extend hold every descendant.
proof fn closed_marks_are_complete(
    processes: Seq<ProcessModel>,
    me: u32,
    trial: u32,
    mine: Seq<bool>,
    chain: Seq<int>,
)
    requires
        mine.len() == processes.len(),
        forall|i: int|
            0 <= i < processes.len() && processes[i].parent != me && parent_marked(
                processes,
                trial,
                mine,
                (#[trigger] processes[i]).parent,
            ) ==> mine[i],
        descends(processes, me, trial, chain),
    ensures
        mine[chain.last()],
    decreases chain.len(),
{
    let i = chain.last();
    assert(chain[chain.len() - 1] == i);
    if chain.len() > 1 {
        let up = chain.drop_last();
        assert(descends(processes, me, trial, up)) by {
            assert forall|k: int| 0 <= k < up.len() implies 0 <= #[trigger] up[k] < processes.len()
                && processes[up[k]].parent != me by {
                assert(up[k] == chain[k]);
            }
            assert forall|k: int| 1 <= k < up.len() implies processes[#[trigger] up[k]].parent
                == processes[up[k - 1]].pid by {
                assert(up[k] == chain[k] && up[k - 1] == chain[k - 1]);
            }
        }
        closed_marks_are_complete(processes, me, trial, mine, up);
        assert(up.last() == chain[chain.len() - 2]);
        assert(processes[chain[chain.len() - 1]].parent == processes[chain[chain.len() - 2]].pid);
        assert(processes[up.last()].pid == processes[i].parent);
    }
}

/// The descendants of the trial, as marks on the processes.
fn mark_descendants(processes: &Vec<Process>, me: u32, trial: u32) -> (mine: Vec<bool>)
    ensures
        mine@.len() == processes@.len(),
        forall|i: int|
            0 <= i < mine@.len() ==> #[trigger] mine@[i] == descendant(
                process_models(processes@),
                me,
                trial,
                i,
            ),
{
    let ghost models = process_models(processes@);
    let mut mine: Vec<bool> = Vec::new();
    while mine.len() < processes.len()
        invariant
            mine@.len() <= processes@.len(),
            forall|k: int| 0 <= k < mine@.len() ==> !(#[trigger] mine@[k]),
        decreases processes@.len() - mine@.len(),
    {
        mine.push(false);
    }
    let mut grew = true;
    while grew
        invariant
            models == process_models(processes@),
            mine@.len() == processes@.len(),
            marks_sound(models, me, trial, mine@),
            !grew ==> forall|i: int|
                0 <= i < models.len() && models[i].parent != me && parent_marked(
                    models,
                    trial,
                    mine@,
                    (#[trigger] models[i]).parent,
                ) ==> mine@[i],
        decreases
            unmarked(mine@),
            if grew {
                1nat
            } else {
                0
            },
    {
        grew = false;
        let ghost before = mine@;
        let mut i: usize = 0;
        while i < processes.len()
            invariant
                i <= processes@.len(),
                models == process_models(processes@),
                mine@.len() == processes@.len(),
                marks_sound(models, me, trial, mine@),
                grew ==> unmarked(mine@) < unmarked(before),
                !grew ==> mine@ == before,
                !grew ==> forall|k: int|
                    0 <= k < i && models[k].parent != me && parent_marked(
                        models,
                        trial,
                        mine@,
                        (#[trigger] models[k]).parent,
                    ) ==> mine@[k],
            decreases processes@.len() - i,
        {
            assert(models[i as int].parent == processes@[i as int].parent);
            if !mine[i] && processes[i].parent != me && is_parent_marked(
                processes,
                trial,
                &mine,
                processes[i].parent,
            ) {
                proof {
                    marked_child_descends(models, me, trial, mine@, i as int);
                    marking_decreases(mine@, i as int);
                }
                mine.set(i, true);
                grew = true;
            }
            i = i + 1;
        }
    }
    proof {
        assert forall|i: int| 0 <= i < mine@.len() implies #[trigger] mine@[i] == descendant(
            models,
            me,
            trial,
            i,
        ) by {
            if descendant(models, me, trial, i) {
                let chain = choose|chain: Seq<int>|
                    #[trigger] descends(models, me, trial, chain) && chain.last() == i;
                closed_marks_are_complete(models, me, trial, mine@, chain);
            }
        }
    }
    mine
}

// ---------------------------------------------------------------------------
// Competition
// ---------------------------------------------------------------------------

/// A process that was found by name.
#[derive(Debug)]
pub struct Sighting {
    pub pid: u32,
    pub name: String,
}

pub open spec fn sightings(found: Seq<Sighting>) -> Seq<(u32, Seq<char>)> {
    Seq::new(found.len(), |i: int| (found[i].pid, found[i].name@))
}

/// The processes from `i` on that bear one of the names and are not owned.
pub open spec fn blocking_from(
    processes: Seq<ProcessModel>,
    names: Seq<String>,
    me: u32,
    trial: Option<u32>,
    i: int,
) -> Seq<(u32, Seq<char>)>
    decreases processes.len() - i,
{
    if i >= processes.len() {
        Seq::empty()
    } else if !owned(processes, me, trial, processes[i].pid) && listed(names, processes[i].name) {
        seq![(processes[i].pid, processes[i].name)] + blocking_from(
            processes,
            names,
            me,
            trial,
            i + 1,
        )
    } else {
        blocking_from(processes, names, me, trial, i + 1)
    }
}

fn is_owned(processes: &Vec<Process>, me: u32, trial: Option<u32>, mine: &Vec<bool>, pid: u32) -> (r:
    bool)
    requires
        mine@.len() == processes@.len(),
        forall|i: int|
            0 <= i < mine@.len() ==> #[trigger] mine@[i] == (trial is Some && descendant(
                process_models(processes@),
                me,
                trial->0,
                i,
            )),
    ensures
        r == owned(process_models(processes@), me, trial, pid),
{
    let ghost models = process_models(processes@);
    if pid == me {
        return true;
    }
    match trial {
        None => {
            return false;
        },
        Some(child) => {
            if pid == child {
                return true;
            }
        },
    }
    let mut i: usize = 0;
    while i < processes.len()
        invariant
            i <= processes@.len(),
            models == process_models(processes@),
            mine@.len() == processes@.len(),
            trial is Some,
            forall|k: int|
                0 <= k < mine@.len() ==> #[trigger] mine@[k] == descendant(
                    models,
                    me,
                    trial->0,
                    k,
                ),
            forall|k: int|
                0 <= k < i ==> !(mine@[k] && (#[trigger] models[k]).pid == pid),
        decreases processes@.len() - i,
    {
        if mine[i] && processes[i].pid == pid {
            assert(models[i as int].pid == pid);
            assert(mine@[i as int]);
            return true;
        }
        i = i + 1;
    }
    proof {
        assert forall|k: int| 0 <= k < models.len() && (#[trigger] models[k]).pid == pid implies !descendant(
            models,
            me,
            trial->0,
            k,
        ) by {
            assert(!mine@[k]);
        }
    }
    false
}

/// The processes that bear one of the names, but for this process, its running
/// trial and the trial's descendants.
pub fn blockers(processes: &Vec<Process>, names: &Vec<String>, me: u32, trial: Option<u32>) -> (r: Vec<
    Sighting,
>)
    ensures
        sightings(r@) == blocking_from(process_models(processes@), names@, me, trial, 0),
{
    let ghost models = process_models(processes@);
    let mine: Vec<bool> = match trial {
        Some(child) => mark_descendants(processes, me, child),
        None => {
            let mut none: Vec<bool> = Vec::new();
            while none.len() < processes.len()
                invariant
                    none@.len() <= processes@.len(),
                    forall|k: int| 0 <= k < none@.len() ==> !(#[trigger] none@[k]),
                decreases processes@.len() - none@.len(),
            {
                none.push(false);
            }
            none
        },
    };
    let mut found: Vec<Sighting> = Vec::new();
    let mut i: usize = 0;
    assert(sightings(found@) + blocking_from(models, names@, me, trial, 0) =~= blocking_from(
        models,
        names@,
        me,
        trial,
        0,
    ));
    while i < processes.len()
        invariant
            i <= processes@.len(),
            models == process_models(processes@),
            mine@.len() == processes@.len(),
            forall|k: int|
                0 <= k < mine@.len() ==> #[trigger] mine@[k] == (trial is Some && descendant(
                    models,
                    me,
                    trial->0,
                    k,
                )),
            sightings(found@) + blocking_from(models, names@, me, trial, i as int)
                == blocking_from(models, names@, me, trial, 0),
        decreases processes@.len() - i,
    {
        assert(models[i as int] == processes@[i as int]@);
        let ghost rest = blocking_from(models, names@, me, trial, i + 1);
        if !is_owned(processes, me, trial, &mine, processes[i].pid) && lists(
            names,
            processes[i].name.as_str(),
        ) {
            let ghost before = found@;
            found.push(
                Sighting { pid: processes[i].pid, name: processes[i].name.as_str().to_owned() },
            );
            proof {
                let one = (models[i as int].pid, models[i as int].name);
                assert(sightings(found@) =~= sightings(before).push(one));
                assert(sightings(before) + (seq![one] + rest) =~= sightings(found@) + rest);
            }
        }
        i = i + 1;
    }
    assert(sightings(found@) + Seq::<(u32, Seq<char>)>::empty() =~= sightings(found@));
    found
}

/// Without a trial only this process is exempt; with one, an unrelated child of
/// this process still competes.
pub proof fn only_owned_processes_are_exempt(
    processes: Seq<ProcessModel>,
    me: u32,
    trial: Option<u32>,
    i: int,
)
    requires
        0 <= i < processes.len(),
        processes[i].pid != me,
        trial != Some(processes[i].pid),
        owned(processes, me, trial, processes[i].pid),
    ensures
        trial is Some,
        exists|k: int|
            0 <= k < processes.len() && (#[trigger] processes[k]).pid == processes[i].pid
                && processes[k].parent != me,
{
    let k = choose|k: int|
        0 <= k < processes.len() && (#[trigger] processes[k]).pid == processes[i].pid && descendant(
            processes,
            me,
            trial->0,
            k,
        );
    let chain = choose|chain: Seq<int>|
        #[trigger] descends(processes, me, trial->0, chain) && chain.last() == k;
    assert(chain[chain.len() - 1] == k);
    assert(processes[k].parent != me);
}

} // verus!
