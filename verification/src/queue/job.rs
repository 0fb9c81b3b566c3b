//! Jobs: what a manifest holds, what makes it acceptable, and how its files are
//! pinned.
use crate::hash::{sha256_hex, sha256_text};
use crate::paths::{is_absolute, path_is_absolute, paths_equal, same_path};
use crate::text::{
    cat2, cat3, chars_of, digest_shaped, is_digest, is_digit, lower_text, lowered, same, told,
};
use vstd::prelude::*;

verus! {

/// A file and its digest.
#[derive(Debug)]
pub struct Pin {
    pub path: String,
    pub sha256: String,
}

/// A program to run, with the variables that it gets.
#[derive(Debug)]
pub struct Invocation {
    pub executable: Pin,
    pub cwd: String,
    pub args: Vec<String>,
    pub env: Vec<(String, String)>,
}

/// A server that may run beside a job while it is idle.
#[derive(Clone, Copy, Debug, PartialEq, Eq, Structural)]
pub struct IdleLlamaServer {
    pub pid: u32,
    pub port: u16,
}

/// The conditions under which a job may run.
#[derive(Debug)]
pub struct Conditions {
    pub power_source: String,
    pub low_power_mode: Option<bool>,
    pub pmset_power_mode: Option<u64>,
    pub thermal_state: Option<u64>,
    pub minimum_free_bytes: u64,
    pub disk_path: String,
    pub quiet_process_names: Vec<String>,
    pub observe_process_names: Vec<String>,
    pub idle_llama_servers: Vec<IdleLlamaServer>,
}

/// What a job is run for.
#[derive(Clone, Copy, Debug, PartialEq, Eq, Structural)]
pub enum Purpose {
    Timing,
    ExploratoryTiming,
    Correctness,
    Preparation,
}

/// A job.
#[derive(Debug)]
pub struct Job {
    pub schema: String,
    pub id: String,
    pub purpose: Purpose,
    pub command: Invocation,
    pub validator: Option<Invocation>,
    pub inputs: Vec<Pin>,
    pub kernel_game_submission: Option<Pin>,
    pub after: Vec<String>,
    pub conditions: Conditions,
    pub stable_seconds: u64,
    pub max_wait_seconds: u64,
    pub max_run_seconds: u64,
}

/// Which of a job's directories exist.
#[derive(Clone, Copy, Debug, PartialEq, Eq, Structural)]
pub struct Directories {
    pub disk_path: bool,
    pub command_cwd: bool,
    pub validator_cwd: bool,
}

// ---------------------------------------------------------------------------
// Characters
// ---------------------------------------------------------------------------

pub open spec fn is_id_char(c: char) -> bool {
    is_digit(c) || ('a' <= c && c <= 'z') || ('A' <= c && c <= 'Z') || c == '-' || c == '_'
}

/// An identity: one to 96 letters, digits, hyphens and underscores.
pub open spec fn is_id(id: Seq<char>) -> bool {
    0 < id.len() <= 96 && forall|i: int| 0 <= i < id.len() ==> is_id_char(#[trigger] id[i])
}

pub fn valid_id(id: &str) -> (r: bool)
    ensures
        r == is_id(id@),
{
    let chars = chars_of(id);
    if chars.len() == 0 || chars.len() > 96 {
        return false;
    }
    let mut i: usize = 0;
    while i < chars.len()
        invariant
            i <= chars@.len(),
            chars@ == id@,
            forall|j: int| 0 <= j < i ==> is_id_char(#[trigger] id@[j]),
        decreases chars@.len() - i,
    {
        let c: char = chars[i];
        if !(('0' <= c && c <= '9') || ('a' <= c && c <= 'z') || ('A' <= c && c <= 'Z') || c == '-'
            || c == '_') {
            assert(!is_id_char(id@[i as int]));
            return false;
        }
        i = i + 1;
    }
    true
}

/// Whether a text holds a character.
pub open spec fn holds(s: Seq<char>, c: char) -> bool {
    s.contains(c)
}

fn holds_char(s: &str, c: char) -> (r: bool)
    ensures
        r == holds(s@, c),
{
    let chars = chars_of(s);
    let mut i: usize = 0;
    while i < chars.len()
        invariant
            i <= chars@.len(),
            chars@ == s@,
            forall|j: int| 0 <= j < i ==> s@[j] != c,
        decreases chars@.len() - i,
    {
        if chars[i] == c {
            assert(s@[i as int] == c);
            return true;
        }
        i = i + 1;
    }
    false
}

fn is_empty_text(s: &str) -> (r: bool)
    ensures
        r == (s@.len() == 0),
{
    let chars = chars_of(s);
    chars.len() == 0
}

// ---------------------------------------------------------------------------
// Validation
// ---------------------------------------------------------------------------

/// A process name: not empty, and no path.
pub open spec fn is_process_name(name: Seq<char>) -> bool {
    name.len() > 0 && !holds(name, '/')
}

pub open spec fn all_process_names(names: Seq<String>) -> bool {
    forall|i: int| 0 <= i < names.len() ==> is_process_name((#[trigger] names[i])@)
}

pub open spec fn all_servers(servers: Seq<IdleLlamaServer>) -> bool {
    forall|i: int|
        0 <= i < servers.len() ==> (#[trigger] servers[i]).pid != 0 && servers[i].port != 0
}

/// Whether the identity, the conditions and the durations of a job are
/// acceptable.
pub open spec fn bounded(job: Job, disk_is_dir: bool) -> bool {
    let c = job.conditions;
    &&& job.schema@ == "rvllm.experiment_job.v1"@
    &&& is_id(job.id@)
    &&& c.power_source@ == "ac"@ || c.power_source@ == "battery"@
    &&& c.pmset_power_mode is Some ==> c.pmset_power_mode->0 <= 2
    &&& c.thermal_state is Some ==> c.thermal_state->0 <= 3
    &&& is_absolute(c.disk_path@)
    &&& disk_is_dir
    &&& job.stable_seconds <= 600
    &&& job.max_wait_seconds <= 86400
    &&& 1 <= job.max_run_seconds <= 3600
    &&& all_process_names(c.quiet_process_names@)
    &&& all_process_names(c.observe_process_names@)
    &&& c.idle_llama_servers@.len() <= 4
    &&& all_servers(c.idle_llama_servers@)
}

/// Dependencies: identities of other jobs, each once.
pub open spec fn dependencies_sound(id: Seq<char>, after: Seq<String>) -> bool {
    &&& forall|i: int| 0 <= i < after.len() ==> is_id((#[trigger] after[i])@) && after[i]@ != id
    &&& forall|i: int, j: int|
        0 <= i < j < after.len() ==> (#[trigger] after[i])@ != (#[trigger] after[j])@
}

pub open spec fn variable_sound(variable: (String, String)) -> bool {
    variable.0@.len() > 0 && !holds(variable.0@, '=') && !holds(variable.0@, '\0') && !holds(
        variable.1@,
        '\0',
    )
}

/// Whether a program can be started: a directory to run in, and arguments and
/// variables that the system can pass.
pub open spec fn call_sound(call: Invocation, cwd_is_dir: bool) -> bool {
    &&& is_absolute(call.cwd@)
    &&& cwd_is_dir
    &&& forall|i: int| 0 <= i < call.env@.len() ==> variable_sound(#[trigger] call.env@[i])
    &&& forall|i: int| 0 <= i < call.args@.len() ==> !holds((#[trigger] call.args@[i])@, '\0')
}

pub open spec fn pin_shaped(pin: Pin) -> bool {
    is_absolute(pin.path@) && is_digest(pin.sha256@)
}

pub open spec fn call_outcome(call: Invocation, cwd_is_dir: bool) -> Result<(), Seq<char>> {
    if !call_sound(call, cwd_is_dir) {
        Err("invalid command directory, argument or environment"@)
    } else if !pin_shaped(call.executable) {
        Err("invalid executable pin"@)
    } else {
        Ok(())
    }
}

pub open spec fn all_pins_shaped(pins: Seq<Pin>) -> bool {
    forall|i: int| 0 <= i < pins.len() ==> pin_shaped(#[trigger] pins[i])
}

/// Whether a job is acceptable, and why not.
pub open spec fn job_outcome(job: Job, dirs: Directories) -> Result<(), Seq<char>> {
    if !bounded(job, dirs.disk_path) {
        Err("invalid job identity, conditions or bounded durations"@)
    } else if !dependencies_sound(job.id@, job.after@) {
        Err("invalid, repeated or self dependency"@)
    } else if call_outcome(job.command, dirs.command_cwd) is Err {
        call_outcome(job.command, dirs.command_cwd)
    } else if job.validator is Some && call_outcome(job.validator->0, dirs.validator_cwd) is Err {
        call_outcome(job.validator->0, dirs.validator_cwd)
    } else if !all_pins_shaped(job.inputs@) || (job.kernel_game_submission is Some && !pin_shaped(
        job.kernel_game_submission->0,
    )) {
        Err("invalid input pin"@)
    } else {
        Ok(())
    }
}

fn process_names_valid(names: &Vec<String>) -> (r: bool)
    ensures
        r == all_process_names(names@),
{
    let mut i: usize = 0;
    while i < names.len()
        invariant
            i <= names@.len(),
            forall|j: int| 0 <= j < i ==> is_process_name((#[trigger] names@[j])@),
        decreases names@.len() - i,
    {
        if is_empty_text(names[i].as_str()) || holds_char(names[i].as_str(), '/') {
            assert(!is_process_name(names@[i as int]@));
            return false;
        }
        i = i + 1;
    }
    true
}

fn servers_valid(servers: &Vec<IdleLlamaServer>) -> (r: bool)
    ensures
        r == all_servers(servers@),
{
    let mut i: usize = 0;
    while i < servers.len()
        invariant
            i <= servers@.len(),
            forall|j: int|
                0 <= j < i ==> (#[trigger] servers@[j]).pid != 0 && servers@[j].port != 0,
        decreases servers@.len() - i,
    {
        if servers[i].pid == 0 || servers[i].port == 0 {
            assert(servers@[i as int].pid == 0 || servers@[i as int].port == 0);
            return false;
        }
        i = i + 1;
    }
    true
}

fn dependencies_valid(id: &str, after: &Vec<String>) -> (r: bool)
    ensures
        r == dependencies_sound(id@, after@),
{
    let mut i: usize = 0;
    while i < after.len()
        invariant
            i <= after@.len(),
            forall|j: int| 0 <= j < i ==> is_id((#[trigger] after@[j])@) && after@[j]@ != id@,
            forall|j: int, k: int|
                0 <= j < k < i ==> (#[trigger] after@[j])@ != (#[trigger] after@[k])@,
        decreases after@.len() - i,
    {
        let item = after[i].as_str();
        if !valid_id(item) || same(item, id) {
            assert(!(is_id(after@[i as int]@) && after@[i as int]@ != id@));
            return false;
        }
        let mut j: usize = 0;
        while j < i
            invariant
                j <= i < after@.len(),
                item@ == after@[i as int]@,
                forall|k: int| 0 <= k < j ==> (#[trigger] after@[k])@ != item@,
            decreases i - j,
        {
            if same(after[j].as_str(), item) {
                assert(after@[j as int]@ == after@[i as int]@);
                return false;
            }
            j = j + 1;
        }
        i = i + 1;
    }
    true
}

fn variables_valid(env: &Vec<(String, String)>) -> (r: bool)
    ensures
        r == forall|i: int| 0 <= i < env@.len() ==> variable_sound(#[trigger] env@[i]),
{
    let mut i: usize = 0;
    while i < env.len()
        invariant
            i <= env@.len(),
            forall|j: int| 0 <= j < i ==> variable_sound(#[trigger] env@[j]),
        decreases env@.len() - i,
    {
        let key = env[i].0.as_str();
        let value = env[i].1.as_str();
        if is_empty_text(key) || holds_char(key, '=') || holds_char(key, '\0') || holds_char(
            value,
            '\0',
        ) {
            assert(!variable_sound(env@[i as int]));
            return false;
        }
        i = i + 1;
    }
    true
}

fn arguments_valid(args: &Vec<String>) -> (r: bool)
    ensures
        r == forall|i: int| 0 <= i < args@.len() ==> !holds((#[trigger] args@[i])@, '\0'),
{
    let mut i: usize = 0;
    while i < args.len()
        invariant
            i <= args@.len(),
            forall|j: int| 0 <= j < i ==> !holds((#[trigger] args@[j])@, '\0'),
        decreases args@.len() - i,
    {
        if holds_char(args[i].as_str(), '\0') {
            assert(holds(args@[i as int]@, '\0'));
            return false;
        }
        i = i + 1;
    }
    true
}

fn pin_is_shaped(pin: &Pin) -> (r: bool)
    ensures
        r == pin_shaped(*pin),
{
    path_is_absolute(pin.path.as_str()) && digest_shaped(pin.sha256.as_str())
}

fn pins_are_shaped(pins: &Vec<Pin>) -> (r: bool)
    ensures
        r == all_pins_shaped(pins@),
{
    let mut i: usize = 0;
    while i < pins.len()
        invariant
            i <= pins@.len(),
            forall|j: int| 0 <= j < i ==> pin_shaped(#[trigger] pins@[j]),
        decreases pins@.len() - i,
    {
        if !pin_is_shaped(&pins[i]) {
            assert(!pin_shaped(pins@[i as int]));
            return false;
        }
        i = i + 1;
    }
    true
}

fn check_call(call: &Invocation, cwd_is_dir: bool) -> (r: Result<(), String>)
    ensures
        told(r) == call_outcome(*call, cwd_is_dir),
{
    if !path_is_absolute(call.cwd.as_str()) || !cwd_is_dir || !variables_valid(&call.env)
        || !arguments_valid(&call.args) {
        return Err("invalid command directory, argument or environment".to_owned());
    }
    if !pin_is_shaped(&call.executable) {
        return Err("invalid executable pin".to_owned());
    }
    Ok(())
}

impl Job {
    fn is_bounded(&self, disk_is_dir: bool) -> (r: bool)
        ensures
            r == bounded(*self, disk_is_dir),
    {
        let c = &self.conditions;
        let mode = match c.pmset_power_mode {
            Some(mode) => mode <= 2,
            None => true,
        };
        let thermal = match c.thermal_state {
            Some(state) => state <= 3,
            None => true,
        };
        let source = same(c.power_source.as_str(), "ac") || same(c.power_source.as_str(), "battery");
        same(self.schema.as_str(), "rvllm.experiment_job.v1") && valid_id(self.id.as_str())
            && source && mode && thermal && path_is_absolute(c.disk_path.as_str()) && disk_is_dir
            && self.stable_seconds <= 600 && self.max_wait_seconds <= 86400 && 1
            <= self.max_run_seconds && self.max_run_seconds <= 3600 && process_names_valid(
            &c.quiet_process_names,
        ) && process_names_valid(&c.observe_process_names) && c.idle_llama_servers.len() <= 4
            && servers_valid(&c.idle_llama_servers)
    }

    /// Checks a job, given which of its directories exist.
    pub fn validate(&self, dirs: Directories) -> (r: Result<(), String>)
        ensures
            told(r) == job_outcome(*self, dirs),
    {
        if !self.is_bounded(dirs.disk_path) {
            return Err("invalid job identity, conditions or bounded durations".to_owned());
        }
        if !dependencies_valid(self.id.as_str(), &self.after) {
            return Err("invalid, repeated or self dependency".to_owned());
        }
        match check_call(&self.command, dirs.command_cwd) {
            Ok(_) => {},
            Err(message) => {
                return Err(message);
            },
        }
        if let Some(call) = &self.validator {
            match check_call(call, dirs.validator_cwd) {
                Ok(_) => {},
                Err(message) => {
                    return Err(message);
                },
            }
        }
        if !pins_are_shaped(&self.inputs) {
            return Err("invalid input pin".to_owned());
        }
        if let Some(pin) = &self.kernel_game_submission {
            if !pin_is_shaped(pin) {
                return Err("invalid input pin".to_owned());
            }
        }
        Ok(())
    }
}

// ---------------------------------------------------------------------------
// Pins
// ---------------------------------------------------------------------------

/// A pinned file as it was found: whether it is a file, and its bytes' digest.
#[derive(Debug)]
pub struct PinnedFile {
    pub is_file: bool,
    pub digest: Result<String, String>,
}

pub open spec fn digest_of(file: PinnedFile) -> Result<Seq<char>, Seq<char>> {
    match file.digest {
        Ok(hash) => Ok(hash@),
        Err(e) => Err(e@),
    }
}

/// The state of a file whose bytes were read.
pub fn read_file(bytes: &[u8]) -> (r: PinnedFile)
    ensures
        r.is_file,
        digest_of(r) == Ok::<Seq<char>, Seq<char>>(sha256_hex(bytes@)),
{
    PinnedFile { is_file: true, digest: Ok(sha256_text(bytes)) }
}

pub open spec fn pin_outcome(pin: Pin, file: PinnedFile) -> Result<(), Seq<char>> {
    if !file.is_file || !pin_shaped(pin) {
        Err("missing or changed pinned file: "@ + pin.path@)
    } else {
        match digest_of(file) {
            Err(message) => Err(message),
            Ok(hash) => if hash != lowered(pin.sha256@) {
                Err("missing or changed pinned file: "@ + pin.path@)
            } else {
                Ok(())
            },
        }
    }
}

/// Checks that a file is the one that was pinned.
pub fn verify_pin(pin: &Pin, file: &PinnedFile) -> (r: Result<(), String>)
    ensures
        told(r) == pin_outcome(*pin, *file),
{
    if !file.is_file || !pin_is_shaped(pin) {
        return Err(cat2("missing or changed pinned file: ", pin.path.as_str()));
    }
    match &file.digest {
        Err(message) => Err(message.as_str().to_owned()),
        Ok(hash) => {
            let wanted = lower_text(pin.sha256.as_str());
            if !same(hash.as_str(), wanted.as_str()) {
                return Err(cat2("missing or changed pinned file: ", pin.path.as_str()));
            }
            Ok(())
        },
    }
}

/// A pin that is verified names bytes of the pinned digest.
pub proof fn verified_pins_bind(pin: Pin, file: PinnedFile, bytes: Seq<u8>)
    requires
        pin_outcome(pin, file) is Ok,
        digest_of(file) == Ok::<Seq<char>, Seq<char>>(sha256_hex(bytes)),
    ensures
        sha256_hex(bytes) == lowered(pin.sha256@),
        is_absolute(pin.path@) && is_digest(pin.sha256@),
{
}

pub open spec fn presence_outcome(pin: Pin, is_file: bool) -> Result<(), Seq<char>> {
    if is_file {
        Ok(())
    } else {
        Err("missing pinned file: "@ + pin.path@)
    }
}

/// Checks only that a pinned file is there; its digest is not looked at.
pub fn pin_present(pin: &Pin, is_file: bool) -> (r: Result<(), String>)
    ensures
        told(r) == presence_outcome(*pin, is_file),
{
    if !is_file {
        return Err(cat2("missing pinned file: ", pin.path.as_str()));
    }
    Ok(())
}

/// The pins of a job's programs and inputs, in the order in which they are
/// checked.
pub open spec fn program_pins(job: Job) -> Seq<Pin> {
    seq![job.command.executable] + (match job.validator {
        Some(call) => seq![call.executable],
        None => Seq::empty(),
    }) + job.inputs@
}

/// All pins of a job.
pub open spec fn all_pins(job: Job) -> Seq<Pin> {
    program_pins(job) + (match job.kernel_game_submission {
        Some(pin) => seq![pin],
        None => Seq::empty(),
    })
}

/// The first fault of pinned files from `i` on.
pub open spec fn pins_from(pins: Seq<Pin>, files: Seq<PinnedFile>, i: int) -> Result<(), Seq<char>>
    decreases pins.len() - i,
{
    if i >= pins.len() || i >= files.len() {
        Ok(())
    } else if pin_outcome(pins[i], files[i]) is Err {
        pin_outcome(pins[i], files[i])
    } else {
        pins_from(pins, files, i + 1)
    }
}

pub open spec fn presence_from(pins: Seq<Pin>, present: Seq<bool>, i: int) -> Result<(), Seq<char>>
    decreases pins.len() - i,
{
    if i >= pins.len() || i >= present.len() {
        Ok(())
    } else if presence_outcome(pins[i], present[i]) is Err {
        presence_outcome(pins[i], present[i])
    } else {
        presence_from(pins, present, i + 1)
    }
}

impl Job {
    /// How many pins the job's programs and inputs have.
    pub fn program_pin_count(&self) -> (r: usize)
        requires
            self.inputs@.len() + 2 <= usize::MAX,
        ensures
            r == program_pins(*self).len(),
    {
        self.inputs.len() + (if self.validator.is_some() {
            2
        } else {
            1
        })
    }

    /// The pin at a place in the order in which they are checked.
    pub fn program_pin(&self, i: usize) -> (r: &Pin)
        requires
            i < program_pins(*self).len(),
        ensures
            *r == program_pins(*self)[i as int],
    {
        if i == 0 {
            return &self.command.executable;
        }
        match &self.validator {
            Some(call) => {
                if i == 1 {
                    &call.executable
                } else {
                    &self.inputs[i - 2]
                }
            },
            None => &self.inputs[i - 1],
        }
    }

    /// Checks the files of the job's programs and inputs, in order.
    pub fn verify_program_files(&self, files: &Vec<PinnedFile>) -> (r: Result<(), String>)
        requires
            self.inputs@.len() + 2 <= usize::MAX,
            files@.len() == program_pins(*self).len(),
        ensures
            told(r) == pins_from(program_pins(*self), files@, 0),
    {
        let ghost pins = program_pins(*self);
        let mut i: usize = 0;
        while i < files.len()
            invariant
                i <= files@.len(),
                pins == program_pins(*self),
                files@.len() == pins.len(),
                pins_from(pins, files@, 0) == pins_from(pins, files@, i as int),
            decreases files@.len() - i,
        {
            match verify_pin(self.program_pin(i), &files[i]) {
                Ok(_) => {},
                Err(message) => {
                    return Err(message);
                },
            }
            i = i + 1;
        }
        Ok(())
    }

    /// Checks that the job's files are there, in order.
    pub fn files_present(&self, present: &Vec<bool>) -> (r: Result<(), String>)
        requires
            self.inputs@.len() + 3 <= usize::MAX,
            present@.len() == all_pins(*self).len(),
        ensures
            told(r) == presence_from(all_pins(*self), present@, 0),
    {
        let ghost pins = all_pins(*self);
        let count: usize = self.program_pin_count();
        let mut i: usize = 0;
        while i < present.len()
            invariant
                i <= present@.len(),
                pins == all_pins(*self),
                count == program_pins(*self).len(),
                present@.len() == pins.len(),
                presence_from(pins, present@, 0) == presence_from(pins, present@, i as int),
            decreases present@.len() - i,
        {
            let outcome = if i < count {
                assert(pins[i as int] == program_pins(*self)[i as int]);
                pin_present(self.program_pin(i), present[i])
            } else {
                match &self.kernel_game_submission {
                    Some(pin) => {
                        assert(pins[i as int] == *pin);
                        pin_present(pin, present[i])
                    },
                    None => Ok(()),
                }
            };
            match outcome {
                Ok(_) => {},
                Err(message) => {
                    return Err(message);
                },
            }
            i = i + 1;
        }
        Ok(())
    }
}

proof fn no_fault_from(pins: Seq<Pin>, files: Seq<PinnedFile>, from: int, i: int)
    requires
        0 <= from <= i < pins.len(),
        files.len() == pins.len(),
        pins_from(pins, files, from) is Ok,
    ensures
        pin_outcome(pins[i], files[i]) is Ok,
    decreases i - from,
{
    if from < i {
        no_fault_from(pins, files, from + 1, i);
    }
}

/// Files that are accepted are all verified.
pub proof fn verified_files_all_bind(pins: Seq<Pin>, files: Seq<PinnedFile>, i: int)
    requires
        0 <= i < pins.len(),
        files.len() == pins.len(),
        pins_from(pins, files, 0) is Ok,
    ensures
        pin_outcome(pins[i], files[i]) is Ok,
{
    no_fault_from(pins, files, 0, i);
}

// ---------------------------------------------------------------------------
// Sealed submissions
// ---------------------------------------------------------------------------

/// What a sealed submission says of its candidate.
#[derive(Debug)]
pub struct Submission {
    pub candidate: String,
    pub executable: String,
    pub source_tree: String,
    pub generated_source: String,
    pub model: String,
    pub reference: String,
    pub workload: String,
    pub oracle: String,
    pub metallib: Option<String>,
}

/// Whether a flag with a path stands among the arguments.
pub open spec fn passes_path(args: Seq<String>, flag: Seq<char>, path: Seq<char>) -> bool {
    exists|i: int|
        0 <= i < args.len() - 1 && (#[trigger] args[i])@ == flag && same_path(args[i + 1]@, path)
}

pub open spec fn variable_is(env: Seq<(String, String)>, key: Seq<char>, value: Seq<char>) -> bool {
    exists|i: int|
        0 <= i < env.len() && (#[trigger] env[i]).0@ == key && env[i].1@ == value
}

/// Whether two digests are equal but for the case of their letters.
pub open spec fn same_digest(a: Seq<char>, b: Seq<char>) -> bool {
    lowered(a) == lowered(b)
}

/// The first input of a digest, from `i` on.
pub open spec fn input_with(inputs: Seq<Pin>, digest: Seq<char>, i: int) -> Option<int>
    decreases inputs.len() - i,
{
    if i >= inputs.len() {
        None
    } else if same_digest(inputs[i].sha256@, digest) {
        Some(i)
    } else {
        input_with(inputs, digest, i + 1)
    }
}

/// The digests that a submission needs among a job's inputs.
pub open spec fn required_digests(s: Submission) -> Seq<Seq<char>> {
    seq![
        s.source_tree@,
        s.generated_source@,
        s.model@,
        s.reference@,
        s.workload@,
        s.oracle@,
    ] + (match s.metallib {
        Some(digest) => seq![digest@],
        None => Seq::empty(),
    })
}

/// The first required digest that no input has, from `i` on.
pub open spec fn unpinned_from(required: Seq<Seq<char>>, inputs: Seq<Pin>, i: int) -> Result<
    (),
    Seq<char>,
>
    decreases required.len() - i,
{
    if i >= required.len() {
        Ok(())
    } else if input_with(inputs, required[i], 0) is None {
        Err("kernel-game required artifact "@ + required[i] + " is not a queued input pin"@)
    } else {
        unpinned_from(required, inputs, i + 1)
    }
}

/// Whether a job is bound to a sealed submission.
pub open spec fn submission_outcome(job: Job, pin: Pin, s: Submission) -> Result<(), Seq<char>> {
    if s.executable@ != lowered(job.command.executable.sha256@) {
        Err("kernel-game executable identity differs from queued executable"@)
    } else if !passes_path(job.command.args@, "--kernel-game-submission"@, pin.path@)
        || !variable_is(job.command.env@, "RVLLM_METAL_RESEARCH"@, s.candidate@) {
        Err("queued command is not bound to the sealed kernel-game candidate"@)
    } else if unpinned_from(required_digests(s), job.inputs@, 0) is Err {
        unpinned_from(required_digests(s), job.inputs@, 0)
    } else if !passes_path(
        job.command.args@,
        "--kernel-game-source-tree"@,
        job.inputs@[input_with(job.inputs@, s.source_tree@, 0)->0].path@,
    ) || !passes_path(
        job.command.args@,
        "--kernel-game-oracle"@,
        job.inputs@[input_with(job.inputs@, s.oracle@, 0)->0].path@,
    ) {
        Err("queued command omits its pinned source-tree or oracle binding"@)
    } else {
        Ok(())
    }
}

fn has_path_argument(args: &Vec<String>, flag: &str, path: &str) -> (r: bool)
    ensures
        r == passes_path(args@, flag@, path@),
{
    let mut i: usize = 0;
    while i < args.len() && i + 1 < args.len()
        invariant
            i <= args@.len(),
            forall|j: int|
                0 <= j < i && j < args@.len() - 1 ==> !((#[trigger] args@[j])@ == flag@ && same_path(
                    args@[j + 1]@,
                    path@,
                )),
        decreases args@.len() - i,
    {
        if same(args[i].as_str(), flag) && paths_equal(args[i + 1].as_str(), path) {
            assert(args@[i as int]@ == flag@);
            return true;
        }
        i = i + 1;
    }
    false
}

fn has_variable(env: &Vec<(String, String)>, key: &str, value: &str) -> (r: bool)
    ensures
        r == variable_is(env@, key@, value@),
{
    let mut i: usize = 0;
    while i < env.len()
        invariant
            i <= env@.len(),
            forall|j: int|
                0 <= j < i ==> !((#[trigger] env@[j]).0@ == key@ && env@[j].1@ == value@),
        decreases env@.len() - i,
    {
        if same(env[i].0.as_str(), key) && same(env[i].1.as_str(), value) {
            assert(env@[i as int].0@ == key@);
            return true;
        }
        i = i + 1;
    }
    false
}

fn find_input(inputs: &Vec<Pin>, digest: &str) -> (r: Option<usize>)
    ensures
        match r {
            Some(k) => k < inputs@.len() && input_with(inputs@, digest@, 0) == Some(k as int),
            None => input_with(inputs@, digest@, 0) is None,
        },
{
    let wanted = lower_text(digest);
    let mut i: usize = 0;
    while i < inputs.len()
        invariant
            i <= inputs@.len(),
            wanted@ == lowered(digest@),
            input_with(inputs@, digest@, 0) == input_with(inputs@, digest@, i as int),
        decreases inputs@.len() - i,
    {
        let own = lower_text(inputs[i].sha256.as_str());
        if same(own.as_str(), wanted.as_str()) {
            return Some(i);
        }
        i = i + 1;
    }
    None
}

fn require_input(inputs: &Vec<Pin>, digest: &str) -> (r: Result<(), String>)
    ensures
        told(r) == if input_with(inputs@, digest@, 0) is None {
            Err::<(), Seq<char>>(
                "kernel-game required artifact "@ + digest@ + " is not a queued input pin"@,
            )
        } else {
            Ok(())
        },
{
    match find_input(inputs, digest) {
        Some(_) => Ok(()),
        None => Err(
            cat3("kernel-game required artifact ", digest, " is not a queued input pin"),
        ),
    }
}

impl Job {
    fn require_inputs(&self, s: &Submission) -> (r: Result<(), String>)
        ensures
            told(r) == unpinned_from(required_digests(*s), self.inputs@, 0),
    {
        let ghost required = required_digests(*s);
        let mut needed: Vec<&str> = Vec::new();
        needed.push(s.source_tree.as_str());
        needed.push(s.generated_source.as_str());
        needed.push(s.model.as_str());
        needed.push(s.reference.as_str());
        needed.push(s.workload.as_str());
        needed.push(s.oracle.as_str());
        if let Some(metallib) = &s.metallib {
            needed.push(metallib.as_str());
        }
        assert(needed@.len() == required.len());
        assert(forall|k: int| 0 <= k < needed@.len() ==> (#[trigger] needed@[k])@ == required[k]);
        let mut i: usize = 0;
        while i < needed.len()
            invariant
                i <= needed@.len() == required.len(),
                required == required_digests(*s),
                forall|k: int| 0 <= k < needed@.len() ==> (#[trigger] needed@[k])@ == required[k],
                unpinned_from(required, self.inputs@, 0) == unpinned_from(
                    required,
                    self.inputs@,
                    i as int,
                ),
            decreases needed@.len() - i,
        {
            match require_input(&self.inputs, needed[i]) {
                Ok(_) => {},
                Err(message) => {
                    return Err(message);
                },
            }
            i = i + 1;
        }
        Ok(())
    }

    /// Checks that the job is bound to a sealed submission, which `pin` names.
    pub fn check_submission(&self, pin: &Pin, s: &Submission) -> (r: Result<(), String>)
        ensures
            told(r) == submission_outcome(*self, *pin, *s),
    {
        let own = lower_text(self.command.executable.sha256.as_str());
        if !same(s.executable.as_str(), own.as_str()) {
            return Err(
                "kernel-game executable identity differs from queued executable".to_owned(),
            );
        }
        if !has_path_argument(
            &self.command.args,
            "--kernel-game-submission",
            pin.path.as_str(),
        ) || !has_variable(&self.command.env, "RVLLM_METAL_RESEARCH", s.candidate.as_str()) {
            return Err(
                "queued command is not bound to the sealed kernel-game candidate".to_owned(),
            );
        }
        match self.require_inputs(s) {
            Ok(_) => {},
            Err(message) => {
                return Err(message);
            },
        }
        proof {
            required_inputs_exist(required_digests(*s), self.inputs@, 0, 0);
            required_inputs_exist(required_digests(*s), self.inputs@, 0, 5);
        }
        let tree = match find_input(&self.inputs, s.source_tree.as_str()) {
            Some(k) => k,
            None => {
                return Err("required source-tree pin disappeared".to_owned());
            },
        };
        let oracle = match find_input(&self.inputs, s.oracle.as_str()) {
            Some(k) => k,
            None => {
                return Err("required oracle pin disappeared".to_owned());
            },
        };
        if !has_path_argument(
            &self.command.args,
            "--kernel-game-source-tree",
            self.inputs[tree].path.as_str(),
        ) || !has_path_argument(
            &self.command.args,
            "--kernel-game-oracle",
            self.inputs[oracle].path.as_str(),
        ) {
            return Err(
                "queued command omits its pinned source-tree or oracle binding".to_owned(),
            );
        }
        Ok(())
    }
}

proof fn required_inputs_exist(required: Seq<Seq<char>>, inputs: Seq<Pin>, from: int, k: int)
    requires
        0 <= from <= k < required.len(),
        unpinned_from(required, inputs, from) is Ok,
    ensures
        input_with(inputs, required[k], 0) is Some,
    decreases k - from,
{
    if from < k {
        required_inputs_exist(required, inputs, from + 1, k);
    }
}

/// A submission as the host found it: the pinned file, and what it holds.
#[derive(Debug)]
pub struct SubmissionFile {
    pub file: PinnedFile,
    /// The parsed submission, or why the file is none.
    pub parsed: Result<Submission, String>,
    /// Why the submission is not valid in itself.
    pub fault: Option<String>,
}

pub open spec fn sealed_outcome(job: Job, found: Option<SubmissionFile>) -> Result<(), Seq<char>> {
    match (job.kernel_game_submission, found) {
        (Some(pin), Some(submission)) => if pin_outcome(pin, submission.file) is Err {
            pin_outcome(pin, submission.file)
        } else {
            match submission.parsed {
                Err(message) => Err("invalid kernel-game submission: "@ + message@),
                Ok(s) => match submission.fault {
                    Some(message) => Err(message@),
                    None => submission_outcome(job, pin, s),
                },
            }
        },
        (Some(pin), None) => Err("missing pinned file: "@ + pin.path@),
        (None, _) => Ok(()),
    }
}

pub open spec fn files_outcome(job: Job, files: Seq<PinnedFile>, found: Option<SubmissionFile>) -> Result<
    (),
    Seq<char>,
> {
    if pins_from(program_pins(job), files, 0) is Err {
        pins_from(program_pins(job), files, 0)
    } else {
        sealed_outcome(job, found)
    }
}

impl Job {
    /// Checks the sealed submission of a job that has one.
    pub fn verify_kernel_game_submission(&self, found: &Option<SubmissionFile>) -> (r: Result<
        (),
        String,
    >)
        ensures
            told(r) == sealed_outcome(*self, *found),
    {
        let pin = match &self.kernel_game_submission {
            Some(pin) => pin,
            None => {
                return Ok(());
            },
        };
        let submission = match found {
            Some(submission) => submission,
            None => {
                return Err(cat2("missing pinned file: ", pin.path.as_str()));
            },
        };
        match verify_pin(pin, &submission.file) {
            Ok(_) => {},
            Err(message) => {
                return Err(message);
            },
        }
        match &submission.parsed {
            Err(message) => Err(cat2("invalid kernel-game submission: ", message.as_str())),
            Ok(s) => match &submission.fault {
                Some(message) => Err(message.as_str().to_owned()),
                None => self.check_submission(pin, s),
            },
        }
    }

    /// Checks every file of a job: its programs, its inputs and its submission.
    pub fn verify_files(&self, files: &Vec<PinnedFile>, found: &Option<SubmissionFile>) -> (r:
        Result<(), String>)
        requires
            self.inputs@.len() + 2 <= usize::MAX,
            files@.len() == program_pins(*self).len(),
        ensures
            told(r) == files_outcome(*self, files@, *found),
    {
        match self.verify_program_files(files) {
            Ok(_) => self.verify_kernel_game_submission(found),
            Err(message) => Err(message),
        }
    }
}

} // verus!
