//! The summary of one queued MLX benchmark: what was asked, under which
//! conditions it ran, and what is missing from its record.
use crate::json::{
    array_of, as_flag, as_text, at, at2, bool_at, bool_of, copy_value, elements, equal_values,
    integer_at, is_null, json_bytes_document, json_model, member, member2, member_flag,
    member_integer, member_text, models, opt_model, parse_bytes, parsed, same_document, text_at,
    text_of, JsonModel,
};
use crate::mlx::benchmark::{
    benchmark, parse_benchmark_stdout, ReportedAverages, Trial,
};
use crate::paths::{join_path, joined};
use crate::text::{
    after_prefix, cat2, cat4, cat6, decimal, decimal_text, fault_text, numeral, opt_text,
    parse_numeral, quoted, quoted_text, same, strip_prefix_text, texts,
};
use vstd::prelude::*;

verus! {

/// The summary of one job.
#[derive(Debug)]
pub struct JobSummary {
    pub id: String,
    pub directory: String,
    pub model: Option<String>,
    pub prompt_tokens: Option<u64>,
    pub generation_tokens: Option<u64>,
    pub requested_trials: Option<u64>,
    pub status: String,
    pub sampled_conditions_eligible: Option<bool>,
    pub sampled_controls_eligible: Option<bool>,
    pub comparison_stratum: Option<serde_json::Value>,
    pub observed_strata: Vec<serde_json::Value>,
    pub exit_code: Option<i64>,
    pub trials: Vec<Trial>,
    pub reported_averages: Option<ReportedAverages>,
    pub errors: Vec<String>,
}

pub struct JobModel {
    pub id: Seq<char>,
    pub directory: Seq<char>,
    pub model: Option<Seq<char>>,
    pub prompt_tokens: Option<u64>,
    pub generation_tokens: Option<u64>,
    pub requested_trials: Option<u64>,
    pub status: Seq<char>,
    pub sampled_conditions_eligible: Option<bool>,
    pub sampled_controls_eligible: Option<bool>,
    pub comparison_stratum: Option<JsonModel>,
    pub observed_strata: Seq<JsonModel>,
    pub exit_code: Option<i64>,
    pub trials: Seq<Trial>,
    pub reported_averages: Option<ReportedAverages>,
    pub errors: Seq<Seq<char>>,
}

impl View for JobSummary {
    type V = JobModel;

    open spec fn view(&self) -> JobModel {
        JobModel {
            id: self.id@,
            directory: self.directory@,
            model: opt_text(self.model),
            prompt_tokens: self.prompt_tokens,
            generation_tokens: self.generation_tokens,
            requested_trials: self.requested_trials,
            status: self.status@,
            sampled_conditions_eligible: self.sampled_conditions_eligible,
            sampled_controls_eligible: self.sampled_controls_eligible,
            comparison_stratum: match self.comparison_stratum {
                Some(value) => Some(json_model(value)),
                None => None,
            },
            observed_strata: models(self.observed_strata@),
            exit_code: self.exit_code,
            trials: self.trials@,
            reported_averages: self.reported_averages,
            errors: texts(self.errors@),
        }
    }
}

/// A job of which nothing is known yet.
pub open spec fn blank_job(id: Seq<char>, directory: Seq<char>) -> JobModel {
    JobModel {
        id,
        directory,
        model: None,
        prompt_tokens: None,
        generation_tokens: None,
        requested_trials: None,
        status: "incomplete"@,
        sampled_conditions_eligible: None,
        sampled_controls_eligible: None,
        comparison_stratum: None,
        observed_strata: Seq::empty(),
        exit_code: None,
        trials: Seq::empty(),
        reported_averages: None,
        errors: Seq::empty(),
    }
}

pub open spec fn with_error(m: JobModel, error: Seq<char>) -> JobModel {
    JobModel { errors: m.errors.push(error), ..m }
}

impl JobSummary {
    pub fn new(id: &str, directory: &str) -> (r: JobSummary)
        ensures
            r@ == blank_job(id@, directory@),
    {
        let r = JobSummary {
            id: id.to_owned(),
            directory: directory.to_owned(),
            model: None,
            prompt_tokens: None,
            generation_tokens: None,
            requested_trials: None,
            status: "incomplete".to_owned(),
            sampled_conditions_eligible: None,
            sampled_controls_eligible: None,
            comparison_stratum: None,
            observed_strata: Vec::new(),
            exit_code: None,
            trials: Vec::new(),
            reported_averages: None,
            errors: Vec::new(),
        };
        assert(r@.observed_strata =~= Seq::empty());
        assert(r@.errors =~= Seq::empty());
        r
    }

    fn fault(&mut self, error: String)
        ensures
            final(self)@ == with_error(old(self)@, error@),
    {
        let ghost before = self.errors@;
        let ghost text = error@;
        self.errors.push(error);
        assert(texts(self.errors@) =~= texts(before).push(text));
    }
}

// ---------------------------------------------------------------------------
// Arguments
// ---------------------------------------------------------------------------

/// What an argument gives a name: the text after `name=`, or the argument that
/// follows the name itself.
pub open spec fn argument_at(args: Seq<Seq<char>>, name: Seq<char>, i: int) -> Option<Seq<char>> {
    let joined_form = match after_prefix(args[i], name) {
        Some(rest) => after_prefix(rest, "="@),
        None => None,
    };
    match joined_form {
        Some(value) => Some(value),
        None => if args[i] == name && i + 1 < args.len() {
            Some(args[i + 1])
        } else {
            None
        },
    }
}

/// The first value that the arguments from `i` on give a name.
pub open spec fn first_argument(args: Seq<Seq<char>>, name: Seq<char>, i: int) -> Option<Seq<char>>
    decreases args.len() - i,
{
    if i >= args.len() {
        None
    } else {
        match argument_at(args, name, i) {
            Some(value) => Some(value),
            None => first_argument(args, name, i + 1),
        }
    }
}

pub fn argument(args: &Vec<String>, name: &str) -> (r: Option<String>)
    ensures
        opt_text(r) == first_argument(texts(args@), name@, 0),
{
    let ghost all = texts(args@);
    let mut i: usize = 0;
    while i < args.len()
        invariant
            i <= args@.len(),
            all == texts(args@),
            first_argument(all, name@, 0) == first_argument(all, name@, i as int),
        decreases args@.len() - i,
    {
        assert(all[i as int] == args@[i as int]@);
        match strip_prefix_text(args[i].as_str(), name) {
            Some(rest) => match strip_prefix_text(rest.as_str(), "=") {
                Some(value) => {
                    return Some(value);
                },
                None => {},
            },
            None => {},
        }
        if same(args[i].as_str(), name) && i + 1 < args.len() {
            assert(all[i + 1] == args@[i + 1]@);
            return Some(args[i + 1].clone());
        }
        i = i + 1;
    }
    None
}

/// A count that the arguments give a name, and the error where it is none.
pub open spec fn numeric_outcome(args: Seq<Seq<char>>, name: Seq<char>) -> (
    Option<u64>,
    Option<Seq<char>>,
) {
    match first_argument(args, name, 0) {
        None => (None, None),
        Some(value) => match numeral(value, u64::MAX as nat) {
            Ok(n) => (Some(n as u64), None),
            Err(f) => (
                None,
                Some(
                    "job.json "@ + name + " value "@ + quoted(value) + " is invalid: "@
                        + fault_text(f),
                ),
            ),
        },
    }
}

pub open spec fn pushed(errors: Seq<Seq<char>>, error: Option<Seq<char>>) -> Seq<Seq<char>> {
    match error {
        Some(text) => errors.push(text),
        None => errors,
    }
}

pub fn numeric_argument(args: &Vec<String>, name: &str, errors: &mut Vec<String>) -> (r: Option<
    u64,
>)
    ensures
        r == numeric_outcome(texts(args@), name@).0,
        texts(final(errors)@) == pushed(
            texts(old(errors)@),
            numeric_outcome(texts(args@), name@).1,
        ),
{
    let value = match argument(args, name) {
        None => {
            return None;
        },
        Some(value) => value,
    };
    match parse_numeral(value.as_str(), u64::MAX) {
        Ok(n) => Some(n),
        Err(f) => {
            let shown = quoted_text(value.as_str());
            let message = cat6(
                "job.json ",
                name,
                " value ",
                shown.as_str(),
                " is invalid: ",
                f.text(),
            );
            let ghost before = errors@;
            let ghost text = message@;
            errors.push(message);
            assert(texts(errors@) =~= texts(before).push(text));
            None
        },
    }
}

// ---------------------------------------------------------------------------
// The job and its report
// ---------------------------------------------------------------------------

/// The texts among the first items of an array; anything else is passed over.
pub open spec fn texts_among(items: Seq<JsonModel>, count: int) -> Seq<Seq<char>>
    decreases count,
{
    if count <= 0 {
        Seq::empty()
    } else {
        match text_of(items[count - 1]) {
            Some(text) => texts_among(items, count - 1).push(text),
            None => texts_among(items, count - 1),
        }
    }
}

/// The arguments of a job's command.
pub open spec fn command_args(job: JsonModel) -> Option<Seq<Seq<char>>> {
    match at2(job, "command"@, "args"@) {
        Some(value) => match array_of(value) {
            Some(items) => Some(texts_among(items, items.len() as int)),
            None => None,
        },
        None => None,
    }
}

fn command_args_of(job: &serde_json::Value) -> (r: Option<Vec<String>>)
    ensures
        match r {
            Some(args) => command_args(json_model(*job)) == Some(texts(args@)),
            None => command_args(json_model(*job)) is None,
        },
{
    let value = match member2(job, "command", "args") {
        Some(value) => value,
        None => {
            return None;
        },
    };
    let items = match elements(value) {
        Some(items) => items,
        None => {
            return None;
        },
    };
    let ghost all = models(items@);
    let mut args: Vec<String> = Vec::new();
    let mut i: usize = 0;
    assert(texts(args@) =~= texts_among(all, 0));
    while i < items.len()
        invariant
            i <= items@.len(),
            all == models(items@),
            texts(args@) == texts_among(all, i as int),
        decreases items@.len() - i,
    {
        assert(all[i as int] == json_model(items@[i as int]));
        match as_text(&items[i]) {
            Some(text) => {
                let ghost before = args@;
                args.push(text.to_owned());
                assert(texts(args@) =~= texts(before).push(text@));
            },
            None => {},
        }
        i = i + 1;
    }
    Some(args)
}

/// The summary after its job file was read.
pub open spec fn job_read(m: JobModel, job: JsonModel) -> JobModel {
    let named = match text_at(job, "id"@) {
        Some(id) => JobModel { id, ..m },
        None => m,
    };
    match command_args(job) {
        None => with_error(named, "job.json command.args is missing or invalid"@),
        Some(args) => {
            let a = numeric_outcome(args, "--prompt-tokens"@);
            let b = numeric_outcome(args, "--generation-tokens"@);
            let c = numeric_outcome(args, "--num-trials"@);
            JobModel {
                model: first_argument(args, "--model"@, 0),
                prompt_tokens: a.0,
                generation_tokens: b.0,
                requested_trials: c.0,
                errors: pushed(pushed(pushed(m.errors, a.1), b.1), c.1),
                ..named
            }
        },
    }
}

pub fn parse_job(job: &serde_json::Value, summary: &mut JobSummary)
    ensures
        final(summary)@ == job_read(old(summary)@, json_model(*job)),
{
    match member_text(job, "id") {
        Some(id) => {
            summary.id = id.to_owned();
        },
        None => {},
    }
    let args = match command_args_of(job) {
        Some(args) => args,
        None => {
            summary.fault("job.json command.args is missing or invalid".to_owned());
            return;
        },
    };
    summary.model = argument(&args, "--model");
    summary.prompt_tokens = numeric_argument(&args, "--prompt-tokens", &mut summary.errors);
    summary.generation_tokens = numeric_argument(&args, "--generation-tokens", &mut summary.errors);
    summary.requested_trials = numeric_argument(&args, "--num-trials", &mut summary.errors);
}

/// Whether a list holds a document equal to another.
pub open spec fn holds(strata: Seq<JsonModel>, value: JsonModel) -> bool {
    exists|i: int| 0 <= i < strata.len() && same_document(#[trigger] strata[i], value)
}

/// A list of documents with one more, unless it is null or already there.
pub open spec fn with_stratum(strata: Seq<JsonModel>, value: Option<JsonModel>) -> Seq<JsonModel> {
    match value {
        Some(v) => if v is Null || holds(strata, v) {
            strata
        } else {
            strata.push(v)
        },
        None => strata,
    }
}

pub fn push_unique_stratum(strata: &mut Vec<serde_json::Value>, value: Option<&serde_json::Value>)
    ensures
        models(final(strata)@) == with_stratum(models(old(strata)@), opt_model(value)),
{
    match value {
        Some(v) => {
            if is_null(v) {
                return;
            }
            let ghost all = models(strata@);
            let mut i: usize = 0;
            while i < strata.len()
                invariant
                    i <= strata@.len(),
                    strata@ == old(strata)@,
                    all == models(strata@),
                    opt_model(value) == Some(json_model(*v)),
                    forall|j: int|
                        0 <= j < i ==> !same_document(#[trigger] all[j], json_model(*v)),
                decreases strata@.len() - i,
            {
                assert(all[i as int] == json_model(strata@[i as int]));
                if equal_values(&strata[i], v) {
                    assert(holds(all, json_model(*v)));
                    return;
                }
                i = i + 1;
            }
            let ghost before = strata@;
            let copy = copy_value(v);
            strata.push(copy);
            assert(models(strata@) =~= models(before).push(json_model(*v)));
        },
        None => {},
    }
}

/// A list of documents with the controls of the first samples.
pub open spec fn with_samples(strata: Seq<JsonModel>, samples: Seq<JsonModel>, count: int) -> Seq<
    JsonModel,
>
    decreases count,
{
    if count <= 0 {
        strata
    } else {
        with_stratum(
            with_samples(strata, samples, count - 1),
            at(samples[count - 1], "controls"@),
        )
    }
}

/// The distinct documents that a measurement was observed under.
pub open spec fn strata_of(
    strata: Seq<JsonModel>,
    comparison: Option<JsonModel>,
    start: Option<JsonModel>,
    end: Option<JsonModel>,
    samples: Option<JsonModel>,
) -> Seq<JsonModel> {
    let hosts = with_stratum(with_stratum(with_stratum(strata, comparison), start), end);
    match samples {
        Some(value) => match array_of(value) {
            Some(items) => with_samples(hosts, items, items.len() as int),
            None => hosts,
        },
        None => hosts,
    }
}

/// Adds the controls of power samples to the observed strata.
pub fn push_sample_controls(
    strata: &mut Vec<serde_json::Value>,
    samples: Option<&serde_json::Value>,
)
    ensures
        models(final(strata)@) == match opt_model(samples) {
            Some(value) => match array_of(value) {
                Some(items) => with_samples(models(old(strata)@), items, items.len() as int),
                None => models(old(strata)@),
            },
            None => models(old(strata)@),
        },
{
    match samples {
        None => {},
        Some(value) => match elements(value) {
            None => {},
            Some(items) => {
                let ghost all = models(items@);
                let ghost before = models(strata@);
                let mut i: usize = 0;
                while i < items.len()
                    invariant
                        i <= items@.len(),
                        all == models(items@),
                        models(strata@) == with_samples(before, all, i as int),
                    decreases items@.len() - i,
                {
                    assert(all[i as int] == json_model(items@[i as int]));
                    push_unique_stratum(strata, member(&items[i], "controls"));
                    i = i + 1;
                }
            },
        },
    }
}

/// A document, unless it is null.
pub open spec fn non_null(value: Option<JsonModel>) -> Option<JsonModel> {
    match value {
        Some(v) => if v is Null {
            None
        } else {
            Some(v)
        },
        None => None,
    }
}

/// The summary after its report was read.
pub open spec fn report_read(m: JobModel, report: JsonModel) -> JobModel {
    let stated = match text_at(report, "status"@) {
        Some(text) => text,
        None => "invalid_report"@,
    };
    let checked = if stated == "invalid_report"@ {
        with_error(m, "report.json status is missing or invalid"@)
    } else {
        m
    };
    JobModel {
        status: stated,
        sampled_conditions_eligible: bool_at(report, "sampled_conditions_eligible"@),
        sampled_controls_eligible: match at2(
            report,
            "measurement"@,
            "sampled_controls_eligible"@,
        ) {
            Some(value) => bool_of(value),
            None => None,
        },
        comparison_stratum: non_null(at2(report, "measurement"@, "comparison_stratum"@)),
        observed_strata: strata_of(
            m.observed_strata,
            at2(report, "measurement"@, "comparison_stratum"@),
            at2(report, "measurement"@, "start_host"@),
            at2(report, "measurement"@, "end_host"@),
            at2(report, "measurement"@, "power_samples"@),
        ),
        exit_code: integer_at(report, "exit_code"@),
        ..checked
    }
}

pub fn parse_report(report: &serde_json::Value, summary: &mut JobSummary)
    ensures
        final(summary)@ == report_read(old(summary)@, json_model(*report)),
{
    let status = match member_text(report, "status") {
        Some(text) => text.to_owned(),
        None => "invalid_report".to_owned(),
    };
    if same(status.as_str(), "invalid_report") {
        summary.fault("report.json status is missing or invalid".to_owned());
    }
    summary.status = status;
    summary.sampled_conditions_eligible = member_flag(report, "sampled_conditions_eligible");
    summary.sampled_controls_eligible = match member2(
        report,
        "measurement",
        "sampled_controls_eligible",
    ) {
        Some(value) => as_flag(value),
        None => None,
    };
    let comparison = member2(report, "measurement", "comparison_stratum");
    summary.comparison_stratum = match comparison {
        Some(value) => {
            if is_null(value) {
                None
            } else {
                Some(copy_value(value))
            }
        },
        None => None,
    };
    push_unique_stratum(&mut summary.observed_strata, comparison);
    push_unique_stratum(
        &mut summary.observed_strata,
        member2(report, "measurement", "start_host"),
    );
    push_unique_stratum(
        &mut summary.observed_strata,
        member2(report, "measurement", "end_host"),
    );
    push_sample_controls(
        &mut summary.observed_strata,
        member2(report, "measurement", "power_samples"),
    );
    summary.exit_code = member_integer(report, "exit_code");
}

// ---------------------------------------------------------------------------
// Validation
// ---------------------------------------------------------------------------

pub open spec fn missing(present: bool, name: Seq<char>) -> Option<Seq<char>> {
    if present {
        None
    } else {
        Some("job.json is missing "@ + name)
    }
}

/// What a summary lacks: identity, counts, trials, or averages of a terminal
/// result.
pub open spec fn validated(m: JobModel) -> JobModel {
    let a = pushed(m.errors, missing(m.model is Some, "--model"@));
    let b = pushed(a, missing(m.prompt_tokens is Some, "--prompt-tokens"@));
    let c = pushed(b, missing(m.generation_tokens is Some, "--generation-tokens"@));
    let d = pushed(c, missing(m.requested_trials is Some, "--num-trials"@));
    let e = match m.requested_trials {
        Some(requested) => if m.trials.len() != requested {
            d.push(
                "trial count mismatch: requested "@ + decimal(requested as nat) + ", parsed "@
                    + decimal(m.trials.len()),
            )
        } else {
            d
        },
        None => d,
    };
    let f = if (m.status == "succeeded"@ || m.status == "rejected"@) && m.reported_averages
        is None {
        e.push("terminal result is missing reported Averages"@)
    } else {
        e
    };
    JobModel { errors: f, ..m }
}

pub fn validate_summary(summary: &mut JobSummary)
    ensures
        final(summary)@ == validated(old(summary)@),
{
    if summary.model.is_none() {
        summary.fault(cat2("job.json is missing ", "--model"));
    }
    if summary.prompt_tokens.is_none() {
        summary.fault(cat2("job.json is missing ", "--prompt-tokens"));
    }
    if summary.generation_tokens.is_none() {
        summary.fault(cat2("job.json is missing ", "--generation-tokens"));
    }
    if summary.requested_trials.is_none() {
        summary.fault(cat2("job.json is missing ", "--num-trials"));
    }
    match summary.requested_trials {
        Some(requested) => {
            if summary.trials.len() as u64 != requested {
                let asked = decimal_text(requested);
                let found = decimal_text(summary.trials.len() as u64);
                summary.fault(
                    cat4(
                        "trial count mismatch: requested ",
                        asked.as_str(),
                        ", parsed ",
                        found.as_str(),
                    ),
                );
            }
        },
        None => {},
    }
    if (same(summary.status.as_str(), "succeeded") || same(summary.status.as_str(), "rejected"))
        && summary.reported_averages.is_none() {
        summary.fault("terminal result is missing reported Averages".to_owned());
    }
}

/// A benchmark's printed text, as the host could read it.
#[derive(Debug)]
pub enum StdoutRead {
    Text(String),
    Missing,
    Unreadable(String),
}

/// The document of a file, from its bytes or the error of reading it.
pub open spec fn file_document(path: Seq<char>, file: Result<Vec<u8>, String>) -> Result<
    JsonModel,
    Seq<char>,
> {
    match file {
        Err(error) => Err("read "@ + path + ": "@ + error@),
        Ok(bytes) => match json_bytes_document(bytes@) {
            Ok(document) => Ok(document),
            Err(message) => Err("parse "@ + path + ": "@ + message),
        },
    }
}

pub fn read_json(path: &str, file: &Result<Vec<u8>, String>) -> (r: Result<
    serde_json::Value,
    String,
>)
    ensures
        parsed(r) == file_document(path@, *file),
{
    match file {
        Err(error) => Err(cat4("read ", path, ": ", error.as_str())),
        Ok(bytes) => match parse_bytes(bytes.as_slice()) {
            Ok(value) => Ok(value),
            Err(message) => Err(cat4("parse ", path, ": ", message.as_str())),
        },
    }
}

pub open spec fn after_job(m: JobModel, document: Result<JsonModel, Seq<char>>) -> JobModel {
    match document {
        Ok(job) => job_read(m, job),
        Err(message) => with_error(m, message),
    }
}

pub open spec fn after_report(m: JobModel, document: Result<JsonModel, Seq<char>>) -> JobModel {
    match document {
        Ok(report) => report_read(m, report),
        Err(message) => with_error(m, message),
    }
}

pub open spec fn after_stdout(m: JobModel, stdout: StdoutRead) -> JobModel {
    match stdout {
        StdoutRead::Missing => with_error(m, "missing trial.stdout"@),
        StdoutRead::Unreadable(error) => with_error(m, "read trial.stdout: "@ + error@),
        StdoutRead::Text(text) => match benchmark(text@) {
            Ok((trials, reported_averages)) => JobModel { trials, reported_averages, ..m },
            Err(message) => with_error(m, "parse trial.stdout: "@ + message),
        },
    }
}

/// Summarises one job's directory from its files: every fault is recorded, and
/// none ends the summary.
pub fn summarize_job(
    name: &str,
    directory: &str,
    job: &Result<Vec<u8>, String>,
    report: &Result<Vec<u8>, String>,
    stdout: &StdoutRead,
) -> (r: JobSummary)
    ensures
        r@ == validated(
            after_stdout(
                after_report(
                    after_job(
                        blank_job(name@, directory@),
                        file_document(joined(directory@, "job.json"@), *job),
                    ),
                    file_document(joined(directory@, "report.json"@), *report),
                ),
                *stdout,
            ),
        ),
{
    let mut summary = JobSummary::new(name, directory);
    let job_path = join_path(directory, "job.json");
    match read_json(job_path.as_str(), job) {
        Ok(value) => {
            parse_job(&value, &mut summary);
        },
        Err(message) => {
            summary.fault(message);
        },
    }
    let report_path = join_path(directory, "report.json");
    match read_json(report_path.as_str(), report) {
        Ok(value) => {
            parse_report(&value, &mut summary);
        },
        Err(message) => {
            summary.fault(message);
        },
    }
    match stdout {
        StdoutRead::Missing => {
            summary.fault("missing trial.stdout".to_owned());
        },
        StdoutRead::Unreadable(error) => {
            summary.fault(cat2("read trial.stdout: ", error.as_str()));
        },
        StdoutRead::Text(text) => match parse_benchmark_stdout(text.as_str()) {
            Ok(pair) => {
                summary.trials = pair.0;
                summary.reported_averages = pair.1;
            },
            Err(message) => {
                summary.fault(cat2("parse trial.stdout: ", message.as_str()));
            },
        },
    }
    validate_summary(&mut summary);
    summary
}

/// Validation only adds errors: it changes nothing that was read, and keeps
/// every error that was recorded.
pub proof fn validation_only_adds_errors(m: JobModel)
    ensures
        m.errors.is_prefix_of(validated(m).errors),
        validated(m) == (JobModel { errors: validated(m).errors, ..m }),
        m.model is None || m.prompt_tokens is None || m.generation_tokens is None
            || m.requested_trials is None ==> validated(m).errors.len() > m.errors.len(),
{
    let all = validated(m).errors;
    assert(m.errors =~= all.subrange(0, m.errors.len() as int));
}

} // verus!
