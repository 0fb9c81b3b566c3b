//! What the summary of a queued benchmark holds of its files.
use crate::json::{
    at, at2, bool_at, bool_of, integer_at, same_document, text_at, text_of, JsonModel,
};
use crate::mlx::benchmark::benchmark;
use crate::mlx::queue_summary::{
    after_job, after_report, after_stdout, argument_at, blank_job, command_args, first_argument,
    holds, job_read, numeric_outcome, report_read, strata_of, texts_among, validated, with_samples,
    with_stratum, JobModel, StdoutRead,
};
use crate::text::numeral;
use crate::text_laws::prefixes_are_taken_off;
use vstd::prelude::*;

verus! {

/// An argument's value is joined to its name by a sign of equality, or follows it.
pub proof fn arguments_are_joined_or_follow(
    args: Seq<Seq<char>>,
    name: Seq<char>,
    value: Seq<char>,
    i: int,
)
    requires
        0 <= i < args.len(),
    ensures
        args[i] == name + "="@ + value ==> argument_at(args, name, i) == Some(value),
        args[i] == name && i + 1 < args.len() ==> argument_at(args, name, i) == Some(args[i + 1]),
{
    reveal_strlit("=");
    assert("="@.len() == 1);
    if args[i] == name + "="@ + value {
        assert(args[i] =~= name + ("="@ + value));
        prefixes_are_taken_off(name, "="@ + value, args[i]);
        prefixes_are_taken_off("="@, value, "="@ + value);
    } else if args[i] == name {
        assert(name =~= name + Seq::<char>::empty());
        prefixes_are_taken_off(name, Seq::empty(), args[i]);
    }
}

/// The first argument of a name counts, wherever it stands.
pub proof fn the_first_argument_counts(args: Seq<Seq<char>>, name: Seq<char>, i: int, k: int)
    requires
        0 <= i <= k < args.len(),
        argument_at(args, name, k) is Some,
        forall|j: int| i <= j < k ==> (#[trigger] argument_at(args, name, j)) is None,
    ensures
        first_argument(args, name, i) == argument_at(args, name, k),
    decreases k - i,
{
    if i < k {
        assert(argument_at(args, name, i) is None);
        the_first_argument_counts(args, name, i + 1, k);
    }
}

/// A number is read from the argument of its name; a text that is none is an error, and
/// no argument is no number.
pub proof fn numbers_are_read_by_name(args: Seq<Seq<char>>, name: Seq<char>)
    ensures
        match first_argument(args, name, 0) {
            None => numeric_outcome(args, name).0 is None && numeric_outcome(args, name).1 is None,
            Some(raw) => match numeral(raw, u64::MAX as nat) {
                Ok(n) => numeric_outcome(args, name).0 == Some(n as u64) && numeric_outcome(
                    args,
                    name,
                ).1 is None,
                Err(_) => numeric_outcome(args, name).0 is None && numeric_outcome(
                    args,
                    name,
                ).1 is Some,
            },
        },
{
}

/// The texts of a list are kept in order; what is no text is left out.
pub proof fn texts_are_kept_in_order(items: Seq<JsonModel>, n: int)
    requires
        0 <= n < items.len(),
    ensures
        match text_of(items[n]) {
            Some(t) => texts_among(items, n + 1) == texts_among(items, n).push(t),
            None => texts_among(items, n + 1) == texts_among(items, n),
        },
        texts_among(items, 0).len() == 0,
{
}

/// A job states its name, its model, its prompt and generation lengths and how many
/// trials it runs, each under the argument of that name.
pub proof fn jobs_state_what_they_run(m: JobModel, job: JsonModel)
    requires
        command_args(job) is Some,
    ensures
        ({
            let args = command_args(job)->0;
            let r = job_read(m, job);
            &&& text_at(job, "id"@) matches Some(id) ==> r.id == id
            &&& text_at(job, "id"@) is None ==> r.id == m.id
            &&& r.model == first_argument(args, "--model"@, 0)
            &&& r.prompt_tokens == numeric_outcome(args, "--prompt-tokens"@).0
            &&& r.generation_tokens == numeric_outcome(args, "--generation-tokens"@).0
            &&& r.requested_trials == numeric_outcome(args, "--num-trials"@).0
            &&& r.status == m.status && r.directory == m.directory && r.trials == m.trials
            &&& r.errors.len() == m.errors.len() + (if numeric_outcome(args, "--prompt-tokens"@).1
                is Some {
                1nat
            } else {
                0nat
            }) + (if numeric_outcome(args, "--generation-tokens"@).1 is Some {
                1nat
            } else {
                0nat
            }) + (if numeric_outcome(args, "--num-trials"@).1 is Some {
                1nat
            } else {
                0nat
            })
        }),
{
}

/// A stratum is observed once: what is there stays, and one joins unless it is null or
/// there already.
pub proof fn strata_are_observed_once(strata: Seq<JsonModel>, value: JsonModel)
    ensures
        with_stratum(strata, None) == strata,
        value is Null ==> with_stratum(strata, Some(value)) == strata,
        !(value is Null) ==> {
            let r = with_stratum(strata, Some(value));
            &&& strata.is_prefix_of(r)
            &&& r == strata <==> (exists|i: int|
                0 <= i < strata.len() && same_document(#[trigger] strata[i], value))
            &&& r != strata ==> r == strata.push(value)
        },
{
    let r = with_stratum(strata, Some(value));
    assert(strata =~= strata.take(strata.len() as int));
    if r != strata {
        assert(strata =~= r.take(strata.len() as int));
    }
    if !(value is Null) && r == strata && !holds(strata, value) {
        assert(r.len() == strata.len() + 1);
    }
    if exists|i: int| 0 <= i < strata.len() && same_document(#[trigger] strata[i], value) {
        assert(holds(strata, value));
    }
}

/// A report states its status, its exit and its eligibilities, each under its own name;
/// its strata are the one compared and those of both hosts and of every power sample.
pub proof fn reports_state_their_conditions(m: JobModel, report: JsonModel)
    ensures
        ({
            let r = report_read(m, report);
            &&& text_at(report, "status"@) matches Some(s) ==> r.status == s
            &&& text_at(report, "status"@) is None ==> r.status == "invalid_report"@ && r.errors
                == m.errors.push("report.json status is missing or invalid"@)
            &&& r.sampled_conditions_eligible == bool_at(report, "sampled_conditions_eligible"@)
            &&& r.sampled_controls_eligible == match at2(
                report,
                "measurement"@,
                "sampled_controls_eligible"@,
            ) {
                Some(v) => bool_of(v),
                None => None,
            }
            &&& r.exit_code == integer_at(report, "exit_code"@)
            &&& r.comparison_stratum == match at2(
                report,
                "measurement"@,
                "comparison_stratum"@,
            ) {
                Some(JsonModel::Null) => None,
                other => other,
            }
            &&& r.model == m.model && r.trials == m.trials && r.id == m.id && r.requested_trials
                == m.requested_trials
        }),
{
}

/// The controls of each power sample join the strata, in the order of the samples.
pub proof fn samples_add_their_controls(
    strata: Seq<JsonModel>,
    samples: Seq<JsonModel>,
    n: int,
    hosts: (Option<JsonModel>, Option<JsonModel>, Option<JsonModel>),
)
    requires
        0 <= n < samples.len(),
    ensures
        with_samples(strata, samples, 0) == strata,
        with_samples(strata, samples, n + 1) == with_stratum(
            with_samples(strata, samples, n),
            at(samples[n], "controls"@),
        ),
        strata_of(strata, hosts.0, hosts.1, hosts.2, None) == with_stratum(
            with_stratum(with_stratum(strata, hosts.0), hosts.1),
            hosts.2,
        ),
        strata_of(strata, hosts.0, hosts.1, hosts.2, Some(JsonModel::Array(samples)))
            == with_samples(
            strata_of(strata, hosts.0, hosts.1, hosts.2, None),
            samples,
            samples.len() as int,
        ),
{
}

/// A summary is without new errors exactly where everything that it must state is
/// there, as many trials ran as were asked for, and a settled result has its averages.
pub proof fn sound_summaries_have_no_errors(m: JobModel)
    ensures
        validated(m).errors == m.errors <==> {
            &&& m.model is Some
            &&& m.prompt_tokens is Some
            &&& m.generation_tokens is Some
            &&& m.requested_trials is Some
            &&& m.trials.len() == m.requested_trials->0
            &&& m.status == "succeeded"@ || m.status == "rejected"@ ==> m.reported_averages is Some
        },
        validated(m).errors.len() >= m.errors.len(),
{
    let e = validated(m).errors;
    if m.model is Some && m.prompt_tokens is Some && m.generation_tokens is Some
        && m.requested_trials is Some && m.trials.len() == m.requested_trials->0 && (m.status
        == "succeeded"@ || m.status == "rejected"@ ==> m.reported_averages is Some) {
        assert(e == m.errors);
    } else {
        assert(e.len() > m.errors.len());
    }
}

/// A benchmark's output gives its trials and its averages, as they are read from it;
/// output that is missing or unreadable leaves the rest as it was.
pub proof fn outputs_give_the_trials(m: JobModel, text: String, e: String)
    ensures
        benchmark(text@) matches Ok((trials, averages)) ==> {
            let r = after_stdout(m, StdoutRead::Text(text));
            &&& r.trials == trials
            &&& r.reported_averages == averages
            &&& r.errors == m.errors && r.status == m.status && r.model == m.model
        },
        benchmark(text@) is Err ==> after_stdout(m, StdoutRead::Text(text)).errors.len()
            == m.errors.len() + 1,
        after_stdout(m, StdoutRead::Missing).errors.len() == m.errors.len() + 1,
        after_stdout(m, StdoutRead::Unreadable(e)).errors.len() == m.errors.len() + 1,
        after_stdout(m, StdoutRead::Missing).trials == m.trials,
{
}

/// A file that cannot be read or parsed adds one error, and is otherwise as if it had
/// said nothing.
pub proof fn unreadable_files_add_one_error(m: JobModel, message: Seq<char>)
    ensures
        after_job(m, Err(message)) == (JobModel { errors: m.errors.push(message), ..m }),
        after_report(m, Err(message)) == (JobModel { errors: m.errors.push(message), ..m }),
{
}

/// A job of which no file can be read is incomplete: its summary names the directory, holds
/// no result, and has an error for each file ahead of those for what is missing.
pub proof fn unread_jobs_are_incomplete(
    id: Seq<char>,
    directory: Seq<char>,
    first: Seq<char>,
    second: Seq<char>,
)
    ensures
        ({
            let r = validated(
                after_stdout(
                    after_report(
                        after_job(blank_job(id, directory), Err(first)),
                        Err(second),
                    ),
                    StdoutRead::Missing,
                ),
            );
            &&& r.directory == directory
            &&& r.status == "incomplete"@
            &&& r.trials.len() == 0
            &&& r.reported_averages is None
            &&& r.exit_code is None
            &&& r.comparison_stratum is None && r.observed_strata.len() == 0
            &&& r.sampled_conditions_eligible is None && r.sampled_controls_eligible is None
            &&& r.errors.len() > 3
            &&& r.errors[0] == first && r.errors[1] == second
        }),
{
    let blank = blank_job(id, directory);
    let m = after_stdout(
        after_report(after_job(blank, Err(first)), Err(second)),
        StdoutRead::Missing,
    );
    sound_summaries_have_no_errors(m);
    assert(m.errors.len() == 3);
    assert(m.errors[0] == first && m.errors[1] == second);
    assert(validated(m).errors.len() > 3);
}

} // verus!
