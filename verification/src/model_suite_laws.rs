//! What a suite runs, and how its cases are judged.
use crate::json::{
    array_at, at, at2, bits_of, bool_at, bool_of, double_key, finite_bits, json_document,
    natural_of, number_bits, text_at, JsonModel,
};
use crate::metal_infer::args::{bare_option, cli_defaults, options_from, valued_option, CliModel};
use crate::metal_infer::session_laws::options_set_what_they_name;
use crate::model_suite::{
    args_from, case_passed, command_of, count_where, gate_failure, gate_failures, is_skip, start_of,
    start_status, stdout_document, suite_case_of, suite_cases, suite_cases_from, suite_passes,
    ArgsModel, Metric, SuiteCaseModel,
};
use crate::text::{decimal, numeral_of_decimal};
use vstd::prelude::*;

verus! {

// ---------------------------------------------------------------------------
// Manifests
// ---------------------------------------------------------------------------

/// Whether a bound is the number that a case states, or is not stated.
pub open spec fn bound_stated(value: JsonModel, field: Seq<char>, bound: Option<u64>) -> bool {
    match bound {
        Some(bits) => {
            &&& at(value, field) is Some && bits_of(at(value, field)->0) == Some(bits)
            &&& finite_bits(bits) && double_key(bits) > double_key(0)
        },
        None => at(value, field) is None,
    }
}

/// Whether a count is the one that a case states, or the one it has by default.
pub open spec fn count_stated(
    value: JsonModel,
    field: Seq<char>,
    count: nat,
    default: nat,
) -> bool {
    &&& count > 0
    &&& match at(value, field) {
        Some(raw) => natural_of(raw) is Some && natural_of(raw)->0 == count,
        None => count == default,
    }
}

/// A case is what its entry states, field by field; what is not stated is as by
/// default: required, with one new token, within two thousand and forty-eight in all,
/// for fifteen minutes.
pub proof fn cases_are_what_their_entry_states(
    value: JsonModel,
    idx: int,
    earlier: Seq<SuiteCaseModel>,
)
    requires
        suite_case_of(value, idx, earlier) is Ok,
    ensures
        ({
            let c = suite_case_of(value, idx, earlier)->Ok_0;
            &&& text_at(value, "name"@) == Some(c.name) && c.name.len() > 0
            &&& text_at(value, "model_dir"@) == Some(c.model_dir) && c.model_dir.len() > 0
            &&& text_at(value, "prompt"@) == Some(c.prompt) && c.prompt.len() > 0
            &&& count_stated(value, "max_new_tokens"@, c.max_new_tokens as nat, 1)
            &&& count_stated(value, "max_total_tokens"@, c.max_total_tokens as nat, 2048)
            &&& count_stated(value, "timeout_seconds"@, c.timeout_seconds as nat, 900)
            &&& c.required == (bool_at(value, "required"@) != Some(false))
            &&& c.large_model_opt_in == (bool_at(value, "large_model_opt_in"@) == Some(true))
            &&& c.no_bos == (bool_at(value, "no_bos"@) == Some(true))
            &&& match c.hf_reference {
                Some(path) => text_at(value, "hf_reference"@) == Some(path) && path.len() > 0,
                None => text_at(value, "hf_reference"@) is None || text_at(
                    value,
                    "hf_reference"@,
                )->0.len() == 0,
            }
            &&& bound_stated(value, "min_tok_per_s"@, c.min_tok_per_s)
            &&& bound_stated(value, "max_prefill_ms"@, c.max_prefill_ms)
            &&& bound_stated(value, "max_decode_ms"@, c.max_decode_ms)
            &&& at(value, "expected_error_contains"@) is None
            &&& forall|i: int| 0 <= i < earlier.len() ==> (#[trigger] earlier[i]).name != c.name
        }),
{
}

proof fn cases_read_from(items: Seq<JsonModel>, i: int, cases: Seq<SuiteCaseModel>)
    requires
        0 <= i <= items.len(),
        cases.len() == i,
        suite_cases_from(items, i, cases) is Ok,
    ensures
        ({
            let all = suite_cases_from(items, i, cases)->Ok_0;
            &&& all.len() == items.len()
            &&& forall|k: int| 0 <= k < i ==> all[k] == cases[k]
            &&& forall|k: int|
                i <= k < items.len() ==> suite_case_of(#[trigger] items[k], k, all.take(k)) == Ok::<
                    SuiteCaseModel,
                    Seq<char>,
                >(all[k])
        }),
    decreases items.len() - i,
{
    if i < items.len() {
        let case = suite_case_of(items[i], i, cases)->Ok_0;
        let more = cases.push(case);
        cases_read_from(items, i + 1, more);
        let all = suite_cases_from(items, i, cases)->Ok_0;
        assert(more[i] == case);
        assert forall|k: int| 0 <= k < i implies all[k] == cases[k] by {
            assert(more[k] == cases[k]);
        }
        assert(all.take(i) =~= cases);
    }
}

/// A manifest's cases are its entries, in order, each judged against those before it.
pub proof fn manifests_hold_every_entry(document: JsonModel, k: int)
    requires
        suite_cases(Ok(document)) is Ok,
    ensures
        text_at(document, "schema"@) == Some("rvllm.apple_metal_model_suite_manifest.v1"@),
        array_at(document, "cases"@) is Some,
        ({
            let items = array_at(document, "cases"@)->0;
            let cases = suite_cases(Ok(document))->Ok_0;
            &&& cases.len() == items.len() && cases.len() > 0
            &&& 0 <= k < cases.len() ==> suite_case_of(items[k], k, cases.take(k)) == Ok::<
                SuiteCaseModel,
                Seq<char>,
            >(cases[k])
        }),
{
    let items = array_at(document, "cases"@)->0;
    cases_read_from(items, 0, Seq::empty());
    if 0 <= k < items.len() {
        let _ = items[k];
    }
}

proof fn suite_flags_differ()
    ensures
        "--manifest"@.len() == 10,
        "--report"@.len() == 8,
        "--json"@.len() == 6 && "--json"@[2] == 'j',
        "--help"@.len() == 6 && "--help"@[2] == 'h',
        "-h"@.len() == 2,
{
    reveal_strlit("--manifest");
    reveal_strlit("--report");
    reveal_strlit("--json");
    reveal_strlit("--help");
    reveal_strlit("-h");
}

/// A suite's arguments name its manifest, its report and its form; a manifest there
/// must be.
pub proof fn suite_arguments_set_what_they_name(args: Seq<Seq<char>>, i: int, d: ArgsModel)
    requires
        0 <= i < args.len(),
    ensures
        args[i] == "--manifest"@ && i + 1 < args.len() ==> args_from(args, i, d) == args_from(
            args,
            i + 2,
            (ArgsModel { manifest: Some(args[i + 1]), ..d }),
        ),
        args[i] == "--report"@ && i + 1 < args.len() ==> args_from(args, i, d) == args_from(
            args,
            i + 2,
            (ArgsModel { report: Some(args[i + 1]), ..d }),
        ),
        args[i] == "--json"@ ==> args_from(args, i, d) == args_from(
            args,
            i + 1,
            (ArgsModel { json_output: true, ..d }),
        ),
        args[i] != "--manifest"@ && args[i] != "--report"@ && args[i] != "--json"@ ==> args_from(
            args,
            i,
            d,
        ) is Err,
        args_from(args, args.len() as int, d) is Ok <==> d.manifest is Some,
        d.manifest is Some ==> args_from(args, args.len() as int, d) == Ok::<ArgsModel, Seq<char>>(
            d,
        ),
{
    suite_flags_differ();
}

// ---------------------------------------------------------------------------
// Commands
// ---------------------------------------------------------------------------

proof fn switches_differ()
    ensures
        "--no-bos"@.len() == 8 && "--no-bos"@[2] == 'n',
        "--large-model-opt-in"@.len() == 20 && "--large-model-opt-in"@[2] == 'l',
        "--json"@.len() == 6,
        "--model-dir"@.len() == 11,
        "--prompt"@.len() == 8 && "--prompt"@[2] == 'p',
        "--prompts-jsonl"@.len() == 15,
        "--reference-manifest"@.len() == 20 && "--reference-manifest"@[2] == 'r',
        "--session-backend"@.len() == 17,
        "--max-new-tokens"@.len() == 16,
        "--max-total-tokens"@.len() == 18,
        "--eos-token-ids"@.len() == 15,
        "--hf-reference"@.len() == 14,
        "--report"@.len() == 8 && "--report"@[2] == 'r',
        "--case-timeout-seconds"@.len() == 22,
        "--profile-samples"@.len() == 17,
        "--profile-report"@.len() == 16,
        "--top-logits"@.len() == 12,
{
    reveal_strlit("--no-bos");
    reveal_strlit("--large-model-opt-in");
    reveal_strlit("--json");
    reveal_strlit("--model-dir");
    reveal_strlit("--prompt");
    reveal_strlit("--prompts-jsonl");
    reveal_strlit("--reference-manifest");
    reveal_strlit("--session-backend");
    reveal_strlit("--max-new-tokens");
    reveal_strlit("--max-total-tokens");
    reveal_strlit("--eos-token-ids");
    reveal_strlit("--hf-reference");
    reveal_strlit("--report");
    reveal_strlit("--case-timeout-seconds");
    reveal_strlit("--profile-samples");
    reveal_strlit("--profile-report");
    reveal_strlit("--top-logits");
}

/// What the inference tool is asked for by a case.
pub open spec fn asked_by(case: SuiteCaseModel) -> CliModel {
    CliModel {
        model_dir: Some(case.model_dir),
        prompt: Some(case.prompt),
        max_new_tokens: case.max_new_tokens,
        max_total_tokens: Some(case.max_total_tokens),
        json_output: true,
        large_model_opt_in: case.large_model_opt_in,
        no_bos: case.no_bos,
        hf_reference: case.hf_reference,
        ..cli_defaults()
    }
}

/// A case's command begins with the tool, which reads the rest back as what the case
/// asks for.
#[verifier::rlimit(40)]
pub proof fn commands_ask_for_their_case(infer_bin: Seq<char>, case: SuiteCaseModel)
    requires
        case.prompt.len() > 0,
        0 < case.max_new_tokens <= u32::MAX,
        0 < case.max_total_tokens <= u32::MAX,
    ensures
        command_of(infer_bin, case)[0] == infer_bin,
        options_from(command_of(infer_bin, case), 1, cli_defaults()) == Ok::<CliModel, Seq<char>>(
            asked_by(case),
        ),
{
    let args = command_of(infer_bin, case);
    let d0 = cli_defaults();
    let d1 = CliModel { model_dir: Some(case.model_dir), ..d0 };
    let d2 = CliModel { prompt: Some(case.prompt), ..d1 };
    let d3 = CliModel { max_new_tokens: case.max_new_tokens, ..d2 };
    let d4 = CliModel { max_total_tokens: Some(case.max_total_tokens), ..d3 };
    let d5 = CliModel { json_output: true, ..d4 };
    let d6 = CliModel { large_model_opt_in: case.large_model_opt_in, ..d5 };
    let d7 = CliModel { no_bos: case.no_bos, ..d6 };
    let d8 = CliModel { hf_reference: case.hf_reference, ..d7 };
    switches_differ();
    numeral_of_decimal(case.max_new_tokens as nat, usize::MAX as nat);
    numeral_of_decimal(case.max_total_tokens as nat, usize::MAX as nat);
    options_set_what_they_name(d0, case.model_dir);
    options_set_what_they_name(d1, case.prompt);
    assert(args[1] == "--model-dir"@ && args[2] == case.model_dir);
    assert(args[3] == "--prompt"@ && args[4] == case.prompt);
    assert(args[5] == "--max-new-tokens"@ && args[6] == decimal(case.max_new_tokens as nat));
    assert(args[7] == "--max-total-tokens"@ && args[8] == decimal(case.max_total_tokens as nat));
    assert(args[9] == "--json"@);
    assert(valued_option(d2, args[5], args[6]) == Ok::<CliModel, Seq<char>>(d3));
    assert(valued_option(d3, args[7], args[8]) == Ok::<CliModel, Seq<char>>(d4));
    assert(bare_option(d4, args[9]) == Ok::<CliModel, Seq<char>>(d5));
    let a: int = if case.large_model_opt_in {
        11
    } else {
        10
    };
    let b: int = if case.no_bos {
        a + 1
    } else {
        a
    };
    if case.large_model_opt_in {
        assert(args[10] == "--large-model-opt-in"@);
        assert(bare_option(d5, args[10]) == Ok::<CliModel, Seq<char>>(d6));
    }
    if case.no_bos {
        assert(args[a] == "--no-bos"@);
        assert(bare_option(d6, args[a]) == Ok::<CliModel, Seq<char>>(d7));
    }
    if case.hf_reference is Some {
        assert(args.len() == b + 2);
        assert(args[b] == "--hf-reference"@ && args[b + 1] == case.hf_reference->0);
        assert(valued_option(d7, args[b], args[b + 1]) == Ok::<CliModel, Seq<char>>(d8));
        assert(options_from(args, b + 2, d8) == Ok::<CliModel, Seq<char>>(d8));
    } else {
        assert(args.len() == b);
    }
    assert(options_from(args, b, d7) == Ok::<CliModel, Seq<char>>(d8));
    assert(options_from(args, a, d6) == Ok::<CliModel, Seq<char>>(d8));
    assert(options_from(args, 10, d5) == Ok::<CliModel, Seq<char>>(d8));
    assert(options_from(args, 9, d4) == Ok::<CliModel, Seq<char>>(d8));
    assert(options_from(args, 7, d3) == Ok::<CliModel, Seq<char>>(d8));
    assert(options_from(args, 5, d2) == Ok::<CliModel, Seq<char>>(d8));
    assert(options_from(args, 3, d1) == Ok::<CliModel, Seq<char>>(d8));
    assert(options_from(args, 1, d0) == Ok::<CliModel, Seq<char>>(d8));
    assert(d8 == asked_by(case));
}

/// A case runs where its model is there, and its reference where it names one; without
/// its model it is skipped unless it is required.
pub proof fn cases_start_with_their_files(case: SuiteCaseModel, model: bool, reference: bool)
    ensures
        start_of(case, model, reference) is Run <==> model && (case.hf_reference is Some
            ==> reference),
        start_of(case, model, reference) is SkipMissingModel <==> !model && !case.required,
        start_of(case, model, reference) is MissingModel <==> !model && case.required,
        is_skip(start_status(start_of(case, model, reference))) <==> !model && !case.required,
{
    reveal_strlit("skip_");
    reveal_strlit("missing_model");
    reveal_strlit("skip_missing_model");
    reveal_strlit("missing_reference");
    reveal_strlit("pass");
    let skip = "skip_"@;
    assert(skip.len() == 5 && skip[0] == 's');
    assert("missing_model"@[0] == 'm' && "missing_reference"@[0] == 'm' && "pass"@[0] == 'p');
    let s = "skip_missing_model"@;
    assert(skip =~= s.subrange(0, 5));
    if is_skip("missing_model"@) {
        assert(skip[0] == "missing_model"@.subrange(0, 5)[0]);
    }
    if is_skip("missing_reference"@) {
        assert(skip[0] == "missing_reference"@.subrange(0, 5)[0]);
    }
    if is_skip("pass"@) {
        assert("pass"@.len() == 4);
    }
}

/// A tool's report is what follows the first opening brace of its output.
pub proof fn reports_begin_at_the_first_brace(before: Seq<char>, rest: Seq<char>)
    requires
        forall|i: int| 0 <= i < before.len() ==> #[trigger] before[i] != '{',
    ensures
        stdout_document(before) is Err,
        stdout_document(before + seq!['{'] + rest) is Ok <==> json_document(seq!['{'] + rest) is Ok,
        json_document(seq!['{'] + rest) is Ok ==> stdout_document(before + seq!['{'] + rest)
            == json_document(seq!['{'] + rest),
{
    first_brace(before, before, 0);
    let s = before + seq!['{'] + rest;
    first_brace(before, s, 0);
    assert(s[before.len() as int] == '{');
    assert(s.subrange(before.len() as int, s.len() as int) =~= seq!['{'] + rest);
}

proof fn first_brace(before: Seq<char>, s: Seq<char>, i: int)
    requires
        0 <= i <= before.len() <= s.len(),
        forall|k: int| 0 <= k < before.len() ==> #[trigger] before[k] != '{' && s[k] == before[k],
        before.len() == s.len() || s[before.len() as int] == '{',
    ensures
        crate::text::find_char(s, '{', i) == before.len(),
    decreases before.len() - i,
{
    if i < before.len() {
        assert(before[i] != '{');
        first_brace(before, s, i + 1);
    }
}

// ---------------------------------------------------------------------------
// Verdicts
// ---------------------------------------------------------------------------

/// A rate that is stated must reach its bound, and a duration must not pass its own;
/// each is read under its own name, and one that is missing fails.
pub proof fn metrics_are_held_to_their_bound(report: JsonModel, bound: u64)
    ensures
        gate_failure(report, Metric::TokPerS, Some(bound)) is None <==> {
            &&& at(report, "tok_per_s"@) matches Some(JsonModel::Number(n)) && finite_bits(
                number_bits(n),
            ) && double_key(number_bits(n)) >= double_key(bound)
        },
        gate_failure(report, Metric::PrefillMs, Some(bound)) is None <==> {
            &&& at(report, "prefill_ms"@) matches Some(JsonModel::Number(n)) && finite_bits(
                number_bits(n),
            ) && double_key(number_bits(n)) <= double_key(bound)
        },
        gate_failure(report, Metric::DecodeMs, Some(bound)) is None <==> {
            &&& at(report, "decode_ms"@) matches Some(JsonModel::Number(n)) && finite_bits(
                number_bits(n),
            ) && double_key(number_bits(n)) <= double_key(bound)
        },
{
}

/// A case passes where its process ended well and in time with a report that matches
/// its reference and meets each bound of the case: the least rate, the longest prefill
/// and the longest decode.
pub proof fn cases_pass_every_bound(
    timed_out: bool,
    success: bool,
    report: JsonModel,
    case: SuiteCaseModel,
)
    ensures
        !case_passed(timed_out, success, None, case),
        case_passed(timed_out, success, Some(report), case) <==> {
            &&& !timed_out
            &&& success
            &&& at2(report, "hf_reference"@, "matched"@) matches Some(m) ==> bool_of(m) != Some(
                false,
            )
            &&& gate_failure(report, Metric::TokPerS, case.min_tok_per_s) is None
            &&& gate_failure(report, Metric::PrefillMs, case.max_prefill_ms) is None
            &&& gate_failure(report, Metric::DecodeMs, case.max_decode_ms) is None
        },
        gate_failure(report, Metric::TokPerS, None) is None,
        gate_failure(report, Metric::PrefillMs, None) is None,
        gate_failure(report, Metric::DecodeMs, None) is None,
{
    let a = crate::model_suite::failure_list(
        gate_failure(report, Metric::TokPerS, case.min_tok_per_s),
    );
    let b = crate::model_suite::failure_list(
        gate_failure(report, Metric::PrefillMs, case.max_prefill_ms),
    );
    let c = crate::model_suite::failure_list(
        gate_failure(report, Metric::DecodeMs, case.max_decode_ms),
    );
    assert(gate_failures(report, case).len() == a.len() + b.len() + c.len());
}

/// A suite passes exactly where its passes and its skips are all its cases.
pub proof fn suites_pass_when_every_case_counts(statuses: Seq<Seq<char>>, n: int)
    requires
        n == statuses.len(),
    ensures
        ({
            let passed = count_where(statuses, |s: Seq<char>| s == "pass"@, n);
            let skipped = count_where(statuses, |s: Seq<char>| is_skip(s), n);
            &&& passed + skipped <= n
            &&& suite_passes(statuses) <==> passed + skipped == n
        }),
{
    counted_from(statuses, n);
}

proof fn counted_from(statuses: Seq<Seq<char>>, n: int)
    requires
        0 <= n <= statuses.len(),
    ensures
        ({
            let passed = count_where(statuses, |s: Seq<char>| s == "pass"@, n);
            let skipped = count_where(statuses, |s: Seq<char>| is_skip(s), n);
            &&& passed + skipped <= n
            &&& (forall|i: int|
                0 <= i < n ==> (#[trigger] statuses[i]) == "pass"@ || is_skip(statuses[i])) <==> passed
                + skipped == n
        }),
    decreases n,
{
    if n > 0 {
        counted_from(statuses, n - 1);
        reveal_strlit("pass");
        reveal_strlit("skip_");
        assert("pass"@.len() == 4 && "skip_"@.len() == 5);
        let s = statuses[n - 1];
        assert(!(s == "pass"@ && is_skip(s)));
        if forall|i: int|
            0 <= i < n - 1 ==> (#[trigger] statuses[i]) == "pass"@ || is_skip(statuses[i]) {
            if s == "pass"@ || is_skip(s) {
                assert forall|i: int| 0 <= i < n implies (#[trigger] statuses[i]) == "pass"@
                    || is_skip(statuses[i]) by {
                    if i == n - 1 {
                        assert(statuses[i] == s);
                    }
                }
            }
        }
    }
}

} // verus!
