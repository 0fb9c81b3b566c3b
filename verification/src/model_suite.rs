//! The model suite: its manifest, the command of each case, and the verdicts on
//! a case and on the suite. Rates and durations are doubles given by their bits.
use crate::json::{
    array_at, as_bits, as_natural, at, at2, bits_of, bool_at, bool_of, double_key, finite_bits,
    is_finite_double, json_document, json_model, key_of_double, member, member2, member_array,
    member_flag, member_text, models, natural_of, number_bits, parse_text, parsed, text_at,
    JsonModel,
};
use crate::metal_infer::cases::{json_optional_string_field, nonempty};
use crate::text::{
    cat2, cat3, cat4, chars_of, decimal, decimal_text, find_char, find_in, has_prefix, leads_with,
    opt_text, quoted, quoted_text, same, starts_with_char, text_between, texts, told,
};
use vstd::prelude::*;

verus! {

/// What a suite report claims.
pub const CLAIM: &'static str = "Apple Metal model suite evidence; not production-ready until acceptance gates pass";

pub const DEFAULT_MAX_TOTAL_TOKENS: usize = 2048;

pub const DEFAULT_CASE_TIMEOUT_SECONDS: u64 = 900;

// ---------------------------------------------------------------------------
// Command line
// ---------------------------------------------------------------------------

#[derive(Debug)]
pub struct Args {
    pub manifest: String,
    pub report: Option<String>,
    pub json_output: bool,
}

pub struct ArgsModel {
    pub manifest: Option<Seq<char>>,
    pub report: Option<Seq<char>>,
    pub json_output: bool,
}

impl View for Args {
    type V = ArgsModel;

    open spec fn view(&self) -> ArgsModel {
        ArgsModel {
            manifest: Some(self.manifest@),
            report: opt_text(self.report),
            json_output: self.json_output,
        }
    }
}

pub open spec fn usage_text() -> Seq<char> {
    "usage: rvllm_metal_model_suite --manifest <JSON> [--report <JSON>] [--json]"@
}

pub fn usage() -> (r: String)
    ensures
        r@ == usage_text(),
{
    "usage: rvllm_metal_model_suite --manifest <JSON> [--report <JSON>] [--json]".to_owned()
}

/// The command line after the arguments from `i` on.
pub open spec fn args_from(args: Seq<Seq<char>>, i: int, d: ArgsModel) -> Result<
    ArgsModel,
    Seq<char>,
>
    decreases args.len() - i,
{
    if i >= args.len() {
        if d.manifest is None {
            Err("--manifest is required"@)
        } else {
            Ok(d)
        }
    } else if args[i] == "--manifest"@ {
        if i + 1 >= args.len() {
            Err("--manifest requires a value"@)
        } else {
            args_from(args, i + 2, ArgsModel { manifest: Some(args[i + 1]), ..d })
        }
    } else if args[i] == "--report"@ {
        if i + 1 >= args.len() {
            Err("--report requires a value"@)
        } else {
            args_from(args, i + 2, ArgsModel { report: Some(args[i + 1]), ..d })
        }
    } else if args[i] == "--json"@ {
        args_from(args, i + 1, ArgsModel { json_output: true, ..d })
    } else if args[i] == "-h"@ || args[i] == "--help"@ {
        Err(usage_text())
    } else if leads_with(args[i], '-') {
        Err("unknown argument: "@ + args[i])
    } else {
        Err("unexpected positional argument: "@ + args[i])
    }
}

pub open spec fn no_args() -> ArgsModel {
    ArgsModel { manifest: None, report: None, json_output: false }
}

/// Reads a command line, without the program's name.
pub fn parse_args(args: &Vec<String>) -> (r: Result<Args, String>)
    ensures
        match r {
            Ok(parsed) => args_from(texts(args@), 0, no_args()) == Ok::<ArgsModel, Seq<char>>(
                parsed@,
            ),
            Err(e) => args_from(texts(args@), 0, no_args()) == Err::<ArgsModel, Seq<char>>(e@),
        },
{
    let mut manifest: Option<String> = None;
    let mut report: Option<String> = None;
    let mut json_output = false;
    let ghost all = texts(args@);
    let mut i: usize = 0;
    while i < args.len()
        invariant
            i <= args@.len(),
            all == texts(args@),
            args_from(all, 0, no_args()) == args_from(
                all,
                i as int,
                ArgsModel { manifest: opt_text(manifest), report: opt_text(report), json_output },
            ),
        decreases args@.len() - i,
    {
        let flag = args[i].as_str();
        assert(all[i as int] == flag@);
        if same(flag, "--manifest") {
            if i + 1 >= args.len() {
                return Err("--manifest requires a value".to_owned());
            }
            assert(all[i + 1] == args@[i + 1]@);
            manifest = Some(args[i + 1].clone());
            i = i + 2;
        } else if same(flag, "--report") {
            if i + 1 >= args.len() {
                return Err("--report requires a value".to_owned());
            }
            assert(all[i + 1] == args@[i + 1]@);
            report = Some(args[i + 1].clone());
            i = i + 2;
        } else if same(flag, "--json") {
            json_output = true;
            i = i + 1;
        } else if same(flag, "-h") || same(flag, "--help") {
            return Err(usage());
        } else if starts_with_char(flag, '-') {
            return Err(cat2("unknown argument: ", flag));
        } else {
            return Err(cat2("unexpected positional argument: ", flag));
        }
    }
    match manifest {
        Some(manifest) => Ok(Args { manifest, report, json_output }),
        None => Err("--manifest is required".to_owned()),
    }
}

// ---------------------------------------------------------------------------
// Manifest
// ---------------------------------------------------------------------------

/// One case of a suite.
#[derive(Debug)]
pub struct SuiteCase {
    pub name: String,
    pub model_dir: String,
    pub prompt: String,
    pub max_new_tokens: usize,
    pub max_total_tokens: usize,
    pub required: bool,
    pub large_model_opt_in: bool,
    pub no_bos: bool,
    pub hf_reference: Option<String>,
    pub timeout_seconds: u64,
    pub min_tok_per_s: Option<u64>,
    pub max_prefill_ms: Option<u64>,
    pub max_decode_ms: Option<u64>,
}

pub struct SuiteCaseModel {
    pub name: Seq<char>,
    pub model_dir: Seq<char>,
    pub prompt: Seq<char>,
    pub max_new_tokens: usize,
    pub max_total_tokens: usize,
    pub required: bool,
    pub large_model_opt_in: bool,
    pub no_bos: bool,
    pub hf_reference: Option<Seq<char>>,
    pub timeout_seconds: u64,
    pub min_tok_per_s: Option<u64>,
    pub max_prefill_ms: Option<u64>,
    pub max_decode_ms: Option<u64>,
}

impl View for SuiteCase {
    type V = SuiteCaseModel;

    open spec fn view(&self) -> SuiteCaseModel {
        SuiteCaseModel {
            name: self.name@,
            model_dir: self.model_dir@,
            prompt: self.prompt@,
            max_new_tokens: self.max_new_tokens,
            max_total_tokens: self.max_total_tokens,
            required: self.required,
            large_model_opt_in: self.large_model_opt_in,
            no_bos: self.no_bos,
            hf_reference: opt_text(self.hf_reference),
            timeout_seconds: self.timeout_seconds,
            min_tok_per_s: self.min_tok_per_s,
            max_prefill_ms: self.max_prefill_ms,
            max_decode_ms: self.max_decode_ms,
        }
    }
}

pub open spec fn suite_models(cases: Seq<SuiteCase>) -> Seq<SuiteCaseModel> {
    Seq::new(cases.len(), |i: int| cases[i]@)
}

pub open spec fn needed_text(value: JsonModel, field: Seq<char>, idx: int) -> Result<
    Seq<char>,
    Seq<char>,
> {
    match nonempty(text_at(value, field)) {
        Some(text) => Ok(text),
        None => Err("case "@ + decimal(idx as nat) + " missing non-empty "@ + quoted(field)),
    }
}

pub fn required_string<'a>(value: &'a serde_json::Value, field: &str, idx: usize) -> (r: Result<
    &'a str,
    String,
>)
    ensures
        crate::metal_infer::cases::str_told(r) == needed_text(
            json_model(*value),
            field@,
            idx as int,
        ),
{
    match json_optional_string_field(value, field) {
        Some(text) => Ok(text),
        None => {
            let number = decimal_text(idx as u64);
            let shown = quoted_text(field);
            Err(cat4("case ", number.as_str(), " missing non-empty ", shown.as_str()))
        },
    }
}

pub fn optional_bool(value: &serde_json::Value, field: &str) -> (r: Option<bool>)
    ensures
        r == bool_at(json_model(*value), field@),
{
    member_flag(value, field)
}

/// A count where the member exists.
pub open spec fn count_at(value: JsonModel, field: Seq<char>) -> Result<Option<usize>, Seq<char>> {
    match at(value, field) {
        None => Ok(None),
        Some(raw) => match natural_of(raw) {
            Some(n) => if n <= usize::MAX {
                Ok(Some(n as usize))
            } else {
                Err(field + " must be a positive integer"@)
            },
            None => Err(field + " must be a positive integer"@),
        },
    }
}

pub fn optional_usize(value: &serde_json::Value, field: &str) -> (r: Result<Option<usize>, String>)
    ensures
        told(r) == count_at(json_model(*value), field@),
{
    match member(value, field) {
        None => Ok(None),
        Some(raw) => match as_natural(raw) {
            Some(n) => {
                if n <= usize::MAX as u64 {
                    Ok(Some(n as usize))
                } else {
                    Err(cat2(field, " must be a positive integer"))
                }
            },
            None => Err(cat2(field, " must be a positive integer")),
        },
    }
}

/// A finite positive number where the member exists.
pub open spec fn gate_at(value: JsonModel, field: Seq<char>, name: Seq<char>) -> Result<
    Option<u64>,
    Seq<char>,
> {
    match at(value, field) {
        None => Ok(None),
        Some(raw) => match bits_of(raw) {
            None => Err("case "@ + name + " "@ + field + " must be a number"@),
            Some(bits) => if !finite_bits(bits) || double_key(bits) <= 0 {
                Err("case "@ + name + " "@ + field + " must be finite and positive"@)
            } else {
                Ok(Some(bits))
            },
        },
    }
}

fn member_gate(value: &serde_json::Value, field: &str, name: &str) -> (r: Result<
    Option<u64>,
    String,
>)
    ensures
        told(r) == gate_at(json_model(*value), field@, name@),
{
    match member(value, field) {
        None => Ok(None),
        Some(raw) => match as_bits(raw) {
            None => Err(
                crate::text::cat5("case ", name, " ", field, " must be a number"),
            ),
            Some(bits) => {
                if !is_finite_double(bits) || key_of_double(bits) <= 0 {
                    return Err(
                        crate::text::cat5("case ", name, " ", field, " must be finite and positive"),
                    );
                }
                Ok(Some(bits))
            },
        },
    }
}

pub open spec fn or_else(count: Option<usize>, default: usize) -> usize {
    match count {
        Some(n) => n,
        None => default,
    }
}

pub open spec fn or_flag(flag: Option<bool>, default: bool) -> bool {
    match flag {
        Some(b) => b,
        None => default,
    }
}

/// The limits of a case: new tokens, total tokens and seconds, all positive.
pub open spec fn case_limits(value: JsonModel, name: Seq<char>) -> Result<
    (usize, usize, u64),
    Seq<char>,
> {
    match count_at(value, "max_new_tokens"@) {
        Err(message) => Err(message),
        Ok(fresh) => match count_at(value, "max_total_tokens"@) {
            Err(message) => Err(message),
            Ok(total) => if or_else(fresh, 1) == 0 {
                Err("case "@ + name + " max_new_tokens must be positive"@)
            } else if or_else(total, DEFAULT_MAX_TOTAL_TOKENS) == 0 {
                Err("case "@ + name + " max_total_tokens must be positive"@)
            } else {
                match count_at(value, "timeout_seconds"@) {
                    Err(message) => Err(message),
                    Ok(Some(0)) => Err("case "@ + name + " timeout_seconds must be positive"@),
                    Ok(seconds) => Ok(
                        (
                            or_else(fresh, 1),
                            or_else(total, DEFAULT_MAX_TOTAL_TOKENS),
                            match seconds {
                                Some(n) => n as u64,
                                None => DEFAULT_CASE_TIMEOUT_SECONDS,
                            },
                        ),
                    ),
                }
            },
        },
    }
}

fn limits_of(value: &serde_json::Value, name: &str) -> (r: Result<(usize, usize, u64), String>)
    ensures
        told(r) == case_limits(json_model(*value), name@),
{
    let fresh = match optional_usize(value, "max_new_tokens") {
        Ok(fresh) => fresh,
        Err(message) => {
            return Err(message);
        },
    };
    let total = match optional_usize(value, "max_total_tokens") {
        Ok(total) => total,
        Err(message) => {
            return Err(message);
        },
    };
    let max_new_tokens: usize = match fresh {
        Some(n) => n,
        None => 1,
    };
    let max_total_tokens: usize = match total {
        Some(n) => n,
        None => DEFAULT_MAX_TOTAL_TOKENS,
    };
    if max_new_tokens == 0 {
        return Err(cat3("case ", name, " max_new_tokens must be positive"));
    }
    if max_total_tokens == 0 {
        return Err(cat3("case ", name, " max_total_tokens must be positive"));
    }
    let timeout_seconds: u64 = match optional_usize(value, "timeout_seconds") {
        Ok(Some(n)) => n as u64,
        Ok(None) => DEFAULT_CASE_TIMEOUT_SECONDS,
        Err(message) => {
            return Err(message);
        },
    };
    if timeout_seconds == 0 {
        return Err(cat3("case ", name, " timeout_seconds must be positive"));
    }
    Ok((max_new_tokens, max_total_tokens, timeout_seconds))
}

/// The performance gates of a case.
pub open spec fn case_gates(value: JsonModel, name: Seq<char>) -> Result<
    (Option<u64>, Option<u64>, Option<u64>),
    Seq<char>,
> {
    match gate_at(value, "min_tok_per_s"@, name) {
        Err(message) => Err(message),
        Ok(a) => match gate_at(value, "max_prefill_ms"@, name) {
            Err(message) => Err(message),
            Ok(b) => match gate_at(value, "max_decode_ms"@, name) {
                Err(message) => Err(message),
                Ok(c) => Ok((a, b, c)),
            },
        },
    }
}

fn gates_of(value: &serde_json::Value, name: &str) -> (r: Result<
    (Option<u64>, Option<u64>, Option<u64>),
    String,
>)
    ensures
        told(r) == case_gates(json_model(*value), name@),
{
    let a = match member_gate(value, "min_tok_per_s", name) {
        Ok(a) => a,
        Err(message) => {
            return Err(message);
        },
    };
    let b = match member_gate(value, "max_prefill_ms", name) {
        Ok(b) => b,
        Err(message) => {
            return Err(message);
        },
    };
    let c = match member_gate(value, "max_decode_ms", name) {
        Ok(c) => c,
        Err(message) => {
            return Err(message);
        },
    };
    Ok((a, b, c))
}

/// Whether an earlier case has a name.
pub open spec fn taken(cases: Seq<SuiteCaseModel>, name: Seq<char>) -> bool {
    exists|i: int| 0 <= i < cases.len() && (#[trigger] cases[i]).name == name
}

/// The case that a document describes, at a position and after other cases.
pub open spec fn suite_case_of(value: JsonModel, idx: int, earlier: Seq<SuiteCaseModel>) -> Result<
    SuiteCaseModel,
    Seq<char>,
> {
    match needed_text(value, "name"@, idx) {
        Err(message) => Err(message),
        Ok(name) => if taken(earlier, name) {
            Err("duplicate case name "@ + quoted(name))
        } else {
            match case_limits(value, name) {
                Err(message) => Err(message),
                Ok((max_new_tokens, max_total_tokens, timeout_seconds)) => if at(
                    value,
                    "expected_error_contains"@,
                ) is Some {
                    Err(
                        "case "@ + name
                            + " uses expected_error_contains; model-suite cases must pass, fail, or skip missing optional models"@,
                    )
                } else {
                    match case_gates(value, name) {
                        Err(message) => Err(message),
                        Ok((min_tok_per_s, max_prefill_ms, max_decode_ms)) => match needed_text(
                            value,
                            "model_dir"@,
                            idx,
                        ) {
                            Err(message) => Err(message),
                            Ok(model_dir) => match needed_text(value, "prompt"@, idx) {
                                Err(message) => Err(message),
                                Ok(prompt) => Ok(
                                    SuiteCaseModel {
                                        name,
                                        model_dir,
                                        prompt,
                                        max_new_tokens,
                                        max_total_tokens,
                                        required: or_flag(bool_at(value, "required"@), true),
                                        large_model_opt_in: or_flag(
                                            bool_at(value, "large_model_opt_in"@),
                                            false,
                                        ),
                                        no_bos: or_flag(bool_at(value, "no_bos"@), false),
                                        hf_reference: nonempty(text_at(value, "hf_reference"@)),
                                        timeout_seconds,
                                        min_tok_per_s,
                                        max_prefill_ms,
                                        max_decode_ms,
                                    },
                                ),
                            },
                        },
                    }
                },
            }
        },
    }
}

fn flag_or(flag: Option<bool>, default: bool) -> (r: bool)
    ensures
        r == or_flag(flag, default),
{
    match flag {
        Some(b) => b,
        None => default,
    }
}

fn name_taken(cases: &Vec<SuiteCase>, name: &str) -> (r: bool)
    ensures
        r == taken(suite_models(cases@), name@),
{
    let ghost all = suite_models(cases@);
    let mut i: usize = 0;
    while i < cases.len()
        invariant
            i <= cases@.len(),
            all == suite_models(cases@),
            forall|j: int| 0 <= j < i ==> (#[trigger] all[j]).name != name@,
        decreases cases@.len() - i,
    {
        if same(cases[i].name.as_str(), name) {
            assert(all[i as int].name == name@);
            return true;
        }
        assert(all[i as int].name != name@);
        i = i + 1;
    }
    false
}

/// Reads one case of a manifest.
pub fn parse_case(idx: usize, value: &serde_json::Value, earlier: &Vec<SuiteCase>) -> (r: Result<
    SuiteCase,
    String,
>)
    ensures
        match r {
            Ok(case) => suite_case_of(json_model(*value), idx as int, suite_models(earlier@))
                == Ok::<SuiteCaseModel, Seq<char>>(case@),
            Err(e) => suite_case_of(json_model(*value), idx as int, suite_models(earlier@))
                == Err::<SuiteCaseModel, Seq<char>>(e@),
        },
{
    let name = match required_string(value, "name", idx) {
        Ok(text) => text.to_owned(),
        Err(message) => {
            return Err(message);
        },
    };
    if name_taken(earlier, name.as_str()) {
        let shown = quoted_text(name.as_str());
        return Err(cat2("duplicate case name ", shown.as_str()));
    }
    let limits = match limits_of(value, name.as_str()) {
        Ok(limits) => limits,
        Err(message) => {
            return Err(message);
        },
    };
    if member(value, "expected_error_contains").is_some() {
        return Err(
            cat3(
                "case ",
                name.as_str(),
                " uses expected_error_contains; model-suite cases must pass, fail, or skip missing optional models",
            ),
        );
    }
    let gates = match gates_of(value, name.as_str()) {
        Ok(gates) => gates,
        Err(message) => {
            return Err(message);
        },
    };
    let model_dir = match required_string(value, "model_dir", idx) {
        Ok(text) => text.to_owned(),
        Err(message) => {
            return Err(message);
        },
    };
    let prompt = match required_string(value, "prompt", idx) {
        Ok(text) => text.to_owned(),
        Err(message) => {
            return Err(message);
        },
    };
    let hf_reference = match json_optional_string_field(value, "hf_reference") {
        Some(path) => Some(path.to_owned()),
        None => None,
    };
    Ok(
        SuiteCase {
            name,
            model_dir,
            prompt,
            max_new_tokens: limits.0,
            max_total_tokens: limits.1,
            required: flag_or(optional_bool(value, "required"), true),
            large_model_opt_in: flag_or(optional_bool(value, "large_model_opt_in"), false),
            no_bos: flag_or(optional_bool(value, "no_bos"), false),
            hf_reference,
            timeout_seconds: limits.2,
            min_tok_per_s: gates.0,
            max_prefill_ms: gates.1,
            max_decode_ms: gates.2,
        },
    )
}

/// The cases of a manifest from `i` on, after those already read.
pub open spec fn suite_cases_from(
    items: Seq<JsonModel>,
    i: int,
    cases: Seq<SuiteCaseModel>,
) -> Result<Seq<SuiteCaseModel>, Seq<char>>
    decreases items.len() - i,
{
    if i >= items.len() {
        Ok(cases)
    } else {
        match suite_case_of(items[i], i, cases) {
            Err(message) => Err(message),
            Ok(case) => suite_cases_from(items, i + 1, cases.push(case)),
        }
    }
}

pub open spec fn suite_schema() -> Seq<char> {
    "rvllm.apple_metal_model_suite_manifest.v1"@
}

/// The cases of a manifest.
pub open spec fn suite_cases(document: Result<JsonModel, Seq<char>>) -> Result<
    Seq<SuiteCaseModel>,
    Seq<char>,
> {
    match document {
        Err(message) => Err("parse manifest json: "@ + message),
        Ok(value) => match text_at(value, "schema"@) {
            None => Err("manifest missing schema"@),
            Some(schema) => if schema != suite_schema() {
                Err(
                    "manifest schema must be "@ + quoted(suite_schema()) + "; got "@ + quoted(
                        schema,
                    ),
                )
            } else {
                match array_at(value, "cases"@) {
                    None => Err("manifest cases must be an array"@),
                    Some(items) => if items.len() == 0 {
                        Err("manifest must contain at least one case"@)
                    } else {
                        suite_cases_from(items, 0, Seq::empty())
                    },
                }
            },
        },
    }
}

pub open spec fn suite_told(r: Result<Vec<SuiteCase>, String>) -> Result<
    Seq<SuiteCaseModel>,
    Seq<char>,
> {
    match r {
        Ok(cases) => Ok(suite_models(cases@)),
        Err(e) => Err(e@),
    }
}

/// Reads the cases of a parsed manifest.
pub fn manifest_cases(value: &serde_json::Value) -> (r: Result<Vec<SuiteCase>, String>)
    ensures
        suite_told(r) == suite_cases(Ok(json_model(*value))),
{
    match member_text(value, "schema") {
        None => {
            return Err("manifest missing schema".to_owned());
        },
        Some(schema) => {
            if !same(schema, "rvllm.apple_metal_model_suite_manifest.v1") {
                let wanted = quoted_text("rvllm.apple_metal_model_suite_manifest.v1");
                let shown = quoted_text(schema);
                return Err(
                    cat4("manifest schema must be ", wanted.as_str(), "; got ", shown.as_str()),
                );
            }
        },
    }
    let items = match member_array(value, "cases") {
        None => {
            return Err("manifest cases must be an array".to_owned());
        },
        Some(items) => items,
    };
    if items.len() == 0 {
        return Err("manifest must contain at least one case".to_owned());
    }
    let ghost all = models(items@);
    let mut cases: Vec<SuiteCase> = Vec::new();
    let mut i: usize = 0;
    assert(suite_models(cases@) =~= Seq::empty());
    while i < items.len()
        invariant
            i <= items@.len(),
            all == models(items@),
            suite_cases(Ok(json_model(*value))) == suite_cases_from(
                all,
                i as int,
                suite_models(cases@),
            ),
        decreases items@.len() - i,
    {
        assert(all[i as int] == json_model(items@[i as int]));
        match parse_case(i, &items[i], &cases) {
            Ok(case) => {
                let ghost before = cases@;
                cases.push(case);
                assert(suite_models(cases@) =~= suite_models(before).push(case@));
            },
            Err(message) => {
                return Err(message);
            },
        }
        i = i + 1;
    }
    Ok(cases)
}

/// Reads the cases of a manifest's text.
pub fn parse_manifest(raw: &str) -> (r: Result<Vec<SuiteCase>, String>)
    ensures
        suite_told(r) == suite_cases(json_document(raw@)),
{
    match parse_text(raw) {
        Ok(value) => manifest_cases(&value),
        Err(error) => Err(cat2("parse manifest json: ", error.as_str())),
    }
}

/// The cases of an accepted manifest have distinct names, positive limits and
/// finite positive gates.
pub open spec fn sound_cases(cases: Seq<SuiteCaseModel>) -> bool {
    &&& forall|i: int, j: int| 0 <= i < j < cases.len() ==> cases[i].name != cases[j].name
    &&& forall|i: int|
        0 <= i < cases.len() ==> {
            let case = #[trigger] cases[i];
            &&& case.name.len() > 0 && case.model_dir.len() > 0 && case.prompt.len() > 0
            &&& case.max_new_tokens > 0 && case.max_total_tokens > 0 && case.timeout_seconds > 0
            &&& gate_is_positive(case.min_tok_per_s)
            &&& gate_is_positive(case.max_prefill_ms)
            &&& gate_is_positive(case.max_decode_ms)
        }
}

pub open spec fn gate_is_positive(gate: Option<u64>) -> bool {
    match gate {
        Some(bits) => finite_bits(bits) && double_key(bits) > 0,
        None => true,
    }
}

/// Whatever manifest is accepted, its cases are sound.
pub proof fn accepted_manifests_are_sound(document: Result<JsonModel, Seq<char>>)
    requires
        suite_cases(document) is Ok,
    ensures
        sound_cases(suite_cases(document)->Ok_0),
        suite_cases(document)->Ok_0.len() > 0,
{
    let items = array_at(document->Ok_0, "cases"@)->0;
    sound_from(items, 0, Seq::empty());
}

proof fn sound_from(items: Seq<JsonModel>, i: int, cases: Seq<SuiteCaseModel>)
    requires
        0 <= i <= items.len(),
        cases.len() == i,
        sound_cases(cases),
        suite_cases_from(items, i, cases) is Ok,
    ensures
        sound_cases(suite_cases_from(items, i, cases)->Ok_0),
        suite_cases_from(items, i, cases)->Ok_0.len() == items.len(),
    decreases items.len() - i,
{
    if i < items.len() {
        let case = suite_case_of(items[i], i, cases)->Ok_0;
        let next = cases.push(case);
        assert forall|a: int, b: int| 0 <= a < b < next.len() implies next[a].name
            != next[b].name by {
            if b == cases.len() {
                assert(next[a] == cases[a]);
                if cases[a].name == case.name {
                    assert(taken(cases, case.name));
                }
            }
        }
        assert forall|a: int| 0 <= a < next.len() implies {
            let c = #[trigger] next[a];
            &&& c.name.len() > 0 && c.model_dir.len() > 0 && c.prompt.len() > 0
            &&& c.max_new_tokens > 0 && c.max_total_tokens > 0 && c.timeout_seconds > 0
            &&& gate_is_positive(c.min_tok_per_s)
            &&& gate_is_positive(c.max_prefill_ms)
            &&& gate_is_positive(c.max_decode_ms)
        } by {
            if a < cases.len() {
                assert(next[a] == cases[a]);
            }
        }
        sound_from(items, i + 1, next);
    }
}

// ---------------------------------------------------------------------------
// Running a case
// ---------------------------------------------------------------------------

/// The command line that runs a case.
pub open spec fn command_of(infer_bin: Seq<char>, case: SuiteCaseModel) -> Seq<Seq<char>> {
    let base = seq![
        infer_bin,
        "--model-dir"@,
        case.model_dir,
        "--prompt"@,
        case.prompt,
        "--max-new-tokens"@,
        decimal(case.max_new_tokens as nat),
        "--max-total-tokens"@,
        decimal(case.max_total_tokens as nat),
        "--json"@,
    ];
    let opted = if case.large_model_opt_in {
        base.push("--large-model-opt-in"@)
    } else {
        base
    };
    let bare = if case.no_bos {
        opted.push("--no-bos"@)
    } else {
        opted
    };
    match case.hf_reference {
        Some(path) => bare.push("--hf-reference"@).push(path),
        None => bare,
    }
}

fn push_text(command: &mut Vec<String>, text: &str)
    ensures
        texts(final(command)@) == texts(old(command)@).push(text@),
{
    let ghost before = command@;
    command.push(text.to_owned());
    assert(texts(command@) =~= texts(before).push(text@));
}

pub fn case_command(infer_bin: &str, case: &SuiteCase) -> (r: Vec<String>)
    ensures
        texts(r@) == command_of(infer_bin@, case@),
{
    let mut command: Vec<String> = Vec::new();
    let fresh = decimal_text(case.max_new_tokens as u64);
    let total = decimal_text(case.max_total_tokens as u64);
    push_text(&mut command, infer_bin);
    push_text(&mut command, "--model-dir");
    push_text(&mut command, case.model_dir.as_str());
    push_text(&mut command, "--prompt");
    push_text(&mut command, case.prompt.as_str());
    push_text(&mut command, "--max-new-tokens");
    push_text(&mut command, fresh.as_str());
    push_text(&mut command, "--max-total-tokens");
    push_text(&mut command, total.as_str());
    push_text(&mut command, "--json");
    if case.large_model_opt_in {
        push_text(&mut command, "--large-model-opt-in");
    }
    if case.no_bos {
        push_text(&mut command, "--no-bos");
    }
    match &case.hf_reference {
        Some(path) => {
            push_text(&mut command, "--hf-reference");
            push_text(&mut command, path.as_str());
        },
        None => {},
    }
    assert(texts(command@) =~= command_of(infer_bin@, case@));
    command
}

/// Whether a case runs, given what exists.
#[derive(Clone, Copy, Debug, PartialEq, Eq, Structural)]
pub enum CaseStart {
    MissingModel,
    SkipMissingModel,
    MissingReference,
    Run,
}

pub open spec fn start_of(case: SuiteCaseModel, model_exists: bool, reference_exists: bool) -> CaseStart {
    if !model_exists {
        if case.required {
            CaseStart::MissingModel
        } else {
            CaseStart::SkipMissingModel
        }
    } else if case.hf_reference is Some && !reference_exists {
        CaseStart::MissingReference
    } else {
        CaseStart::Run
    }
}

pub fn case_start(case: &SuiteCase, model_exists: bool, reference_exists: bool) -> (r: CaseStart)
    ensures
        r == start_of(case@, model_exists, reference_exists),
{
    if !model_exists {
        if case.required {
            CaseStart::MissingModel
        } else {
            CaseStart::SkipMissingModel
        }
    } else if case.hf_reference.is_some() && !reference_exists {
        CaseStart::MissingReference
    } else {
        CaseStart::Run
    }
}

pub open spec fn start_status(start: CaseStart) -> Seq<char> {
    match start {
        CaseStart::MissingModel => "missing_model"@,
        CaseStart::SkipMissingModel => "skip_missing_model"@,
        CaseStart::MissingReference => "missing_reference"@,
        CaseStart::Run => "pass"@,
    }
}

impl CaseStart {
    /// The status of a case that does not run; a case that runs gets its own.
    pub fn status(self) -> (r: &'static str)
        ensures
            r@ == start_status(self),
    {
        match self {
            CaseStart::MissingModel => "missing_model",
            CaseStart::SkipMissingModel => "skip_missing_model",
            CaseStart::MissingReference => "missing_reference",
            CaseStart::Run => "pass",
        }
    }
}

/// The report in a case's output: a document from its first brace on.
pub open spec fn stdout_document(stdout: Seq<char>) -> Result<JsonModel, Seq<char>> {
    let start = find_char(stdout, '{', 0);
    if start >= stdout.len() {
        Err("stdout did not contain a JSON object"@)
    } else {
        match json_document(stdout.subrange(start, stdout.len() as int)) {
            Ok(document) => Ok(document),
            Err(message) => Err("parse stdout json: "@ + message),
        }
    }
}

/// What becomes of a running case.
#[derive(Clone, Copy, Debug, PartialEq, Eq, Structural)]
pub enum WaitStep {
    /// It ended: its output is collected.
    Collect,
    /// Its time is over: it is killed, and its output is collected.
    Kill,
    /// It is looked at again later.
    Poll,
}

/// Decides what becomes of a case that has run for `elapsed` whole seconds.
pub fn wait_step(exited: bool, elapsed: u64, timeout: u64) -> (r: WaitStep)
    ensures
        r == if exited {
            WaitStep::Collect
        } else if elapsed >= timeout {
            WaitStep::Kill
        } else {
            WaitStep::Poll
        },
{
    if exited {
        WaitStep::Collect
    } else if elapsed >= timeout {
        WaitStep::Kill
    } else {
        WaitStep::Poll
    }
}

pub fn parse_json_from_stdout(stdout: &str) -> (r: Result<serde_json::Value, String>)
    ensures
        parsed(r) == stdout_document(stdout@),
{
    let chars = chars_of(stdout);
    let start: usize = find_in(&chars, '{', 0);
    if start >= chars.len() {
        return Err("stdout did not contain a JSON object".to_owned());
    }
    let rest = text_between(&chars, start, chars.len());
    match parse_text(rest.as_str()) {
        Ok(value) => Ok(value),
        Err(error) => Err(cat2("parse stdout json: ", error.as_str())),
    }
}

/// What a performance gate measures.
#[derive(Clone, Copy, Debug, PartialEq, Eq, Structural)]
pub enum Metric {
    TokPerS,
    PrefillMs,
    DecodeMs,
}

pub open spec fn metric_name(metric: Metric) -> Seq<char> {
    match metric {
        Metric::TokPerS => "tok_per_s"@,
        Metric::PrefillMs => "prefill_ms"@,
        Metric::DecodeMs => "decode_ms"@,
    }
}

impl Metric {
    pub fn name(self) -> (r: &'static str)
        ensures
            r@ == metric_name(self),
    {
        match self {
            Metric::TokPerS => "tok_per_s",
            Metric::PrefillMs => "prefill_ms",
            Metric::DecodeMs => "decode_ms",
        }
    }
}

/// A gate that a report does not meet.
#[derive(Clone, Copy, Debug, PartialEq, Eq, Structural)]
pub enum GateFailure {
    BelowMinimum { metric: Metric, actual: u64, minimum: u64 },
    AboveMaximum { metric: Metric, actual: u64, maximum: u64 },
    Missing { metric: Metric },
}

/// How a report fails one gate, if it does. A rate has a minimum; a duration
/// has a maximum. A metric that is missing fails.
pub open spec fn gate_failure(report: JsonModel, metric: Metric, gate: Option<u64>) -> Option<
    GateFailure,
> {
    match gate {
        None => None,
        Some(bound) => match at(report, metric_name(metric)) {
            Some(JsonModel::Number(number)) => {
                let actual = number_bits(number);
                if metric == Metric::TokPerS {
                    if finite_bits(actual) && double_key(actual) >= double_key(bound) {
                        None
                    } else {
                        Some(GateFailure::BelowMinimum { metric, actual, minimum: bound })
                    }
                } else {
                    if finite_bits(actual) && double_key(actual) <= double_key(bound) {
                        None
                    } else {
                        Some(GateFailure::AboveMaximum { metric, actual, maximum: bound })
                    }
                }
            },
            _ => Some(GateFailure::Missing { metric }),
        },
    }
}

pub open spec fn failure_list(failure: Option<GateFailure>) -> Seq<GateFailure> {
    match failure {
        Some(f) => seq![f],
        None => Seq::empty(),
    }
}

/// The gates that a report does not meet, in order.
pub open spec fn gate_failures(report: JsonModel, case: SuiteCaseModel) -> Seq<GateFailure> {
    failure_list(gate_failure(report, Metric::TokPerS, case.min_tok_per_s)) + failure_list(
        gate_failure(report, Metric::PrefillMs, case.max_prefill_ms),
    ) + failure_list(gate_failure(report, Metric::DecodeMs, case.max_decode_ms))
}

fn check_gate(report: &serde_json::Value, metric: Metric, gate: Option<u64>) -> (r: Option<
    GateFailure,
>)
    ensures
        r == gate_failure(json_model(*report), metric, gate),
{
    let bound: u64 = match gate {
        None => {
            return None;
        },
        Some(bound) => bound,
    };
    let actual: u64 = match member(report, metric.name()) {
        None => {
            return Some(GateFailure::Missing { metric });
        },
        Some(value) => match as_bits(value) {
            None => {
                return Some(GateFailure::Missing { metric });
            },
            Some(bits) => bits,
        },
    };
    let finite = is_finite_double(actual);
    if matches!(metric, Metric::TokPerS) {
        if finite && key_of_double(actual) >= key_of_double(bound) {
            None
        } else {
            Some(GateFailure::BelowMinimum { metric, actual, minimum: bound })
        }
    } else {
        if finite && key_of_double(actual) <= key_of_double(bound) {
            None
        } else {
            Some(GateFailure::AboveMaximum { metric, actual, maximum: bound })
        }
    }
}

pub fn performance_gate_failures(report: &serde_json::Value, case: &SuiteCase) -> (r: Vec<
    GateFailure,
>)
    ensures
        r@ == gate_failures(json_model(*report), case@),
{
    let mut failures: Vec<GateFailure> = Vec::new();
    match check_gate(report, Metric::TokPerS, case.min_tok_per_s) {
        Some(failure) => {
            failures.push(failure);
        },
        None => {},
    }
    match check_gate(report, Metric::PrefillMs, case.max_prefill_ms) {
        Some(failure) => {
            failures.push(failure);
        },
        None => {},
    }
    match check_gate(report, Metric::DecodeMs, case.max_decode_ms) {
        Some(failure) => {
            failures.push(failure);
        },
        None => {},
    }
    assert(failures@ =~= gate_failures(json_model(*report), case@));
    failures
}

/// Whether a report says that it differs from its reference.
pub open spec fn reports_mismatch(report: JsonModel) -> bool {
    match at2(report, "hf_reference"@, "matched"@) {
        Some(matched) => bool_of(matched) == Some(false),
        None => false,
    }
}

/// A case passes when its process succeeded in time, and its output holds a
/// report that neither differs from its reference nor misses a gate.
pub open spec fn case_passed(
    timed_out: bool,
    success: bool,
    report: Option<JsonModel>,
    case: SuiteCaseModel,
) -> bool {
    !timed_out && success && match report {
        Some(document) => !reports_mismatch(document) && gate_failures(document, case).len() == 0,
        None => false,
    }
}

pub fn case_verdict(
    timed_out: bool,
    success: bool,
    report: Option<&serde_json::Value>,
    case: &SuiteCase,
) -> (r: &'static str)
    ensures
        r@ == if case_passed(timed_out, success, crate::json::opt_model(report), case@) {
            "pass"@
        } else {
            "fail"@
        },
{
    if timed_out || !success {
        return "fail";
    }
    match report {
        None => "fail",
        Some(document) => {
            let mismatch = match member2(document, "hf_reference", "matched") {
                Some(matched) => match crate::json::as_flag(matched) {
                    Some(flag) => !flag,
                    None => false,
                },
                None => false,
            };
            if mismatch {
                return "fail";
            }
            if performance_gate_failures(document, case).len() != 0 {
                return "fail";
            }
            "pass"
        },
    }
}

// ---------------------------------------------------------------------------
// The suite
// ---------------------------------------------------------------------------

pub open spec fn is_skip(status: Seq<char>) -> bool {
    "skip_"@.is_prefix_of(status)
}

/// The verdict on a suite, with its counts.
#[derive(Debug)]
pub struct SuiteSummary {
    pub passed: usize,
    pub skipped: usize,
    pub status: &'static str,
}

/// How many of the first statuses satisfy a predicate.
pub open spec fn count_where(statuses: Seq<Seq<char>>, p: spec_fn(Seq<char>) -> bool, n: int) -> nat
    decreases n,
{
    if n <= 0 {
        0
    } else {
        count_where(statuses, p, n - 1) + if p(statuses[n - 1]) {
            1nat
        } else {
            0nat
        }
    }
}

/// A suite passes when each of its cases passed or was skipped.
pub open spec fn suite_passes(statuses: Seq<Seq<char>>) -> bool {
    forall|i: int|
        0 <= i < statuses.len() ==> (#[trigger] statuses[i]) == "pass"@ || is_skip(statuses[i])
}

pub fn summarize_suite(statuses: &Vec<String>) -> (r: SuiteSummary)
    ensures
        r.passed == count_where(
            texts(statuses@),
            |s: Seq<char>| s == "pass"@,
            statuses@.len() as int,
        ),
        r.skipped == count_where(
            texts(statuses@),
            |s: Seq<char>| is_skip(s),
            statuses@.len() as int,
        ),
        r.status@ == if suite_passes(texts(statuses@)) {
            "pass"@
        } else {
            "fail"@
        },
{
    let ghost all = texts(statuses@);
    let ghost pass = |s: Seq<char>| s == "pass"@;
    let ghost skip = |s: Seq<char>| is_skip(s);
    let mut passed: usize = 0;
    let mut skipped: usize = 0;
    let mut good = true;
    let mut i: usize = 0;
    while i < statuses.len()
        invariant
            i <= statuses@.len(),
            all == texts(statuses@),
            pass == (|s: Seq<char>| s == "pass"@),
            skip == (|s: Seq<char>| is_skip(s)),
            passed == count_where(all, pass, i as int),
            skipped == count_where(all, skip, i as int),
            passed <= i,
            skipped <= i,
            good == forall|j: int|
                0 <= j < i ==> (#[trigger] all[j]) == "pass"@ || is_skip(all[j]),
        decreases statuses@.len() - i,
    {
        let status = statuses[i].as_str();
        assert(all[i as int] == status@);
        let is_pass = same(status, "pass");
        let skips = has_prefix(status, "skip_");
        if is_pass {
            passed = passed + 1;
        }
        if skips {
            skipped = skipped + 1;
        }
        if !is_pass && !skips {
            good = false;
        }
        i = i + 1;
    }
    SuiteSummary {
        passed,
        skipped,
        status: if good {
            "pass"
        } else {
            "fail"
        },
    }
}

} // verus!
