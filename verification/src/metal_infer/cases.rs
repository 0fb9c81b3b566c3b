//! Session cases: from a JSON Lines file of prompts, or from a manifest of
//! reference generations.
use crate::json::{
    array_at, as_flag, as_natural, as_text, at, bool_of, is_object, json_document, json_model,
    member, member_array, member_text, models, natural_of, opt_str, parse_text, text_at, text_of,
    JsonModel,
};
use crate::metal_infer::args::{CliArgs, CliModel};
use crate::metal_infer::budget::{
    effective_limit, effective_max_total_tokens, parse_max_total_tokens, token_budget, token_limit,
    validate_token_budget, EnvValue,
};
use crate::paths::{is_absolute, join_path, joined, path_is_absolute};
use crate::text::{
    cat2, cat3, cat4, cat5, cat6, decimal, decimal_text, lines, lines_of, numeral, opt_text,
    parse_numeral, quoted, quoted_text, same, texts, told, trim_text, trimmed,
};
use vstd::prelude::*;

verus! {

/// One case of a session.
#[derive(Debug)]
pub struct SessionCaseSpec {
    pub name: String,
    pub prompt: String,
    pub max_new_tokens: usize,
    pub max_total_tokens: Option<usize>,
    pub no_bos: bool,
    pub hf_reference: Option<String>,
}

pub struct CaseModel {
    pub name: Seq<char>,
    pub prompt: Seq<char>,
    pub max_new_tokens: usize,
    pub max_total_tokens: Option<usize>,
    pub no_bos: bool,
    pub hf_reference: Option<Seq<char>>,
}

impl View for SessionCaseSpec {
    type V = CaseModel;

    open spec fn view(&self) -> CaseModel {
        CaseModel {
            name: self.name@,
            prompt: self.prompt@,
            max_new_tokens: self.max_new_tokens,
            max_total_tokens: self.max_total_tokens,
            no_bos: self.no_bos,
            hf_reference: opt_text(self.hf_reference),
        }
    }
}

pub open spec fn case_models(cases: Seq<SessionCaseSpec>) -> Seq<CaseModel> {
    Seq::new(cases.len(), |i: int| cases[i]@)
}

pub open spec fn case_told(r: Result<SessionCaseSpec, String>) -> Result<CaseModel, Seq<char>> {
    match r {
        Ok(case) => Ok(case@),
        Err(e) => Err(e@),
    }
}

pub open spec fn cases_told(r: Result<Vec<SessionCaseSpec>, String>) -> Result<
    Seq<CaseModel>,
    Seq<char>,
> {
    match r {
        Ok(cases) => Ok(case_models(cases@)),
        Err(e) => Err(e@),
    }
}

// ---------------------------------------------------------------------------
// Members of a case
// ---------------------------------------------------------------------------

/// A text, unless it is empty.
pub open spec fn nonempty(text: Option<Seq<char>>) -> Option<Seq<char>> {
    match text {
        Some(t) => if t.len() == 0 {
            None
        } else {
            Some(t)
        },
        None => None,
    }
}

pub fn json_optional_string_field<'a>(value: &'a serde_json::Value, field: &str) -> (r: Option<
    &'a str,
>)
    ensures
        opt_str(r) == nonempty(text_at(json_model(*value), field@)),
{
    match member_text(value, field) {
        Some(text) => {
            if text.is_empty() {
                None
            } else {
                Some(text)
            }
        },
        None => None,
    }
}

pub open spec fn required_text(value: JsonModel, field: Seq<char>, case_name: Seq<char>) -> Result<
    Seq<char>,
    Seq<char>,
> {
    match nonempty(text_at(value, field)) {
        Some(text) => Ok(text),
        None => Err(
            "session case "@ + case_name + " missing non-empty string field "@ + quoted(field),
        ),
    }
}

pub open spec fn str_told(r: Result<&str, String>) -> Result<Seq<char>, Seq<char>> {
    match r {
        Ok(text) => Ok(text@),
        Err(e) => Err(e@),
    }
}

pub fn json_string_field<'a>(value: &'a serde_json::Value, field: &str, case_name: &str) -> (r:
    Result<&'a str, String>)
    ensures
        str_told(r) == required_text(json_model(*value), field@, case_name@),
{
    match json_optional_string_field(value, field) {
        Some(text) => Ok(text),
        None => {
            let shown = quoted_text(field);
            Err(
                cat4(
                    "session case ",
                    case_name,
                    " missing non-empty string field ",
                    shown.as_str(),
                ),
            )
        },
    }
}

/// A positive count where the member exists.
pub open spec fn optional_count(value: JsonModel, field: Seq<char>, case_name: Seq<char>) -> Result<
    Option<usize>,
    Seq<char>,
> {
    match at(value, field) {
        None => Ok(None),
        Some(raw) => match natural_of(raw) {
            None => Err(
                "session case "@ + case_name + " field "@ + quoted(field)
                    + " must be a positive integer"@,
            ),
            Some(number) => if number > usize::MAX {
                Err(
                    "session case "@ + case_name + " field "@ + quoted(field) + " is too large: "@
                        + decimal(number as nat),
                )
            } else if number == 0 {
                Err(
                    "session case "@ + case_name + " field "@ + quoted(field)
                        + " must be positive"@,
                )
            } else {
                Ok(Some(number as usize))
            },
        },
    }
}

pub fn json_positive_usize_field(value: &serde_json::Value, field: &str, case_name: &str) -> (r:
    Result<Option<usize>, String>)
    ensures
        told(r) == optional_count(json_model(*value), field@, case_name@),
{
    let raw = match member(value, field) {
        None => {
            return Ok(None);
        },
        Some(raw) => raw,
    };
    let shown = quoted_text(field);
    match as_natural(raw) {
        None => Err(
            cat5(
                "session case ",
                case_name,
                " field ",
                shown.as_str(),
                " must be a positive integer",
            ),
        ),
        Some(number) => {
            if number > usize::MAX as u64 {
                let text = decimal_text(number);
                return Err(
                    cat6(
                        "session case ",
                        case_name,
                        " field ",
                        shown.as_str(),
                        " is too large: ",
                        text.as_str(),
                    ),
                );
            }
            if number == 0 {
                return Err(
                    cat5("session case ", case_name, " field ", shown.as_str(), " must be positive"),
                );
            }
            Ok(Some(number as usize))
        },
    }
}

/// A boolean where the member exists.
pub open spec fn optional_flag(value: JsonModel, field: Seq<char>, case_name: Seq<char>) -> Result<
    Option<bool>,
    Seq<char>,
> {
    match at(value, field) {
        None => Ok(None),
        Some(raw) => match bool_of(raw) {
            Some(flag) => Ok(Some(flag)),
            None => Err(
                "session case "@ + case_name + " field "@ + quoted(field) + " must be boolean"@,
            ),
        },
    }
}

pub fn json_optional_bool_field(value: &serde_json::Value, field: &str, case_name: &str) -> (r:
    Result<Option<bool>, String>)
    ensures
        told(r) == optional_flag(json_model(*value), field@, case_name@),
{
    match member(value, field) {
        None => Ok(None),
        Some(raw) => match as_flag(raw) {
            Some(flag) => Ok(Some(flag)),
            None => {
                let shown = quoted_text(field);
                Err(cat5("session case ", case_name, " field ", shown.as_str(), " must be boolean"))
            },
        },
    }
}

pub fn resolve_relative_path(base: &str, raw: &str) -> (r: String)
    ensures
        r@ == joined(base@, raw@),
{
    join_path(base, raw)
}

/// A limit that the case gives, or the command line's; either must be one that
/// metadata can hold.
pub open spec fn case_limit(given: Option<usize>, fallback: Option<usize>) -> Result<
    Option<usize>,
    Seq<char>,
> {
    let limit = match given {
        Some(n) => Some(n),
        None => fallback,
    };
    match limit {
        None => Ok(None),
        Some(n) => match token_limit("max_total_tokens"@, decimal(n as nat)) {
            Ok(_) => Ok(Some(n)),
            Err(message) => Err(message),
        },
    }
}

fn checked_limit(given: Option<usize>, fallback: Option<usize>) -> (r: Result<
    Option<usize>,
    String,
>)
    ensures
        told(r) == case_limit(given, fallback),
{
    let limit = match given {
        Some(n) => Some(n),
        None => fallback,
    };
    match limit {
        None => Ok(None),
        Some(n) => {
            let text = decimal_text(n as u64);
            match parse_max_total_tokens("max_total_tokens", text.as_str()) {
                Ok(_) => Ok(Some(n)),
                Err(message) => Err(message),
            }
        },
    }
}

fn copied(text: &Option<String>) -> (r: Option<String>)
    ensures
        opt_text(r) == opt_text(*text),
{
    match text {
        Some(t) => Some(t.clone()),
        None => None,
    }
}

// ---------------------------------------------------------------------------
// JSON Lines
// ---------------------------------------------------------------------------

/// The case that a document describes; what it leaves out comes from the
/// command line.
pub open spec fn case_of(
    value: JsonModel,
    default_name: Seq<char>,
    base_dir: Seq<char>,
    args: CliModel,
) -> Result<CaseModel, Seq<char>> {
    let name = match nonempty(text_at(value, "name"@)) {
        Some(text) => text,
        None => default_name,
    };
    let given = match nonempty(text_at(value, "hf_reference"@)) {
        Some(text) => Some(text),
        None => nonempty(text_at(value, "reference_path"@)),
    };
    if !(value is Object) {
        Err("session case "@ + default_name + " must be a JSON object"@)
    } else {
        match required_text(value, "prompt"@, name) {
            Err(message) => Err(message),
            Ok(prompt) => match optional_count(value, "max_new_tokens"@, name) {
                Err(message) => Err(message),
                Ok(fresh) => match optional_count(value, "max_total_tokens"@, name) {
                    Err(message) => Err(message),
                    Ok(total) => match case_limit(total, args.max_total_tokens) {
                        Err(message) => Err(message),
                        Ok(max_total_tokens) => match optional_flag(value, "no_bos"@, name) {
                            Err(message) => Err(message),
                            Ok(no_bos) => Ok(
                                CaseModel {
                                    name,
                                    prompt,
                                    max_new_tokens: match fresh {
                                        Some(n) => n,
                                        None => args.max_new_tokens,
                                    },
                                    max_total_tokens,
                                    no_bos: match no_bos {
                                        Some(flag) => flag,
                                        None => args.no_bos,
                                    },
                                    hf_reference: match given {
                                        Some(path) => Some(joined(base_dir, path)),
                                        None => args.hf_reference,
                                    },
                                },
                            ),
                        },
                    },
                },
            },
        }
    }
}

pub fn session_case_from_value(
    value: &serde_json::Value,
    default_name: &str,
    base_dir: &str,
    args: &CliArgs,
) -> (r: Result<SessionCaseSpec, String>)
    ensures
        case_told(r) == case_of(json_model(*value), default_name@, base_dir@, args.model()),
{
    if !is_object(value) {
        return Err(cat3("session case ", default_name, " must be a JSON object"));
    }
    let name = match json_optional_string_field(value, "name") {
        Some(text) => text.to_owned(),
        None => default_name.to_owned(),
    };
    let prompt = match json_string_field(value, "prompt", name.as_str()) {
        Ok(text) => text.to_owned(),
        Err(message) => {
            return Err(message);
        },
    };
    let max_new_tokens: usize = match json_positive_usize_field(
        value,
        "max_new_tokens",
        name.as_str(),
    ) {
        Ok(Some(n)) => n,
        Ok(None) => args.max_new_tokens,
        Err(message) => {
            return Err(message);
        },
    };
    let total = match json_positive_usize_field(value, "max_total_tokens", name.as_str()) {
        Ok(total) => total,
        Err(message) => {
            return Err(message);
        },
    };
    let max_total_tokens = match checked_limit(total, args.max_total_tokens) {
        Ok(limit) => limit,
        Err(message) => {
            return Err(message);
        },
    };
    let no_bos = match json_optional_bool_field(value, "no_bos", name.as_str()) {
        Ok(Some(flag)) => flag,
        Ok(None) => args.no_bos,
        Err(message) => {
            return Err(message);
        },
    };
    let given = match json_optional_string_field(value, "hf_reference") {
        Some(path) => Some(path),
        None => json_optional_string_field(value, "reference_path"),
    };
    let hf_reference = match given {
        Some(path) => Some(resolve_relative_path(base_dir, path)),
        None => copied(&args.hf_reference),
    };
    Ok(SessionCaseSpec { name, prompt, max_new_tokens, max_total_tokens, no_bos, hf_reference })
}

/// Whether two cases share a name; the later one is reported.
pub open spec fn name_repeats(cases: Seq<CaseModel>, i: int) -> bool {
    exists|j: int| 0 <= j < i && (#[trigger] cases[j]).name == cases[i].name
}

/// The first case from `i` on whose name an earlier case has.
pub open spec fn first_repeat(cases: Seq<CaseModel>, i: int) -> Option<Seq<char>>
    decreases cases.len() - i,
{
    if i >= cases.len() {
        None
    } else if name_repeats(cases, i) {
        Some(cases[i].name)
    } else {
        first_repeat(cases, i + 1)
    }
}

pub open spec fn unique_names(cases: Seq<CaseModel>) -> Result<(), Seq<char>> {
    match first_repeat(cases, 0) {
        Some(name) => Err("duplicate session case name: "@ + name),
        None => Ok(()),
    }
}

pub fn validate_unique_case_names(cases: &Vec<SessionCaseSpec>) -> (r: Result<(), String>)
    ensures
        told(r) == unique_names(case_models(cases@)),
{
    let ghost all = case_models(cases@);
    let mut i: usize = 0;
    while i < cases.len()
        invariant
            i <= cases@.len(),
            all == case_models(cases@),
            first_repeat(all, 0) == first_repeat(all, i as int),
        decreases cases@.len() - i,
    {
        let mut j: usize = 0;
        while j < i
            invariant
                j <= i < cases@.len(),
                all == case_models(cases@),
                first_repeat(all, 0) == first_repeat(all, i as int),
                forall|k: int| 0 <= k < j ==> (#[trigger] all[k]).name != all[i as int].name,
            decreases i - j,
        {
            if same(cases[j].name.as_str(), cases[i].name.as_str()) {
                assert(all[j as int].name == all[i as int].name);
                assert(name_repeats(all, i as int));
                return Err(cat2("duplicate session case name: ", cases[i].name.as_str()));
            }
            j = j + 1;
        }
        assert(!name_repeats(all, i as int));
        i = i + 1;
    }
    Ok(())
}

/// Accepted cases have distinct names.
pub proof fn accepted_names_are_distinct(cases: Seq<CaseModel>, i: int, j: int)
    requires
        unique_names(cases) is Ok,
        0 <= i < j < cases.len(),
    ensures
        cases[i].name != cases[j].name,
{
    no_repeat_after(cases, 0, j);
    if cases[i].name == cases[j].name {
        assert(name_repeats(cases, j));
    }
}

proof fn no_repeat_after(cases: Seq<CaseModel>, from: int, j: int)
    requires
        first_repeat(cases, from) is None,
        0 <= from <= j < cases.len(),
    ensures
        !name_repeats(cases, j),
    decreases j - from,
{
    if from < j {
        no_repeat_after(cases, from + 1, j);
    }
}

/// The cases of the lines from `i` on, after those already read. Lines of white
/// space are passed over.
pub open spec fn line_cases(
    path: Seq<char>,
    base_dir: Seq<char>,
    args: CliModel,
    text: Seq<Seq<char>>,
    i: int,
    cases: Seq<CaseModel>,
) -> Result<Seq<CaseModel>, Seq<char>>
    decreases text.len() - i,
{
    if i >= text.len() {
        Ok(cases)
    } else if trimmed(text[i]).len() == 0 {
        line_cases(path, base_dir, args, text, i + 1, cases)
    } else {
        match json_document(trimmed(text[i])) {
            Err(message) => Err(
                "parse prompts JSONL "@ + path + " line "@ + decimal((i + 1) as nat) + ": "@
                    + message,
            ),
            Ok(value) => match case_of(value, "case_"@ + decimal((i + 1) as nat), base_dir, args) {
                Err(message) => Err(message),
                Ok(case) => line_cases(path, base_dir, args, text, i + 1, cases.push(case)),
            },
        }
    }
}

/// The cases of a JSON Lines text.
pub open spec fn jsonl_cases(
    path: Seq<char>,
    base_dir: Seq<char>,
    args: CliModel,
    raw: Seq<char>,
) -> Result<Seq<CaseModel>, Seq<char>> {
    match line_cases(path, base_dir, args, lines(raw), 0, Seq::empty()) {
        Err(message) => Err(message),
        Ok(cases) => if cases.len() == 0 {
            Err("prompts JSONL "@ + path + " did not contain any cases"@)
        } else {
            match unique_names(cases) {
                Err(message) => Err(message),
                Ok(_) => Ok(cases),
            }
        },
    }
}

/// Reads the cases of a prompts file: `path` names it, `base_dir` is the
/// directory that relative references start from, and `raw` is its text.
pub fn load_jsonl_session_cases(args: &CliArgs, path: &str, base_dir: &str, raw: &str) -> (r: Result<
    Vec<SessionCaseSpec>,
    String,
>)
    ensures
        cases_told(r) == jsonl_cases(path@, base_dir@, args.model(), raw@),
{
    let text = lines_of(raw);
    let ghost all = lines(raw@);
    let ghost meaning = line_cases(path@, base_dir@, args.model(), all, 0, Seq::empty());
    let mut cases: Vec<SessionCaseSpec> = Vec::new();
    let mut i: usize = 0;
    assert(case_models(cases@) =~= Seq::empty());
    while i < text.len()
        invariant
            i <= text@.len(),
            all == lines(raw@),
            all == texts(text@),
            meaning == line_cases(path@, base_dir@, args.model(), lines(raw@), 0, Seq::empty()),
            meaning == line_cases(
                path@,
                base_dir@,
                args.model(),
                all,
                i as int,
                case_models(cases@),
            ),
        decreases text@.len() - i,
    {
        assert(all[i as int] == text@[i as int]@);
        let line = trim_text(text[i].as_str());
        if !line.as_str().is_empty() {
            let number = decimal_text(i as u64 + 1);
            let value = match parse_text(line.as_str()) {
                Ok(value) => value,
                Err(error) => {
                    return Err(
                        cat6(
                            "parse prompts JSONL ",
                            path,
                            " line ",
                            number.as_str(),
                            ": ",
                            error.as_str(),
                        ),
                    );
                },
            };
            let default_name = cat2("case_", number.as_str());
            match session_case_from_value(&value, default_name.as_str(), base_dir, args) {
                Ok(case) => {
                    let ghost before = cases@;
                    cases.push(case);
                    assert(case_models(cases@) =~= case_models(before).push(case@));
                },
                Err(message) => {
                    return Err(message);
                },
            }
        }
        i = i + 1;
    }
    if cases.len() == 0 {
        return Err(cat3("prompts JSONL ", path, " did not contain any cases"));
    }
    match validate_unique_case_names(&cases) {
        Ok(_) => Ok(cases),
        Err(message) => Err(message),
    }
}

// ---------------------------------------------------------------------------
// Reference manifests
// ---------------------------------------------------------------------------

/// The first place of a flag in a command.
pub open spec fn flag_at(command: Seq<Seq<char>>, flag: Seq<char>, i: int) -> int
    decreases command.len() - i,
{
    if i >= command.len() {
        command.len() as int
    } else if command[i] == flag {
        i
    } else {
        flag_at(command, flag, i + 1)
    }
}

/// The argument after the first occurrence of a flag.
pub open spec fn flag_argument(command: Seq<Seq<char>>, flag: Seq<char>) -> Option<Seq<char>> {
    let i = flag_at(command, flag, 0);
    if i + 1 < command.len() {
        Some(command[i + 1])
    } else {
        None
    }
}

pub fn flag_value(command: &Vec<String>, flag: &str) -> (r: Option<String>)
    ensures
        opt_text(r) == flag_argument(texts(command@), flag@),
{
    let ghost all = texts(command@);
    let mut i: usize = 0;
    while i < command.len()
        invariant
            i <= command@.len(),
            all == texts(command@),
            flag_at(all, flag@, 0) == flag_at(all, flag@, i as int),
        decreases command@.len() - i,
    {
        if same(command[i].as_str(), flag) {
            if i + 1 < command.len() {
                return Some(command[i + 1].clone());
            }
            return None;
        }
        i = i + 1;
    }
    None
}

/// The command of a case; items that are no strings count as empty ones.
pub open spec fn command_of(case: JsonModel) -> Seq<Seq<char>> {
    match array_at(case, "command"@) {
        None => Seq::empty(),
        Some(items) => Seq::new(
            items.len(),
            |i: int|
                match text_of(items[i]) {
                    Some(text) => text,
                    None => Seq::empty(),
                },
        ),
    }
}

fn case_command(case: &serde_json::Value) -> (r: Vec<String>)
    ensures
        texts(r@) == command_of(json_model(*case)),
{
    let mut command: Vec<String> = Vec::new();
    match member_array(case, "command") {
        None => {
            assert(texts(command@) =~= command_of(json_model(*case)));
        },
        Some(items) => {
            let ghost whole = command_of(json_model(*case));
            let mut i: usize = 0;
            while i < items.len()
                invariant
                    i <= items@.len(),
                    whole == command_of(json_model(*case)),
                    array_at(json_model(*case), "command"@) == Some(models(items@)),
                    texts(command@) =~= whole.take(i as int),
                decreases items@.len() - i,
            {
                let ghost before = command@;
                assert(models(items@)[i as int] == json_model(items@[i as int]));
                let item = match as_text(&items[i]) {
                    Some(text) => text.to_owned(),
                    None => String::new(),
                };
                command.push(item);
                assert(texts(command@) =~= texts(before).push(whole[i as int]));
                i = i + 1;
            }
        },
    }
    command
}

/// A count in a command, where the flag has one.
pub open spec fn flag_count(command: Seq<Seq<char>>, flag: Seq<char>) -> Option<usize> {
    match flag_argument(command, flag) {
        None => None,
        Some(raw) => match numeral(raw, usize::MAX as nat) {
            Ok(n) => Some(n as usize),
            Err(_) => None,
        },
    }
}

fn command_count(command: &Vec<String>, flag: &str) -> (r: Option<usize>)
    ensures
        r == flag_count(texts(command@), flag@),
{
    match flag_value(command, flag) {
        None => None,
        Some(raw) => match parse_numeral(raw.as_str(), usize::MAX as u64) {
            Ok(n) => Some(n as usize),
            Err(_) => None,
        },
    }
}

/// The first of two that is there.
pub open spec fn either<T>(a: Option<T>, b: Option<T>) -> Option<T> {
    match a {
        Some(v) => Some(v),
        None => b,
    }
}

/// Where a manifest's reference lies: an absolute path stands; otherwise it is
/// below the manifest's output directory, or else beside the manifest.
pub open spec fn reference_path(manifest_dir: Seq<char>, manifest: JsonModel, raw: Seq<char>) -> Seq<
    char,
> {
    if is_absolute(raw) {
        raw
    } else {
        match nonempty(text_at(manifest, "output_dir"@)) {
            Some(output_dir) => joined(output_dir, raw),
            None => joined(manifest_dir, raw),
        }
    }
}

pub fn manifest_reference_path(manifest_dir: &str, manifest: &serde_json::Value, raw: &str) -> (r:
    String)
    ensures
        r@ == reference_path(manifest_dir@, json_model(*manifest), raw@),
{
    if path_is_absolute(raw) {
        return raw.to_owned();
    }
    match json_optional_string_field(manifest, "output_dir") {
        Some(output_dir) => join_path(output_dir, raw),
        None => join_path(manifest_dir, raw),
    }
}

/// The prompt of a manifest's case.
pub open spec fn manifest_prompt(case: JsonModel) -> Option<Seq<char>> {
    nonempty(
        either(
            either(text_at(case, "prompt_text"@), text_at(case, "prompt"@)),
            flag_argument(command_of(case), "--prompt-text"@),
        ),
    )
}

/// How many tokens a manifest's case decodes, where it says so.
pub open spec fn manifest_steps(case: JsonModel, name: Seq<char>) -> Result<
    Option<usize>,
    Seq<char>,
> {
    match optional_count(case, "decode_steps"@, name) {
        Err(message) => Err(message),
        Ok(steps) => match optional_count(case, "max_new_tokens"@, name) {
            Err(message) => Err(message),
            Ok(fresh) => Ok(
                either(
                    either(steps, fresh),
                    either(
                        flag_count(command_of(case), "--decode-steps"@),
                        flag_count(command_of(case), "--max-new-tokens"@),
                    ),
                ),
            ),
        },
    }
}

/// The reference of a manifest's case.
pub open spec fn manifest_output(case: JsonModel) -> Option<Seq<char>> {
    nonempty(
        either(
            either(text_at(case, "output"@), text_at(case, "reference"@)),
            either(text_at(case, "reference_path"@), text_at(case, "path"@)),
        ),
    )
}

/// The case at a position of a manifest.
pub open spec fn manifest_case(
    manifest_dir: Seq<char>,
    manifest: JsonModel,
    args: CliModel,
    case: JsonModel,
    i: int,
) -> Result<CaseModel, Seq<char>> {
    match nonempty(text_at(case, "name"@)) {
        None => Err(
            "reference manifest case "@ + decimal((i + 1) as nat)
                + " is missing required non-empty name"@,
        ),
        Some(name) => match manifest_prompt(case) {
            None => Err("reference manifest case "@ + name + " is missing prompt_text"@),
            Some(prompt) => match manifest_steps(case, name) {
                Err(message) => Err(message),
                Ok(None) => Err(
                    "reference manifest case "@ + name
                        + " is missing decode_steps/max_new_tokens"@,
                ),
                Ok(Some(max_new_tokens)) => if max_new_tokens == 0 {
                    Err(
                        "reference manifest case "@ + name
                            + " decode_steps/max_new_tokens must be positive"@,
                    )
                } else {
                    match optional_count(case, "max_total_tokens"@, name) {
                        Err(message) => Err(message),
                        Ok(total) => match case_limit(total, args.max_total_tokens) {
                            Err(message) => Err(message),
                            Ok(max_total_tokens) => match manifest_output(case) {
                                None => Err(
                                    "reference manifest case "@ + name
                                        + " is missing output/reference path"@,
                                ),
                                Some(output) => match optional_flag(case, "no_bos"@, name) {
                                    Err(message) => Err(message),
                                    Ok(no_bos) => Ok(
                                        CaseModel {
                                            name,
                                            prompt,
                                            max_new_tokens,
                                            max_total_tokens,
                                            no_bos: match no_bos {
                                                Some(flag) => flag,
                                                None => args.no_bos,
                                            },
                                            hf_reference: Some(
                                                reference_path(manifest_dir, manifest, output),
                                            ),
                                        },
                                    ),
                                },
                            },
                        },
                    }
                },
            },
        },
    }
}

fn either_text<'a>(a: Option<&'a str>, b: Option<&'a str>) -> (r: Option<&'a str>)
    ensures
        opt_str(r) == either(opt_str(a), opt_str(b)),
{
    match a {
        Some(text) => Some(text),
        None => b,
    }
}

fn manifest_case_from_value(
    manifest_dir: &str,
    manifest: &serde_json::Value,
    args: &CliArgs,
    case: &serde_json::Value,
    i: usize,
) -> (r: Result<SessionCaseSpec, String>)
    requires
        i < usize::MAX,
    ensures
        case_told(r) == manifest_case(
            manifest_dir@,
            json_model(*manifest),
            args.model(),
            json_model(*case),
            i as int,
        ),
{
    let name = match json_optional_string_field(case, "name") {
        Some(text) => text.to_owned(),
        None => {
            let number = decimal_text(i as u64 + 1);
            return Err(
                cat3(
                    "reference manifest case ",
                    number.as_str(),
                    " is missing required non-empty name",
                ),
            );
        },
    };
    let command = case_command(case);
    let stated = either_text(member_text(case, "prompt_text"), member_text(case, "prompt"));
    let prompt = match stated {
        Some(text) => text.to_owned(),
        None => match flag_value(&command, "--prompt-text") {
            Some(text) => text,
            None => String::new(),
        },
    };
    if prompt.as_str().is_empty() {
        return Err(
            cat3("reference manifest case ", name.as_str(), " is missing prompt_text"),
        );
    }
    let steps = match json_positive_usize_field(case, "decode_steps", name.as_str()) {
        Ok(steps) => steps,
        Err(message) => {
            return Err(message);
        },
    };
    let fresh = match json_positive_usize_field(case, "max_new_tokens", name.as_str()) {
        Ok(fresh) => fresh,
        Err(message) => {
            return Err(message);
        },
    };
    let count = match steps {
        Some(n) => Some(n),
        None => match fresh {
            Some(n) => Some(n),
            None => match command_count(&command, "--decode-steps") {
                Some(n) => Some(n),
                None => command_count(&command, "--max-new-tokens"),
            },
        },
    };
    let max_new_tokens: usize = match count {
        Some(n) => n,
        None => {
            return Err(
                cat3(
                    "reference manifest case ",
                    name.as_str(),
                    " is missing decode_steps/max_new_tokens",
                ),
            );
        },
    };
    if max_new_tokens == 0 {
        return Err(
            cat3(
                "reference manifest case ",
                name.as_str(),
                " decode_steps/max_new_tokens must be positive",
            ),
        );
    }
    let total = match json_positive_usize_field(case, "max_total_tokens", name.as_str()) {
        Ok(total) => total,
        Err(message) => {
            return Err(message);
        },
    };
    let max_total_tokens = match checked_limit(total, args.max_total_tokens) {
        Ok(limit) => limit,
        Err(message) => {
            return Err(message);
        },
    };
    let output = either_text(
        either_text(member_text(case, "output"), member_text(case, "reference")),
        either_text(member_text(case, "reference_path"), member_text(case, "path")),
    );
    let reference = match output {
        Some(text) => text.to_owned(),
        None => String::new(),
    };
    if reference.as_str().is_empty() {
        return Err(
            cat3("reference manifest case ", name.as_str(), " is missing output/reference path"),
        );
    }
    let no_bos = match json_optional_bool_field(case, "no_bos", name.as_str()) {
        Ok(Some(flag)) => flag,
        Ok(None) => args.no_bos,
        Err(message) => {
            return Err(message);
        },
    };
    let hf_reference = Some(manifest_reference_path(manifest_dir, manifest, reference.as_str()));
    Ok(SessionCaseSpec { name, prompt, max_new_tokens, max_total_tokens, no_bos, hf_reference })
}

/// The cases of a manifest from `i` on, after those already read.
pub open spec fn manifest_cases_from(
    manifest_dir: Seq<char>,
    manifest: JsonModel,
    args: CliModel,
    items: Seq<JsonModel>,
    i: int,
    cases: Seq<CaseModel>,
) -> Result<Seq<CaseModel>, Seq<char>>
    decreases items.len() - i,
{
    if i >= items.len() {
        match unique_names(cases) {
            Err(message) => Err(message),
            Ok(_) => Ok(cases),
        }
    } else {
        match manifest_case(manifest_dir, manifest, args, items[i], i) {
            Err(message) => Err(message),
            Ok(case) => manifest_cases_from(
                manifest_dir,
                manifest,
                args,
                items,
                i + 1,
                cases.push(case),
            ),
        }
    }
}

pub open spec fn manifest_schema() -> Seq<char> {
    "rvllm.gemma4_e2b_hf_text_reference_suite.v1"@
}

/// The cases of a manifest.
pub open spec fn manifest_cases(
    manifest_dir: Seq<char>,
    args: CliModel,
    manifest: JsonModel,
) -> Result<Seq<CaseModel>, Seq<char>> {
    match text_at(manifest, "schema"@) {
        None => Err("reference manifest missing schema"@),
        Some(schema) => if schema != manifest_schema() {
            Err(
                "unexpected reference manifest schema "@ + quoted(schema) + "; expected "@ + quoted(
                    manifest_schema(),
                ),
            )
        } else {
            match array_at(manifest, "cases"@) {
                None => Err("reference manifest must contain a non-empty cases array"@),
                Some(items) => if items.len() == 0 {
                    Err("reference manifest must contain a non-empty cases array"@)
                } else {
                    manifest_cases_from(manifest_dir, manifest, args, items, 0, Seq::empty())
                },
            }
        },
    }
}

/// Reads the cases of a parsed manifest.
pub fn manifest_cases_from_value(args: &CliArgs, manifest_dir: &str, manifest: &serde_json::Value) -> (r:
    Result<Vec<SessionCaseSpec>, String>)
    ensures
        cases_told(r) == manifest_cases(manifest_dir@, args.model(), json_model(*manifest)),
{
    match member_text(manifest, "schema") {
        None => {
            return Err("reference manifest missing schema".to_owned());
        },
        Some(schema) => {
            if !same(schema, "rvllm.gemma4_e2b_hf_text_reference_suite.v1") {
                let shown = quoted_text(schema);
                let wanted = quoted_text("rvllm.gemma4_e2b_hf_text_reference_suite.v1");
                return Err(
                    cat4(
                        "unexpected reference manifest schema ",
                        shown.as_str(),
                        "; expected ",
                        wanted.as_str(),
                    ),
                );
            }
        },
    }
    let items = match member_array(manifest, "cases") {
        None => {
            return Err("reference manifest must contain a non-empty cases array".to_owned());
        },
        Some(items) => items,
    };
    if items.len() == 0 {
        return Err("reference manifest must contain a non-empty cases array".to_owned());
    }
    let ghost all = models(items@);
    let ghost whole = json_model(*manifest);
    let mut cases: Vec<SessionCaseSpec> = Vec::new();
    let mut i: usize = 0;
    assert(case_models(cases@) =~= Seq::empty());
    while i < items.len()
        invariant
            i <= items@.len(),
            all == models(items@),
            whole == json_model(*manifest),
            manifest_cases(manifest_dir@, args.model(), whole) == manifest_cases_from(
                manifest_dir@,
                whole,
                args.model(),
                all,
                i as int,
                case_models(cases@),
            ),
        decreases items@.len() - i,
    {
        assert(all[i as int] == json_model(items@[i as int]));
        match manifest_case_from_value(manifest_dir, manifest, args, &items[i], i) {
            Ok(case) => {
                let ghost before = cases@;
                cases.push(case);
                assert(case_models(cases@) =~= case_models(before).push(case@));
            },
            Err(message) => {
                return Err(message);
            },
        }
        i = i + 1;
    }
    match validate_unique_case_names(&cases) {
        Ok(_) => Ok(cases),
        Err(message) => Err(message),
    }
}

/// Reads the cases of a manifest file: `path` names it, `manifest_dir` is its
/// directory, and `raw` is its text.
pub fn load_manifest_session_cases(args: &CliArgs, path: &str, manifest_dir: &str, raw: &str) -> (r:
    Result<Vec<SessionCaseSpec>, String>)
    ensures
        cases_told(r) == match json_document(raw@) {
            Err(message) => Err::<Seq<CaseModel>, Seq<char>>(
                "parse reference manifest "@ + path@ + ": "@ + message,
            ),
            Ok(manifest) => manifest_cases(manifest_dir@, args.model(), manifest),
        },
{
    match parse_text(raw) {
        Ok(manifest) => manifest_cases_from_value(args, manifest_dir, &manifest),
        Err(error) => Err(cat4("parse reference manifest ", path, ": ", error.as_str())),
    }
}

/// Where a session's cases come from.
#[derive(Debug)]
pub enum CaseSource<'a> {
    PromptsJsonl(&'a String),
    ReferenceManifest(&'a String),
}

/// The file that holds a session's cases.
pub fn load_session_case_specs(args: &CliArgs) -> (r: Result<CaseSource<'_>, String>)
    ensures
        match r {
            Ok(CaseSource::PromptsJsonl(path)) => args.prompts_jsonl == Some(*path)
                && args.reference_manifest is None,
            Ok(CaseSource::ReferenceManifest(path)) => args.reference_manifest == Some(*path)
                && args.prompts_jsonl is None,
            Err(e) => args.prompts_jsonl is Some == args.reference_manifest is Some && e@
                == "session mode requires --prompts-jsonl or --reference-manifest"@,
        },
{
    match (&args.prompts_jsonl, &args.reference_manifest) {
        (Some(path), None) => Ok(CaseSource::PromptsJsonl(path)),
        (None, Some(path)) => Ok(CaseSource::ReferenceManifest(path)),
        _ => Err("session mode requires --prompts-jsonl or --reference-manifest".to_owned()),
    }
}

// ---------------------------------------------------------------------------
// Preparation
// ---------------------------------------------------------------------------

/// The limit under which a case runs.
pub open spec fn prepared_limit(
    case: CaseModel,
    prompt_tokens: usize,
    current: EnvValue,
    legacy: EnvValue,
) -> Result<usize, Seq<char>> {
    if prompt_tokens + case.max_new_tokens > usize::MAX {
        Err("session case "@ + case.name + " token budget overflow"@)
    } else {
        match effective_limit(
            case.max_total_tokens,
            (prompt_tokens + case.max_new_tokens) as usize,
            current,
            legacy,
        ) {
            Err(message) => Err(message),
            Ok(limit) => match token_budget(prompt_tokens, case.max_new_tokens, limit) {
                Err(message) => Err("session case "@ + case.name + ": "@ + message),
                Ok(_) => Ok(limit),
            },
        }
    }
}

/// Prepares a case whose prompt was tokenized: the limit that it runs under.
pub fn prepare_session_case(
    spec: &SessionCaseSpec,
    prompt_tokens: usize,
    current: &EnvValue,
    legacy: &EnvValue,
) -> (r: Result<usize, String>)
    ensures
        told(r) == prepared_limit(spec@, prompt_tokens, *current, *legacy),
{
    if spec.max_new_tokens > usize::MAX - prompt_tokens {
        return Err(cat3("session case ", spec.name.as_str(), " token budget overflow"));
    }
    let required: usize = prompt_tokens + spec.max_new_tokens;
    let limit: usize = match effective_max_total_tokens(
        spec.max_total_tokens,
        required,
        current,
        legacy,
    ) {
        Ok(limit) => limit,
        Err(message) => {
            return Err(message);
        },
    };
    match validate_token_budget(prompt_tokens, spec.max_new_tokens, limit) {
        Ok(_) => Ok(limit),
        Err(message) => Err(
            cat4("session case ", spec.name.as_str(), ": ", message.as_str()),
        ),
    }
}

/// The error of a case whose reference file does not exist.
pub fn missing_reference(case_name: &str, path: &str) -> (r: String)
    ensures
        r@ == "session case "@ + case_name@ + " reference artifact does not exist: "@ + path@,
{
    cat4("session case ", case_name, " reference artifact does not exist: ", path)
}

} // verus!
