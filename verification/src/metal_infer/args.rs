//! The command line of the text inference workflow.
use crate::metal_infer::budget::{
    parse_max_total_tokens, parse_positive_usize, positive_count, token_limit,
};
use crate::text::{
    cat2, cat6, fault_text, leads_with, numeral, opt_text, parse_numeral, quoted, quoted_text, same,
    split, split_text, starts_with_char, texts, told, trim_text, trimmed,
};
use vstd::prelude::*;

verus! {

#[derive(Clone, Copy, Debug, PartialEq, Eq, Structural)]
pub enum SessionBackend {
    Direct,
    Engine,
}

pub open spec fn backend_name(backend: SessionBackend) -> Seq<char> {
    match backend {
        SessionBackend::Direct => "direct"@,
        SessionBackend::Engine => "engine"@,
    }
}

impl SessionBackend {
    pub fn as_str(self) -> (r: &'static str)
        ensures
            r@ == backend_name(self),
    {
        match self {
            SessionBackend::Direct => "direct",
            SessionBackend::Engine => "engine",
        }
    }
}

/// The backend of a name, or why there is none.
pub open spec fn backend_of(raw: Seq<char>) -> Result<SessionBackend, Seq<char>> {
    if raw == backend_name(SessionBackend::Direct) {
        Ok(SessionBackend::Direct)
    } else if raw == backend_name(SessionBackend::Engine) {
        Ok(SessionBackend::Engine)
    } else {
        Err("--session-backend must be direct or engine; got "@ + quoted(raw))
    }
}

pub fn parse_session_backend(raw: &str) -> (r: Result<SessionBackend, String>)
    ensures
        told(r) == backend_of(raw@),
{
    if same(raw, "direct") {
        Ok(SessionBackend::Direct)
    } else if same(raw, "engine") {
        Ok(SessionBackend::Engine)
    } else {
        let shown = quoted_text(raw);
        Err(cat2("--session-backend must be direct or engine; got ", shown.as_str()))
    }
}

/// A backend's name reads back as the backend.
pub proof fn backend_names_read_back(backend: SessionBackend)
    ensures
        backend_of(backend_name(backend)) == Ok::<SessionBackend, Seq<char>>(backend),
{
    reveal_strlit("direct");
    reveal_strlit("engine");
    assert("direct"@[0] != "engine"@[0]);
}

/// Why decoding ended.
#[derive(Clone, Copy, Debug, PartialEq, Eq, Structural)]
pub enum FinishReason {
    Eos,
    Length,
}

pub open spec fn finish_name(reason: FinishReason) -> Seq<char> {
    match reason {
        FinishReason::Eos => "eos"@,
        FinishReason::Length => "length"@,
    }
}

impl FinishReason {
    pub fn as_str(self) -> (r: &'static str)
        ensures
            r@ == finish_name(self),
    {
        match self {
            FinishReason::Eos => "eos",
            FinishReason::Length => "length",
        }
    }
}

/// The token ids of the pieces from `i` on, after those already read; pieces of
/// white space are passed over.
pub open spec fn ids_from(
    flag: Seq<char>,
    pieces: Seq<Seq<char>>,
    i: int,
    ids: Seq<u32>,
) -> Result<Seq<u32>, Seq<char>>
    decreases pieces.len() - i,
{
    if i >= pieces.len() {
        if ids.len() == 0 {
            Err(flag + " must contain at least one token id"@)
        } else {
            Ok(ids)
        }
    } else {
        let part = trimmed(pieces[i]);
        if part.len() == 0 {
            ids_from(flag, pieces, i + 1, ids)
        } else {
            match numeral(part, u32::MAX as nat) {
                Ok(id) => ids_from(flag, pieces, i + 1, ids.push(id as u32)),
                Err(f) => Err(
                    "invalid "@ + flag + " token id "@ + quoted(part) + ": "@ + fault_text(f),
                ),
            }
        }
    }
}

/// The token ids of a comma-separated list.
pub open spec fn token_ids(flag: Seq<char>, raw: Seq<char>) -> Result<Seq<u32>, Seq<char>> {
    ids_from(flag, split(raw, ','), 0, Seq::empty())
}

pub open spec fn ids_told(r: Result<Vec<u32>, String>) -> Result<Seq<u32>, Seq<char>> {
    match r {
        Ok(ids) => Ok(ids@),
        Err(e) => Err(e@),
    }
}

pub fn parse_token_ids(flag: &str, raw: &str) -> (r: Result<Vec<u32>, String>)
    ensures
        ids_told(r) == token_ids(flag@, raw@),
{
    let pieces = split_text(raw, ',');
    let ghost parts = split(raw@, ',');
    let mut out: Vec<u32> = Vec::new();
    let mut i: usize = 0;
    while i < pieces.len()
        invariant
            i <= pieces@.len(),
            parts == split(raw@, ','),
            texts(pieces@) == parts,
            token_ids(flag@, raw@) == ids_from(flag@, parts, i as int, out@),
        decreases pieces@.len() - i,
    {
        assert(parts[i as int] == pieces@[i as int]@);
        let part = trim_text(pieces[i].as_str());
        if !part.as_str().is_empty() {
            match parse_numeral(part.as_str(), u32::MAX as u64) {
                Ok(id) => {
                    out.push(id as u32);
                },
                Err(f) => {
                    let shown = quoted_text(part.as_str());
                    return Err(
                        cat6("invalid ", flag, " token id ", shown.as_str(), ": ", f.text()),
                    );
                },
            }
        }
        i = i + 1;
    }
    if out.len() == 0 {
        return Err(cat2(flag, " must contain at least one token id"));
    }
    Ok(out)
}

/// A parsed command line.
#[derive(Debug)]
pub struct CliArgs {
    pub model_dir: String,
    pub prompt: Option<String>,
    pub prompts_jsonl: Option<String>,
    pub reference_manifest: Option<String>,
    pub session_backend: SessionBackend,
    pub max_new_tokens: usize,
    pub max_total_tokens: Option<usize>,
    pub eos_token_ids: Vec<u32>,
    pub no_bos: bool,
    pub large_model_opt_in: bool,
    pub hf_reference: Option<String>,
    pub report: Option<String>,
    pub case_timeout_seconds: Option<u64>,
    pub profile_samples: usize,
    pub profile_report: Option<String>,
    pub top_logits: usize,
    pub json_output: bool,
}

/// A command line as mathematical values; the model directory may still be
/// missing.
pub struct CliModel {
    pub model_dir: Option<Seq<char>>,
    pub prompt: Option<Seq<char>>,
    pub prompts_jsonl: Option<Seq<char>>,
    pub reference_manifest: Option<Seq<char>>,
    pub session_backend: SessionBackend,
    pub max_new_tokens: usize,
    pub max_total_tokens: Option<usize>,
    pub eos_token_ids: Seq<u32>,
    pub no_bos: bool,
    pub large_model_opt_in: bool,
    pub hf_reference: Option<Seq<char>>,
    pub report: Option<Seq<char>>,
    pub case_timeout_seconds: Option<u64>,
    pub profile_samples: usize,
    pub profile_report: Option<Seq<char>>,
    pub top_logits: usize,
    pub json_output: bool,
}

/// The values before any option is read.
pub open spec fn cli_defaults() -> CliModel {
    CliModel {
        model_dir: None,
        prompt: None,
        prompts_jsonl: None,
        reference_manifest: None,
        session_backend: SessionBackend::Direct,
        max_new_tokens: 1,
        max_total_tokens: None,
        eos_token_ids: Seq::empty(),
        no_bos: false,
        large_model_opt_in: false,
        hf_reference: None,
        report: None,
        case_timeout_seconds: None,
        profile_samples: 0,
        profile_report: None,
        top_logits: 0,
        json_output: false,
    }
}

/// Whether an option is followed by a value.
pub open spec fn takes_value(flag: Seq<char>) -> bool {
    flag == "--model-dir"@ || flag == "--prompt"@ || flag == "--prompts-jsonl"@ || flag
        == "--reference-manifest"@ || flag == "--session-backend"@ || flag == "--max-new-tokens"@
        || flag == "--max-total-tokens"@ || flag == "--eos-token-ids"@ || flag == "--hf-reference"@
        || flag == "--report"@ || flag == "--case-timeout-seconds"@ || flag == "--profile-samples"@
        || flag == "--profile-report"@ || flag == "--top-logits"@
}

/// The command line after an option and its value.
pub open spec fn valued_option(d: CliModel, flag: Seq<char>, value: Seq<char>) -> Result<
    CliModel,
    Seq<char>,
> {
    if flag == "--model-dir"@ {
        Ok(CliModel { model_dir: Some(value), ..d })
    } else if flag == "--prompt"@ {
        if value.len() == 0 {
            Err("--prompt must not be empty"@)
        } else {
            Ok(CliModel { prompt: Some(value), ..d })
        }
    } else if flag == "--prompts-jsonl"@ {
        Ok(CliModel { prompts_jsonl: Some(value), ..d })
    } else if flag == "--reference-manifest"@ {
        Ok(CliModel { reference_manifest: Some(value), ..d })
    } else if flag == "--session-backend"@ {
        match backend_of(value) {
            Ok(session_backend) => Ok(CliModel { session_backend, ..d }),
            Err(message) => Err(message),
        }
    } else if flag == "--max-new-tokens"@ {
        match token_limit(flag, value) {
            Ok(max_new_tokens) => Ok(CliModel { max_new_tokens, ..d }),
            Err(message) => Err(message),
        }
    } else if flag == "--max-total-tokens"@ {
        match token_limit(flag, value) {
            Ok(limit) => Ok(CliModel { max_total_tokens: Some(limit), ..d }),
            Err(message) => Err(message),
        }
    } else if flag == "--eos-token-ids"@ {
        match token_ids(flag, value) {
            Ok(eos_token_ids) => Ok(CliModel { eos_token_ids, ..d }),
            Err(message) => Err(message),
        }
    } else if flag == "--hf-reference"@ {
        Ok(CliModel { hf_reference: Some(value), ..d })
    } else if flag == "--report"@ {
        Ok(CliModel { report: Some(value), ..d })
    } else if flag == "--case-timeout-seconds"@ {
        match positive_count(flag, value) {
            Ok(seconds) => Ok(CliModel { case_timeout_seconds: Some(seconds as u64), ..d }),
            Err(message) => Err(message),
        }
    } else if flag == "--profile-samples"@ {
        match positive_count(flag, value) {
            Ok(profile_samples) => Ok(CliModel { profile_samples, ..d }),
            Err(message) => Err(message),
        }
    } else if flag == "--profile-report"@ {
        Ok(CliModel { profile_report: Some(value), ..d })
    } else {
        match positive_count(flag, value) {
            Ok(top_logits) => Ok(CliModel { top_logits, ..d }),
            Err(message) => Err(message),
        }
    }
}

/// The command line after an option that stands alone.
pub open spec fn bare_option(d: CliModel, flag: Seq<char>) -> Result<CliModel, Seq<char>> {
    if flag == "--no-bos"@ {
        Ok(CliModel { no_bos: true, ..d })
    } else if flag == "--large-model-opt-in"@ {
        Ok(CliModel { large_model_opt_in: true, ..d })
    } else if flag == "--json"@ {
        Ok(CliModel { json_output: true, ..d })
    } else if flag == "-h"@ || flag == "--help"@ {
        Err(usage_text())
    } else if leads_with(flag, '-') {
        Err("unknown argument: "@ + flag)
    } else {
        Err("unexpected positional argument: "@ + flag)
    }
}

/// The command line after the arguments from `i` on.
pub open spec fn options_from(args: Seq<Seq<char>>, i: int, d: CliModel) -> Result<
    CliModel,
    Seq<char>,
>
    decreases args.len() - i,
{
    if i >= args.len() {
        Ok(d)
    } else if takes_value(args[i]) {
        if i + 1 >= args.len() {
            Err(args[i] + " requires a value"@)
        } else {
            match valued_option(d, args[i], args[i + 1]) {
                Ok(next) => options_from(args, i + 2, next),
                Err(message) => Err(message),
            }
        }
    } else {
        match bare_option(d, args[i]) {
            Ok(next) => options_from(args, i + 1, next),
            Err(message) => Err(message),
        }
    }
}

pub open spec fn session_inputs(d: CliModel) -> int {
    (if d.prompt is Some {
        1int
    } else {
        0
    }) + (if d.prompts_jsonl is Some {
        1int
    } else {
        0
    }) + (if d.reference_manifest is Some {
        1int
    } else {
        0
    })
}

/// Which options go together.
pub open spec fn combination(d: CliModel) -> Result<CliModel, Seq<char>> {
    if session_inputs(d) != 1 {
        Err("exactly one of --prompt, --prompts-jsonl, or --reference-manifest is required"@)
    } else if d.prompt is Some && d.session_backend != SessionBackend::Direct {
        Err("--session-backend is only valid for session inputs"@)
    } else if d.prompt is Some && d.report is Some {
        Err("--report is only valid for session inputs"@)
    } else if d.prompt is Some && d.profile_samples > 0 {
        Err("--profile-samples is only valid for session inputs"@)
    } else if d.prompt is Some && d.case_timeout_seconds is Some {
        Err("--case-timeout-seconds is only valid for session inputs"@)
    } else if d.prompt is Some && d.profile_report is Some {
        Err("--profile-report is only valid for session inputs"@)
    } else if d.prompt is None && d.top_logits > 0 {
        Err("--top-logits is only valid for single-prompt inference"@)
    } else if d.profile_report is Some && d.profile_samples == 0 {
        Err("--profile-report requires --profile-samples"@)
    } else if d.model_dir is None {
        Err("--model-dir is required"@)
    } else {
        Ok(d)
    }
}

/// What a command line means.
pub open spec fn command_line(args: Seq<Seq<char>>) -> Result<CliModel, Seq<char>> {
    match options_from(args, 0, cli_defaults()) {
        Ok(d) => combination(d),
        Err(message) => Err(message),
    }
}

impl CliArgs {
    pub open spec fn model(&self) -> CliModel {
        CliModel {
            model_dir: Some(self.model_dir@),
            prompt: opt_text(self.prompt),
            prompts_jsonl: opt_text(self.prompts_jsonl),
            reference_manifest: opt_text(self.reference_manifest),
            session_backend: self.session_backend,
            max_new_tokens: self.max_new_tokens,
            max_total_tokens: self.max_total_tokens,
            eos_token_ids: self.eos_token_ids@,
            no_bos: self.no_bos,
            large_model_opt_in: self.large_model_opt_in,
            hf_reference: opt_text(self.hf_reference),
            report: opt_text(self.report),
            case_timeout_seconds: self.case_timeout_seconds,
            profile_samples: self.profile_samples,
            profile_report: opt_text(self.profile_report),
            top_logits: self.top_logits,
            json_output: self.json_output,
        }
    }
}

struct Draft {
    model_dir: Option<String>,
    prompt: Option<String>,
    prompts_jsonl: Option<String>,
    reference_manifest: Option<String>,
    session_backend: SessionBackend,
    max_new_tokens: usize,
    max_total_tokens: Option<usize>,
    eos_token_ids: Vec<u32>,
    no_bos: bool,
    large_model_opt_in: bool,
    hf_reference: Option<String>,
    report: Option<String>,
    case_timeout_seconds: Option<u64>,
    profile_samples: usize,
    profile_report: Option<String>,
    top_logits: usize,
    json_output: bool,
}

impl Draft {
    spec fn model(&self) -> CliModel {
        CliModel {
            model_dir: opt_text(self.model_dir),
            prompt: opt_text(self.prompt),
            prompts_jsonl: opt_text(self.prompts_jsonl),
            reference_manifest: opt_text(self.reference_manifest),
            session_backend: self.session_backend,
            max_new_tokens: self.max_new_tokens,
            max_total_tokens: self.max_total_tokens,
            eos_token_ids: self.eos_token_ids@,
            no_bos: self.no_bos,
            large_model_opt_in: self.large_model_opt_in,
            hf_reference: opt_text(self.hf_reference),
            report: opt_text(self.report),
            case_timeout_seconds: self.case_timeout_seconds,
            profile_samples: self.profile_samples,
            profile_report: opt_text(self.profile_report),
            top_logits: self.top_logits,
            json_output: self.json_output,
        }
    }

    fn take_valued(&mut self, flag: &str, value: &str) -> (r: Result<(), String>)
        requires
            takes_value(flag@),
        ensures
            match r {
                Ok(_) => valued_option(old(self).model(), flag@, value@) == Ok::<
                    CliModel,
                    Seq<char>,
                >(final(self).model()),
                Err(e) => valued_option(old(self).model(), flag@, value@) == Err::<
                    CliModel,
                    Seq<char>,
                >(e@),
            },
    {
        if same(flag, "--model-dir") {
            self.model_dir = Some(value.to_owned());
        } else if same(flag, "--prompt") {
            if value.is_empty() {
                return Err("--prompt must not be empty".to_owned());
            }
            self.prompt = Some(value.to_owned());
        } else if same(flag, "--prompts-jsonl") {
            self.prompts_jsonl = Some(value.to_owned());
        } else if same(flag, "--reference-manifest") {
            self.reference_manifest = Some(value.to_owned());
        } else if same(flag, "--session-backend") {
            match parse_session_backend(value) {
                Ok(backend) => {
                    self.session_backend = backend;
                },
                Err(message) => {
                    return Err(message);
                },
            }
        } else if same(flag, "--max-new-tokens") {
            match parse_max_total_tokens(flag, value) {
                Ok(count) => {
                    self.max_new_tokens = count;
                },
                Err(message) => {
                    return Err(message);
                },
            }
        } else if same(flag, "--max-total-tokens") {
            match parse_max_total_tokens(flag, value) {
                Ok(count) => {
                    self.max_total_tokens = Some(count);
                },
                Err(message) => {
                    return Err(message);
                },
            }
        } else if same(flag, "--eos-token-ids") {
            match parse_token_ids(flag, value) {
                Ok(ids) => {
                    self.eos_token_ids = ids;
                },
                Err(message) => {
                    return Err(message);
                },
            }
        } else if same(flag, "--hf-reference") {
            self.hf_reference = Some(value.to_owned());
        } else if same(flag, "--report") {
            self.report = Some(value.to_owned());
        } else if same(flag, "--case-timeout-seconds") {
            match parse_positive_usize(flag, value) {
                Ok(count) => {
                    self.case_timeout_seconds = Some(count as u64);
                },
                Err(message) => {
                    return Err(message);
                },
            }
        } else if same(flag, "--profile-samples") {
            match parse_positive_usize(flag, value) {
                Ok(count) => {
                    self.profile_samples = count;
                },
                Err(message) => {
                    return Err(message);
                },
            }
        } else if same(flag, "--profile-report") {
            self.profile_report = Some(value.to_owned());
        } else {
            match parse_positive_usize(flag, value) {
                Ok(count) => {
                    self.top_logits = count;
                },
                Err(message) => {
                    return Err(message);
                },
            }
        }
        Ok(())
    }

    fn take_bare(&mut self, flag: &str) -> (r: Result<(), String>)
        ensures
            match r {
                Ok(_) => bare_option(old(self).model(), flag@) == Ok::<CliModel, Seq<char>>(
                    final(self).model(),
                ),
                Err(e) => bare_option(old(self).model(), flag@) == Err::<CliModel, Seq<char>>(e@),
            },
    {
        if same(flag, "--no-bos") {
            self.no_bos = true;
        } else if same(flag, "--large-model-opt-in") {
            self.large_model_opt_in = true;
        } else if same(flag, "--json") {
            self.json_output = true;
        } else if same(flag, "-h") || same(flag, "--help") {
            return Err(usage());
        } else if starts_with_char(flag, '-') {
            return Err(cat2("unknown argument: ", flag));
        } else {
            return Err(cat2("unexpected positional argument: ", flag));
        }
        Ok(())
    }
}

fn flag_takes_value(flag: &str) -> (r: bool)
    ensures
        r == takes_value(flag@),
{
    same(flag, "--model-dir") || same(flag, "--prompt") || same(flag, "--prompts-jsonl") || same(
        flag,
        "--reference-manifest",
    ) || same(flag, "--session-backend") || same(flag, "--max-new-tokens") || same(
        flag,
        "--max-total-tokens",
    ) || same(flag, "--eos-token-ids") || same(flag, "--hf-reference") || same(flag, "--report")
        || same(flag, "--case-timeout-seconds") || same(flag, "--profile-samples") || same(
        flag,
        "--profile-report",
    ) || same(flag, "--top-logits")
}

/// Reads a command line, without the program's name.
pub fn parse_args_from(args: &Vec<String>) -> (r: Result<CliArgs, String>)
    ensures
        match r {
            Ok(parsed) => command_line(texts(args@)) == Ok::<CliModel, Seq<char>>(parsed.model()),
            Err(e) => command_line(texts(args@)) == Err::<CliModel, Seq<char>>(e@),
        },
{
    let mut draft = Draft {
        model_dir: None,
        prompt: None,
        prompts_jsonl: None,
        reference_manifest: None,
        session_backend: SessionBackend::Direct,
        max_new_tokens: 1,
        max_total_tokens: None,
        eos_token_ids: Vec::new(),
        no_bos: false,
        large_model_opt_in: false,
        hf_reference: None,
        report: None,
        case_timeout_seconds: None,
        profile_samples: 0,
        profile_report: None,
        top_logits: 0,
        json_output: false,
    };
    let ghost all = texts(args@);
    let ghost meaning = options_from(all, 0, cli_defaults());
    let mut i: usize = 0;
    while i < args.len()
        invariant
            i <= args@.len(),
            all == texts(args@),
            meaning == options_from(all, 0, cli_defaults()),
            meaning == options_from(all, i as int, draft.model()),
        decreases args@.len() - i,
    {
        let flag = args[i].as_str();
        assert(all[i as int] == flag@);
        if flag_takes_value(flag) {
            if i + 1 >= args.len() {
                return Err(cat2(flag, " requires a value"));
            }
            let value = args[i + 1].as_str();
            assert(all[i + 1] == value@);
            match draft.take_valued(flag, value) {
                Ok(_) => {},
                Err(message) => {
                    return Err(message);
                },
            }
            i = i + 2;
        } else {
            match draft.take_bare(flag) {
                Ok(_) => {},
                Err(message) => {
                    return Err(message);
                },
            }
            i = i + 1;
        }
    }
    let ghost d = draft.model();
    let prompt = draft.prompt.is_some();
    let mut inputs: usize = 0;
    if prompt {
        inputs = inputs + 1;
    }
    if draft.prompts_jsonl.is_some() {
        inputs = inputs + 1;
    }
    if draft.reference_manifest.is_some() {
        inputs = inputs + 1;
    }
    if inputs != 1 {
        return Err(
            "exactly one of --prompt, --prompts-jsonl, or --reference-manifest is required".to_owned(),
        );
    }
    if prompt && !matches!(draft.session_backend, SessionBackend::Direct) {
        return Err("--session-backend is only valid for session inputs".to_owned());
    }
    if prompt && draft.report.is_some() {
        return Err("--report is only valid for session inputs".to_owned());
    }
    if prompt && draft.profile_samples > 0 {
        return Err("--profile-samples is only valid for session inputs".to_owned());
    }
    if prompt && draft.case_timeout_seconds.is_some() {
        return Err("--case-timeout-seconds is only valid for session inputs".to_owned());
    }
    if prompt && draft.profile_report.is_some() {
        return Err("--profile-report is only valid for session inputs".to_owned());
    }
    if !prompt && draft.top_logits > 0 {
        return Err("--top-logits is only valid for single-prompt inference".to_owned());
    }
    if draft.profile_report.is_some() && draft.profile_samples == 0 {
        return Err("--profile-report requires --profile-samples".to_owned());
    }
    match draft.model_dir {
        Some(model_dir) => Ok(
            CliArgs {
                model_dir,
                prompt: draft.prompt,
                prompts_jsonl: draft.prompts_jsonl,
                reference_manifest: draft.reference_manifest,
                session_backend: draft.session_backend,
                max_new_tokens: draft.max_new_tokens,
                max_total_tokens: draft.max_total_tokens,
                eos_token_ids: draft.eos_token_ids,
                no_bos: draft.no_bos,
                large_model_opt_in: draft.large_model_opt_in,
                hf_reference: draft.hf_reference,
                report: draft.report,
                case_timeout_seconds: draft.case_timeout_seconds,
                profile_samples: draft.profile_samples,
                profile_report: draft.profile_report,
                top_logits: draft.top_logits,
                json_output: draft.json_output,
            },
        ),
        None => Err("--model-dir is required".to_owned()),
    }
}

pub open spec fn usage_text() -> Seq<char> {
    "usage: rvllm_metal_infer --model-dir <DIR> (--prompt <TEXT> | --prompts-jsonl <PATH> | --reference-manifest <PATH>) [--session-backend direct|engine] [--max-new-tokens N] [--max-total-tokens N] [--eos-token-ids IDS] [--no-bos] [--large-model-opt-in] [--hf-reference <JSON>] [--report <JSON>] [--case-timeout-seconds N] [--profile-samples N] [--profile-report <JSON>] [--top-logits N] [--json]"@
}

pub fn usage() -> (r: String)
    ensures
        r@ == usage_text(),
{
    "usage: rvllm_metal_infer --model-dir <DIR> (--prompt <TEXT> | --prompts-jsonl <PATH> | --reference-manifest <PATH>) [--session-backend direct|engine] [--max-new-tokens N] [--max-total-tokens N] [--eos-token-ids IDS] [--no-bos] [--large-model-opt-in] [--hf-reference <JSON>] [--report <JSON>] [--case-timeout-seconds N] [--profile-samples N] [--profile-report <JSON>] [--top-logits N] [--json]".to_owned()
}

/// An accepted command line has one kind of input, and only session inputs have
/// session options.
pub proof fn accepted_lines_have_one_input(args: Seq<Seq<char>>)
    requires
        command_line(args) is Ok,
    ensures
        ({
            let d = command_line(args)->Ok_0;
            &&& d.model_dir is Some
            &&& session_inputs(d) == 1
            &&& d.prompt is Some ==> d.session_backend == SessionBackend::Direct && d.report is None
                && d.profile_samples == 0 && d.case_timeout_seconds is None && d.profile_report
                is None
            &&& d.top_logits > 0 ==> d.prompt is Some
            &&& d.profile_report is Some ==> d.profile_samples > 0
        }),
{
}

} // verus!
