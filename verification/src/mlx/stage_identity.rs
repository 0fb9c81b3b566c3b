//! What a stage microbenchmark job is: its model, weight bits, lengths, sources
//! and the inputs that it seals.
use crate::json::{
    array_at, array_of, as_text, at, at2, bool_at, elements, is_object, json_model, member, member2,
    member_array, member_flag, member_natural, member_text, models, natural_at, text_at, text_in,
    text_of, JsonModel,
};
use crate::paths::{join_path, joined};
use crate::text::{
    after_prefix, cat2, cat4, cat6, decimal, decimal_text, fault_text, numeral, opt_text,
    parse_numeral, quoted, quoted_text, same, split, split_text, strip_prefix_text, texts, told,
};
use vstd::prelude::*;

verus! {

// ---------------------------------------------------------------------------
// Members that must be there
// ---------------------------------------------------------------------------

pub open spec fn string_at(value: JsonModel, name: Seq<char>) -> Result<Seq<char>, Seq<char>> {
    match text_at(value, name) {
        Some(text) => Ok(text),
        None => Err("missing or invalid string "@ + name),
    }
}

pub fn string<'a>(value: &'a serde_json::Value, name: &str) -> (r: Result<&'a str, String>)
    ensures
        crate::metal_infer::cases::str_told(r) == string_at(json_model(*value), name@),
{
    match member_text(value, name) {
        Some(text) => Ok(text),
        None => Err(cat2("missing or invalid string ", name)),
    }
}

pub open spec fn unsigned_at(value: JsonModel, name: Seq<char>) -> Result<u64, Seq<char>> {
    match natural_at(value, name) {
        Some(n) => Ok(n),
        None => Err("missing or invalid unsigned integer "@ + name),
    }
}

pub fn unsigned(value: &serde_json::Value, name: &str) -> (r: Result<u64, String>)
    ensures
        told(r) == unsigned_at(json_model(*value), name@),
{
    match member_natural(value, name) {
        Some(n) => Ok(n),
        None => Err(cat2("missing or invalid unsigned integer ", name)),
    }
}

pub open spec fn boolean_at(value: JsonModel, name: Seq<char>) -> Result<bool, Seq<char>> {
    match bool_at(value, name) {
        Some(b) => Ok(b),
        None => Err("missing or invalid boolean "@ + name),
    }
}

pub fn boolean(value: &serde_json::Value, name: &str) -> (r: Result<bool, String>)
    ensures
        told(r) == boolean_at(json_model(*value), name@),
{
    match member_flag(value, name) {
        Some(b) => Ok(b),
        None => Err(cat2("missing or invalid boolean ", name)),
    }
}

pub open spec fn object_at(value: JsonModel, name: Seq<char>) -> Result<JsonModel, Seq<char>> {
    match at(value, name) {
        Some(member) => if member is Object {
            Ok(member)
        } else {
            Err("missing or invalid object "@ + name)
        },
        None => Err("missing or invalid object "@ + name),
    }
}

pub open spec fn value_told(r: Result<&serde_json::Value, String>) -> Result<JsonModel, Seq<char>> {
    match r {
        Ok(value) => Ok(json_model(*value)),
        Err(e) => Err(e@),
    }
}

pub fn object_field<'a>(value: &'a serde_json::Value, name: &str) -> (r: Result<
    &'a serde_json::Value,
    String,
>)
    ensures
        value_told(r) == object_at(json_model(*value), name@),
{
    match member(value, name) {
        Some(found) => {
            if is_object(found) {
                Ok(found)
            } else {
                Err(cat2("missing or invalid object ", name))
            }
        },
        None => Err(cat2("missing or invalid object ", name)),
    }
}

pub open spec fn items_at(value: JsonModel, name: Seq<char>) -> Result<Seq<JsonModel>, Seq<char>> {
    match array_at(value, name) {
        Some(items) => Ok(items),
        None => Err("missing or invalid array "@ + name),
    }
}

pub open spec fn items_told(r: Result<&Vec<serde_json::Value>, String>) -> Result<
    Seq<JsonModel>,
    Seq<char>,
> {
    match r {
        Ok(items) => Ok(models(items@)),
        Err(e) => Err(e@),
    }
}

pub fn array_field<'a>(value: &'a serde_json::Value, name: &str) -> (r: Result<
    &'a Vec<serde_json::Value>,
    String,
>)
    ensures
        items_told(r) == items_at(json_model(*value), name@),
{
    match member_array(value, name) {
        Some(items) => Ok(items),
        None => Err(cat2("missing or invalid array ", name)),
    }
}

/// A text or null, which must be there.
pub open spec fn nullable_at(value: JsonModel, name: Seq<char>) -> Result<
    Option<Seq<char>>,
    Seq<char>,
> {
    match at(value, name) {
        Some(JsonModel::Null) => Ok(None),
        Some(JsonModel::Text(text)) => Ok(Some(text)),
        _ => Err("missing or invalid nullable string "@ + name),
    }
}

pub open spec fn opt_told(r: Result<Option<String>, String>) -> Result<
    Option<Seq<char>>,
    Seq<char>,
> {
    match r {
        Ok(text) => Ok(opt_text(text)),
        Err(e) => Err(e@),
    }
}

pub fn optional_string(value: &serde_json::Value, name: &str) -> (r: Result<Option<String>, String>)
    ensures
        opt_told(r) == nullable_at(json_model(*value), name@),
{
    match member(value, name) {
        None => Err(cat2("missing or invalid nullable string ", name)),
        Some(found) => {
            if crate::json::is_null(found) {
                return Ok(None);
            }
            match as_text(found) {
                Some(text) => Ok(Some(text.to_owned())),
                None => Err(cat2("missing or invalid nullable string ", name)),
            }
        },
    }
}

// ---------------------------------------------------------------------------
// Arguments
// ---------------------------------------------------------------------------

/// What an argument gives a name: the text after `name=`, or the argument that
/// follows the name itself.
pub open spec fn stage_argument_at(args: Seq<Seq<char>>, name: Seq<char>, i: int) -> Option<
    Seq<char>,
> {
    match after_prefix(args[i], name + "="@) {
        Some(value) => Some(value),
        None => if args[i] == name && i + 1 < args.len() {
            Some(args[i + 1])
        } else {
            None
        },
    }
}

/// The one value that the arguments from `i` on give a name, after one was
/// found or not.
pub open spec fn only_argument(
    args: Seq<Seq<char>>,
    name: Seq<char>,
    i: int,
    found: Option<Seq<char>>,
) -> Result<Seq<char>, Seq<char>>
    decreases args.len() - i,
{
    if i >= args.len() {
        match found {
            Some(value) => Ok(value),
            None => Err("job arguments missing "@ + name),
        }
    } else {
        match stage_argument_at(args, name, i) {
            Some(value) => match found {
                Some(_) => Err("job arguments duplicate "@ + name),
                None => only_argument(args, name, i + 1, Some(value)),
            },
            None => only_argument(args, name, i + 1, found),
        }
    }
}

pub open spec fn string_told(r: Result<String, String>) -> Result<Seq<char>, Seq<char>> {
    match r {
        Ok(text) => Ok(text@),
        Err(e) => Err(e@),
    }
}

/// The value of an argument that must be given exactly once.
pub fn argument(args: &Vec<String>, name: &str) -> (r: Result<String, String>)
    ensures
        string_told(r) == only_argument(texts(args@), name@, 0, None),
{
    let ghost all = texts(args@);
    let assigned = cat2(name, "=");
    let mut found: Option<String> = None;
    let mut i: usize = 0;
    while i < args.len()
        invariant
            i <= args@.len(),
            all == texts(args@),
            assigned@ == name@ + "="@,
            only_argument(all, name@, 0, None) == only_argument(
                all,
                name@,
                i as int,
                opt_text(found),
            ),
        decreases args@.len() - i,
    {
        assert(all[i as int] == args@[i as int]@);
        let mut value: Option<String> = strip_prefix_text(args[i].as_str(), assigned.as_str());
        if value.is_none() && same(args[i].as_str(), name) && i + 1 < args.len() {
            assert(all[i + 1] == args@[i + 1]@);
            value = Some(args[i + 1].clone());
        }
        assert(opt_text(value) == stage_argument_at(all, name@, i as int));
        if value.is_some() {
            if found.is_some() {
                return Err(cat2("job arguments duplicate ", name));
            }
            found = value;
        }
        i = i + 1;
    }
    match found {
        Some(value) => Ok(value),
        None => Err(cat2("job arguments missing ", name)),
    }
}

pub open spec fn u64_argument(args: Seq<Seq<char>>, name: Seq<char>) -> Result<u64, Seq<char>> {
    match only_argument(args, name, 0, None) {
        Err(message) => Err(message),
        Ok(raw) => match numeral(raw, u64::MAX as nat) {
            Ok(n) => Ok(n as u64),
            Err(f) => Err("invalid "@ + name + " value "@ + quoted(raw) + ": "@ + fault_text(f)),
        },
    }
}

pub fn parse_u64_argument(args: &Vec<String>, name: &str) -> (r: Result<u64, String>)
    ensures
        told(r) == u64_argument(texts(args@), name@),
{
    let raw = match argument(args, name) {
        Ok(raw) => raw,
        Err(message) => {
            return Err(message);
        },
    };
    match parse_numeral(raw.as_str(), u64::MAX) {
        Ok(n) => Ok(n),
        Err(f) => {
            let shown = quoted_text(raw.as_str());
            Err(cat6("invalid ", name, " value ", shown.as_str(), ": ", f.text()))
        },
    }
}

// ---------------------------------------------------------------------------
// Identity
// ---------------------------------------------------------------------------

pub open spec fn stage_tool() -> Seq<char> {
    "tools/mlx_gemma4_stage_bench.py"@
}

/// One input that a job seals.
#[derive(Debug)]
pub struct SealedInput {
    pub path: String,
    pub sha256: String,
}

pub open spec fn seals(inputs: Seq<SealedInput>) -> Seq<(Seq<char>, Seq<char>)> {
    Seq::new(inputs.len(), |i: int| (inputs[i].path@, inputs[i].sha256@))
}

/// What a job is.
#[derive(Debug)]
pub struct JobIdentity {
    pub id: String,
    pub model: String,
    pub bits: u64,
    pub lengths: Vec<u64>,
    pub mlx_source: String,
    pub mlx_lm_source: String,
    pub input_hashes: Vec<SealedInput>,
}

pub struct IdentityModel {
    pub id: Seq<char>,
    pub model: Seq<char>,
    pub bits: u64,
    pub lengths: Seq<u64>,
    pub mlx_source: Seq<char>,
    pub mlx_lm_source: Seq<char>,
    pub input_hashes: Seq<(Seq<char>, Seq<char>)>,
}

impl View for JobIdentity {
    type V = IdentityModel;

    open spec fn view(&self) -> IdentityModel {
        IdentityModel {
            id: self.id@,
            model: self.model@,
            bits: self.bits,
            lengths: self.lengths@,
            mlx_source: self.mlx_source@,
            mlx_lm_source: self.mlx_lm_source@,
            input_hashes: seals(self.input_hashes@),
        }
    }
}

/// The arguments of the items from `i` on, which must all be strings.
pub open spec fn all_texts(items: Seq<JsonModel>, i: int, args: Seq<Seq<char>>) -> Result<
    Seq<Seq<char>>,
    Seq<char>,
>
    decreases items.len() - i,
{
    if i >= items.len() {
        Ok(args)
    } else {
        match text_of(items[i]) {
            Some(text) => all_texts(items, i + 1, args.push(text)),
            None => Err("job command argument is not a string"@),
        }
    }
}

pub open spec fn stage_args(job: JsonModel) -> Result<Seq<Seq<char>>, Seq<char>> {
    match at2(job, "command"@, "args"@) {
        Some(value) => match array_of(value) {
            Some(items) => all_texts(items, 0, Seq::empty()),
            None => Err("job command.args is missing or invalid"@),
        },
        None => Err("job command.args is missing or invalid"@),
    }
}

pub open spec fn texts_told(r: Result<Vec<String>, String>) -> Result<Seq<Seq<char>>, Seq<char>> {
    match r {
        Ok(v) => Ok(texts(v@)),
        Err(e) => Err(e@),
    }
}

fn stage_args_of(job: &serde_json::Value) -> (r: Result<Vec<String>, String>)
    ensures
        texts_told(r) == stage_args(json_model(*job)),
{
    let value = match member2(job, "command", "args") {
        Some(value) => value,
        None => {
            return Err("job command.args is missing or invalid".to_owned());
        },
    };
    let items = match elements(value) {
        Some(items) => items,
        None => {
            return Err("job command.args is missing or invalid".to_owned());
        },
    };
    let ghost all = models(items@);
    let mut args: Vec<String> = Vec::new();
    let mut i: usize = 0;
    assert(texts(args@) =~= Seq::empty());
    while i < items.len()
        invariant
            i <= items@.len(),
            all == models(items@),
            stage_args(json_model(*job)) == all_texts(all, i as int, texts(args@)),
        decreases items@.len() - i,
    {
        assert(all[i as int] == json_model(items@[i as int]));
        match as_text(&items[i]) {
            Some(text) => {
                let ghost before = args@;
                args.push(text.to_owned());
                assert(texts(args@) =~= texts(before).push(text@));
            },
            None => {
                return Err("job command argument is not a string".to_owned());
            },
        }
        i = i + 1;
    }
    Ok(args)
}

/// The lengths of the pieces from `i` on, after those already read.
pub open spec fn lengths_from(pieces: Seq<Seq<char>>, i: int, lengths: Seq<u64>) -> Result<
    Seq<u64>,
    Seq<char>,
>
    decreases pieces.len() - i,
{
    if i >= pieces.len() {
        Ok(lengths)
    } else {
        match numeral(pieces[i], u64::MAX as nat) {
            Ok(n) => lengths_from(pieces, i + 1, lengths.push(n as u64)),
            Err(f) => Err("invalid --lengths item "@ + quoted(pieces[i]) + ": "@ + fault_text(f)),
        }
    }
}

pub open spec fn has_zero(lengths: Seq<u64>) -> bool {
    exists|i: int| 0 <= i < lengths.len() && #[trigger] lengths[i] == 0
}

/// The lengths of a job: positive and distinct.
pub open spec fn job_lengths(args: Seq<Seq<char>>) -> Result<Seq<u64>, Seq<char>> {
    match only_argument(args, "--lengths"@, 0, None) {
        Err(message) => Err(message),
        Ok(raw) => match lengths_from(split(raw, ','), 0, Seq::empty()) {
            Err(message) => Err(message),
            Ok(lengths) => if lengths.len() == 0 || has_zero(lengths) {
                Err("--lengths must contain positive integers"@)
            } else if !lengths.no_duplicates() {
                Err("--lengths contains duplicates"@)
            } else {
                Ok(lengths)
            },
        },
    }
}

pub open spec fn lengths_told(r: Result<Vec<u64>, String>) -> Result<Seq<u64>, Seq<char>> {
    match r {
        Ok(v) => Ok(v@),
        Err(e) => Err(e@),
    }
}

fn zero_among(lengths: &Vec<u64>) -> (r: bool)
    ensures
        r == has_zero(lengths@),
{
    let mut i: usize = 0;
    while i < lengths.len()
        invariant
            i <= lengths@.len(),
            forall|j: int| 0 <= j < i ==> #[trigger] lengths@[j] != 0,
        decreases lengths@.len() - i,
    {
        if lengths[i] == 0 {
            return true;
        }
        i = i + 1;
    }
    false
}

fn distinct(lengths: &Vec<u64>) -> (r: bool)
    ensures
        r == lengths@.no_duplicates(),
{
    let mut i: usize = 0;
    while i < lengths.len()
        invariant
            i <= lengths@.len(),
            forall|a: int, b: int| 0 <= a < b < i ==> lengths@[a] != lengths@[b],
        decreases lengths@.len() - i,
    {
        let mut j: usize = 0;
        while j < i
            invariant
                j <= i < lengths@.len(),
                forall|a: int| 0 <= a < j ==> lengths@[a] != lengths@[i as int],
            decreases i - j,
        {
            if lengths[j] == lengths[i] {
                return false;
            }
            j = j + 1;
        }
        i = i + 1;
    }
    true
}

fn lengths_of(args: &Vec<String>) -> (r: Result<Vec<u64>, String>)
    ensures
        lengths_told(r) == job_lengths(texts(args@)),
{
    let raw = match argument(args, "--lengths") {
        Ok(raw) => raw,
        Err(message) => {
            return Err(message);
        },
    };
    let pieces = split_text(raw.as_str(), ',');
    let ghost parts = split(raw@, ',');
    let mut lengths: Vec<u64> = Vec::new();
    let mut i: usize = 0;
    while i < pieces.len()
        invariant
            i <= pieces@.len(),
            parts == split(raw@, ','),
            texts(pieces@) == parts,
            only_argument(texts(args@), "--lengths"@, 0, None) == Ok::<Seq<char>, Seq<char>>(raw@),
            lengths_from(parts, 0, Seq::empty()) == lengths_from(parts, i as int, lengths@),
        decreases pieces@.len() - i,
    {
        assert(parts[i as int] == pieces@[i as int]@);
        match parse_numeral(pieces[i].as_str(), u64::MAX) {
            Ok(n) => {
                lengths.push(n);
            },
            Err(f) => {
                let shown = quoted_text(pieces[i].as_str());
                return Err(cat4("invalid --lengths item ", shown.as_str(), ": ", f.text()));
            },
        }
        i = i + 1;
    }
    if lengths.len() == 0 || zero_among(&lengths) {
        return Err("--lengths must contain positive integers".to_owned());
    }
    if !distinct(&lengths) {
        return Err("--lengths contains duplicates".to_owned());
    }
    Ok(lengths)
}

/// The digest that a path is sealed with.
pub open spec fn sealed(inputs: Seq<(Seq<char>, Seq<char>)>, path: Seq<char>, i: int) -> Option<
    Seq<char>,
>
    decreases inputs.len() - i,
{
    if i >= inputs.len() {
        None
    } else if inputs[i].0 == path {
        Some(inputs[i].1)
    } else {
        sealed(inputs, path, i + 1)
    }
}

/// The place of a sealed path.
pub fn find_seal(inputs: &Vec<SealedInput>, path: &str) -> (r: Option<usize>)
    ensures
        match r {
            Some(i) => i < inputs@.len() && sealed(seals(inputs@), path@, 0) == Some(
                inputs@[i as int].sha256@,
            ),
            None => sealed(seals(inputs@), path@, 0) is None,
        },
{
    let ghost all = seals(inputs@);
    let mut i: usize = 0;
    while i < inputs.len()
        invariant
            i <= inputs@.len(),
            all == seals(inputs@),
            sealed(all, path@, 0) == sealed(all, path@, i as int),
        decreases inputs@.len() - i,
    {
        assert(all[i as int] == (inputs@[i as int].path@, inputs@[i as int].sha256@));
        if same(inputs[i].path.as_str(), path) {
            return Some(i);
        }
        i = i + 1;
    }
    None
}

/// The inputs of the items from `i` on, after those already read; no path
/// occurs twice.
pub open spec fn inputs_from(
    items: Seq<JsonModel>,
    i: int,
    inputs: Seq<(Seq<char>, Seq<char>)>,
) -> Result<Seq<(Seq<char>, Seq<char>)>, Seq<char>>
    decreases items.len() - i,
{
    if i >= items.len() {
        Ok(inputs)
    } else {
        match string_at(items[i], "path"@) {
            Err(message) => Err(message),
            Ok(path) => match string_at(items[i], "sha256"@) {
                Err(message) => Err(message),
                Ok(sha256) => if sealed(inputs, path, 0) is Some {
                    Err("job inputs duplicate path "@ + path)
                } else {
                    inputs_from(items, i + 1, inputs.push((path, sha256)))
                },
            },
        }
    }
}

pub open spec fn job_inputs(job: JsonModel) -> Result<Seq<(Seq<char>, Seq<char>)>, Seq<char>> {
    match items_at(job, "inputs"@) {
        Err(message) => Err(message),
        Ok(items) => inputs_from(items, 0, Seq::empty()),
    }
}

fn inputs_of(job: &serde_json::Value) -> (r: Result<Vec<SealedInput>, String>)
    ensures
        match (job_inputs(json_model(*job)), r) {
            (Ok(inputs), Ok(v)) => inputs == seals(v@),
            (Err(message), Err(e)) => e@ == message,
            _ => false,
        },
{
    let items = match array_field(job, "inputs") {
        Ok(items) => items,
        Err(message) => {
            return Err(message);
        },
    };
    let ghost all = models(items@);
    let mut inputs: Vec<SealedInput> = Vec::new();
    let mut i: usize = 0;
    assert(seals(inputs@) =~= Seq::empty());
    while i < items.len()
        invariant
            i <= items@.len(),
            all == models(items@),
            job_inputs(json_model(*job)) == inputs_from(all, i as int, seals(inputs@)),
        decreases items@.len() - i,
    {
        assert(all[i as int] == json_model(items@[i as int]));
        let path = match string(&items[i], "path") {
            Ok(text) => text.to_owned(),
            Err(message) => {
                return Err(message);
            },
        };
        let sha256 = match string(&items[i], "sha256") {
            Ok(text) => text.to_owned(),
            Err(message) => {
                return Err(message);
            },
        };
        if find_seal(&inputs, path.as_str()).is_some() {
            return Err(cat2("job inputs duplicate path ", path.as_str()));
        }
        let ghost before = inputs@;
        let ghost pair = (path@, sha256@);
        inputs.push(SealedInput { path, sha256 });
        assert(seals(inputs@) =~= seals(before).push(pair));
        i = i + 1;
    }
    Ok(inputs)
}

pub open spec fn supported_bits(bits: u64) -> bool {
    bits == 4 || bits == 8 || bits == 16
}

/// What a job's document says it is.
pub open spec fn identity_of(job: JsonModel) -> Result<IdentityModel, Seq<char>> {
    match string_at(job, "id"@) {
        Err(message) => Err(message),
        Ok(id) => match stage_args(job) {
            Err(message) => Err(message),
            Ok(args) => if args.len() == 0 || args[0] != stage_tool() {
                Err("job does not invoke pinned stage tool "@ + stage_tool())
            } else {
                match only_argument(args, "--model"@, 0, None) {
                    Err(message) => Err(message),
                    Ok(model) => match u64_argument(args, "--weight-bits"@) {
                        Err(message) => Err(message),
                        Ok(bits) => if !supported_bits(bits) {
                            Err("unsupported weight bits "@ + decimal(bits as nat))
                        } else {
                            identity_rest(job, args, id, model, bits)
                        },
                    },
                }
            },
        },
    }
}

pub open spec fn identity_rest(
    job: JsonModel,
    args: Seq<Seq<char>>,
    id: Seq<char>,
    model: Seq<char>,
    bits: u64,
) -> Result<IdentityModel, Seq<char>> {
    match job_lengths(args) {
        Err(message) => Err(message),
        Ok(lengths) => match only_argument(args, "--mlx-source"@, 0, None) {
            Err(message) => Err(message),
            Ok(mlx_source) => match only_argument(args, "--mlx-lm-source"@, 0, None) {
                Err(message) => Err(message),
                Ok(mlx_lm_source) => match job_inputs(job) {
                    Err(message) => Err(message),
                    Ok(input_hashes) => match text_in(at2(job, "command"@, "cwd"@)) {
                        None => Err("job command.cwd is missing or invalid"@),
                        Some(cwd) => if sealed(
                            input_hashes,
                            joined(cwd, stage_tool()),
                            0,
                        ) is None {
                            Err("job inputs do not seal stage tool "@ + joined(cwd, stage_tool()))
                        } else {
                            Ok(
                                IdentityModel {
                                    id,
                                    model,
                                    bits,
                                    lengths,
                                    mlx_source,
                                    mlx_lm_source,
                                    input_hashes,
                                },
                            )
                        },
                    },
                },
            },
        },
    }
}

pub open spec fn identity_told(r: Result<JobIdentity, String>) -> Result<IdentityModel, Seq<char>> {
    match r {
        Ok(identity) => Ok(identity@),
        Err(e) => Err(e@),
    }
}

pub fn parse_job_identity(job: &serde_json::Value) -> (r: Result<JobIdentity, String>)
    ensures
        identity_told(r) == identity_of(json_model(*job)),
{
    let id = match string(job, "id") {
        Ok(text) => text.to_owned(),
        Err(message) => {
            return Err(message);
        },
    };
    let args = match stage_args_of(job) {
        Ok(args) => args,
        Err(message) => {
            return Err(message);
        },
    };
    if args.len() == 0 || !same(args[0].as_str(), "tools/mlx_gemma4_stage_bench.py") {
        return Err(
            cat2("job does not invoke pinned stage tool ", "tools/mlx_gemma4_stage_bench.py"),
        );
    }
    let model = match argument(&args, "--model") {
        Ok(model) => model,
        Err(message) => {
            return Err(message);
        },
    };
    let bits: u64 = match parse_u64_argument(&args, "--weight-bits") {
        Ok(bits) => bits,
        Err(message) => {
            return Err(message);
        },
    };
    if !(bits == 4 || bits == 8 || bits == 16) {
        let number = decimal_text(bits);
        return Err(cat2("unsupported weight bits ", number.as_str()));
    }
    let lengths = match lengths_of(&args) {
        Ok(lengths) => lengths,
        Err(message) => {
            return Err(message);
        },
    };
    let mlx_source = match argument(&args, "--mlx-source") {
        Ok(text) => text,
        Err(message) => {
            return Err(message);
        },
    };
    let mlx_lm_source = match argument(&args, "--mlx-lm-source") {
        Ok(text) => text,
        Err(message) => {
            return Err(message);
        },
    };
    let input_hashes = match inputs_of(job) {
        Ok(inputs) => inputs,
        Err(message) => {
            return Err(message);
        },
    };
    let cwd = match member2(job, "command", "cwd") {
        Some(value) => match as_text(value) {
            Some(text) => text,
            None => {
                return Err("job command.cwd is missing or invalid".to_owned());
            },
        },
        None => {
            return Err("job command.cwd is missing or invalid".to_owned());
        },
    };
    let tool_path = join_path(cwd, "tools/mlx_gemma4_stage_bench.py");
    if find_seal(&input_hashes, tool_path.as_str()).is_none() {
        return Err(cat2("job inputs do not seal stage tool ", tool_path.as_str()));
    }
    Ok(JobIdentity { id, model, bits, lengths, mlx_source, mlx_lm_source, input_hashes })
}

/// Whether a path is sealed with a digest.
pub open spec fn hash_outcome(job: IdentityModel, path: Seq<char>, actual: Seq<char>) -> Result<
    (),
    Seq<char>,
> {
    match sealed(job.input_hashes, path, 0) {
        Some(expected) => if expected == actual {
            Ok(())
        } else {
            Err("input identity mismatch for "@ + path + ": "@ + actual + " != "@ + expected)
        },
        None => Err("job inputs do not seal "@ + path),
    }
}

pub fn require_input_hash(job: &JobIdentity, path: &str, actual: &str) -> (r: Result<(), String>)
    ensures
        told(r) == hash_outcome(job@, path@, actual@),
{
    match find_seal(&job.input_hashes, path) {
        Some(i) => {
            let expected = job.input_hashes[i].sha256.as_str();
            if same(expected, actual) {
                Ok(())
            } else {
                Err(cat6("input identity mismatch for ", path, ": ", actual, " != ", expected))
            }
        },
        None => Err(cat2("job inputs do not seal ", path)),
    }
}

/// An accepted identity seals the tool that it invokes, under one digest, and
/// asks for distinct positive lengths.
pub proof fn accepted_identities_are_sealed(job: JsonModel)
    requires
        identity_of(job) is Ok,
    ensures
        ({
            let identity = identity_of(job)->Ok_0;
            let cwd = text_in(at2(job, "command"@, "cwd"@));
            &&& supported_bits(identity.bits)
            &&& identity.lengths.len() > 0
            &&& identity.lengths.no_duplicates()
            &&& !has_zero(identity.lengths)
            &&& cwd is Some
            &&& sealed(identity.input_hashes, joined(cwd->0, stage_tool()), 0) is Some
        }),
{
}

} // verus!
