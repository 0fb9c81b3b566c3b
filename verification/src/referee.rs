//! The referee of checkpoint quality for experimental low-bit routes: sealed
//! identities, exact coverage of a held-out fixture, calibrated gates, and a
//! decision that fails closed. Doubles are given by their bits.
use crate::json::{double_key, finite_bits, is_finite_double, key_of_double, magnitude};
use crate::order::strs;
use crate::text::{cat2, cat3, cat6, chars_of, same, texts, told, trim_text, trimmed};
use vstd::prelude::*;

verus! {

/// The projections that a fully quantized checkpoint covers.
pub const REQUIRED_ROLES: [&'static str; 7] = [
    "q_projection",
    "k_projection",
    "v_projection",
    "o_projection",
    "gate_projection",
    "up_projection",
    "down_projection",
];

/// A file and its digest.
#[derive(Debug)]
pub struct FileIdentity {
    pub path: String,
    pub sha256: String,
}

#[derive(Debug)]
pub struct CheckpointIdentity {
    pub repository: String,
    pub revision: String,
    pub manifest_sha256: String,
}

#[derive(Debug)]
pub struct QuantizerIdentity {
    pub name: String,
    pub implementation_revision: String,
    pub weight_bits: u8,
    pub group_size: u32,
    pub scale_dtype: String,
    pub zero_point: bool,
    pub rounding: String,
    pub calibration_dataset_sha256: Option<String>,
}

#[derive(Debug)]
pub struct RouteIdentity {
    pub name: String,
    pub source_tree_sha256: String,
    pub executable_sha256: String,
    pub model_package_sha256: String,
    pub full_model_route: bool,
}

#[derive(Debug)]
pub struct Coverage {
    pub full_checkpoint_quantized: bool,
    pub quantized_roles: Vec<String>,
    pub operator_correctness_receipt_sha256: Option<String>,
}

/// What the referee is asked to judge.
#[derive(Debug)]
pub struct Input {
    pub schema: String,
    pub checkpoint: CheckpointIdentity,
    pub config: FileIdentity,
    pub quantizer: QuantizerIdentity,
    pub reference_route: RouteIdentity,
    pub candidate_route: RouteIdentity,
    pub fixture: FileIdentity,
    pub reference_observations: FileIdentity,
    pub candidate_observations: FileIdentity,
    pub calibration: Option<FileIdentity>,
    pub coverage: Coverage,
}

// ---------------------------------------------------------------------------
// Identities
// ---------------------------------------------------------------------------

/// How many bytes a character takes in UTF-8.
pub open spec fn char_bytes(c: char) -> nat {
    let u = c as nat;
    if u < 0x80 {
        1
    } else if u < 0x800 {
        2
    } else if u < 0x10000 {
        3
    } else {
        4
    }
}

/// How many bytes a text takes in UTF-8.
pub open spec fn text_bytes(s: Seq<char>) -> nat
    decreases s.len(),
{
    if s.len() == 0 {
        0
    } else {
        text_bytes(s.drop_last()) + char_bytes(s.last())
    }
}

/// Unicode's control characters.
pub open spec fn is_control(c: char) -> bool {
    c as nat <= 0x1f || 0x7f <= c as nat <= 0x9f
}

pub open spec fn has_control(s: Seq<char>) -> bool {
    exists|i: int| 0 <= i < s.len() && is_control(#[trigger] s[i])
}

pub open spec fn identity_outcome(label: Seq<char>, value: Seq<char>) -> Result<(), Seq<char>> {
    if value.len() == 0 || text_bytes(value) > 256 || has_control(value) {
        Err("invalid "@ + label)
    } else {
        Ok(())
    }
}

fn width_of(c: char) -> (r: usize)
    ensures
        r == char_bytes(c),
{
    let u: u32 = c as u32;
    if u < 0x80 {
        1
    } else if u < 0x800 {
        2
    } else if u < 0x10000 {
        3
    } else {
        4
    }
}

fn is_control_char(c: char) -> (r: bool)
    ensures
        r == is_control(c),
{
    let u: u32 = c as u32;
    u <= 0x1f || (0x7f <= u && u <= 0x9f)
}

/// Checks a name: not empty, at most 256 bytes, no control character.
pub fn validate_identity(label: &str, value: &str) -> (r: Result<(), String>)
    ensures
        told(r) == identity_outcome(label@, value@),
{
    let chars = chars_of(value);
    let mut bytes: usize = 0;
    let mut control = false;
    let mut i: usize = 0;
    while i < chars.len()
        invariant
            i <= chars@.len(),
            chars@ == value@,
            bytes <= 260,
            bytes <= 256 ==> bytes == text_bytes(value@.take(i as int)),
            bytes > 256 ==> text_bytes(value@.take(i as int)) > 256,
            control == exists|j: int| 0 <= j < i && is_control(#[trigger] value@[j]),
        decreases chars@.len() - i,
    {
        proof {
            assert(value@.take(i + 1).drop_last() =~= value@.take(i as int));
        }
        if bytes <= 256 {
            bytes = bytes + width_of(chars[i]);
        }
        if is_control_char(chars[i]) {
            assert(is_control(value@[i as int]));
            control = true;
        }
        i = i + 1;
    }
    assert(value@.take(i as int) =~= value@);
    if chars.len() == 0 || bytes > 256 || control {
        return Err(cat2("invalid ", label));
    }
    Ok(())
}

/// The first fault of a request's own fields.
pub open spec fn input_outcome(input: Input) -> Result<(), Seq<char>> {
    if input.schema@ != "rvllm.gemma4_quality_referee.input.v1"@ {
        Err("wrong input schema: "@ + input.schema@)
    } else if identity_outcome("repository"@, input.checkpoint.repository@) is Err {
        identity_outcome("repository"@, input.checkpoint.repository@)
    } else if identity_outcome("revision"@, input.checkpoint.revision@) is Err {
        identity_outcome("revision"@, input.checkpoint.revision@)
    } else if identity_outcome("quantizer"@, input.quantizer.name@) is Err {
        identity_outcome("quantizer"@, input.quantizer.name@)
    } else if identity_outcome("quantizer revision"@, input.quantizer.implementation_revision@) is Err {
        identity_outcome("quantizer revision"@, input.quantizer.implementation_revision@)
    } else if (input.quantizer.weight_bits != 4 && input.quantizer.weight_bits != 8)
        || input.quantizer.group_size == 0 {
        Err("quality referee accepts only W4/W8 with nonzero group size"@)
    } else {
        Ok(())
    }
}

/// Checks a request's own fields.
pub fn check_input(input: &Input) -> (r: Result<(), String>)
    ensures
        told(r) == input_outcome(*input),
{
    if !same(input.schema.as_str(), "rvllm.gemma4_quality_referee.input.v1") {
        return Err(cat2("wrong input schema: ", input.schema.as_str()));
    }
    match validate_identity("repository", input.checkpoint.repository.as_str()) {
        Ok(_) => {},
        Err(message) => {
            return Err(message);
        },
    }
    match validate_identity("revision", input.checkpoint.revision.as_str()) {
        Ok(_) => {},
        Err(message) => {
            return Err(message);
        },
    }
    match validate_identity("quantizer", input.quantizer.name.as_str()) {
        Ok(_) => {},
        Err(message) => {
            return Err(message);
        },
    }
    match validate_identity(
        "quantizer revision",
        input.quantizer.implementation_revision.as_str(),
    ) {
        Ok(_) => {},
        Err(message) => {
            return Err(message);
        },
    }
    if (input.quantizer.weight_bits != 4 && input.quantizer.weight_bits != 8)
        || input.quantizer.group_size == 0 {
        return Err("quality referee accepts only W4/W8 with nonzero group size".to_owned());
    }
    Ok(())
}

pub open spec fn file_outcome(identity: FileIdentity, actual: Result<Seq<char>, Seq<char>>) -> Result<
    (),
    Seq<char>,
> {
    match actual {
        Err(message) => Err(message),
        Ok(digest) => if digest != identity.sha256@ {
            Err(
                "sha256 mismatch for "@ + identity.path@ + ": expected "@ + identity.sha256@
                    + ", got "@ + digest,
            )
        } else {
            Ok(())
        },
    }
}

pub open spec fn digest_told(r: Result<String, String>) -> Result<Seq<char>, Seq<char>> {
    match r {
        Ok(t) => Ok(t@),
        Err(e) => Err(e@),
    }
}

/// Checks a file's digest against its identity.
pub fn verify_file(identity: &FileIdentity, actual: &Result<String, String>) -> (r: Result<
    (),
    String,
>)
    ensures
        told(r) == file_outcome(*identity, digest_told(*actual)),
{
    match actual {
        Err(message) => Err(message.as_str().to_owned()),
        Ok(digest) => {
            if !same(digest.as_str(), identity.sha256.as_str()) {
                return Err(
                    cat6(
                        "sha256 mismatch for ",
                        identity.path.as_str(),
                        ": expected ",
                        identity.sha256.as_str(),
                        ", got ",
                        digest.as_str(),
                    ),
                );
            }
            Ok(())
        },
    }
}

// ---------------------------------------------------------------------------
// Fixture and observations
// ---------------------------------------------------------------------------

#[derive(Debug)]
pub struct FixtureCase {
    pub id: String,
    pub token_ids: Vec<u32>,
    pub target_token_ids: Vec<u32>,
}

#[derive(Debug)]
pub struct Fixture {
    pub schema: String,
    pub cases: Vec<FixtureCase>,
}

/// What a route gave at a position. The logits come in the order of their
/// tokens, each token once.
#[derive(Debug)]
pub struct ObservedPosition {
    pub target_token_id: u32,
    pub target_negative_log_likelihood: u64,
    pub logits: Vec<(u32, u64)>,
}

#[derive(Debug)]
pub struct ObservedCase {
    pub id: String,
    pub positions: Vec<ObservedPosition>,
}

#[derive(Debug)]
pub struct Observations {
    pub schema: String,
    pub checkpoint_manifest_sha256: String,
    pub config_sha256: String,
    pub fixture_sha256: String,
    pub route: RouteIdentity,
    pub cases: Vec<ObservedCase>,
}

pub open spec fn schemas_outcome(fixture: Seq<char>, reference: Seq<char>, candidate: Seq<char>) -> Result<
    (),
    Seq<char>,
> {
    if fixture != "rvllm.gemma4_token_fixture.v1"@ || reference
        != "rvllm.gemma4_quality_observations.v1"@ || candidate
        != "rvllm.gemma4_quality_observations.v1"@ {
        Err("wrong fixture or observation schema"@)
    } else {
        Ok(())
    }
}

/// Checks the schemas of a fixture and two sets of observations.
pub fn check_schemas(fixture: &Fixture, reference: &Observations, candidate: &Observations) -> (r:
    Result<(), String>)
    ensures
        told(r) == schemas_outcome(fixture.schema@, reference.schema@, candidate.schema@),
{
    if !same(fixture.schema.as_str(), "rvllm.gemma4_token_fixture.v1") || !same(
        reference.schema.as_str(),
        "rvllm.gemma4_quality_observations.v1",
    ) || !same(candidate.schema.as_str(), "rvllm.gemma4_quality_observations.v1") {
        return Err("wrong fixture or observation schema".to_owned());
    }
    Ok(())
}

pub open spec fn same_route(a: RouteIdentity, b: RouteIdentity) -> bool {
    &&& a.name@ == b.name@
    &&& a.source_tree_sha256@ == b.source_tree_sha256@
    &&& a.executable_sha256@ == b.executable_sha256@
    &&& a.model_package_sha256@ == b.model_package_sha256@
    &&& a.full_model_route == b.full_model_route
}

pub open spec fn observed_by(input: Input, value: Observations, route: RouteIdentity) -> Result<
    (),
    Seq<char>,
> {
    if value.checkpoint_manifest_sha256@ != input.checkpoint.manifest_sha256@
        || value.config_sha256@ != input.config.sha256@ || value.fixture_sha256@
        != input.fixture.sha256@ {
        Err("observation checkpoint/config/fixture identity mismatch"@)
    } else if !same_route(value.route, route) {
        Err("observation route identity mismatch"@)
    } else {
        Ok(())
    }
}

/// Checks that observations are of the request's checkpoint, configuration and
/// fixture, and of a route.
pub fn validate_observation_identity(input: &Input, value: &Observations, route: &RouteIdentity) -> (r:
    Result<(), String>)
    ensures
        told(r) == observed_by(*input, *value, *route),
{
    if !same(
        value.checkpoint_manifest_sha256.as_str(),
        input.checkpoint.manifest_sha256.as_str(),
    ) || !same(value.config_sha256.as_str(), input.config.sha256.as_str()) || !same(
        value.fixture_sha256.as_str(),
        input.fixture.sha256.as_str(),
    ) {
        return Err("observation checkpoint/config/fixture identity mismatch".to_owned());
    }
    let own = &value.route;
    if !same(own.name.as_str(), route.name.as_str()) || !same(
        own.source_tree_sha256.as_str(),
        route.source_tree_sha256.as_str(),
    ) || !same(own.executable_sha256.as_str(), route.executable_sha256.as_str()) || !same(
        own.model_package_sha256.as_str(),
        route.model_package_sha256.as_str(),
    ) || own.full_model_route != route.full_model_route {
        return Err("observation route identity mismatch".to_owned());
    }
    Ok(())
}

// ---------------------------------------------------------------------------
// Positions
// ---------------------------------------------------------------------------

/// A likelihood: finite and not negative.
pub open spec fn is_likelihood(bits: u64) -> bool {
    finite_bits(bits) && double_key(bits) >= 0
}

pub open spec fn tokens_of(logits: Seq<(u32, u64)>) -> Seq<u32> {
    Seq::new(logits.len(), |i: int| logits[i].0)
}

pub open spec fn all_finite(logits: Seq<(u32, u64)>) -> bool {
    forall|i: int| 0 <= i < logits.len() ==> finite_bits((#[trigger] logits[i]).1)
}

/// Whether a place holds the largest logit, the first of several.
pub open spec fn is_best(logits: Seq<(u32, u64)>, k: int) -> bool {
    &&& 0 <= k < logits.len()
    &&& forall|i: int|
        0 <= i < logits.len() ==> double_key((#[trigger] logits[i]).1) <= double_key(logits[k].1)
    &&& forall|i: int| 0 <= i < k ==> double_key((#[trigger] logits[i]).1) < double_key(logits[k].1)
}

/// The token of the largest logit.
pub open spec fn best_token(logits: Seq<(u32, u64)>) -> u32 {
    logits[choose|k: int| is_best(logits, k)].0
}

fn best_of(logits: &Vec<(u32, u64)>) -> (r: u32)
    requires
        logits@.len() > 0,
    ensures
        r == best_token(logits@),
{
    let mut best: usize = 0;
    let mut i: usize = 1;
    while i < logits.len()
        invariant
            best < i <= logits@.len(),
            forall|j: int|
                0 <= j < i ==> double_key((#[trigger] logits@[j]).1) <= double_key(
                    logits@[best as int].1,
                ),
            forall|j: int|
                0 <= j < best ==> double_key((#[trigger] logits@[j]).1) < double_key(
                    logits@[best as int].1,
                ),
        decreases logits@.len() - i,
    {
        if key_of_double(logits[i].1) > key_of_double(logits[best].1) {
            best = i;
        }
        i = i + 1;
    }
    proof {
        assert(is_best(logits@, best as int));
        let k = choose|k: int| is_best(logits@, k);
        assert(k == best) by {
            if k < best {
                assert(double_key(logits@[k].1) < double_key(logits@[best as int].1));
                assert(double_key(logits@[best as int].1) <= double_key(logits@[k].1));
            } else if best < k {
                assert(double_key(logits@[best as int].1) < double_key(logits@[k].1));
                assert(double_key(logits@[k].1) <= double_key(logits@[best as int].1));
            }
        }
    }
    logits[best].0
}

/// What a compared position counts: its logits, and whether both routes rank the
/// same token first.
#[derive(Clone, Copy, Debug, PartialEq, Eq, Structural)]
pub struct PositionTally {
    pub logits: usize,
    pub top1_agrees: bool,
}

pub open spec fn position_outcome(
    id: Seq<char>,
    r: ObservedPosition,
    c: ObservedPosition,
    target: u32,
) -> Result<PositionTally, Seq<char>> {
    if r.target_token_id != target || c.target_token_id != target {
        Err("case "@ + id + " target identity mismatch"@)
    } else if !is_likelihood(r.target_negative_log_likelihood) || !is_likelihood(
        c.target_negative_log_likelihood,
    ) {
        Err("invalid negative log likelihood"@)
    } else if tokens_of(r.logits@) != tokens_of(c.logits@) || r.logits@.len() == 0 {
        Err("representative logit token sets differ or are empty"@)
    } else if !all_finite(r.logits@) || !all_finite(c.logits@) {
        Err("non-finite logit"@)
    } else {
        Ok(
            PositionTally {
                logits: r.logits@.len() as usize,
                top1_agrees: best_token(r.logits@) == best_token(c.logits@),
            },
        )
    }
}

fn likely(bits: u64) -> (r: bool)
    ensures
        r == is_likelihood(bits),
{
    is_finite_double(bits) && key_of_double(bits) >= 0
}

fn same_tokens(a: &Vec<(u32, u64)>, b: &Vec<(u32, u64)>) -> (r: bool)
    ensures
        r == (tokens_of(a@) == tokens_of(b@)),
{
    if a.len() != b.len() {
        assert(tokens_of(a@).len() != tokens_of(b@).len());
        return false;
    }
    let mut i: usize = 0;
    while i < a.len()
        invariant
            i <= a@.len() == b@.len(),
            forall|j: int| 0 <= j < i ==> a@[j].0 == b@[j].0,
        decreases a@.len() - i,
    {
        if a[i].0 != b[i].0 {
            assert(tokens_of(a@)[i as int] != tokens_of(b@)[i as int]);
            return false;
        }
        i = i + 1;
    }
    assert(tokens_of(a@) =~= tokens_of(b@));
    true
}

fn finite_logits(logits: &Vec<(u32, u64)>) -> (r: bool)
    ensures
        r == all_finite(logits@),
{
    let mut i: usize = 0;
    while i < logits.len()
        invariant
            i <= logits@.len(),
            forall|j: int| 0 <= j < i ==> finite_bits((#[trigger] logits@[j]).1),
        decreases logits@.len() - i,
    {
        if !is_finite_double(logits[i].1) {
            assert(!finite_bits(logits@[i as int].1));
            return false;
        }
        i = i + 1;
    }
    true
}

/// Compares what two routes gave at a position.
pub fn compare_position(id: &str, r: &ObservedPosition, c: &ObservedPosition, target: u32) -> (o:
    Result<PositionTally, String>)
    ensures
        told(o) == position_outcome(id@, *r, *c, target),
{
    if r.target_token_id != target || c.target_token_id != target {
        return Err(cat3("case ", id, " target identity mismatch"));
    }
    if !likely(r.target_negative_log_likelihood) || !likely(c.target_negative_log_likelihood) {
        return Err("invalid negative log likelihood".to_owned());
    }
    if !same_tokens(&r.logits, &c.logits) || r.logits.len() == 0 {
        return Err("representative logit token sets differ or are empty".to_owned());
    }
    if !finite_logits(&r.logits) || !finite_logits(&c.logits) {
        return Err("non-finite logit".to_owned());
    }
    assert(tokens_of(r.logits@).len() == tokens_of(c.logits@).len());
    Ok(
        PositionTally {
            logits: r.logits.len(),
            top1_agrees: best_of(&r.logits) == best_of(&c.logits),
        },
    )
}

// ---------------------------------------------------------------------------
// Cases
// ---------------------------------------------------------------------------

/// The tallies of a case's positions from `i` on, after those already compared.
pub open spec fn positions_from(
    id: Seq<char>,
    r: Seq<ObservedPosition>,
    c: Seq<ObservedPosition>,
    targets: Seq<u32>,
    i: int,
    done: Seq<PositionTally>,
) -> Result<Seq<PositionTally>, Seq<char>>
    decreases targets.len() - i,
{
    if i >= targets.len() {
        Ok(done)
    } else {
        match position_outcome(id, r[i], c[i], targets[i]) {
            Err(message) => Err(message),
            Ok(tally) => positions_from(id, r, c, targets, i + 1, done.push(tally)),
        }
    }
}

pub open spec fn case_outcome(f: FixtureCase, r: ObservedCase, c: ObservedCase) -> Result<
    Seq<PositionTally>,
    Seq<char>,
> {
    if f.token_ids@.len() == 0 || f.target_token_ids@.len() != f.token_ids@.len() {
        Err("fixture case "@ + f.id@ + " is empty"@)
    } else if r.positions@.len() != f.target_token_ids@.len() || c.positions@.len()
        != f.target_token_ids@.len() {
        Err("case "@ + f.id@ + " target coverage mismatch"@)
    } else {
        positions_from(
            f.id@,
            r.positions@,
            c.positions@,
            f.target_token_ids@,
            0,
            Seq::empty(),
        )
    }
}

pub open spec fn tallies_told(r: Result<Vec<PositionTally>, String>) -> Result<
    Seq<PositionTally>,
    Seq<char>,
> {
    match r {
        Ok(v) => Ok(v@),
        Err(e) => Err(e@),
    }
}

fn compare_case(f: &FixtureCase, r: &ObservedCase, c: &ObservedCase) -> (o: Result<
    Vec<PositionTally>,
    String,
>)
    ensures
        tallies_told(o) == case_outcome(*f, *r, *c),
{
    let id = f.id.as_str();
    if f.token_ids.len() == 0 || f.target_token_ids.len() != f.token_ids.len() {
        return Err(cat3("fixture case ", id, " is empty"));
    }
    if r.positions.len() != f.target_token_ids.len() || c.positions.len()
        != f.target_token_ids.len() {
        return Err(cat3("case ", id, " target coverage mismatch"));
    }
    let mut done: Vec<PositionTally> = Vec::new();
    let mut i: usize = 0;
    assert(done@ =~= Seq::empty());
    while i < f.target_token_ids.len()
        invariant
            i <= f.target_token_ids@.len(),
            id@ == f.id@,
            r.positions@.len() == f.target_token_ids@.len(),
            c.positions@.len() == f.target_token_ids@.len(),
            positions_from(
                f.id@,
                r.positions@,
                c.positions@,
                f.target_token_ids@,
                0,
                Seq::empty(),
            ) == positions_from(
                f.id@,
                r.positions@,
                c.positions@,
                f.target_token_ids@,
                i as int,
                done@,
            ),
            case_outcome(*f, *r, *c) == positions_from(
                f.id@,
                r.positions@,
                c.positions@,
                f.target_token_ids@,
                0,
                Seq::empty(),
            ),
        decreases f.target_token_ids@.len() - i,
    {
        match compare_position(id, &r.positions[i], &c.positions[i], f.target_token_ids[i]) {
            Ok(tally) => {
                done.push(tally);
            },
            Err(message) => {
                return Err(message);
            },
        }
        i = i + 1;
    }
    Ok(done)
}

pub open spec fn fixture_ids(cases: Seq<FixtureCase>) -> Seq<Seq<char>> {
    Seq::new(cases.len(), |i: int| cases[i].id@)
}

pub open spec fn observed_ids(cases: Seq<ObservedCase>) -> Seq<Seq<char>> {
    Seq::new(cases.len(), |i: int| cases[i].id@)
}

/// Whether observations cover exactly the fixture's cases, each once.
pub open spec fn covers(observed: Seq<Seq<char>>, fixture: Seq<Seq<char>>) -> bool {
    observed.no_duplicates() && observed.to_set() == fixture.to_set()
}

/// The observed case of an identity, from `i` on.
pub open spec fn case_from(cases: Seq<ObservedCase>, id: Seq<char>, i: int) -> int
    decreases cases.len() - i,
{
    if i >= cases.len() || cases[i].id@ == id {
        i
    } else {
        case_from(cases, id, i + 1)
    }
}

/// The tallies of the fixture's cases from `i` on, after those already compared.
pub open spec fn cases_from(
    fixture: Seq<FixtureCase>,
    r: Seq<ObservedCase>,
    c: Seq<ObservedCase>,
    i: int,
    done: Seq<Seq<PositionTally>>,
) -> Result<Seq<Seq<PositionTally>>, Seq<char>>
    decreases fixture.len() - i,
{
    if i >= fixture.len() {
        Ok(done)
    } else {
        match case_outcome(
            fixture[i],
            r[case_from(r, fixture[i].id@, 0)],
            c[case_from(c, fixture[i].id@, 0)],
        ) {
            Err(message) => Err(message),
            Ok(tallies) => cases_from(fixture, r, c, i + 1, done.push(tallies)),
        }
    }
}

pub open spec fn comparison(
    fixture: Seq<FixtureCase>,
    r: Seq<ObservedCase>,
    c: Seq<ObservedCase>,
) -> Result<Seq<Seq<PositionTally>>, Seq<char>> {
    if !fixture_ids(fixture).no_duplicates() || fixture.len() == 0 {
        Err("fixture case ids must be unique and nonempty"@)
    } else if !covers(observed_ids(r), fixture_ids(fixture)) || !covers(
        observed_ids(c),
        fixture_ids(fixture),
    ) {
        Err("observation cases must exactly match fixture ids"@)
    } else {
        cases_from(fixture, r, c, 0, Seq::empty())
    }
}

fn fixture_is_unique(cases: &Vec<FixtureCase>) -> (r: bool)
    ensures
        r == fixture_ids(cases@).no_duplicates(),
{
    let ghost ids = fixture_ids(cases@);
    let mut i: usize = 0;
    while i < cases.len()
        invariant
            i <= cases@.len(),
            ids == fixture_ids(cases@),
            forall|a: int, b: int| 0 <= a < b < i ==> ids[a] != ids[b],
        decreases cases@.len() - i,
    {
        let mut j: usize = 0;
        while j < i
            invariant
                j <= i < cases@.len(),
                ids == fixture_ids(cases@),
                forall|a: int| 0 <= a < j ==> ids[a] != ids[i as int],
            decreases i - j,
        {
            if same(cases[j].id.as_str(), cases[i].id.as_str()) {
                assert(ids[j as int] == ids[i as int]);
                return false;
            }
            j = j + 1;
        }
        i = i + 1;
    }
    true
}

fn find_case(cases: &Vec<ObservedCase>, id: &str) -> (r: usize)
    ensures
        r == case_from(cases@, id@, 0),
        r <= cases@.len(),
        r < cases@.len() ==> cases@[r as int].id@ == id@,
        r == cases@.len() ==> !observed_ids(cases@).contains(id@),
{
    let mut i: usize = 0;
    while i < cases.len()
        invariant
            i <= cases@.len(),
            case_from(cases@, id@, 0) == case_from(cases@, id@, i as int),
            forall|j: int| 0 <= j < i ==> (#[trigger] cases@[j]).id@ != id@,
        decreases cases@.len() - i,
    {
        if same(cases[i].id.as_str(), id) {
            return i;
        }
        i = i + 1;
    }
    proof {
        assert forall|j: int| 0 <= j < cases@.len() implies observed_ids(cases@)[j] != id@ by {
            assert(cases@[j].id@ != id@);
        }
    }
    i
}

fn find_fixture(cases: &Vec<FixtureCase>, id: &str) -> (r: bool)
    ensures
        r == fixture_ids(cases@).contains(id@),
{
    let ghost ids = fixture_ids(cases@);
    let mut i: usize = 0;
    while i < cases.len()
        invariant
            i <= cases@.len(),
            ids == fixture_ids(cases@),
            forall|j: int| 0 <= j < i ==> ids[j] != id@,
        decreases cases@.len() - i,
    {
        if same(cases[i].id.as_str(), id) {
            assert(ids[i as int] == id@);
            return true;
        }
        i = i + 1;
    }
    false
}

/// Whether observations cover exactly the fixture's cases, each once.
fn observations_cover(cases: &Vec<ObservedCase>, fixture: &Vec<FixtureCase>) -> (r: bool)
    ensures
        r == covers(observed_ids(cases@), fixture_ids(fixture@)),
{
    let ghost observed = observed_ids(cases@);
    let ghost wanted = fixture_ids(fixture@);
    let mut i: usize = 0;
    while i < cases.len()
        invariant
            i <= cases@.len(),
            observed == observed_ids(cases@),
            wanted == fixture_ids(fixture@),
            forall|a: int, b: int| 0 <= a < b < i ==> observed[a] != observed[b],
            forall|a: int| 0 <= a < i ==> wanted.contains(observed[a]),
        decreases cases@.len() - i,
    {
        let mut j: usize = 0;
        while j < i
            invariant
                j <= i < cases@.len(),
                observed == observed_ids(cases@),
                forall|a: int| 0 <= a < j ==> observed[a] != observed[i as int],
            decreases i - j,
        {
            if same(cases[j].id.as_str(), cases[i].id.as_str()) {
                assert(observed[j as int] == observed[i as int]);
                return false;
            }
            j = j + 1;
        }
        if !find_fixture(fixture, cases[i].id.as_str()) {
            proof {
                assert(observed[i as int] == cases@[i as int].id@);
                assert(observed.to_set().contains(observed[i as int]));
                assert(!wanted.to_set().contains(observed[i as int]));
            }
            return false;
        }
        i = i + 1;
    }
    let mut k: usize = 0;
    while k < fixture.len()
        invariant
            k <= fixture@.len(),
            observed == observed_ids(cases@),
            wanted == fixture_ids(fixture@),
            forall|a: int| 0 <= a < k ==> observed.contains(wanted[a]),
        decreases fixture@.len() - k,
    {
        let at: usize = find_case(cases, fixture[k].id.as_str());
        if at >= cases.len() {
            proof {
                assert(wanted[k as int] == fixture@[k as int].id@);
                assert(wanted.to_set().contains(wanted[k as int]));
                assert(!observed.to_set().contains(wanted[k as int]));
            }
            return false;
        }
        assert(observed[at as int] == wanted[k as int]);
        k = k + 1;
    }
    proof {
        assert(observed.to_set() =~= wanted.to_set());
    }
    true
}

pub open spec fn lists(v: Seq<Vec<PositionTally>>) -> Seq<Seq<PositionTally>> {
    Seq::new(v.len(), |i: int| v[i]@)
}

pub open spec fn comparison_told(r: Result<Vec<Vec<PositionTally>>, String>) -> Result<
    Seq<Seq<PositionTally>>,
    Seq<char>,
> {
    match r {
        Ok(v) => Ok(lists(v@)),
        Err(e) => Err(e@),
    }
}

/// Compares two routes over a fixture: the tallies of each case's positions, in
/// the order of the fixture.
pub fn compare(fixture: &Fixture, reference: &Observations, candidate: &Observations) -> (r: Result<
    Vec<Vec<PositionTally>>,
    String,
>)
    ensures
        comparison_told(r) == comparison(fixture.cases@, reference.cases@, candidate.cases@),
{
    let cases = &fixture.cases;
    if !fixture_is_unique(cases) || cases.len() == 0 {
        return Err("fixture case ids must be unique and nonempty".to_owned());
    }
    if !observations_cover(&reference.cases, cases) || !observations_cover(
        &candidate.cases,
        cases,
    ) {
        return Err("observation cases must exactly match fixture ids".to_owned());
    }
    let ghost wanted = fixture_ids(cases@);
    let mut done: Vec<Vec<PositionTally>> = Vec::new();
    let mut i: usize = 0;
    assert(lists(done@) =~= Seq::empty());
    while i < cases.len()
        invariant
            i <= cases@.len(),
            wanted == fixture_ids(cases@),
            cases@ == fixture.cases@,
            covers(observed_ids(reference.cases@), wanted),
            covers(observed_ids(candidate.cases@), wanted),
            comparison(fixture.cases@, reference.cases@, candidate.cases@) == cases_from(
                cases@,
                reference.cases@,
                candidate.cases@,
                i as int,
                lists(done@),
            ),
        decreases cases@.len() - i,
    {
        let f = &cases[i];
        let r: usize = find_case(&reference.cases, f.id.as_str());
        let c: usize = find_case(&candidate.cases, f.id.as_str());
        proof {
            assert(wanted[i as int] == f.id@);
            assert(wanted.to_set().contains(f.id@));
            assert(observed_ids(reference.cases@).to_set().contains(f.id@));
            assert(observed_ids(candidate.cases@).to_set().contains(f.id@));
        }
        match compare_case(f, &reference.cases[r], &candidate.cases[c]) {
            Ok(tallies) => {
                let ghost before = done@;
                done.push(tallies);
                assert(lists(done@) =~= lists(before).push(tallies@));
            },
            Err(message) => {
                return Err(message);
            },
        }
        i = i + 1;
    }
    Ok(done)
}

// ---------------------------------------------------------------------------
// Calibration
// ---------------------------------------------------------------------------

#[derive(Debug)]
pub struct Calibration {
    pub schema: String,
    pub protocol: String,
    pub calibration_corpus_sha256: String,
    pub held_out_fixture_sha256: String,
    pub minimum_target_positions: usize,
    pub max_absolute_logit_delta: u64,
    pub max_mean_absolute_logit_delta: u64,
    pub max_mean_nll_increase: u64,
    pub max_perplexity_ratio: u64,
    pub minimum_representative_top1_agreement: u64,
    pub rationale: String,
}

/// The bits of the double one.
pub const ONE_BITS: u64 = 0x3ff0_0000_0000_0000;

/// Thresholds: finite, no permissive number among them.
pub open spec fn thresholds_sound(c: Calibration) -> bool {
    &&& finite_bits(c.max_absolute_logit_delta)
    &&& finite_bits(c.max_mean_absolute_logit_delta)
    &&& finite_bits(c.max_mean_nll_increase)
    &&& finite_bits(c.max_perplexity_ratio)
    &&& finite_bits(c.minimum_representative_top1_agreement)
    &&& double_key(c.max_absolute_logit_delta) >= 0
    &&& double_key(c.max_mean_absolute_logit_delta) >= 0
    &&& double_key(c.max_mean_nll_increase) >= 0
    &&& double_key(c.max_perplexity_ratio) >= double_key(ONE_BITS)
    &&& 0 <= double_key(c.minimum_representative_top1_agreement) <= double_key(ONE_BITS)
}

pub open spec fn calibration_outcome(c: Calibration, fixture_sha: Seq<char>) -> Result<
    (),
    Seq<char>,
> {
    if c.schema@ != "rvllm.gemma4_quality_calibration.v1"@ || trimmed(c.protocol@).len() == 0
        || trimmed(c.rationale@).len() == 0 || c.minimum_target_positions == 0
        || c.held_out_fixture_sha256@ != fixture_sha {
        Err("invalid or non-held-out calibration contract"@)
    } else if !thresholds_sound(c) {
        Err("invalid calibration thresholds"@)
    } else {
        Ok(())
    }
}

fn blank(s: &str) -> (r: bool)
    ensures
        r == (trimmed(s@).len() == 0),
{
    let text = trim_text(s);
    let chars = chars_of(text.as_str());
    chars.len() == 0
}

/// Checks a calibration against the fixture that was held out of it.
pub fn validate_calibration(value: &Calibration, fixture_sha: &str) -> (r: Result<(), String>)
    ensures
        told(r) == calibration_outcome(*value, fixture_sha@),
{
    if !same(value.schema.as_str(), "rvllm.gemma4_quality_calibration.v1") || blank(
        value.protocol.as_str(),
    ) || blank(value.rationale.as_str()) || value.minimum_target_positions == 0 || !same(
        value.held_out_fixture_sha256.as_str(),
        fixture_sha,
    ) {
        return Err("invalid or non-held-out calibration contract".to_owned());
    }
    let finite = is_finite_double(value.max_absolute_logit_delta) && is_finite_double(
        value.max_mean_absolute_logit_delta,
    ) && is_finite_double(value.max_mean_nll_increase) && is_finite_double(
        value.max_perplexity_ratio,
    ) && is_finite_double(value.minimum_representative_top1_agreement);
    let one: i64 = key_of_double(ONE_BITS);
    let agreement: i64 = key_of_double(value.minimum_representative_top1_agreement);
    if !finite || key_of_double(value.max_absolute_logit_delta) < 0 || key_of_double(
        value.max_mean_absolute_logit_delta,
    ) < 0 || key_of_double(value.max_mean_nll_increase) < 0 || key_of_double(
        value.max_perplexity_ratio,
    ) < one || agreement < 0 || agreement > one {
        return Err("invalid calibration thresholds".to_owned());
    }
    Ok(())
}

// ---------------------------------------------------------------------------
// The decision
// ---------------------------------------------------------------------------

/// What was measured over the fixture.
#[derive(Clone, Copy, Debug, PartialEq, Eq, Structural)]
pub struct Metrics {
    pub target_positions: usize,
    pub max_absolute_logit_delta: u64,
    pub mean_absolute_logit_delta: u64,
    pub mean_nll_increase: u64,
    pub perplexity_ratio: u64,
    pub representative_top1_agreement: u64,
}

pub open spec fn is_nan(bits: u64) -> bool {
    magnitude(bits) > 0x7ff0_0000_0000_0000
}

/// Whether a double is greater than another, as `>` on doubles.
pub open spec fn greater(a: u64, b: u64) -> bool {
    !is_nan(a) && !is_nan(b) && double_key(a) > double_key(b)
}

fn is_greater(a: u64, b: u64) -> (r: bool)
    ensures
        r == greater(a, b),
{
    a % 0x8000_0000_0000_0000 <= 0x7ff0_0000_0000_0000 && b % 0x8000_0000_0000_0000
        <= 0x7ff0_0000_0000_0000 && key_of_double(a) > key_of_double(b)
}

pub open spec fn gate(failed: bool, name: Seq<char>) -> Seq<Seq<char>> {
    if failed {
        seq![name]
    } else {
        Seq::empty()
    }
}

/// The gates that a measurement fails.
pub open spec fn failed_gates(m: Metrics, c: Option<Calibration>) -> Seq<Seq<char>> {
    match c {
        None => seq!["missing_calibration"@],
        Some(c) => gate(
            m.target_positions < c.minimum_target_positions,
            "insufficient_target_positions"@,
        ) + gate(
            greater(m.max_absolute_logit_delta, c.max_absolute_logit_delta),
            "max_absolute_logit_delta"@,
        ) + gate(
            greater(m.mean_absolute_logit_delta, c.max_mean_absolute_logit_delta),
            "mean_absolute_logit_delta"@,
        ) + gate(
            greater(m.mean_nll_increase, c.max_mean_nll_increase),
            "mean_nll_increase"@,
        ) + gate(greater(m.perplexity_ratio, c.max_perplexity_ratio), "perplexity_ratio"@) + gate(
            greater(c.minimum_representative_top1_agreement, m.representative_top1_agreement),
            "representative_top1_agreement"@,
        ),
    }
}

/// The set of those projections.
pub open spec fn required_roles() -> Set<Seq<char>> {
    strs(REQUIRED_ROLES@).to_set()
}

/// Whether a route covers the full model: the whole checkpoint, every role and no
/// other, in both routes.
pub open spec fn is_full_route(input: Input) -> bool {
    &&& input.coverage.full_checkpoint_quantized
    &&& texts(input.coverage.quantized_roles@).to_set() == required_roles()
    &&& input.reference_route.full_model_route
    &&& input.candidate_route.full_model_route
}

#[derive(Clone, Copy, Debug, PartialEq, Eq, Structural)]
pub enum Decision {
    CalibrationRequired,
    Rejected,
    BoundedSliceEvidence,
    FullModelAccepted,
}

pub open spec fn decision_of(input: Input, m: Metrics, c: Option<Calibration>) -> Decision {
    if c is None {
        Decision::CalibrationRequired
    } else if failed_gates(m, c).len() > 0 {
        Decision::Rejected
    } else if !is_full_route(input) || input.coverage.operator_correctness_receipt_sha256 is None {
        Decision::BoundedSliceEvidence
    } else {
        Decision::FullModelAccepted
    }
}

/// What a receipt must say of its limits.
pub open spec fn limitations_of(input: Input, c: Option<Calibration>) -> Seq<Seq<char>> {
    seq![
        "operator correctness is an independent prerequisite and is not inferred from logits or perplexity"@,
    ] + gate(
        c is None,
        "no acceptance thresholds were supplied; this receipt records metrics but cannot accept quality"@,
    ) + gate(
        input.coverage.operator_correctness_receipt_sha256 is None,
        "no independently sealed operator-correctness receipt was bound"@,
    ) + gate(
        !is_full_route(input),
        "bounded or partial route: this receipt must not be used as full-model W4/W8 acceptance"@,
    )
}

#[derive(Debug)]
pub struct Judgement {
    pub decision: Decision,
    pub failed_gates: Vec<String>,
    pub limitations: Vec<String>,
}

fn push_gate(list: &mut Vec<String>, failed: bool, name: &str)
    ensures
        texts(final(list)@) == texts(old(list)@) + gate(failed, name@),
{
    let ghost before = list@;
    if failed {
        list.push(name.to_owned());
        assert(texts(list@) =~= texts(before) + seq![name@]);
    } else {
        assert(texts(list@) =~= texts(before) + Seq::<Seq<char>>::empty());
    }
}

fn gates_failed(m: &Metrics, calibration: &Option<Calibration>) -> (r: Vec<String>)
    ensures
        texts(r@) == failed_gates(*m, *calibration),
{
    let mut failed: Vec<String> = Vec::new();
    assert(texts(failed@) =~= Seq::empty());
    match calibration {
        None => {
            push_gate(&mut failed, true, "missing_calibration");
            assert(texts(failed@) =~= seq!["missing_calibration"@]);
        },
        Some(c) => {
            push_gate(
                &mut failed,
                m.target_positions < c.minimum_target_positions,
                "insufficient_target_positions",
            );
            assert(texts(failed@) =~= gate(
                m.target_positions < c.minimum_target_positions,
                "insufficient_target_positions"@,
            ));
            push_gate(
                &mut failed,
                is_greater(m.max_absolute_logit_delta, c.max_absolute_logit_delta),
                "max_absolute_logit_delta",
            );
            push_gate(
                &mut failed,
                is_greater(m.mean_absolute_logit_delta, c.max_mean_absolute_logit_delta),
                "mean_absolute_logit_delta",
            );
            push_gate(
                &mut failed,
                is_greater(m.mean_nll_increase, c.max_mean_nll_increase),
                "mean_nll_increase",
            );
            push_gate(
                &mut failed,
                is_greater(m.perplexity_ratio, c.max_perplexity_ratio),
                "perplexity_ratio",
            );
            push_gate(
                &mut failed,
                is_greater(c.minimum_representative_top1_agreement, m.representative_top1_agreement),
                "representative_top1_agreement",
            );
        },
    }
    failed
}

fn is_required(role: &str) -> (r: bool)
    ensures
        r == required_roles().contains(role@),
{
    let required = REQUIRED_ROLES;
    let ghost all = strs(required@);
    let mut i: usize = 0;
    while i < 7
        invariant
            i <= 7,
            required@ == REQUIRED_ROLES@,
            all == strs(required@),
            forall|j: int| 0 <= j < i ==> all[j] != role@,
        decreases 7 - i,
    {
        if same(required[i], role) {
            assert(all[i as int] == role@);
            return true;
        }
        i = i + 1;
    }
    false
}

fn has_role(roles: &Vec<String>, role: &str) -> (r: bool)
    ensures
        r == texts(roles@).to_set().contains(role@),
{
    let ghost all = texts(roles@);
    let mut i: usize = 0;
    while i < roles.len()
        invariant
            i <= roles@.len(),
            all == texts(roles@),
            forall|j: int| 0 <= j < i ==> all[j] != role@,
        decreases roles@.len() - i,
    {
        if same(roles[i].as_str(), role) {
            assert(all[i as int] == role@);
            return true;
        }
        i = i + 1;
    }
    false
}

fn covers_all_roles(roles: &Vec<String>) -> (r: bool)
    ensures
        r == (texts(roles@).to_set() == required_roles()),
{
    let ghost all = texts(roles@);
    let mut i: usize = 0;
    while i < roles.len()
        invariant
            i <= roles@.len(),
            all == texts(roles@),
            forall|j: int| 0 <= j < i ==> required_roles().contains(all[j]),
        decreases roles@.len() - i,
    {
        if !is_required(roles[i].as_str()) {
            assert(all.to_set().contains(all[i as int]));
            assert(!required_roles().contains(all[i as int]));
            return false;
        }
        assert(all[i as int] == roles@[i as int]@);
        i = i + 1;
    }
    let required = REQUIRED_ROLES;
    let ghost wanted = strs(required@);
    let mut k: usize = 0;
    while k < 7
        invariant
            k <= 7,
            required@ == REQUIRED_ROLES@,
            all == texts(roles@),
            wanted == strs(required@),
            forall|j: int| 0 <= j < k ==> all.to_set().contains(wanted[j]),
        decreases 7 - k,
    {
        if !has_role(roles, required[k]) {
            assert(wanted.to_set().contains(wanted[k as int]));
            return false;
        }
        k = k + 1;
    }
    assert(all.to_set() =~= required_roles());
    true
}

/// The referee's judgement of a request whose files, identities and observations
/// were accepted.
pub fn judge(input: &Input, metrics: &Metrics, calibration: &Option<Calibration>) -> (r: Judgement)
    ensures
        r.decision == decision_of(*input, *metrics, *calibration),
        texts(r.failed_gates@) == failed_gates(*metrics, *calibration),
        texts(r.limitations@) == limitations_of(*input, *calibration),
{
    let failed = gates_failed(metrics, calibration);
    assert(texts(failed@).len() == failed@.len());
    let full = input.coverage.full_checkpoint_quantized && covers_all_roles(
        &input.coverage.quantized_roles,
    ) && input.reference_route.full_model_route && input.candidate_route.full_model_route;
    let bound = input.coverage.operator_correctness_receipt_sha256.is_some();
    let mut limitations: Vec<String> = Vec::new();
    limitations.push(
        "operator correctness is an independent prerequisite and is not inferred from logits or perplexity".to_owned(),
    );
    assert(texts(limitations@) =~= seq![
        "operator correctness is an independent prerequisite and is not inferred from logits or perplexity"@,
    ]);
    push_gate(
        &mut limitations,
        calibration.is_none(),
        "no acceptance thresholds were supplied; this receipt records metrics but cannot accept quality",
    );
    push_gate(
        &mut limitations,
        !bound,
        "no independently sealed operator-correctness receipt was bound",
    );
    push_gate(
        &mut limitations,
        !full,
        "bounded or partial route: this receipt must not be used as full-model W4/W8 acceptance",
    );
    let decision = if calibration.is_none() {
        Decision::CalibrationRequired
    } else if failed.len() > 0 {
        Decision::Rejected
    } else if !full || !bound {
        Decision::BoundedSliceEvidence
    } else {
        Decision::FullModelAccepted
    };
    Judgement { decision, failed_gates: failed, limitations }
}

/// The full model is accepted only with a calibration, every gate passed, every
/// role of the whole checkpoint quantized in full routes, and a sealed receipt of
/// operator correctness.
pub proof fn full_acceptance_fails_closed(input: Input, m: Metrics, c: Option<Calibration>)
    requires
        decision_of(input, m, c) == Decision::FullModelAccepted,
    ensures
        c is Some,
        failed_gates(m, c).len() == 0,
        m.target_positions >= c->0.minimum_target_positions,
        is_full_route(input),
        input.coverage.operator_correctness_receipt_sha256 is Some,
{
    if m.target_positions < c->0.minimum_target_positions {
        let first = gate(true, "insufficient_target_positions"@);
        assert(first.len() == 1);
    }
}

/// The decision that a caller may require.
pub fn required_decision(name: &str) -> (r: Option<Decision>)
    ensures
        r == if name@ == "bounded_slice_evidence"@ {
            Some(Decision::BoundedSliceEvidence)
        } else if name@ == "full_model_accepted"@ {
            Some(Decision::FullModelAccepted)
        } else {
            None
        },
{
    if same(name, "bounded_slice_evidence") {
        Some(Decision::BoundedSliceEvidence)
    } else if same(name, "full_model_accepted") {
        Some(Decision::FullModelAccepted)
    } else {
        None
    }
}

// ---------------------------------------------------------------------------
// Totals
// ---------------------------------------------------------------------------

pub open spec fn logits_in(case: Seq<PositionTally>) -> nat
    decreases case.len(),
{
    if case.len() == 0 {
        0
    } else {
        logits_in(case.drop_last()) + case.last().logits as nat
    }
}

pub open spec fn agreements_in(case: Seq<PositionTally>) -> nat
    decreases case.len(),
{
    if case.len() == 0 {
        0
    } else {
        agreements_in(case.drop_last()) + (if case.last().top1_agrees {
            1nat
        } else {
            0
        })
    }
}

/// How many positions, logits and agreements some cases hold.
pub open spec fn totals_of(cases: Seq<Seq<PositionTally>>) -> (nat, nat, nat)
    decreases cases.len(),
{
    if cases.len() == 0 {
        (0, 0, 0)
    } else {
        let rest = totals_of(cases.drop_last());
        let last = cases.last();
        (rest.0 + last.len(), rest.1 + logits_in(last), rest.2 + agreements_in(last))
    }
}

#[derive(Clone, Copy, Debug, PartialEq, Eq, Structural)]
pub struct Totals {
    pub cases: usize,
    pub target_positions: usize,
    pub compared_logits: usize,
    pub top1_matches: usize,
}

proof fn totals_grow(cases: Seq<Seq<PositionTally>>, n: int)
    requires
        0 <= n <= cases.len(),
    ensures
        totals_of(cases.take(n)).0 <= totals_of(cases).0,
        totals_of(cases.take(n)).1 <= totals_of(cases).1,
    decreases cases.len() - n,
{
    if n < cases.len() {
        totals_grow(cases, n + 1);
        assert(cases.take(n + 1).drop_last() =~= cases.take(n));
    } else {
        assert(cases.take(n) =~= cases);
    }
}

proof fn logits_grow(case: Seq<PositionTally>, n: int)
    requires
        0 <= n <= case.len(),
    ensures
        logits_in(case.take(n)) <= logits_in(case),
        agreements_in(case.take(n)) <= n,
    decreases case.len() - n,
{
    agreements_bound(case.take(n));
    if n < case.len() {
        logits_grow(case, n + 1);
        assert(case.take(n + 1).drop_last() =~= case.take(n));
    } else {
        assert(case.take(n) =~= case);
    }
}

proof fn agreements_bound(case: Seq<PositionTally>)
    ensures
        agreements_in(case) <= case.len(),
    decreases case.len(),
{
    if case.len() > 0 {
        agreements_bound(case.drop_last());
    }
}

proof fn totals_bound(cases: Seq<Seq<PositionTally>>)
    ensures
        totals_of(cases).2 <= totals_of(cases).0,
    decreases cases.len(),
{
    if cases.len() > 0 {
        totals_bound(cases.drop_last());
        agreements_bound(cases.last());
    }
}

/// Adds up the tallies of all cases.
pub fn totals(cases: &Vec<Vec<PositionTally>>) -> (r: Totals)
    requires
        totals_of(lists(cases@)).0 <= usize::MAX,
        totals_of(lists(cases@)).1 <= usize::MAX,
    ensures
        r.cases == cases@.len(),
        (r.target_positions as nat, r.compared_logits as nat, r.top1_matches as nat) == totals_of(
            lists(cases@),
        ),
{
    let ghost all = lists(cases@);
    let mut positions: usize = 0;
    let mut logits: usize = 0;
    let mut agreements: usize = 0;
    let mut i: usize = 0;
    while i < cases.len()
        invariant
            i <= cases@.len(),
            all == lists(cases@),
            totals_of(all).0 <= usize::MAX,
            totals_of(all).1 <= usize::MAX,
            (positions as nat, logits as nat, agreements as nat) == totals_of(all.take(i as int)),
        decreases cases@.len() - i,
    {
        let case = &cases[i];
        let ghost own = all[i as int];
        let ghost before = totals_of(all.take(i as int));
        proof {
            assert(own == case@);
            assert(all.take(i + 1).drop_last() =~= all.take(i as int));
            totals_grow(all, i + 1);
            totals_bound(all.take(i as int));
            totals_bound(all.take(i + 1));
        }
        let mut j: usize = 0;
        while j < case.len()
            invariant
                j <= case@.len(),
                own == case@,
                positions == before.0,
                before.0 + own.len() <= usize::MAX,
                before.1 + logits_in(own) <= usize::MAX,
                before.2 <= before.0,
                logits == before.1 + logits_in(own.take(j as int)),
                agreements == before.2 + agreements_in(own.take(j as int)),
            decreases case@.len() - j,
        {
            proof {
                assert(own.take(j + 1).drop_last() =~= own.take(j as int));
                logits_grow(own, j + 1);
            }
            logits = logits + case[j].logits;
            if case[j].top1_agrees {
                agreements = agreements + 1;
            }
            j = j + 1;
        }
        proof {
            assert(own.take(j as int) =~= own);
        }
        positions = positions + case.len();
        i = i + 1;
    }
    assert(all.take(i as int) =~= all);
    Totals {
        cases: cases.len(),
        target_positions: positions,
        compared_logits: logits,
        top1_matches: agreements,
    }
}

} // verus!
