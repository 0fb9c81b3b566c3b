//! The text that an MLX benchmark prints: its trials and their averages.
//! Metrics are doubles given by their bits.
use crate::json::{double_key, key_of_double};
use crate::text::{
    after_prefix, cat2, cat4, cat6, chars_of, decimal, decimal_text, fault_text, find_char, find_in,
    lines, lines_of, numeral, parse_numeral, quoted, quoted_text, same, split, split_text,
    strip_prefix_text, text_between, texts, told, trim_text, trimmed,
};
use vstd::prelude::*;

verus! {

/// What a text reads as when it is taken for a double: its bits where it is
/// finite, nothing where it is infinite or not a number, or an error message.
pub uninterp spec fn double_of_text(text: Seq<char>) -> Result<Option<u64>, Seq<char>>;

/// `str::parse` into a double, followed by `serde_json::Number::from_f64`, which
/// gives nothing for a double that is not finite; the number as bits. The second
/// function is part of the name because the bits of a double that is not a number
/// are not the same on every machine. The grammar of decimal floats and their
/// rounding are not restated: the outcome is named.
#[verifier::external_body]
fn read_double(text: &str) -> (r: Result<Option<u64>, String>)
    ensures
        told(r) == double_of_text(text@),
{
    match text.parse().map(serde_json::Number::from_f64) {
        Ok(number) => Ok(number.and_then(|n| n.as_f64()).map(|n| n.to_bits())),
        Err(error) => Err(std::num::ParseFloatError::to_string(&error)),
    }
}

/// A named metric of a line.
#[derive(Debug)]
pub struct Field {
    pub name: String,
    pub bits: u64,
}

pub open spec fn field_models(fields: Seq<Field>) -> Seq<(Seq<char>, u64)> {
    Seq::new(fields.len(), |i: int| (fields[i].name@, fields[i].bits))
}

/// The metric of one piece of a line, from what its number reads as.
pub open spec fn field_from(
    piece: Seq<char>,
    name: Seq<char>,
    raw: Seq<char>,
    number: Result<Option<u64>, Seq<char>>,
) -> Result<(Seq<char>, u64), Seq<char>> {
    match number {
        Err(message) => Err("invalid "@ + name + " value "@ + quoted(raw) + ": "@ + message),
        Ok(None) => Err(name + " must be a finite non-negative number"@),
        Ok(Some(bits)) => if double_key(bits) < 0 {
            Err(name + " must be a finite non-negative number"@)
        } else {
            Ok((name, bits))
        },
    }
}

/// The metric of one piece of a line: a name, an equals sign and a number.
pub open spec fn field_of(piece: Seq<char>) -> Result<(Seq<char>, u64), Seq<char>> {
    let text = trimmed(piece);
    let k = find_char(text, '=', 0);
    if k >= text.len() {
        Err("malformed metric field "@ + quoted(piece))
    } else {
        let name = text.subrange(0, k);
        let raw = text.subrange(k + 1, text.len() as int);
        field_from(piece, name, raw, double_of_text(raw))
    }
}

/// The metrics of the pieces from `i` on, after those already read.
pub open spec fn fields_from(pieces: Seq<Seq<char>>, i: int, fields: Seq<(Seq<char>, u64)>) -> Result<
    Seq<(Seq<char>, u64)>,
    Seq<char>,
>
    decreases pieces.len() - i,
{
    if i >= pieces.len() {
        Ok(fields)
    } else {
        match field_of(pieces[i]) {
            Err(message) => Err(message),
            Ok(field) => fields_from(pieces, i + 1, fields.push(field)),
        }
    }
}

/// The metrics of a line.
pub open spec fn fields_of(text: Seq<char>) -> Result<Seq<(Seq<char>, u64)>, Seq<char>> {
    fields_from(split(text, ','), 0, Seq::empty())
}

/// Reads one metric, given what its number reads as.
pub fn field_from_number(name: &str, raw: &str, number: Result<Option<u64>, String>) -> (r: Result<
    u64,
    String,
>)
    ensures
        match (field_from(Seq::empty(), name@, raw@, told(number)), r) {
            (Ok(field), Ok(bits)) => field == (name@, bits),
            (Err(message), Err(e)) => e@ == message,
            _ => false,
        },
{
    match number {
        Err(message) => {
            let shown = quoted_text(raw);
            Err(cat6("invalid ", name, " value ", shown.as_str(), ": ", message.as_str()))
        },
        Ok(None) => Err(cat2(name, " must be a finite non-negative number")),
        Ok(Some(bits)) => {
            if key_of_double(bits) < 0 {
                return Err(cat2(name, " must be a finite non-negative number"));
            }
            Ok(bits)
        },
    }
}

fn parse_field(piece: &str) -> (r: Result<Field, String>)
    ensures
        match (field_of(piece@), r) {
            (Ok(field), Ok(f)) => field == (f.name@, f.bits),
            (Err(message), Err(e)) => e@ == message,
            _ => false,
        },
{
    let text = trim_text(piece);
    let chars = chars_of(text.as_str());
    let at: usize = find_in(&chars, '=', 0);
    if at >= chars.len() {
        let shown = quoted_text(piece);
        return Err(cat2("malformed metric field ", shown.as_str()));
    }
    let name = text_between(&chars, 0, at);
    let raw = text_between(&chars, at + 1, chars.len());
    let number = read_double(raw.as_str());
    match field_from_number(name.as_str(), raw.as_str(), number) {
        Ok(bits) => Ok(Field { name, bits }),
        Err(message) => Err(message),
    }
}

pub fn parse_fields(text: &str) -> (r: Result<Vec<Field>, String>)
    ensures
        match (fields_of(text@), r) {
            (Ok(fields), Ok(v)) => fields == field_models(v@),
            (Err(message), Err(e)) => e@ == message,
            _ => false,
        },
{
    let pieces = split_text(text, ',');
    let ghost parts = split(text@, ',');
    let mut fields: Vec<Field> = Vec::new();
    let mut i: usize = 0;
    assert(field_models(fields@) =~= Seq::empty());
    while i < pieces.len()
        invariant
            i <= pieces@.len(),
            parts == split(text@, ','),
            texts(pieces@) == parts,
            fields_of(text@) == fields_from(parts, i as int, field_models(fields@)),
        decreases pieces@.len() - i,
    {
        assert(parts[i as int] == pieces@[i as int]@);
        match parse_field(pieces[i].as_str()) {
            Ok(field) => {
                let ghost before = fields@;
                let ghost pair = (field.name@, field.bits);
                fields.push(field);
                assert(field_models(fields@) =~= field_models(before).push(pair));
            },
            Err(message) => {
                return Err(message);
            },
        }
        i = i + 1;
    }
    Ok(fields)
}

/// The metric of a name among those from `i` on, after one was found or not.
pub open spec fn only_field(
    fields: Seq<(Seq<char>, u64)>,
    name: Seq<char>,
    i: int,
    found: Option<u64>,
) -> Result<u64, Seq<char>>
    decreases fields.len() - i,
{
    if i >= fields.len() {
        match found {
            Some(bits) => Ok(bits),
            None => Err("missing "@ + name),
        }
    } else if fields[i].0 == name {
        match found {
            Some(_) => Err("duplicate "@ + name),
            None => only_field(fields, name, i + 1, Some(fields[i].1)),
        }
    } else {
        only_field(fields, name, i + 1, found)
    }
}

/// The one metric of a name.
pub open spec fn needed_field(fields: Seq<(Seq<char>, u64)>, name: Seq<char>) -> Result<
    u64,
    Seq<char>,
> {
    only_field(fields, name, 0, None)
}

pub fn required_field(fields: &Vec<Field>, name: &str) -> (r: Result<u64, String>)
    ensures
        told(r) == needed_field(field_models(fields@), name@),
{
    let ghost all = field_models(fields@);
    let mut found: Option<u64> = None;
    let mut i: usize = 0;
    while i < fields.len()
        invariant
            i <= fields@.len(),
            all == field_models(fields@),
            needed_field(all, name@) == only_field(all, name@, i as int, found),
        decreases fields@.len() - i,
    {
        assert(all[i as int] == (fields@[i as int].name@, fields@[i as int].bits));
        if same(fields[i].name.as_str(), name) {
            if found.is_some() {
                return Err(cat2("duplicate ", name));
            }
            found = Some(fields[i].bits);
        }
        i = i + 1;
    }
    match found {
        Some(bits) => Ok(bits),
        None => Err(cat2("missing ", name)),
    }
}

/// The first metric of a name, where there is one.
pub open spec fn first_field(fields: Seq<(Seq<char>, u64)>, name: Seq<char>, i: int) -> Option<u64>
    decreases fields.len() - i,
{
    if i >= fields.len() {
        None
    } else if fields[i].0 == name {
        Some(fields[i].1)
    } else {
        first_field(fields, name, i + 1)
    }
}

fn optional_field(fields: &Vec<Field>, name: &str) -> (r: Option<u64>)
    ensures
        r == first_field(field_models(fields@), name@, 0),
{
    let ghost all = field_models(fields@);
    let mut i: usize = 0;
    while i < fields.len()
        invariant
            i <= fields@.len(),
            all == field_models(fields@),
            first_field(all, name@, 0) == first_field(all, name@, i as int),
        decreases fields@.len() - i,
    {
        assert(all[i as int] == (fields@[i as int].name@, fields@[i as int].bits));
        if same(fields[i].name.as_str(), name) {
            return Some(fields[i].bits);
        }
        i = i + 1;
    }
    None
}

/// One trial of a benchmark.
#[derive(Clone, Copy, Debug, PartialEq, Eq, Structural)]
pub struct Trial {
    pub trial: u64,
    pub prompt_tps: u64,
    pub generation_tps: u64,
    pub peak_memory: u64,
    pub total_time: u64,
}

/// The averages that a benchmark reports.
#[derive(Clone, Copy, Debug, PartialEq, Eq, Structural)]
pub struct ReportedAverages {
    pub prompt_tps: u64,
    pub generation_tps: u64,
    pub peak_memory: u64,
    pub total_time: Option<u64>,
}

/// The first three metrics that trials and averages share.
pub open spec fn shared_metrics(fields: Seq<(Seq<char>, u64)>) -> Result<
    (u64, u64, u64),
    Seq<char>,
> {
    match needed_field(fields, "prompt_tps"@) {
        Err(message) => Err(message),
        Ok(a) => match needed_field(fields, "generation_tps"@) {
            Err(message) => Err(message),
            Ok(b) => match needed_field(fields, "peak_memory"@) {
                Err(message) => Err(message),
                Ok(c) => Ok((a, b, c)),
            },
        },
    }
}

fn shared_of(fields: &Vec<Field>) -> (r: Result<(u64, u64, u64), String>)
    ensures
        told(r) == shared_metrics(field_models(fields@)),
{
    let a: u64 = match required_field(fields, "prompt_tps") {
        Ok(bits) => bits,
        Err(message) => {
            return Err(message);
        },
    };
    let b: u64 = match required_field(fields, "generation_tps") {
        Ok(bits) => bits,
        Err(message) => {
            return Err(message);
        },
    };
    let c: u64 = match required_field(fields, "peak_memory") {
        Ok(bits) => bits,
        Err(message) => {
            return Err(message);
        },
    };
    Ok((a, b, c))
}

/// The trial of a line, after the word that starts it.
pub open spec fn trial_of(rest: Seq<char>) -> Result<Trial, Seq<char>> {
    let k = find_char(rest, ':', 0);
    if k >= rest.len() {
        Err("malformed Trial line: "@ + rest)
    } else {
        let number = rest.subrange(0, k);
        match numeral(trimmed(number), u64::MAX as nat) {
            Err(f) => Err("invalid trial number "@ + quoted(number) + ": "@ + fault_text(f)),
            Ok(trial) => match fields_of(rest.subrange(k + 1, rest.len() as int)) {
                Err(message) => Err(message),
                Ok(fields) => match shared_metrics(fields) {
                    Err(message) => Err(message),
                    Ok((prompt_tps, generation_tps, peak_memory)) => match needed_field(
                        fields,
                        "total_time"@,
                    ) {
                        Err(message) => Err(message),
                        Ok(total_time) => Ok(
                            Trial {
                                trial: trial as u64,
                                prompt_tps,
                                generation_tps,
                                peak_memory,
                                total_time,
                            },
                        ),
                    },
                },
            },
        }
    }
}

pub fn parse_trial(rest: &str) -> (r: Result<Trial, String>)
    ensures
        told(r) == trial_of(rest@),
{
    let chars = chars_of(rest);
    let at: usize = find_in(&chars, ':', 0);
    if at >= chars.len() {
        return Err(cat2("malformed Trial line: ", rest));
    }
    let number = text_between(&chars, 0, at);
    let trimmed_number = trim_text(number.as_str());
    let trial: u64 = match parse_numeral(trimmed_number.as_str(), u64::MAX) {
        Ok(trial) => trial,
        Err(f) => {
            let shown = quoted_text(number.as_str());
            return Err(cat4("invalid trial number ", shown.as_str(), ": ", f.text()));
        },
    };
    let text = text_between(&chars, at + 1, chars.len());
    let fields = match parse_fields(text.as_str()) {
        Ok(fields) => fields,
        Err(message) => {
            return Err(message);
        },
    };
    let shared = match shared_of(&fields) {
        Ok(shared) => shared,
        Err(message) => {
            return Err(message);
        },
    };
    let total_time: u64 = match required_field(&fields, "total_time") {
        Ok(bits) => bits,
        Err(message) => {
            return Err(message);
        },
    };
    Ok(
        Trial {
            trial,
            prompt_tps: shared.0,
            generation_tps: shared.1,
            peak_memory: shared.2,
            total_time,
        },
    )
}

/// The averages of a line.
pub open spec fn averages_of(text: Seq<char>) -> Result<ReportedAverages, Seq<char>> {
    match fields_of(text) {
        Err(message) => Err(message),
        Ok(fields) => match shared_metrics(fields) {
            Err(message) => Err(message),
            Ok((prompt_tps, generation_tps, peak_memory)) => Ok(
                ReportedAverages {
                    prompt_tps,
                    generation_tps,
                    peak_memory,
                    total_time: first_field(fields, "total_time"@, 0),
                },
            ),
        },
    }
}

pub fn parse_averages(text: &str) -> (r: Result<ReportedAverages, String>)
    ensures
        told(r) == averages_of(text@),
{
    let fields = match parse_fields(text) {
        Ok(fields) => fields,
        Err(message) => {
            return Err(message);
        },
    };
    match shared_of(&fields) {
        Err(message) => Err(message),
        Ok(shared) => Ok(
            ReportedAverages {
                prompt_tps: shared.0,
                generation_tps: shared.1,
                peak_memory: shared.2,
                total_time: optional_field(&fields, "total_time"),
            },
        ),
    }
}

/// Whether a trial of a number was read.
pub open spec fn trial_seen(trials: Seq<Trial>, number: u64) -> bool {
    exists|i: int| 0 <= i < trials.len() && (#[trigger] trials[i]).trial == number
}

/// The trials and averages of the lines from `i` on, after those already read.
pub open spec fn benchmark_from(
    text: Seq<Seq<char>>,
    i: int,
    trials: Seq<Trial>,
    averages: Option<ReportedAverages>,
) -> Result<(Seq<Trial>, Option<ReportedAverages>), Seq<char>>
    decreases text.len() - i,
{
    if i >= text.len() {
        if trials.len() == 0 {
            Err("no Trial lines"@)
        } else {
            Ok((trials, averages))
        }
    } else {
        let line = trimmed(text[i]);
        match after_prefix(line, "Trial "@) {
            Some(rest) => match trial_of(rest) {
                Err(message) => Err(message),
                Ok(trial) => if trial_seen(trials, trial.trial) {
                    Err("duplicate Trial "@ + decimal(trial.trial as nat))
                } else {
                    benchmark_from(text, i + 1, trials.push(trial), averages)
                },
            },
            None => match after_prefix(line, "Averages:"@) {
                Some(rest) => if averages is Some {
                    Err("duplicate Averages line"@)
                } else {
                    match averages_of(trimmed(rest)) {
                        Err(message) => Err(message),
                        Ok(found) => benchmark_from(text, i + 1, trials, Some(found)),
                    }
                },
                None => benchmark_from(text, i + 1, trials, averages),
            },
        }
    }
}

/// The trials and averages that a benchmark printed.
pub open spec fn benchmark(stdout: Seq<char>) -> Result<
    (Seq<Trial>, Option<ReportedAverages>),
    Seq<char>,
> {
    benchmark_from(lines(stdout), 0, Seq::empty(), None)
}

fn has_trial(trials: &Vec<Trial>, number: u64) -> (r: bool)
    ensures
        r == trial_seen(trials@, number),
{
    let mut i: usize = 0;
    while i < trials.len()
        invariant
            i <= trials@.len(),
            forall|j: int| 0 <= j < i ==> (#[trigger] trials@[j]).trial != number,
        decreases trials@.len() - i,
    {
        if trials[i].trial == number {
            return true;
        }
        i = i + 1;
    }
    false
}

pub open spec fn benchmark_told(r: Result<(Vec<Trial>, Option<ReportedAverages>), String>) -> Result<
    (Seq<Trial>, Option<ReportedAverages>),
    Seq<char>,
> {
    match r {
        Ok(pair) => Ok((pair.0@, pair.1)),
        Err(e) => Err(e@),
    }
}

pub fn parse_benchmark_stdout(stdout: &str) -> (r: Result<
    (Vec<Trial>, Option<ReportedAverages>),
    String,
>)
    ensures
        benchmark_told(r) == benchmark(stdout@),
{
    let text = lines_of(stdout);
    let ghost all = lines(stdout@);
    let mut trials: Vec<Trial> = Vec::new();
    let mut averages: Option<ReportedAverages> = None;
    let mut i: usize = 0;
    while i < text.len()
        invariant
            i <= text@.len(),
            all == lines(stdout@),
            texts(text@) == all,
            benchmark(stdout@) == benchmark_from(all, i as int, trials@, averages),
        decreases text@.len() - i,
    {
        assert(all[i as int] == text@[i as int]@);
        let line = trim_text(text[i].as_str());
        match strip_prefix_text(line.as_str(), "Trial ") {
            Some(rest) => {
                let trial = match parse_trial(rest.as_str()) {
                    Ok(trial) => trial,
                    Err(message) => {
                        return Err(message);
                    },
                };
                if has_trial(&trials, trial.trial) {
                    let number = decimal_text(trial.trial);
                    return Err(cat2("duplicate Trial ", number.as_str()));
                }
                trials.push(trial);
            },
            None => {
                match strip_prefix_text(line.as_str(), "Averages:") {
                    Some(rest) => {
                        if averages.is_some() {
                            return Err("duplicate Averages line".to_owned());
                        }
                        let fields = trim_text(rest.as_str());
                        match parse_averages(fields.as_str()) {
                            Ok(found) => {
                                averages = Some(found);
                            },
                            Err(message) => {
                                return Err(message);
                            },
                        }
                    },
                    None => {},
                }
            },
        }
        i = i + 1;
    }
    if trials.len() == 0 {
        return Err("no Trial lines".to_owned());
    }
    Ok((trials, averages))
}

/// The trials of an accepted output have distinct numbers.
pub proof fn accepted_trials_are_distinct(
    text: Seq<Seq<char>>,
    i: int,
    trials: Seq<Trial>,
    averages: Option<ReportedAverages>,
)
    requires
        benchmark_from(text, i, trials, averages) is Ok,
        forall|a: int, b: int| 0 <= a < b < trials.len() ==> trials[a].trial != trials[b].trial,
    ensures
        ({
            let found = benchmark_from(text, i, trials, averages)->Ok_0.0;
            forall|a: int, b: int| 0 <= a < b < found.len() ==> found[a].trial != found[b].trial
        }),
    decreases text.len() - i,
{
    if i < text.len() {
        let line = trimmed(text[i]);
        match after_prefix(line, "Trial "@) {
            Some(rest) => {
                let trial = trial_of(rest)->Ok_0;
                let next = trials.push(trial);
                assert forall|a: int, b: int| 0 <= a < b < next.len() implies next[a].trial
                    != next[b].trial by {
                    if b == trials.len() {
                        assert(next[a] == trials[a]);
                        if trials[a].trial == trial.trial {
                            assert(trial_seen(trials, trial.trial));
                        }
                    }
                }
                accepted_trials_are_distinct(text, i + 1, next, averages);
            },
            None => {
                match after_prefix(line, "Averages:"@) {
                    Some(rest) => {
                        accepted_trials_are_distinct(
                            text,
                            i + 1,
                            trials,
                            Some(averages_of(trimmed(rest))->Ok_0),
                        );
                    },
                    None => {
                        accepted_trials_are_distinct(text, i + 1, trials, averages);
                    },
                }
            },
        }
    }
}

/// The least, the greatest and the middle of some metrics: the middle is one
/// value twice where their number is odd, and the two middle values otherwise.
#[derive(Clone, Copy, Debug, PartialEq, Eq, Structural)]
pub struct OrderStatistics {
    pub least: u64,
    pub greatest: u64,
    pub lower_middle: u64,
    pub upper_middle: u64,
}

/// Whether metrics are in ascending order.
pub open spec fn ascending(values: Seq<u64>) -> bool {
    forall|i: int, j: int|
        0 <= i < j < values.len() ==> double_key(values[i]) <= double_key(values[j])
}

fn sorted_copy(values: &Vec<u64>) -> (r: Vec<u64>)
    ensures
        ascending(r@),
        r@.to_multiset() == values@.to_multiset(),
        r@.len() == values@.len(),
{
    let mut sorted: Vec<u64> = Vec::new();
    let mut i: usize = 0;
    assert(values@.take(0) =~= Seq::empty());
    assert(sorted@ =~= values@.take(0));
    while i < values.len()
        invariant
            i <= values@.len(),
            sorted@.len() == i,
            ascending(sorted@),
            sorted@.to_multiset() == values@.take(i as int).to_multiset(),
        decreases values@.len() - i,
    {
        let value: u64 = values[i];
        let key: i64 = key_of_double(value);
        let ghost before = sorted@;
        let mut place: usize = sorted.len();
        while place > 0 && key_of_double(sorted[place - 1]) > key
            invariant
                place <= sorted@.len(),
                sorted@ == before,
                ascending(before),
                key == double_key(value),
                forall|k: int| place <= k < before.len() ==> double_key(before[k]) > key,
            decreases place,
        {
            place = place - 1;
        }
        sorted.insert(place, value);
        proof {
            assert(sorted@ == before.insert(place as int, value));
            vstd::seq_lib::to_multiset_insert(before, place as int, value);
            assert(values@.take(i + 1) =~= values@.take(i as int).push(value));
            values@.take(i as int).to_multiset_ensures();
            assert forall|a: int, b: int| 0 <= a < b < sorted@.len() implies double_key(sorted@[a])
                <= double_key(sorted@[b]) by {
                let x = if a < place {
                    a
                } else {
                    a - 1
                };
                let y = if b < place {
                    b
                } else {
                    b - 1
                };
                if a != place {
                    assert(sorted@[a] == before[x]);
                }
                if b != place {
                    assert(sorted@[b] == before[y]);
                }
                if b == place && a < place {
                    assert(double_key(before[a]) <= double_key(before[place - 1]));
                }
            }
        }
        i = i + 1;
    }
    assert(values@.take(values@.len() as int) =~= values@);
    sorted
}

/// The order statistics of some metrics, read off an ascending arrangement.
pub fn order_statistics(values: &Vec<u64>) -> (r: Option<OrderStatistics>)
    ensures
        r is None <==> values@.len() == 0,
        match r {
            Some(found) => exists|sorted: Seq<u64>|
                {
                    &&& ascending(sorted)
                    &&& #[trigger] sorted.to_multiset() == values@.to_multiset()
                    &&& sorted.len() == values@.len()
                    &&& found.least == sorted[0]
                    &&& found.greatest == sorted[sorted.len() - 1]
                    &&& found.upper_middle == sorted[sorted.len() as int / 2]
                    &&& found.lower_middle == sorted[(sorted.len() - 1) / 2]
                },
            None => true,
        },
{
    if values.len() == 0 {
        return None;
    }
    let sorted = sorted_copy(values);
    let n: usize = sorted.len();
    Some(
        OrderStatistics {
            least: sorted[0],
            greatest: sorted[n - 1],
            lower_middle: sorted[(n - 1) / 2],
            upper_middle: sorted[n / 2],
        },
    )
}

} // verus!
