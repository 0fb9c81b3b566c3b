//! What the text of a benchmark says, and what is read off it.
use crate::json::double_key;
use crate::mlx::benchmark::{
    averages_of, benchmark, benchmark_from, double_of_text, field_of, fields_from, fields_of,
    first_field, needed_field, only_field, trial_of, ReportedAverages, Trial,
};
use crate::text::{after_prefix, find_char, find_char_bounds, lines, numeral, split, trimmed};
use crate::text_laws::numerals_are_bounded;
use vstd::prelude::*;

verus! {

/// Whether a piece of a line is a metric of a name with a value: the name, an equals
/// sign and a number that reads as the value, with white space around them.
pub open spec fn writes(piece: Seq<char>, name: Seq<char>, bits: u64) -> bool {
    exists|raw: Seq<char>|
        trimmed(piece) == #[trigger] (name + seq!['='] + raw) && double_of_text(raw) == Ok::<
            Option<u64>,
            Seq<char>,
        >(Some(bits))
}

/// Whether a piece of a line has a name before its first equals sign.
pub open spec fn named(piece: Seq<char>, name: Seq<char>) -> bool {
    exists|raw: Seq<char>| trimmed(piece) == #[trigger] (name + seq!['='] + raw)
}

/// Whether a line has exactly one metric of a name, and that has a value.
pub open spec fn states(line: Seq<char>, name: Seq<char>, bits: u64) -> bool {
    exists|i: int|
        0 <= i < split(line, ',').len() && writes(#[trigger] split(line, ',')[i], name, bits)
            && forall|j: int|
            0 <= j < split(line, ',').len() && named(#[trigger] split(line, ',')[j], name) ==> j
                == i
}

proof fn field_is_written(piece: Seq<char>)
    requires
        field_of(piece) is Ok,
    ensures
        writes(piece, field_of(piece)->Ok_0.0, field_of(piece)->Ok_0.1),
        double_key(field_of(piece)->Ok_0.1) >= 0,
        !field_of(piece)->Ok_0.0.contains('='),
{
    let text = trimmed(piece);
    let k = find_char(text, '=', 0);
    find_char_bounds(text, '=', 0);
    first_of_its_kind(text, '=', 0);
    let name = text.subrange(0, k);
    let raw = text.subrange(k + 1, text.len() as int);
    assert(text =~= name + seq!['='] + raw);
    assert forall|i: int| 0 <= i < name.len() implies name[i] != '=' by {
        assert(name[i] == text[i]);
    }
}

/// Nothing before the place that was found is the character.
proof fn first_of_its_kind(s: Seq<char>, c: char, from: int)
    requires
        0 <= from <= s.len(),
    ensures
        from <= find_char(s, c, from) <= s.len(),
        find_char(s, c, from) < s.len() ==> s[find_char(s, c, from)] == c,
        forall|i: int| from <= i < find_char(s, c, from) ==> s[i] != c,
    decreases s.len() - from,
{
    if from < s.len() && s[from] != c {
        first_of_its_kind(s, c, from + 1);
    }
}

/// A piece that has a name without an equals sign has no other.
proof fn names_are_unique(piece: Seq<char>, name: Seq<char>)
    requires
        field_of(piece) is Ok,
        named(piece, name),
        !name.contains('='),
    ensures
        field_of(piece)->Ok_0.0 == name,
{
    let text = trimmed(piece);
    let raw = choose|raw: Seq<char>| text == #[trigger] (name + seq!['='] + raw);
    first_of_its_kind(text, '=', 0);
    let k = find_char(text, '=', 0);
    assert(text[name.len() as int] == '=');
    assert(k == name.len()) by {
        if k < name.len() {
            assert(name[k] == text[k]);
            assert(name.contains('='));
        }
    }
    assert(text.subrange(0, k) =~= name);
}

proof fn fields_in_order(pieces: Seq<Seq<char>>, i: int, done: Seq<(Seq<char>, u64)>)
    requires
        0 <= i <= pieces.len(),
        done.len() == i,
    ensures
        fields_from(pieces, i, done) matches Ok(fields) ==> {
            &&& fields.len() == pieces.len()
            &&& forall|j: int| 0 <= j < i ==> #[trigger] fields[j] == done[j]
            &&& forall|j: int|
                i <= j < pieces.len() ==> field_of(pieces[j]) == Ok::<
                    (Seq<char>, u64),
                    Seq<char>,
                >(#[trigger] fields[j])
        },
    decreases pieces.len() - i,
{
    if i < pieces.len() {
        match field_of(pieces[i]) {
            Err(_) => {},
            Ok(field) => {
                fields_in_order(pieces, i + 1, done.push(field));
                if fields_from(pieces, i, done) is Ok {
                    let fields = fields_from(pieces, i, done)->Ok_0;
                    assert(fields[i] == done.push(field)[i]);
                    assert forall|j: int| 0 <= j < i implies #[trigger] fields[j] == done[j] by {
                        assert(fields[j] == done.push(field)[j]);
                    }
                }
            },
        }
    }
}

proof fn needed_is_the_only_one(
    fields: Seq<(Seq<char>, u64)>,
    name: Seq<char>,
    i: int,
    found: Option<u64>,
)
    requires
        0 <= i <= fields.len(),
        only_field(fields, name, i, found) is Ok,
    ensures
        found matches Some(bits) ==> only_field(fields, name, i, found)->Ok_0 == bits && forall|
            j: int,
        |
            i <= j < fields.len() ==> (#[trigger] fields[j]).0 != name,
        found is None ==> exists|k: int|
            i <= k < fields.len() && #[trigger] fields[k] == (
                name,
                only_field(fields, name, i, found)->Ok_0,
            ) && forall|j: int|
                i <= j < fields.len() && (#[trigger] fields[j]).0 == name ==> j == k,
    decreases fields.len() - i,
{
    if i < fields.len() {
        if fields[i].0 == name {
            needed_is_the_only_one(fields, name, i + 1, Some(fields[i].1));
            if found is None {
                assert(fields[i] == (name, only_field(fields, name, i, found)->Ok_0));
            }
        } else {
            needed_is_the_only_one(fields, name, i + 1, found);
            if found is None {
                let k = choose|k: int|
                    i + 1 <= k < fields.len() && #[trigger] fields[k] == (
                        name,
                        only_field(fields, name, i + 1, found)->Ok_0,
                    ) && forall|j: int|
                        i + 1 <= j < fields.len() && (#[trigger] fields[j]).0 == name ==> j == k;
                assert(fields[k].0 == name);
            }
        }
    }
}

proof fn needed_is_stated(line: Seq<char>, name: Seq<char>)
    requires
        fields_of(line) is Ok,
        needed_field(fields_of(line)->Ok_0, name) is Ok,
        !name.contains('='),
    ensures
        states(line, name, needed_field(fields_of(line)->Ok_0, name)->Ok_0),
{
    let pieces = split(line, ',');
    let fields = fields_of(line)->Ok_0;
    let bits = needed_field(fields, name)->Ok_0;
    fields_in_order(pieces, 0, Seq::empty());
    needed_is_the_only_one(fields, name, 0, None);
    let k = choose|k: int|
        0 <= k < fields.len() && #[trigger] fields[k] == (name, bits) && forall|j: int|
            0 <= j < fields.len() && (#[trigger] fields[j]).0 == name ==> j == k;
    field_is_written(pieces[k]);
    assert(writes(pieces[k], name, bits));
    assert forall|j: int| 0 <= j < pieces.len() && named(#[trigger] pieces[j], name) implies j
        == k by {
        assert(field_of(pieces[j]) == Ok::<(Seq<char>, u64), Seq<char>>(fields[j]));
        names_are_unique(pieces[j], name);
    }
}

proof fn first_is_written(fields: Seq<(Seq<char>, u64)>, name: Seq<char>, i: int)
    requires
        0 <= i <= fields.len(),
    ensures
        match first_field(fields, name, i) {
            Some(bits) => exists|k: int|
                i <= k < fields.len() && #[trigger] fields[k] == (name, bits) && forall|j: int|
                    i <= j < k ==> (#[trigger] fields[j]).0 != name,
            None => forall|j: int| i <= j < fields.len() ==> (#[trigger] fields[j]).0 != name,
        },
    decreases fields.len() - i,
{
    if i < fields.len() {
        if fields[i].0 == name {
            assert(fields[i] == (name, fields[i].1));
        } else {
            first_is_written(fields, name, i + 1);
            if first_field(fields, name, i) is Some {
                let bits = first_field(fields, name, i)->0;
                let k = choose|k: int|
                    i + 1 <= k < fields.len() && #[trigger] fields[k] == (name, bits) && forall|
                        j: int,
                    |
                        i + 1 <= j < k ==> (#[trigger] fields[j]).0 != name;
                assert(fields[k] == (name, bits));
            }
        }
    }
}

proof fn metric_names_are_plain()
    ensures
        !"prompt_tps"@.contains('='),
        !"generation_tps"@.contains('='),
        !"peak_memory"@.contains('='),
        !"total_time"@.contains('='),
{
    reveal_strlit("prompt_tps");
    reveal_strlit("generation_tps");
    reveal_strlit("peak_memory");
    reveal_strlit("total_time");
}

/// Each metric of a trial is the number that the trial's line writes in its one
/// field of that metric's own name, and the trial's number stands before the first
/// colon.
pub proof fn trials_are_what_their_line_states(rest: Seq<char>)
    requires
        trial_of(rest) is Ok,
    ensures
        ({
            let trial = trial_of(rest)->Ok_0;
            exists|number: Seq<char>, line: Seq<char>|
                {
                    &&& rest == #[trigger] (number + seq![':'] + line)
                    &&& !number.contains(':')
                    &&& numeral(trimmed(number), u64::MAX as nat) is Ok
                    &&& numeral(trimmed(number), u64::MAX as nat)->Ok_0 == trial.trial
                    &&& states(line, "prompt_tps"@, trial.prompt_tps)
                    &&& states(line, "generation_tps"@, trial.generation_tps)
                    &&& states(line, "peak_memory"@, trial.peak_memory)
                    &&& states(line, "total_time"@, trial.total_time)
                }
        }),
{
    let trial = trial_of(rest)->Ok_0;
    first_of_its_kind(rest, ':', 0);
    let k = find_char(rest, ':', 0);
    let number = rest.subrange(0, k);
    let line = rest.subrange(k + 1, rest.len() as int);
    assert(rest =~= number + seq![':'] + line);
    assert forall|i: int| 0 <= i < number.len() implies number[i] != ':' by {
        assert(number[i] == rest[i]);
    }
    metric_names_are_plain();
    numerals_are_bounded(trimmed(number), u64::MAX as nat);
    needed_is_stated(line, "prompt_tps"@);
    needed_is_stated(line, "generation_tps"@);
    needed_is_stated(line, "peak_memory"@);
    needed_is_stated(line, "total_time"@);
    assert(rest == number + seq![':'] + line);
}

/// Each average is the number that the line writes in its one field of that name.
/// Only the total time may be left out, and then no field of the line has its name.
pub proof fn averages_are_what_their_line_states(line: Seq<char>)
    requires
        averages_of(line) is Ok,
    ensures
        ({
            let averages = averages_of(line)->Ok_0;
            &&& states(line, "prompt_tps"@, averages.prompt_tps)
            &&& states(line, "generation_tps"@, averages.generation_tps)
            &&& states(line, "peak_memory"@, averages.peak_memory)
            &&& match averages.total_time {
                Some(bits) => exists|i: int|
                    0 <= i < split(line, ',').len() && writes(
                        #[trigger] split(line, ',')[i],
                        "total_time"@,
                        bits,
                    ) && forall|j: int|
                        0 <= j < i ==> !named(#[trigger] split(line, ',')[j], "total_time"@),
                None => forall|j: int|
                    0 <= j < split(line, ',').len() ==> !named(
                        #[trigger] split(line, ',')[j],
                        "total_time"@,
                    ),
            }
        }),
{
    let averages = averages_of(line)->Ok_0;
    let name = "total_time"@;
    metric_names_are_plain();
    needed_is_stated(line, "prompt_tps"@);
    needed_is_stated(line, "generation_tps"@);
    needed_is_stated(line, "peak_memory"@);
    let pieces = split(line, ',');
    let fields = fields_of(line)->Ok_0;
    fields_in_order(pieces, 0, Seq::empty());
    first_is_written(fields, name, 0);
    match averages.total_time {
        Some(bits) => {
            let k = choose|k: int|
                0 <= k < fields.len() && #[trigger] fields[k] == (name, bits) && forall|j: int|
                    0 <= j < k ==> (#[trigger] fields[j]).0 != name;
            field_is_written(pieces[k]);
            assert(writes(pieces[k], name, bits));
            assert forall|j: int| 0 <= j < k implies !named(#[trigger] pieces[j], name) by {
                assert(fields[j].0 != name);
                if named(pieces[j], name) {
                    names_are_unique(pieces[j], name);
                }
            }
        },
        None => {
            assert forall|j: int| 0 <= j < pieces.len() implies !named(#[trigger] pieces[j], name) by {
                assert(fields[j].0 != name);
                if named(pieces[j], name) {
                    names_are_unique(pieces[j], name);
                }
            }
        },
    }
}

/// Whether a metric may be reported: every metric that was read is not negative.
pub proof fn metrics_are_not_negative(line: Seq<char>, k: int)
    requires
        fields_of(line) is Ok,
        0 <= k < fields_of(line)->Ok_0.len(),
    ensures
        double_key(fields_of(line)->Ok_0[k].1) >= 0,
        fields_of(line)->Ok_0.len() == split(line, ',').len(),
        writes(split(line, ',')[k], fields_of(line)->Ok_0[k].0, fields_of(line)->Ok_0[k].1),
{
    fields_in_order(split(line, ','), 0, Seq::empty());
    let fields = fields_of(line)->Ok_0;
    assert(field_of(split(line, ',')[k]) == Ok::<(Seq<char>, u64), Seq<char>>(fields[k]));
    field_is_written(split(line, ',')[k]);
}

/// What a line of the output says of a trial, if it is of one.
pub open spec fn trial_line(line: Seq<char>) -> Option<Seq<char>> {
    after_prefix(trimmed(line), "Trial "@)
}

/// What a line of the output says of averages, if it is of them.
pub open spec fn average_line(line: Seq<char>) -> Option<Seq<char>> {
    if trial_line(line) is Some {
        None
    } else {
        after_prefix(trimmed(line), "Averages:"@)
    }
}

/// Whether some trials, from a place on, hold that of a line.
pub open spec fn holds_trial(trials: Seq<Trial>, from: int, rest: Seq<char>) -> bool {
    exists|k: int|
        from <= k < trials.len() && trial_of(rest) == Ok::<Trial, Seq<char>>(#[trigger] trials[k])
}

/// Whether a line, from a place on, is one of a trial.
pub open spec fn writes_trial(text: Seq<Seq<char>>, from: int, trial: Trial) -> bool {
    exists|j: int|
        from <= j < text.len() && (#[trigger] trial_line(text[j])) is Some && trial_of(
            trial_line(text[j])->0,
        ) == Ok::<Trial, Seq<char>>(trial)
}

/// Whether a line, from a place on, is one of averages.
pub open spec fn writes_averages(text: Seq<Seq<char>>, from: int) -> bool {
    exists|j: int| from <= j < text.len() && (#[trigger] average_line(text[j])) is Some
}

proof fn trials_are_kept(
    text: Seq<Seq<char>>,
    i: int,
    trials: Seq<Trial>,
    averages: Option<ReportedAverages>,
)
    requires
        0 <= i <= text.len(),
        benchmark_from(text, i, trials, averages) is Ok,
    ensures
        ({
            let (all, found) = benchmark_from(text, i, trials, averages)->Ok_0;
            &&& all.len() >= trials.len()
            &&& forall|k: int| 0 <= k < trials.len() ==> #[trigger] all[k] == trials[k]
            &&& averages is Some ==> found == averages
        }),
    decreases text.len() - i,
{
    if i < text.len() {
        let (all, found) = benchmark_from(text, i, trials, averages)->Ok_0;
        match trial_line(text[i]) {
            Some(rest) => {
                let next = trials.push(trial_of(rest)->Ok_0);
                trials_are_kept(text, i + 1, next, averages);
                assert forall|k: int| 0 <= k < trials.len() implies #[trigger] all[k]
                    == trials[k] by {
                    assert(all[k] == next[k]);
                }
            },
            None => match average_line(text[i]) {
                Some(rest) => {
                    trials_are_kept(text, i + 1, trials, Some(averages_of(trimmed(rest))->Ok_0));
                },
                None => {
                    trials_are_kept(text, i + 1, trials, averages);
                },
            },
        }
    }
}

proof fn lines_are_read(
    text: Seq<Seq<char>>,
    i: int,
    trials: Seq<Trial>,
    averages: Option<ReportedAverages>,
    j: int,
    k: int,
)
    requires
        0 <= i <= text.len(),
        benchmark_from(text, i, trials, averages) is Ok,
    ensures
        ({
            let (all, found) = benchmark_from(text, i, trials, averages)->Ok_0;
            &&& i <= j < text.len() && trial_line(text[j]) is Some ==> holds_trial(
                all,
                trials.len() as int,
                trial_line(text[j])->0,
            )
            &&& trials.len() <= k < all.len() ==> writes_trial(text, i, all[k])
            &&& i <= j < text.len() && average_line(text[j]) is Some ==> averages is None && found
                is Some && averages_of(trimmed(average_line(text[j])->0)) == Ok::<
                ReportedAverages,
                Seq<char>,
            >(found->0)
            &&& averages is None && found is Some ==> writes_averages(text, i)
        }),
    decreases text.len() - i,
{
    if i < text.len() {
        let (all, found) = benchmark_from(text, i, trials, averages)->Ok_0;
        let n = trials.len() as int;
        match trial_line(text[i]) {
            Some(rest) => {
                let next = trials.push(trial_of(rest)->Ok_0);
                lines_are_read(text, i + 1, next, averages, j, k);
                trials_are_kept(text, i + 1, next, averages);
                assert(all[n] == next[n]);
                assert(trial_of(rest) == Ok::<Trial, Seq<char>>(all[n]));
                assert(holds_trial(all, n, rest));
                assert(writes_trial(text, i, all[n]));
            },
            None => match average_line(text[i]) {
                Some(rest) => {
                    let own = averages_of(trimmed(rest))->Ok_0;
                    lines_are_read(text, i + 1, trials, Some(own), j, k);
                    trials_are_kept(text, i + 1, trials, Some(own));
                    assert(average_line(text[i]) is Some);
                    assert(writes_averages(text, i));
                },
                None => {
                    lines_are_read(text, i + 1, trials, averages, j, k);
                },
            },
        }
    }
}

/// An accepted output has every trial of its trial lines and no other, and its
/// averages are those of its one line of averages, if it has one.
pub proof fn outputs_are_read_whole(stdout: Seq<char>, j: int, k: int)
    requires
        benchmark(stdout) is Ok,
    ensures
        ({
            let text = lines(stdout);
            let (trials, averages) = benchmark(stdout)->Ok_0;
            &&& trials.len() > 0
            &&& 0 <= j < text.len() && trial_line(text[j]) is Some ==> holds_trial(
                trials,
                0,
                trial_line(text[j])->0,
            )
            &&& 0 <= k < trials.len() ==> writes_trial(text, 0, trials[k])
            &&& 0 <= j < text.len() && average_line(text[j]) is Some ==> averages is Some
                && averages_of(trimmed(average_line(text[j])->0)) == Ok::<
                ReportedAverages,
                Seq<char>,
            >(averages->0)
            &&& averages is Some ==> writes_averages(text, 0)
        }),
{
    let text = lines(stdout);
    lines_are_read(text, 0, Seq::empty(), None, j, k);
    trials_are_some(text, 0, Seq::empty(), None);
}

proof fn trials_are_some(
    text: Seq<Seq<char>>,
    i: int,
    trials: Seq<Trial>,
    averages: Option<ReportedAverages>,
)
    requires
        benchmark_from(text, i, trials, averages) is Ok,
    ensures
        benchmark_from(text, i, trials, averages)->Ok_0.0.len() > 0,
    decreases text.len() - i,
{
    if i < text.len() {
        match trial_line(text[i]) {
            Some(rest) => {
                trials_are_some(text, i + 1, trials.push(trial_of(rest)->Ok_0), averages);
            },
            None => match average_line(text[i]) {
                Some(rest) => {
                    trials_are_some(
                        text,
                        i + 1,
                        trials,
                        Some(averages_of(trimmed(rest))->Ok_0),
                    );
                },
                None => {
                    trials_are_some(text, i + 1, trials, averages);
                },
            },
        }
    }
}

} // verus!
