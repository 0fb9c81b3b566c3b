//! What the cases of a session are, line by line and entry by entry.
use crate::json::{array_at, at, bool_at, json_document, natural_at, text_at, text_of, JsonModel};
use crate::metal_infer::args::CliModel;
use crate::metal_infer::cases::{
    case_of, command_of, flag_argument, flag_at, flag_count, jsonl_cases, line_cases, manifest_case,
    manifest_cases, manifest_cases_from, manifest_output, manifest_prompt, manifest_steps, nonempty,
    prepared_limit, reference_path, CaseModel,
};
use crate::metal_infer::budget::{effective_limit, EnvValue};
use crate::paths::{is_absolute, joined};
use crate::text::{decimal, lines, numeral, trimmed};
use vstd::prelude::*;

verus! {

/// Each line of a file that is not blank holds one case; a case without a name is named
/// by the number of its line.
pub proof fn lines_hold_a_case_each(
    path: Seq<char>,
    base_dir: Seq<char>,
    args: CliModel,
    text: Seq<Seq<char>>,
    i: int,
    cases: Seq<CaseModel>,
)
    requires
        0 <= i < text.len(),
    ensures
        ({
            let r = line_cases(path, base_dir, args, text, i, cases);
            let line = trimmed(text[i]);
            &&& line.len() == 0 ==> r == line_cases(path, base_dir, args, text, i + 1, cases)
            &&& line.len() > 0 && json_document(line) is Err ==> r is Err
            &&& line.len() > 0 && json_document(line) is Ok ==> match case_of(
                json_document(line)->Ok_0,
                "case_"@ + decimal((i + 1) as nat),
                base_dir,
                args,
            ) {
                Ok(case) => r == line_cases(path, base_dir, args, text, i + 1, cases.push(case)),
                Err(_) => r is Err,
            }
        }),
        line_cases(path, base_dir, args, text, text.len() as int, cases) == Ok::<
            Seq<CaseModel>,
            Seq<char>,
        >(cases),
{
}

/// A file of cases has one at least, and no name twice.
pub proof fn files_have_distinct_cases(
    path: Seq<char>,
    base_dir: Seq<char>,
    args: CliModel,
    raw: Seq<char>,
    i: int,
    j: int,
)
    requires
        jsonl_cases(path, base_dir, args, raw) is Ok,
    ensures
        ({
            let cases = jsonl_cases(path, base_dir, args, raw)->Ok_0;
            &&& line_cases(path, base_dir, args, lines(raw), 0, Seq::empty()) == Ok::<
                Seq<CaseModel>,
                Seq<char>,
            >(cases)
            &&& cases.len() > 0
            &&& 0 <= i < j < cases.len() ==> cases[i].name != cases[j].name
        }),
{
    if 0 <= i < j < jsonl_cases(path, base_dir, args, raw)->Ok_0.len() {
        crate::metal_infer::cases::accepted_names_are_distinct(
            jsonl_cases(path, base_dir, args, raw)->Ok_0,
            i,
            j,
        );
    }
}

proof fn flag_found(command: Seq<Seq<char>>, flag: Seq<char>, i: int)
    requires
        0 <= i <= command.len(),
    ensures
        i <= flag_at(command, flag, i) <= command.len(),
        flag_at(command, flag, i) < command.len() ==> command[flag_at(command, flag, i)] == flag,
        forall|k: int| i <= k < flag_at(command, flag, i) ==> #[trigger] command[k] != flag,
    decreases command.len() - i,
{
    if i < command.len() && command[i] != flag {
        flag_found(command, flag, i + 1);
    }
}

/// A flag's value is the argument that follows its first occurrence; a number is read
/// from it where it is one.
pub proof fn flags_are_followed_by_their_value(command: Seq<Seq<char>>, flag: Seq<char>, k: int)
    requires
        0 <= k < command.len(),
        command[k] == flag,
        forall|j: int| 0 <= j < k ==> #[trigger] command[j] != flag,
    ensures
        k + 1 < command.len() ==> flag_argument(command, flag) == Some(command[k + 1]),
        k + 1 == command.len() ==> flag_argument(command, flag) is None,
        k + 1 < command.len() ==> match numeral(command[k + 1], usize::MAX as nat) {
            Ok(n) => flag_count(command, flag) == Some(n as usize),
            Err(_) => flag_count(command, flag) is None,
        },
{
    flag_found(command, flag, 0);
    let at = flag_at(command, flag, 0);
    assert(at == k) by {
        if at > k {
            assert(command[k] != flag);
        }
        if at < k {
            assert(command[at] != flag);
        }
    }
}

/// A command is its entry's list of texts.
pub proof fn commands_are_listed(case: JsonModel, items: Seq<JsonModel>, i: int)
    requires
        array_at(case, "command"@) == Some(items),
        0 <= i < items.len(),
    ensures
        command_of(case).len() == items.len(),
        text_of(items[i]) matches Some(t) ==> command_of(case)[i] == t,
        text_of(items[i]) is None ==> command_of(case)[i].len() == 0,
{
}

/// A reference's path is kept where it is absolute; otherwise it lies in the manifest's
/// output directory, or beside the manifest where it names none.
pub proof fn references_lie_by_their_manifest(dir: Seq<char>, manifest: JsonModel, raw: Seq<char>)
    ensures
        is_absolute(raw) ==> reference_path(dir, manifest, raw) == raw,
        !is_absolute(raw) ==> (nonempty(text_at(manifest, "output_dir"@)) matches Some(o)
            ==> reference_path(dir, manifest, raw) == joined(o, raw)),
        !is_absolute(raw) && nonempty(text_at(manifest, "output_dir"@)) is None ==> reference_path(
            dir,
            manifest,
            raw,
        ) == joined(dir, raw),
{
}

/// An entry's prompt is its text before its prompt before its command's; its steps are
/// those to decode before the new tokens, stated before given on its command; its output
/// is the first of the four names that it has.
pub proof fn entries_prefer_what_they_state(case: JsonModel, name: Seq<char>)
    ensures
        text_at(case, "prompt_text"@) matches Some(t) ==> manifest_prompt(case) == nonempty(Some(t)),
        text_at(case, "prompt_text"@) is None ==> (text_at(case, "prompt"@) matches Some(t)
            ==> manifest_prompt(case) == nonempty(Some(t))),
        text_at(case, "prompt_text"@) is None && text_at(case, "prompt"@) is None
            ==> manifest_prompt(case) == nonempty(
            flag_argument(command_of(case), "--prompt-text"@),
        ),
        manifest_steps(case, name) is Ok && at(case, "decode_steps"@) is Some ==> natural_at(
            case,
            "decode_steps"@,
        ) is Some && manifest_steps(case, name)->Ok_0 == Some(
            natural_at(case, "decode_steps"@)->0 as usize,
        ),
        manifest_steps(case, name) is Ok && at(case, "decode_steps"@) is None && at(
            case,
            "max_new_tokens"@,
        ) is Some ==> natural_at(case, "max_new_tokens"@) is Some && manifest_steps(
            case,
            name,
        )->Ok_0 == Some(natural_at(case, "max_new_tokens"@)->0 as usize),
        at(case, "decode_steps"@) is None && at(case, "max_new_tokens"@) is None ==> manifest_steps(
            case,
            name,
        ) == Ok::<Option<usize>, Seq<char>>(
            match flag_count(command_of(case), "--decode-steps"@) {
                Some(n) => Some(n),
                None => flag_count(command_of(case), "--max-new-tokens"@),
            },
        ),
        text_at(case, "output"@) matches Some(t) ==> manifest_output(case) == nonempty(Some(t)),
        text_at(case, "output"@) is None ==> (text_at(case, "reference"@) matches Some(t)
            ==> manifest_output(case) == nonempty(Some(t))),
        text_at(case, "output"@) is None && text_at(case, "reference"@) is None ==> (text_at(
            case,
            "reference_path"@,
        ) matches Some(t) ==> manifest_output(case) == nonempty(Some(t))),
        text_at(case, "output"@) is None && text_at(case, "reference"@) is None && text_at(
            case,
            "reference_path"@,
        ) is None ==> manifest_output(case) == nonempty(text_at(case, "path"@)),
{
}

/// A case of a manifest has a name, a prompt, at least one step and a reference, each
/// its entry's own; the rest is the entry's before the command line's.
pub proof fn entries_are_whole_cases(
    dir: Seq<char>,
    manifest: JsonModel,
    args: CliModel,
    case: JsonModel,
    i: int,
)
    requires
        manifest_case(dir, manifest, args, case, i) is Ok,
    ensures
        ({
            let c = manifest_case(dir, manifest, args, case, i)->Ok_0;
            &&& text_at(case, "name"@) == Some(c.name) && c.name.len() > 0
            &&& manifest_prompt(case) == Some(c.prompt) && c.prompt.len() > 0
            &&& manifest_steps(case, c.name) == Ok::<Option<usize>, Seq<char>>(
                Some(c.max_new_tokens),
            )
            &&& c.max_new_tokens > 0
            &&& manifest_output(case) is Some
            &&& c.hf_reference == Some(reference_path(dir, manifest, manifest_output(case)->0))
            &&& at(case, "no_bos"@) is Some ==> bool_at(case, "no_bos"@) == Some(c.no_bos)
            &&& at(case, "no_bos"@) is None ==> c.no_bos == args.no_bos
            &&& at(case, "max_total_tokens"@) is Some ==> c.max_total_tokens is Some && natural_at(
                case,
                "max_total_tokens"@,
            ) == Some(c.max_total_tokens->0 as u64)
            &&& at(case, "max_total_tokens"@) is None ==> c.max_total_tokens
                == args.max_total_tokens
        }),
{
}

proof fn manifest_read_from(
    dir: Seq<char>,
    manifest: JsonModel,
    args: CliModel,
    items: Seq<JsonModel>,
    i: int,
    cases: Seq<CaseModel>,
)
    requires
        0 <= i <= items.len(),
        cases.len() == i,
        manifest_cases_from(dir, manifest, args, items, i, cases) is Ok,
    ensures
        ({
            let all = manifest_cases_from(dir, manifest, args, items, i, cases)->Ok_0;
            &&& all.len() == items.len()
            &&& forall|k: int| 0 <= k < i ==> all[k] == cases[k]
            &&& forall|k: int|
                i <= k < items.len() ==> manifest_case(dir, manifest, args, #[trigger] items[k], k)
                    == Ok::<CaseModel, Seq<char>>(all[k])
        }),
    decreases items.len() - i,
{
    if i < items.len() {
        let case = manifest_case(dir, manifest, args, items[i], i)->Ok_0;
        let more = cases.push(case);
        manifest_read_from(dir, manifest, args, items, i + 1, more);
        let all = manifest_cases_from(dir, manifest, args, items, i, cases)->Ok_0;
        assert(more[i] == case);
        assert forall|k: int| 0 <= k < i implies all[k] == cases[k] by {
            assert(more[k] == cases[k]);
        }
    }
}

/// A manifest's cases are its entries, in order.
pub proof fn manifests_hold_every_entry(
    dir: Seq<char>,
    args: CliModel,
    manifest: JsonModel,
    k: int,
)
    requires
        manifest_cases(dir, args, manifest) is Ok,
    ensures
        text_at(manifest, "schema"@) == Some("rvllm.gemma4_e2b_hf_text_reference_suite.v1"@),
        array_at(manifest, "cases"@) is Some,
        ({
            let items = array_at(manifest, "cases"@)->0;
            let cases = manifest_cases(dir, args, manifest)->Ok_0;
            &&& cases.len() == items.len() && cases.len() > 0
            &&& 0 <= k < cases.len() ==> manifest_case(dir, manifest, args, items[k], k) == Ok::<
                CaseModel,
                Seq<char>,
            >(cases[k])
        }),
{
    let items = array_at(manifest, "cases"@)->0;
    manifest_read_from(dir, manifest, args, items, 0, Seq::empty());
    if 0 <= k < items.len() {
        let _ = items[k];
    }
}

/// A prepared case has room for its prompt and its new tokens together.
pub proof fn prepared_cases_have_room(
    case: CaseModel,
    prompt: usize,
    current: EnvValue,
    legacy: EnvValue,
)
    requires
        prepared_limit(case, prompt, current, legacy) is Ok,
    ensures
        prompt + case.max_new_tokens <= prepared_limit(case, prompt, current, legacy)->Ok_0,
        prepared_limit(case, prompt, current, legacy) == effective_limit(
            case.max_total_tokens,
            (prompt + case.max_new_tokens) as usize,
            current,
            legacy,
        ),
{
}

} // verus!
