//! Verification of Metal artifact evidence: a report of exactly the expected
//! fields, whose artifacts are what their digests say, and whose claims go no
//! further than what was captured.
use crate::hash::{sha256_hex, sha256_text};
use crate::json::{
    array_at, as_integer, as_text, at, encode, integer_of, is_null, json_encoding, json_model,
    member, member_array, member_natural, member_text, models, natural_at, object_keys, text_at,
    text_of, JsonModel,
};
use crate::metal_infer::cases::str_told;
use crate::order::{listing, listing_of_ascending, set_text, show_set, sorted_texts, strs};
use crate::text::{
    cat2, cat3, cat4, cat5, decimal, decimal_text, digest_shaped, is_digest, lower_text, lowered,
    same, texts, told,
};
use vstd::prelude::*;

verus! {

/// The first fault of two checks in order.
pub open spec fn first_of(a: Result<(), Seq<char>>, b: Result<(), Seq<char>>) -> Result<
    (),
    Seq<char>,
> {
    match a {
        Err(message) => Err(message),
        Ok(_) => b,
    }
}

pub open spec fn require(condition: bool, message: Seq<char>) -> Result<(), Seq<char>> {
    if condition {
        Ok(())
    } else {
        Err(message)
    }
}

// ---------------------------------------------------------------------------
// Fields
// ---------------------------------------------------------------------------

/// An object with exactly the expected fields.
pub open spec fn keys_outcome(value: JsonModel, expected: Seq<Seq<char>>, label: Seq<char>) -> Result<
    (),
    Seq<char>,
> {
    match value {
        JsonModel::Object(members) => require(
            members.dom() == expected.to_set(),
            label + " fields differ: expected "@ + set_text(listing(expected.to_set())) + ", got "@
                + set_text(listing(members.dom())),
        ),
        _ => Err(label + " must be an object"@),
    }
}

fn includes_all(list: &Vec<String>, of: &Vec<String>) -> (r: bool)
    ensures
        r == forall|i: int|
            0 <= i < of@.len() ==> texts(list@).contains((#[trigger] of@[i])@),
{
    let mut i: usize = 0;
    while i < of.len()
        invariant
            i <= of@.len(),
            forall|j: int| 0 <= j < i ==> texts(list@).contains((#[trigger] of@[j])@),
        decreases of@.len() - i,
    {
        if !crate::text::lists(list, of[i].as_str()) {
            proof {
                if texts(list@).contains(of@[i as int]@) {
                    let k = choose|k: int|
                        0 <= k < list@.len() && texts(list@)[k] == of@[i as int]@;
                    assert(list@[k]@ == of@[i as int]@);
                }
            }
            return false;
        }
        proof {
            let k = choose|k: int| 0 <= k < list@.len() && (#[trigger] list@[k])@ == of@[i as int]@;
            assert(texts(list@)[k] == of@[i as int]@);
        }
        i = i + 1;
    }
    true
}

/// Checks that a document is an object with exactly the expected fields.
pub fn exact_keys(value: &serde_json::Value, expected: &[&str], label: &str) -> (r: Result<
    (),
    String,
>)
    ensures
        told(r) == keys_outcome(json_model(*value), strs(expected@), label@),
{
    let actual = match object_keys(value) {
        Some(keys) => keys,
        None => {
            return Err(cat2(label, " must be an object"));
        },
    };
    let wanted = sorted_texts(expected);
    let same_fields = includes_all(&wanted, &actual) && includes_all(&actual, &wanted);
    proof {
        let a = texts(actual@);
        let w = texts(wanted@);
        listing_of_ascending(a);
        let d = json_model(*value)->Object_0.dom();
        assert(a.to_set() == d);
        if same_fields {
            assert forall|t: Seq<char>| d.contains(t) == w.to_set().contains(t) by {
                if a.contains(t) {
                    let k = choose|k: int| 0 <= k < a.len() && a[k] == t;
                    assert(texts(wanted@).contains(actual@[k]@));
                }
                if w.contains(t) {
                    let k = choose|k: int| 0 <= k < w.len() && w[k] == t;
                    assert(texts(actual@).contains(wanted@[k]@));
                }
                assert(d.contains(t) == a.contains(t));
            }
            assert(d =~= w.to_set());
        } else if d == w.to_set() {
            assert forall|i: int| 0 <= i < actual@.len() implies texts(wanted@).contains(
                (#[trigger] actual@[i])@,
            ) by {
                assert(a[i] == actual@[i]@);
                assert(a.to_set().contains(a[i]));
                assert(w.to_set().contains(a[i]));
            }
            assert forall|i: int| 0 <= i < wanted@.len() implies texts(actual@).contains(
                (#[trigger] wanted@[i])@,
            ) by {
                assert(w[i] == wanted@[i]@);
                assert(w.to_set().contains(w[i]));
                assert(a.to_set().contains(w[i]));
            }
        }
    }
    if same_fields {
        Ok(())
    } else {
        let left = show_set(&wanted);
        let right = show_set(&actual);
        Err(cat5(label, " fields differ: expected ", left.as_str(), ", got ", right.as_str()))
    }
}

pub open spec fn string_outcome(value: JsonModel, key: Seq<char>) -> Result<Seq<char>, Seq<char>> {
    match text_at(value, key) {
        Some(text) => Ok(text),
        None => Err(key + " must be a string"@),
    }
}

pub fn string<'a>(value: &'a serde_json::Value, key: &str) -> (r: Result<&'a str, String>)
    ensures
        str_told(r) == string_outcome(json_model(*value), key@),
{
    match member_text(value, key) {
        Some(text) => Ok(text),
        None => Err(cat2(key, " must be a string")),
    }
}

pub open spec fn digest_outcome(value: Seq<char>, label: Seq<char>) -> Result<(), Seq<char>> {
    require(is_digest(value), label + " is not a SHA-256 digest"@)
}

/// A SHA-256 digest is 64 hexadecimal digits, in either case.
pub fn digest(value: &str, label: &str) -> (r: Result<(), String>)
    ensures
        told(r) == digest_outcome(value@, label@),
{
    if digest_shaped(value) {
        Ok(())
    } else {
        Err(cat2(label, " is not a SHA-256 digest"))
    }
}

// ---------------------------------------------------------------------------
// Artifacts
// ---------------------------------------------------------------------------

/// A file as it was read, or the error of reading it.
#[derive(Debug)]
pub struct ReadFile {
    pub path: String,
    pub content: Result<Vec<u8>, String>,
}

pub open spec fn content_of(file: ReadFile) -> Result<Seq<u8>, Seq<char>> {
    match file.content {
        Ok(bytes) => Ok(bytes@),
        Err(e) => Err(e@),
    }
}

/// What a path holds; one that was not read counts as unreadable.
pub open spec fn file_at(files: Seq<ReadFile>, path: Seq<char>, i: int) -> Result<
    Seq<u8>,
    Seq<char>,
>
    decreases files.len() - i,
{
    if i >= files.len() {
        Err("not read"@)
    } else if files[i].path@ == path {
        content_of(files[i])
    } else {
        file_at(files, path, i + 1)
    }
}

fn find_file(files: &Vec<ReadFile>, path: &str) -> (r: Option<usize>)
    ensures
        match r {
            Some(i) => i < files@.len() && file_at(files@, path@, 0) == content_of(
                files@[i as int],
            ),
            None => file_at(files@, path@, 0) == Err::<Seq<u8>, Seq<char>>("not read"@),
        },
{
    let mut i: usize = 0;
    while i < files.len()
        invariant
            i <= files@.len(),
            file_at(files@, path@, 0) == file_at(files@, path@, i as int),
        decreases files@.len() - i,
    {
        if same(files[i].path.as_str(), path) {
            return Some(i);
        }
        i = i + 1;
    }
    None
}

/// An artifact is the file of its path, length and digest.
pub open spec fn artifact_outcome(files: Seq<ReadFile>, value: JsonModel, label: Seq<char>) -> Result<
    (),
    Seq<char>,
> {
    match keys_outcome(value, seq!["bytes"@, "path"@, "sha256"@], label) {
        Err(message) => Err(message),
        Ok(_) => match string_outcome(value, "path"@) {
            Err(message) => Err(message),
            Ok(path) => match natural_at(value, "bytes"@) {
                None => Err(label + ".bytes must be a nonnegative integer"@),
                Some(len) => match string_outcome(value, "sha256"@) {
                    Err(message) => Err(message),
                    Ok(stated) => match digest_outcome(stated, label + ".sha256"@) {
                        Err(message) => Err(message),
                        Ok(_) => match file_at(files, path, 0) {
                            Err(message) => Err("read "@ + path + ": "@ + message),
                            Ok(content) => if content.len() != len {
                                Err(label + " byte length does not match"@)
                            } else {
                                require(
                                    sha256_hex(content) == lowered(stated),
                                    label + " SHA-256 does not match"@,
                                )
                            },
                        },
                    },
                },
            },
        },
    }
}

pub fn verify_artifact(files: &Vec<ReadFile>, value: &serde_json::Value, label: &str) -> (r: Result<
    (),
    String,
>)
    ensures
        told(r) == artifact_outcome(files@, json_model(*value), label@),
{
    let fields: [&str; 3] = ["bytes", "path", "sha256"];
    proof {
        assert(strs(fields@) =~= seq!["bytes"@, "path"@, "sha256"@]);
    }
    match exact_keys(value, fields.as_slice(), label) {
        Ok(_) => {},
        Err(message) => {
            return Err(message);
        },
    }
    let path = match string(value, "path") {
        Ok(path) => path,
        Err(message) => {
            return Err(message);
        },
    };
    let len: u64 = match member_natural(value, "bytes") {
        Some(len) => len,
        None => {
            return Err(cat2(label, ".bytes must be a nonnegative integer"));
        },
    };
    let stated = match string(value, "sha256") {
        Ok(text) => text,
        Err(message) => {
            return Err(message);
        },
    };
    let digest_label = cat2(label, ".sha256");
    match digest(stated, digest_label.as_str()) {
        Ok(_) => {},
        Err(message) => {
            return Err(message);
        },
    }
    let found: usize = match find_file(files, path) {
        Some(i) => i,
        None => {
            return Err(cat4("read ", path, ": ", "not read"));
        },
    };
    match &files[found].content {
        Err(error) => Err(cat4("read ", path, ": ", error.as_str())),
        Ok(bytes) => {
            if bytes.len() as u64 != len {
                return Err(cat2(label, " byte length does not match"));
            }
            let actual = sha256_text(bytes.as_slice());
            let wanted = lower_text(stated);
            if !same(actual.as_str(), wanted.as_str()) {
                return Err(cat2(label, " SHA-256 does not match"));
            }
            Ok(())
        },
    }
}

/// The status of a capture agrees with its exit code.
pub open spec fn capture_status_outcome(value: JsonModel, label: Seq<char>) -> Result<
    (),
    Seq<char>,
> {
    match string_outcome(value, "status"@) {
        Err(message) => Err(message),
        Ok(status) => if status != "captured"@ && status != "unavailable"@ {
            Err(label + ".status is invalid"@)
        } else {
            match at(value, "exit_code"@) {
                None => Err(label + ".exit_code is missing"@),
                Some(exit) => if !(exit is Null) && integer_of(exit) is None {
                    Err(label + ".exit_code must be an integer or null"@)
                } else {
                    require(
                        (status == "captured"@) == (integer_of(exit) == Some(0i64)),
                        label + " status disagrees with its exit code"@,
                    )
                },
            }
        },
    }
}

/// A capture: an artifact with a status.
pub open spec fn capture_outcome(files: Seq<ReadFile>, value: JsonModel, label: Seq<char>) -> Result<
    (),
    Seq<char>,
> {
    first_of(
        keys_outcome(value, seq!["artifact"@, "exit_code"@, "status"@], label),
        first_of(
            capture_status_outcome(value, label),
            artifact_outcome(files, at(value, "artifact"@)->0, label + ".artifact"@),
        ),
    )
}

pub fn verify_capture(files: &Vec<ReadFile>, value: &serde_json::Value, label: &str) -> (r: Result<
    (),
    String,
>)
    ensures
        told(r) == capture_outcome(files@, json_model(*value), label@),
{
    let fields: [&str; 3] = ["artifact", "exit_code", "status"];
    proof {
        assert(strs(fields@) =~= seq!["artifact"@, "exit_code"@, "status"@]);
    }
    match exact_keys(value, fields.as_slice(), label) {
        Ok(_) => {},
        Err(message) => {
            return Err(message);
        },
    }
    let status = match string(value, "status") {
        Ok(text) => text,
        Err(message) => {
            return Err(message);
        },
    };
    let captured = same(status, "captured");
    if !captured && !same(status, "unavailable") {
        return Err(cat2(label, ".status is invalid"));
    }
    let exit = match member(value, "exit_code") {
        Some(exit) => exit,
        None => {
            return Err(cat2(label, ".exit_code is missing"));
        },
    };
    let code = as_integer(exit);
    if !is_null(exit) && code.is_none() {
        return Err(cat2(label, ".exit_code must be an integer or null"));
    }
    let clean = match code {
        Some(n) => n == 0,
        None => false,
    };
    if captured != clean {
        return Err(cat2(label, " status disagrees with its exit code"));
    }
    let artifact_label = cat2(label, ".artifact");
    match member(value, "artifact") {
        Some(artifact) => verify_artifact(files, artifact, artifact_label.as_str()),
        None => {
            proof {
                let expected = seq!["artifact"@, "exit_code"@, "status"@];
                assert(expected[0] == "artifact"@);
                assert(expected.to_set().contains("artifact"@));
            }
            Ok(())
        },
    }
}

// ---------------------------------------------------------------------------
// Parts of the report
// ---------------------------------------------------------------------------

/// The member of an object that has it.
pub open spec fn field(value: JsonModel, key: Seq<char>) -> JsonModel {
    at(value, key)->0
}

fn field_of<'a>(value: &'a serde_json::Value, key: &str) -> (r: &'a serde_json::Value)
    requires
        at(json_model(*value), key@) is Some,
    ensures
        json_model(*r) == field(json_model(*value), key@),
{
    match member(value, key) {
        Some(found) => found,
        None => value,
    }
}

/// A text of an object that must not be empty.
pub open spec fn nonempty_outcome(value: JsonModel, key: Seq<char>, message: Seq<char>) -> Result<
    (),
    Seq<char>,
> {
    match string_outcome(value, key) {
        Err(error) => Err(error),
        Ok(text) => require(text.len() > 0, message),
    }
}

fn require_nonempty(value: &serde_json::Value, key: &str, message: &str) -> (r: Result<(), String>)
    ensures
        told(r) == nonempty_outcome(json_model(*value), key@, message@),
{
    match string(value, key) {
        Err(error) => Err(error),
        Ok(text) => {
            if text.is_empty() {
                return Err(message.to_owned());
            }
            Ok(())
        },
    }
}

pub open spec fn tool_outcome(files: Seq<ReadFile>, toolchain: JsonModel, key: Seq<char>) -> Result<
    (),
    Seq<char>,
> {
    let label = "toolchain."@ + key;
    let tool = field(toolchain, key);
    first_of(
        keys_outcome(tool, seq!["identity"@, "version"@], label),
        first_of(
            artifact_outcome(files, field(tool, "identity"@), label + ".identity"@),
            nonempty_outcome(tool, "version"@, label + ".version is empty"@),
        ),
    )
}

proof fn key_is_present(value: JsonModel, expected: Seq<Seq<char>>, label: Seq<char>, i: int)
    requires
        keys_outcome(value, expected, label) is Ok,
        0 <= i < expected.len(),
    ensures
        at(value, expected[i]) is Some,
{
    assert(expected.to_set().contains(expected[i]));
}

fn verify_tool(files: &Vec<ReadFile>, toolchain: &serde_json::Value, key: &str) -> (r: Result<
    (),
    String,
>)
    requires
        at(json_model(*toolchain), key@) is Some,
    ensures
        told(r) == tool_outcome(files@, json_model(*toolchain), key@),
{
    let tool = field_of(toolchain, key);
    let label = cat2("toolchain.", key);
    let fields: [&str; 2] = ["identity", "version"];
    proof {
        assert(strs(fields@) =~= seq!["identity"@, "version"@]);
    }
    match exact_keys(tool, fields.as_slice(), label.as_str()) {
        Ok(_) => {},
        Err(message) => {
            return Err(message);
        },
    }
    proof {
        key_is_present(json_model(*tool), seq!["identity"@, "version"@], label@, 0);
    }
    let identity_label = cat2(label.as_str(), ".identity");
    match verify_artifact(files, field_of(tool, "identity"), identity_label.as_str()) {
        Ok(_) => {},
        Err(message) => {
            return Err(message);
        },
    }
    let version_error = cat2(label.as_str(), ".version is empty");
    require_nonempty(tool, "version", version_error.as_str())
}

pub open spec fn all_strings(items: Seq<JsonModel>) -> bool {
    forall|i: int| 0 <= i < items.len() ==> text_of(#[trigger] items[i]) is Some
}

pub open spec fn argv_outcome(toolchain: JsonModel, key: Seq<char>) -> Result<(), Seq<char>> {
    match array_at(toolchain, key) {
        None => Err("toolchain."@ + key + " must be an array"@),
        Some(items) => require(
            items.len() > 0 && all_strings(items),
            "toolchain."@ + key + " must contain strings"@,
        ),
    }
}

fn verify_argv(toolchain: &serde_json::Value, key: &str) -> (r: Result<(), String>)
    ensures
        told(r) == argv_outcome(json_model(*toolchain), key@),
{
    let items = match member_array(toolchain, key) {
        Some(items) => items,
        None => {
            return Err(cat3("toolchain.", key, " must be an array"));
        },
    };
    let ghost all = models(items@);
    let mut i: usize = 0;
    while i < items.len()
        invariant
            i <= items@.len(),
            all == models(items@),
            array_at(json_model(*toolchain), key@) == Some(all),
            forall|j: int| 0 <= j < i ==> text_of(#[trigger] all[j]) is Some,
        decreases items@.len() - i,
    {
        assert(all[i as int] == json_model(items@[i as int]));
        if as_text(&items[i]).is_none() {
            assert(!all_strings(all)) by {
                assert(text_of(all[i as int]) is None);
            }
            return Err(cat3("toolchain.", key, " must contain strings"));
        }
        i = i + 1;
    }
    if items.len() == 0 {
        return Err(cat3("toolchain.", key, " must contain strings"));
    }
    Ok(())
}

pub open spec fn toolchain_keys() -> Seq<Seq<char>> {
    seq![
        "compile_argv"@,
        "compile_capture"@,
        "link_argv"@,
        "link_capture"@,
        "metal"@,
        "metal_objdump"@,
        "metallib"@,
        "sdk_path"@,
        "sdk_version"@,
    ]
}

pub open spec fn toolchain_outcome(files: Seq<ReadFile>, toolchain: JsonModel) -> Result<
    (),
    Seq<char>,
> {
    first_of(
        keys_outcome(toolchain, toolchain_keys(), "toolchain"@),
        first_of(
            tool_outcome(files, toolchain, "metal"@),
            first_of(
                tool_outcome(files, toolchain, "metallib"@),
                first_of(
                    tool_outcome(files, toolchain, "metal_objdump"@),
                    first_of(
                        argv_outcome(toolchain, "compile_argv"@),
                        first_of(
                            argv_outcome(toolchain, "link_argv"@),
                            first_of(
                                nonempty_outcome(
                                    toolchain,
                                    "sdk_path"@,
                                    "toolchain.sdk_path is empty"@,
                                ),
                                first_of(
                                    nonempty_outcome(
                                        toolchain,
                                        "sdk_version"@,
                                        "toolchain.sdk_version is empty"@,
                                    ),
                                    first_of(
                                        capture_outcome(
                                            files,
                                            field(toolchain, "compile_capture"@),
                                            "toolchain.compile_capture"@,
                                        ),
                                        capture_outcome(
                                            files,
                                            field(toolchain, "link_capture"@),
                                            "toolchain.link_capture"@,
                                        ),
                                    ),
                                ),
                            ),
                        ),
                    ),
                ),
            ),
        ),
    )
}

fn verify_toolchain(files: &Vec<ReadFile>, toolchain: &serde_json::Value) -> (r: Result<
    (),
    String,
>)
    ensures
        told(r) == toolchain_outcome(files@, json_model(*toolchain)),
{
    let fields: [&str; 9] = [
        "compile_argv",
        "compile_capture",
        "link_argv",
        "link_capture",
        "metal",
        "metal_objdump",
        "metallib",
        "sdk_path",
        "sdk_version",
    ];
    proof {
        assert(strs(fields@) =~= toolchain_keys());
    }
    match exact_keys(toolchain, fields.as_slice(), "toolchain") {
        Ok(_) => {},
        Err(message) => {
            return Err(message);
        },
    }
    proof {
        let m = json_model(*toolchain);
        let k = toolchain_keys();
        key_is_present(m, k, "toolchain"@, 1);
        key_is_present(m, k, "toolchain"@, 3);
        key_is_present(m, k, "toolchain"@, 4);
        key_is_present(m, k, "toolchain"@, 5);
        key_is_present(m, k, "toolchain"@, 6);
    }
    match verify_tool(files, toolchain, "metal") {
        Ok(_) => {},
        Err(message) => {
            return Err(message);
        },
    }
    match verify_tool(files, toolchain, "metallib") {
        Ok(_) => {},
        Err(message) => {
            return Err(message);
        },
    }
    match verify_tool(files, toolchain, "metal_objdump") {
        Ok(_) => {},
        Err(message) => {
            return Err(message);
        },
    }
    match verify_argv(toolchain, "compile_argv") {
        Ok(_) => {},
        Err(message) => {
            return Err(message);
        },
    }
    match verify_argv(toolchain, "link_argv") {
        Ok(_) => {},
        Err(message) => {
            return Err(message);
        },
    }
    match require_nonempty(toolchain, "sdk_path", "toolchain.sdk_path is empty") {
        Ok(_) => {},
        Err(message) => {
            return Err(message);
        },
    }
    match require_nonempty(toolchain, "sdk_version", "toolchain.sdk_version is empty") {
        Ok(_) => {},
        Err(message) => {
            return Err(message);
        },
    }
    match verify_capture(
        files,
        field_of(toolchain, "compile_capture"),
        "toolchain.compile_capture",
    ) {
        Ok(_) => {},
        Err(message) => {
            return Err(message);
        },
    }
    verify_capture(files, field_of(toolchain, "link_capture"), "toolchain.link_capture")
}

/// The device's digest is that of its public properties.
pub open spec fn device_outcome(device: JsonModel) -> Result<(), Seq<char>> {
    match keys_outcome(device, seq!["identity_sha256"@, "public_properties"@], "device"@) {
        Err(message) => Err(message),
        Ok(_) => match string_outcome(device, "identity_sha256"@) {
            Err(message) => Err(message),
            Ok(stated) => first_of(
                digest_outcome(stated, "device.identity_sha256"@),
                require(
                    sha256_hex(json_encoding(field(device, "public_properties"@))) == lowered(
                        stated,
                    ),
                    "device identity does not match its public properties"@,
                ),
            ),
        },
    }
}

fn verify_device(device: &serde_json::Value) -> (r: Result<(), String>)
    ensures
        told(r) == device_outcome(json_model(*device)),
{
    let fields: [&str; 2] = ["identity_sha256", "public_properties"];
    proof {
        assert(strs(fields@) =~= seq!["identity_sha256"@, "public_properties"@]);
    }
    match exact_keys(device, fields.as_slice(), "device") {
        Ok(_) => {},
        Err(message) => {
            return Err(message);
        },
    }
    proof {
        key_is_present(
            json_model(*device),
            seq!["identity_sha256"@, "public_properties"@],
            "device"@,
            1,
        );
    }
    let stated = match string(device, "identity_sha256") {
        Ok(text) => text,
        Err(message) => {
            return Err(message);
        },
    };
    match digest(stated, "device.identity_sha256") {
        Ok(_) => {},
        Err(message) => {
            return Err(message);
        },
    }
    let canonical = encode(field_of(device, "public_properties"));
    let actual = sha256_text(canonical.as_slice());
    let wanted = lower_text(stated);
    if !same(actual.as_str(), wanted.as_str()) {
        return Err("device identity does not match its public properties".to_owned());
    }
    Ok(())
}

pub open spec fn resource_keys() -> Seq<Seq<char>> {
    seq![
        "kernel"@,
        "max_total_threads_per_threadgroup"@,
        "provenance"@,
        "static_threadgroup_memory_bytes"@,
        "thread_execution_width"@,
    ]
}

/// A positive integer member.
pub open spec fn positive_at(value: JsonModel, key: Seq<char>) -> bool {
    match natural_at(value, key) {
        Some(n) => n > 0,
        None => false,
    }
}

/// The resources of one pipeline, after the kernels of others.
pub open spec fn resource_outcome(resource: JsonModel, index: int, kernels: Seq<Seq<char>>) -> Result<
    Seq<char>,
    Seq<char>,
> {
    let label = "pipeline_resources["@ + decimal(index as nat) + "]"@;
    match keys_outcome(resource, resource_keys(), label) {
        Err(message) => Err(message),
        Ok(_) => match string_outcome(resource, "kernel"@) {
            Err(message) => Err(message),
            Ok(kernel) => if kernel.len() == 0 || kernels.contains(kernel) {
                Err("pipeline kernel names must be nonempty and unique"@)
            } else if !positive_at(resource, "thread_execution_width"@) {
                Err("pipeline "@ + kernel + " has invalid "@ + "thread_execution_width"@)
            } else if !positive_at(resource, "max_total_threads_per_threadgroup"@) {
                Err("pipeline "@ + kernel + " has invalid "@ + "max_total_threads_per_threadgroup"@)
            } else if natural_at(resource, "static_threadgroup_memory_bytes"@) is None {
                Err("pipeline "@ + kernel + " has invalid static memory"@)
            } else {
                match string_outcome(resource, "provenance"@) {
                    Err(message) => Err(message),
                    Ok(provenance) => if provenance
                        != "public MTLComputePipelineState getters on the sealed metallib"@ {
                        Err("pipeline "@ + kernel + " has unknown provenance"@)
                    } else {
                        Ok(kernel)
                    },
                }
            },
        },
    }
}

fn has_positive(value: &serde_json::Value, key: &str) -> (r: bool)
    ensures
        r == positive_at(json_model(*value), key@),
{
    match member_natural(value, key) {
        Some(n) => n > 0,
        None => false,
    }
}

fn verify_resource(resource: &serde_json::Value, index: usize, kernels: &Vec<String>) -> (r: Result<
    String,
    String,
>)
    ensures
        match (resource_outcome(json_model(*resource), index as int, texts(kernels@)), r) {
            (Ok(kernel), Ok(k)) => k@ == kernel,
            (Err(message), Err(e)) => e@ == message,
            _ => false,
        },
{
    let number = decimal_text(index as u64);
    let label = cat3("pipeline_resources[", number.as_str(), "]");
    let fields: [&str; 5] = [
        "kernel",
        "max_total_threads_per_threadgroup",
        "provenance",
        "static_threadgroup_memory_bytes",
        "thread_execution_width",
    ];
    proof {
        assert(strs(fields@) =~= resource_keys());
    }
    match exact_keys(resource, fields.as_slice(), label.as_str()) {
        Ok(_) => {},
        Err(message) => {
            return Err(message);
        },
    }
    let kernel = match string(resource, "kernel") {
        Ok(text) => text,
        Err(message) => {
            return Err(message);
        },
    };
    let taken = crate::text::lists(kernels, kernel);
    proof {
        if taken {
            let k = choose|k: int| 0 <= k < kernels@.len() && (#[trigger] kernels@[k])@ == kernel@;
            assert(texts(kernels@)[k] == kernel@);
        } else if texts(kernels@).contains(kernel@) {
            let k = choose|k: int| 0 <= k < kernels@.len() && texts(kernels@)[k] == kernel@;
            assert(kernels@[k]@ == kernel@);
        }
    }
    if kernel.is_empty() || taken {
        return Err("pipeline kernel names must be nonempty and unique".to_owned());
    }
    if !has_positive(resource, "thread_execution_width") {
        return Err(cat4("pipeline ", kernel, " has invalid ", "thread_execution_width"));
    }
    if !has_positive(resource, "max_total_threads_per_threadgroup") {
        return Err(
            cat4("pipeline ", kernel, " has invalid ", "max_total_threads_per_threadgroup"),
        );
    }
    if member_natural(resource, "static_threadgroup_memory_bytes").is_none() {
        return Err(cat3("pipeline ", kernel, " has invalid static memory"));
    }
    match string(resource, "provenance") {
        Err(message) => Err(message),
        Ok(provenance) => {
            if !same(
                provenance,
                "public MTLComputePipelineState getters on the sealed metallib",
            ) {
                return Err(cat3("pipeline ", kernel, " has unknown provenance"));
            }
            Ok(kernel.to_owned())
        },
    }
}

/// The resources of the pipelines from `i` on, after the kernels already seen.
pub open spec fn resources_from(items: Seq<JsonModel>, i: int, kernels: Seq<Seq<char>>) -> Result<
    (),
    Seq<char>,
>
    decreases items.len() - i,
{
    if i >= items.len() {
        Ok(())
    } else {
        match resource_outcome(items[i], i, kernels) {
            Err(message) => Err(message),
            Ok(kernel) => resources_from(items, i + 1, kernels.push(kernel)),
        }
    }
}

pub open spec fn resources_outcome(report: JsonModel) -> Result<(), Seq<char>> {
    match array_at(report, "pipeline_resources"@) {
        None => Err("pipeline_resources must be an array"@),
        Some(items) => if items.len() == 0 {
            Err("pipeline_resources must not be empty"@)
        } else {
            resources_from(items, 0, Seq::empty())
        },
    }
}

fn verify_resources(report: &serde_json::Value) -> (r: Result<(), String>)
    ensures
        told(r) == resources_outcome(json_model(*report)),
{
    let items = match member_array(report, "pipeline_resources") {
        Some(items) => items,
        None => {
            return Err("pipeline_resources must be an array".to_owned());
        },
    };
    if items.len() == 0 {
        return Err("pipeline_resources must not be empty".to_owned());
    }
    let ghost all = models(items@);
    let mut kernels: Vec<String> = Vec::new();
    let mut i: usize = 0;
    assert(texts(kernels@) =~= Seq::empty());
    while i < items.len()
        invariant
            i <= items@.len(),
            all == models(items@),
            resources_outcome(json_model(*report)) == resources_from(
                all,
                i as int,
                texts(kernels@),
            ),
        decreases items@.len() - i,
    {
        assert(all[i as int] == json_model(items@[i as int]));
        match verify_resource(&items[i], i, &kernels) {
            Ok(kernel) => {
                let ghost before = kernels@;
                let ghost name = kernel@;
                kernels.push(kernel);
                assert(texts(kernels@) =~= texts(before).push(name));
            },
            Err(message) => {
                return Err(message);
            },
        }
        i = i + 1;
    }
    Ok(())
}

pub open spec fn compiler_outcome(files: Seq<ReadFile>, compiler: JsonModel) -> Result<
    (),
    Seq<char>,
> {
    first_of(
        keys_outcome(
            compiler,
            seq!["build_tables"@, "disassembly"@, "interpretation"@],
            "compiler_artifacts"@,
        ),
        first_of(
            capture_outcome(
                files,
                field(compiler, "build_tables"@),
                "compiler_artifacts.build_tables"@,
            ),
            capture_outcome(
                files,
                field(compiler, "disassembly"@),
                "compiler_artifacts.disassembly"@,
            ),
        ),
    )
}

fn verify_compiler(files: &Vec<ReadFile>, compiler: &serde_json::Value) -> (r: Result<(), String>)
    ensures
        told(r) == compiler_outcome(files@, json_model(*compiler)),
{
    let fields: [&str; 3] = ["build_tables", "disassembly", "interpretation"];
    let ghost wanted = seq!["build_tables"@, "disassembly"@, "interpretation"@];
    proof {
        assert(strs(fields@) =~= wanted);
    }
    match exact_keys(compiler, fields.as_slice(), "compiler_artifacts") {
        Ok(_) => {},
        Err(message) => {
            return Err(message);
        },
    }
    proof {
        key_is_present(json_model(*compiler), wanted, "compiler_artifacts"@, 0);
        key_is_present(json_model(*compiler), wanted, "compiler_artifacts"@, 1);
    }
    match verify_capture(
        files,
        field_of(compiler, "build_tables"),
        "compiler_artifacts.build_tables",
    ) {
        Ok(_) => {},
        Err(message) => {
            return Err(message);
        },
    }
    verify_capture(files, field_of(compiler, "disassembly"), "compiler_artifacts.disassembly")
}

/// A claim that fails closed: a fixed status and a reason.
pub open spec fn claim_outcome(claims: JsonModel, key: Seq<char>, status: Seq<char>) -> Result<
    (),
    Seq<char>,
> {
    let label = "claims."@ + key;
    let claim = field(claims, key);
    match keys_outcome(claim, seq!["reason"@, "status"@], label) {
        Err(message) => Err(message),
        Ok(_) => match string_outcome(claim, "status"@) {
            Err(message) => Err(message),
            Ok(found) => if found != status {
                Err(label + " is not fail-closed"@)
            } else {
                nonempty_outcome(claim, "reason"@, label + " is not fail-closed"@)
            },
        },
    }
}

fn verify_claim(claims: &serde_json::Value, key: &str, status: &str) -> (r: Result<(), String>)
    requires
        at(json_model(*claims), key@) is Some,
    ensures
        told(r) == claim_outcome(json_model(*claims), key@, status@),
{
    let claim = field_of(claims, key);
    let label = cat2("claims.", key);
    let error = cat2(label.as_str(), " is not fail-closed");
    let fields: [&str; 2] = ["reason", "status"];
    proof {
        assert(strs(fields@) =~= seq!["reason"@, "status"@]);
    }
    match exact_keys(claim, fields.as_slice(), label.as_str()) {
        Ok(_) => {},
        Err(message) => {
            return Err(message);
        },
    }
    let found = match string(claim, "status") {
        Ok(text) => text,
        Err(message) => {
            return Err(message);
        },
    };
    if !same(found, status) {
        return Err(error);
    }
    require_nonempty(claim, "reason", error.as_str())
}

pub open spec fn claims_keys() -> Seq<Seq<char>> {
    seq![
        "low_bit_unpack_machine_arithmetic"@,
        "occupancy"@,
        "register_count"@,
        "register_residency"@,
        "simd_matrix_machine_lowering"@,
    ]
}

pub open spec fn claims_outcome(claims: JsonModel) -> Result<(), Seq<char>> {
    first_of(
        keys_outcome(claims, claims_keys(), "claims"@),
        first_of(
            claim_outcome(claims, "register_count"@, "unavailable"@),
            first_of(
                claim_outcome(claims, "register_residency"@, "unavailable"@),
                first_of(
                    claim_outcome(claims, "occupancy"@, "unavailable"@),
                    first_of(
                        claim_outcome(claims, "simd_matrix_machine_lowering"@, "unverified"@),
                        claim_outcome(claims, "low_bit_unpack_machine_arithmetic"@, "unverified"@),
                    ),
                ),
            ),
        ),
    )
}

fn verify_claims(claims: &serde_json::Value) -> (r: Result<(), String>)
    ensures
        told(r) == claims_outcome(json_model(*claims)),
{
    let fields: [&str; 5] = [
        "low_bit_unpack_machine_arithmetic",
        "occupancy",
        "register_count",
        "register_residency",
        "simd_matrix_machine_lowering",
    ];
    proof {
        assert(strs(fields@) =~= claims_keys());
    }
    match exact_keys(claims, fields.as_slice(), "claims") {
        Ok(_) => {},
        Err(message) => {
            return Err(message);
        },
    }
    proof {
        let m = json_model(*claims);
        key_is_present(m, claims_keys(), "claims"@, 0);
        key_is_present(m, claims_keys(), "claims"@, 1);
        key_is_present(m, claims_keys(), "claims"@, 2);
        key_is_present(m, claims_keys(), "claims"@, 3);
        key_is_present(m, claims_keys(), "claims"@, 4);
    }
    match verify_claim(claims, "register_count", "unavailable") {
        Ok(_) => {},
        Err(message) => {
            return Err(message);
        },
    }
    match verify_claim(claims, "register_residency", "unavailable") {
        Ok(_) => {},
        Err(message) => {
            return Err(message);
        },
    }
    match verify_claim(claims, "occupancy", "unavailable") {
        Ok(_) => {},
        Err(message) => {
            return Err(message);
        },
    }
    match verify_claim(claims, "simd_matrix_machine_lowering", "unverified") {
        Ok(_) => {},
        Err(message) => {
            return Err(message);
        },
    }
    verify_claim(claims, "low_bit_unpack_machine_arithmetic", "unverified")
}

pub open spec fn report_keys() -> Seq<Seq<char>> {
    seq![
        "air"@,
        "claims"@,
        "collector"@,
        "compiler_artifacts"@,
        "device"@,
        "metallib"@,
        "pipeline_resources"@,
        "schema"@,
        "scope"@,
        "source"@,
        "status"@,
        "toolchain"@,
    ]
}

/// A captured report of this schema, confined to its scope.
pub open spec fn header_outcome(report: JsonModel) -> Result<(), Seq<char>> {
    match string_outcome(report, "schema"@) {
        Err(message) => Err(message),
        Ok(schema) => if schema != "rvllm.metal_artifact_evidence.v1"@ {
            Err("report schema/status is not a captured v1 artifact"@)
        } else {
            match string_outcome(report, "status"@) {
                Err(message) => Err(message),
                Ok(status) => if status != "captured"@ {
                    Err("report schema/status is not a captured v1 artifact"@)
                } else {
                    match string_outcome(report, "scope"@) {
                        Err(message) => Err(message),
                        Ok(scope) => require(
                            scope
                                == "rvLLM artifact evidence only; contains no MLX trace or performance claim"@,
                            "report scope is not the fail-closed rvLLM-only scope"@,
                        ),
                    }
                },
            }
        },
    }
}

fn verify_header(report: &serde_json::Value) -> (r: Result<(), String>)
    ensures
        told(r) == header_outcome(json_model(*report)),
{
    let schema = match string(report, "schema") {
        Ok(text) => text,
        Err(message) => {
            return Err(message);
        },
    };
    if !same(schema, "rvllm.metal_artifact_evidence.v1") {
        return Err("report schema/status is not a captured v1 artifact".to_owned());
    }
    let status = match string(report, "status") {
        Ok(text) => text,
        Err(message) => {
            return Err(message);
        },
    };
    if !same(status, "captured") {
        return Err("report schema/status is not a captured v1 artifact".to_owned());
    }
    let scope = match string(report, "scope") {
        Ok(text) => text,
        Err(message) => {
            return Err(message);
        },
    };
    if !same(scope, "rvLLM artifact evidence only; contains no MLX trace or performance claim") {
        return Err("report scope is not the fail-closed rvLLM-only scope".to_owned());
    }
    Ok(())
}

/// What a report's verification comes to, given the files it names.
pub open spec fn report_outcome(files: Seq<ReadFile>, report: JsonModel) -> Result<(), Seq<char>> {
    first_of(
        keys_outcome(report, report_keys(), "report"@),
        first_of(
            header_outcome(report),
            first_of(
                artifact_outcome(files, field(report, "source"@), "source"@),
                first_of(
                    artifact_outcome(files, field(report, "air"@), "air"@),
                    first_of(
                        artifact_outcome(files, field(report, "metallib"@), "metallib"@),
                        first_of(
                            artifact_outcome(files, field(report, "collector"@), "collector"@),
                            first_of(
                                toolchain_outcome(files, field(report, "toolchain"@)),
                                first_of(
                                    device_outcome(field(report, "device"@)),
                                    first_of(
                                        resources_outcome(report),
                                        first_of(
                                            compiler_outcome(
                                                files,
                                                field(report, "compiler_artifacts"@),
                                            ),
                                            claims_outcome(field(report, "claims"@)),
                                        ),
                                    ),
                                ),
                            ),
                        ),
                    ),
                ),
            ),
        ),
    )
}

/// Verifies a report, given the files that it names as they were read.
pub fn verify_report(files: &Vec<ReadFile>, report: &serde_json::Value) -> (r: Result<(), String>)
    ensures
        told(r) == report_outcome(files@, json_model(*report)),
{
    let fields: [&str; 12] = [
        "air",
        "claims",
        "collector",
        "compiler_artifacts",
        "device",
        "metallib",
        "pipeline_resources",
        "schema",
        "scope",
        "source",
        "status",
        "toolchain",
    ];
    proof {
        assert(strs(fields@) =~= report_keys());
    }
    match exact_keys(report, fields.as_slice(), "report") {
        Ok(_) => {},
        Err(message) => {
            return Err(message);
        },
    }
    proof {
        let m = json_model(*report);
        key_is_present(m, report_keys(), "report"@, 0);
        key_is_present(m, report_keys(), "report"@, 1);
        key_is_present(m, report_keys(), "report"@, 2);
        key_is_present(m, report_keys(), "report"@, 3);
        key_is_present(m, report_keys(), "report"@, 4);
        key_is_present(m, report_keys(), "report"@, 5);
        key_is_present(m, report_keys(), "report"@, 9);
        key_is_present(m, report_keys(), "report"@, 11);
    }
    match verify_header(report) {
        Ok(_) => {},
        Err(message) => {
            return Err(message);
        },
    }
    match verify_artifact(files, field_of(report, "source"), "source") {
        Ok(_) => {},
        Err(message) => {
            return Err(message);
        },
    }
    match verify_artifact(files, field_of(report, "air"), "air") {
        Ok(_) => {},
        Err(message) => {
            return Err(message);
        },
    }
    match verify_artifact(files, field_of(report, "metallib"), "metallib") {
        Ok(_) => {},
        Err(message) => {
            return Err(message);
        },
    }
    match verify_artifact(files, field_of(report, "collector"), "collector") {
        Ok(_) => {},
        Err(message) => {
            return Err(message);
        },
    }
    match verify_toolchain(files, field_of(report, "toolchain")) {
        Ok(_) => {},
        Err(message) => {
            return Err(message);
        },
    }
    match verify_device(field_of(report, "device")) {
        Ok(_) => {},
        Err(message) => {
            return Err(message);
        },
    }
    match verify_resources(report) {
        Ok(_) => {},
        Err(message) => {
            return Err(message);
        },
    }
    match verify_compiler(files, field_of(report, "compiler_artifacts")) {
        Ok(_) => {},
        Err(message) => {
            return Err(message);
        },
    }
    verify_claims(field_of(report, "claims"))
}

/// A verified artifact is bound to its file: the file was read, and its length
/// and digest are the stated ones.
pub proof fn verified_artifacts_are_bound(files: Seq<ReadFile>, value: JsonModel, label: Seq<char>)
    requires
        artifact_outcome(files, value, label) is Ok,
    ensures
        ({
            let path = text_at(value, "path"@);
            let stated = text_at(value, "sha256"@);
            &&& path is Some && stated is Some
            &&& is_digest(stated->0)
            &&& file_at(files, path->0, 0) is Ok
            &&& natural_at(value, "bytes"@) is Some
            &&& file_at(files, path->0, 0)->Ok_0.len() == natural_at(value, "bytes"@)->0
            &&& sha256_hex(file_at(files, path->0, 0)->Ok_0) == lowered(stated->0)
        }),
{
}

/// A verified report claims nothing of registers, occupancy or machine
/// lowering.
pub proof fn verified_reports_fail_closed(files: Seq<ReadFile>, report: JsonModel)
    requires
        report_outcome(files, report) is Ok,
    ensures
        ({
            let claims = field(report, "claims"@);
            &&& text_at(field(claims, "register_count"@), "status"@) == Some("unavailable"@)
            &&& text_at(field(claims, "register_residency"@), "status"@) == Some("unavailable"@)
            &&& text_at(field(claims, "occupancy"@), "status"@) == Some("unavailable"@)
            &&& text_at(field(claims, "simd_matrix_machine_lowering"@), "status"@) == Some(
                "unverified"@,
            )
            &&& text_at(field(claims, "low_bit_unpack_machine_arithmetic"@), "status"@) == Some(
                "unverified"@,
            )
        }),
{
}

/// The path of an artifact, where it has one.
pub open spec fn path_of(artifact: Option<JsonModel>) -> Seq<Seq<char>> {
    match artifact {
        Some(value) => match text_at(value, "path"@) {
            Some(path) => seq![path],
            None => Seq::empty(),
        },
        None => Seq::empty(),
    }
}

pub open spec fn inner(value: Option<JsonModel>, key: Seq<char>) -> Option<JsonModel> {
    match value {
        Some(v) => at(v, key),
        None => None,
    }
}

/// Every path that verifying a report may read.
pub open spec fn named_paths(report: JsonModel) -> Seq<Seq<char>> {
    let toolchain = at(report, "toolchain"@);
    let compiler = at(report, "compiler_artifacts"@);
    path_of(at(report, "source"@)) + path_of(at(report, "air"@)) + path_of(at(report, "metallib"@))
        + path_of(at(report, "collector"@)) + path_of(
        inner(inner(toolchain, "metal"@), "identity"@),
    ) + path_of(inner(inner(toolchain, "metallib"@), "identity"@)) + path_of(
        inner(inner(toolchain, "metal_objdump"@), "identity"@),
    ) + path_of(inner(inner(toolchain, "compile_capture"@), "artifact"@)) + path_of(
        inner(inner(toolchain, "link_capture"@), "artifact"@),
    ) + path_of(inner(inner(compiler, "build_tables"@), "artifact"@)) + path_of(
        inner(inner(compiler, "disassembly"@), "artifact"@),
    )
}

fn push_path(paths: &mut Vec<String>, artifact: Option<&serde_json::Value>)
    ensures
        texts(final(paths)@) == texts(old(paths)@) + path_of(crate::json::opt_model(artifact)),
{
    let ghost before = paths@;
    match artifact {
        Some(value) => match member_text(value, "path") {
            Some(path) => {
                paths.push(path.to_owned());
                assert(texts(paths@) =~= texts(before) + seq![path@]);
            },
            None => {
                assert(texts(paths@) =~= texts(before) + Seq::<Seq<char>>::empty());
            },
        },
        None => {
            assert(texts(paths@) =~= texts(before) + Seq::<Seq<char>>::empty());
        },
    }
}

fn inner_of<'a>(value: Option<&'a serde_json::Value>, key: &str) -> (r: Option<
    &'a serde_json::Value,
>)
    ensures
        crate::json::opt_model(r) == inner(crate::json::opt_model(value), key@),
{
    match value {
        Some(v) => member(v, key),
        None => None,
    }
}

/// Lists the files that verifying a report may read.
pub fn artifact_paths(report: &serde_json::Value) -> (r: Vec<String>)
    ensures
        texts(r@) == named_paths(json_model(*report)),
{
    let mut paths: Vec<String> = Vec::new();
    assert(texts(paths@) =~= Seq::empty());
    let toolchain = member(report, "toolchain");
    let compiler = member(report, "compiler_artifacts");
    push_path(&mut paths, member(report, "source"));
    push_path(&mut paths, member(report, "air"));
    push_path(&mut paths, member(report, "metallib"));
    push_path(&mut paths, member(report, "collector"));
    push_path(&mut paths, inner_of(inner_of(toolchain, "metal"), "identity"));
    push_path(&mut paths, inner_of(inner_of(toolchain, "metallib"), "identity"));
    push_path(&mut paths, inner_of(inner_of(toolchain, "metal_objdump"), "identity"));
    push_path(&mut paths, inner_of(inner_of(toolchain, "compile_capture"), "artifact"));
    push_path(&mut paths, inner_of(inner_of(toolchain, "link_capture"), "artifact"));
    push_path(&mut paths, inner_of(inner_of(compiler, "build_tables"), "artifact"));
    push_path(&mut paths, inner_of(inner_of(compiler, "disassembly"), "artifact"));
    assert(texts(paths@) =~= named_paths(json_model(*report)));
    paths
}

} // verus!
