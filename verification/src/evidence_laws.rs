//! What a verified report of artifacts binds.
use crate::evidence::{
    artifact_outcome, capture_outcome, device_outcome, file_at, named_paths, report_outcome,
    resources_from, resources_outcome, toolchain_outcome, ReadFile,
};
use crate::hash::sha256_hex;
use crate::json::{array_at, at, integer_of, json_encoding, natural_at, text_at, text_of, JsonModel};
use crate::text::{is_digest, lowered};
use vstd::prelude::*;

verus! {

/// Whether a value is an object with these members and no other.
pub open spec fn has_members(value: JsonModel, keys: Seq<Seq<char>>) -> bool {
    value matches JsonModel::Object(members) && members.dom() == keys.to_set()
}

/// Whether an artifact states a file that was read, its length and its digest.
pub open spec fn sealed(files: Seq<ReadFile>, value: JsonModel) -> bool {
    &&& has_members(value, seq!["bytes"@, "path"@, "sha256"@])
    &&& text_at(value, "path"@) is Some
    &&& natural_at(value, "bytes"@) is Some
    &&& text_at(value, "sha256"@) is Some
    &&& is_digest(text_at(value, "sha256"@)->0)
    &&& file_at(files, text_at(value, "path"@)->0, 0) matches Ok(content) && content.len()
        == natural_at(value, "bytes"@)->0 && sha256_hex(content) == lowered(
        text_at(value, "sha256"@)->0,
    )
}

/// An artifact is verified exactly where the file that it names has the length and the
/// digest that it states.
pub proof fn artifacts_are_sealed(files: Seq<ReadFile>, value: JsonModel, label: Seq<char>)
    ensures
        artifact_outcome(files, value, label) is Ok <==> sealed(files, value),
{
}

/// The file of a path is the first that was read under it.
pub proof fn files_are_found_by_path(files: Seq<ReadFile>, path: Seq<char>, i: int, k: int)
    requires
        0 <= i <= k < files.len(),
        files[k].path@ == path,
        forall|j: int| i <= j < k ==> (#[trigger] files[j]).path@ != path,
    ensures
        match files[k].content {
            Ok(bytes) => file_at(files, path, i) == Ok::<Seq<u8>, Seq<char>>(bytes@),
            Err(e) => file_at(files, path, i) == Err::<Seq<u8>, Seq<char>>(e@),
        },
    decreases k - i,
{
    if i < k {
        files_are_found_by_path(files, path, i + 1, k);
    }
}

/// Whether a capture's artifact is sealed and its status is that of its exit: captured
/// where the tool exited with zero, unavailable otherwise.
pub open spec fn captured(files: Seq<ReadFile>, value: JsonModel) -> bool {
    &&& has_members(value, seq!["artifact"@, "exit_code"@, "status"@])
    &&& at(value, "artifact"@) is Some && sealed(files, at(value, "artifact"@)->0)
    &&& at(value, "exit_code"@) is Some
    &&& at(value, "exit_code"@)->0 is Null || integer_of(at(value, "exit_code"@)->0) is Some
    &&& text_at(value, "status"@) == Some(
        if integer_of(at(value, "exit_code"@)->0) == Some(0i64) {
            "captured"@
        } else {
            "unavailable"@
        },
    )
}

proof fn member_there(value: JsonModel, keys: Seq<Seq<char>>, k: int)
    requires
        has_members(value, keys),
        0 <= k < keys.len(),
    ensures
        at(value, keys[k]) is Some,
{
    assert(keys.to_set().contains(keys[k]));
    assert(value->Object_0.dom().contains(keys[k]));
}

/// A capture is verified exactly where its artifact is sealed and its status agrees
/// with its exit code.
pub proof fn captures_agree_with_their_exit(files: Seq<ReadFile>, value: JsonModel, label: Seq<char>)
    ensures
        capture_outcome(files, value, label) is Ok <==> captured(files, value),
{
    reveal_strlit("captured");
    reveal_strlit("unavailable");
    assert("captured"@.len() == 8 && "unavailable"@.len() == 11);
    let keys = seq!["artifact"@, "exit_code"@, "status"@];
    if has_members(value, keys) {
        member_there(value, keys, 0);
        member_there(value, keys, 1);
        assert(keys[0] == "artifact"@ && keys[1] == "exit_code"@);
        artifacts_are_sealed(files, at(value, "artifact"@)->0, label + ".artifact"@);
    }
}

/// Whether a tool is sealed and states its version.
pub open spec fn versioned(files: Seq<ReadFile>, toolchain: JsonModel, key: Seq<char>) -> bool {
    &&& at(toolchain, key) is Some
    &&& ({
        let tool = at(toolchain, key)->0;
        &&& has_members(tool, seq!["identity"@, "version"@])
        &&& at(tool, "identity"@) is Some && sealed(files, at(tool, "identity"@)->0)
        &&& text_at(tool, "version"@) is Some && text_at(tool, "version"@)->0.len() > 0
    })
}

/// Whether a command line is a list of texts, and not empty.
pub open spec fn commanded(toolchain: JsonModel, key: Seq<char>) -> bool {
    &&& array_at(toolchain, key) is Some
    &&& array_at(toolchain, key)->0.len() > 0
    &&& forall|i: int|
        0 <= i < array_at(toolchain, key)->0.len() ==> text_of(
            #[trigger] array_at(toolchain, key)->0[i],
        ) is Some
}

/// A verified toolchain seals its three tools with their versions, its two command lines
/// and what they left, and names its kit.
pub proof fn toolchains_are_bound(files: Seq<ReadFile>, toolchain: JsonModel)
    requires
        toolchain_outcome(files, toolchain) is Ok,
    ensures
        versioned(files, toolchain, "metal"@),
        versioned(files, toolchain, "metallib"@),
        versioned(files, toolchain, "metal_objdump"@),
        commanded(toolchain, "compile_argv"@),
        commanded(toolchain, "link_argv"@),
        text_at(toolchain, "sdk_path"@) is Some && text_at(toolchain, "sdk_path"@)->0.len() > 0,
        text_at(toolchain, "sdk_version"@) is Some && text_at(toolchain, "sdk_version"@)->0.len()
            > 0,
        at(toolchain, "compile_capture"@) is Some && captured(
            files,
            at(toolchain, "compile_capture"@)->0,
        ),
        at(toolchain, "link_capture"@) is Some && captured(files, at(toolchain, "link_capture"@)->0),
{
    let keys = seq![
        "compile_argv"@,
        "compile_capture"@,
        "link_argv"@,
        "link_capture"@,
        "metal"@,
        "metal_objdump"@,
        "metallib"@,
        "sdk_path"@,
        "sdk_version"@,
    ];
    assert(has_members(toolchain, keys));
    assert(keys[1] == "compile_capture"@ && keys[3] == "link_capture"@ && keys[4] == "metal"@);
    assert(keys[5] == "metal_objdump"@ && keys[6] == "metallib"@);
    member_there(toolchain, keys, 1);
    member_there(toolchain, keys, 3);
    member_there(toolchain, keys, 4);
    member_there(toolchain, keys, 5);
    member_there(toolchain, keys, 6);
    tool_bound(files, toolchain, "metal"@);
    tool_bound(files, toolchain, "metallib"@);
    tool_bound(files, toolchain, "metal_objdump"@);
    captures_agree_with_their_exit(
        files,
        at(toolchain, "compile_capture"@)->0,
        "toolchain.compile_capture"@,
    );
    captures_agree_with_their_exit(
        files,
        at(toolchain, "link_capture"@)->0,
        "toolchain.link_capture"@,
    );
}

proof fn tool_bound(files: Seq<ReadFile>, toolchain: JsonModel, key: Seq<char>)
    requires
        at(toolchain, key) is Some,
        crate::evidence::tool_outcome(files, toolchain, key) is Ok,
    ensures
        versioned(files, toolchain, key),
{
    let tool = at(toolchain, key)->0;
    let keys = seq!["identity"@, "version"@];
    assert(has_members(tool, keys));
    assert(keys[0] == "identity"@);
    member_there(tool, keys, 0);
    artifacts_are_sealed(files, at(tool, "identity"@)->0, "toolchain."@ + key + ".identity"@);
}

/// A device's digest is that of what it states publicly, in either case.
pub proof fn devices_are_their_properties(device: JsonModel)
    ensures
        device_outcome(device) is Ok <==> {
            &&& has_members(device, seq!["identity_sha256"@, "public_properties"@])
            &&& text_at(device, "identity_sha256"@) is Some
            &&& is_digest(text_at(device, "identity_sha256"@)->0)
            &&& sha256_hex(json_encoding(at(device, "public_properties"@)->0)) == lowered(
                text_at(device, "identity_sha256"@)->0,
            )
        },
{
}

/// Whether a pipeline states its kernel, positive widths, its static memory, and that
/// public getters gave them.
pub open spec fn measured(resource: JsonModel) -> bool {
    &&& text_at(resource, "kernel"@) is Some && text_at(resource, "kernel"@)->0.len() > 0
    &&& natural_at(resource, "thread_execution_width"@) is Some && natural_at(
        resource,
        "thread_execution_width"@,
    )->0 > 0
    &&& natural_at(resource, "max_total_threads_per_threadgroup"@) is Some && natural_at(
        resource,
        "max_total_threads_per_threadgroup"@,
    )->0 > 0
    &&& natural_at(resource, "static_threadgroup_memory_bytes"@) is Some
    &&& text_at(resource, "provenance"@) == Some(
        "public MTLComputePipelineState getters on the sealed metallib"@,
    )
}

proof fn resources_measured_from(items: Seq<JsonModel>, i: int, kernels: Seq<Seq<char>>)
    requires
        0 <= i <= items.len(),
        resources_from(items, i, kernels) is Ok,
    ensures
        forall|k: int| i <= k < items.len() ==> measured(#[trigger] items[k]),
        forall|k: int|
            i <= k < items.len() ==> !kernels.contains(
                text_at(#[trigger] items[k], "kernel"@)->0,
            ),
        forall|j: int, k: int|
            i <= j < k < items.len() ==> text_at(#[trigger] items[j], "kernel"@) != text_at(
                #[trigger] items[k],
                "kernel"@,
            ),
    decreases items.len() - i,
{
    if i < items.len() {
        let kernel = text_at(items[i], "kernel"@)->0;
        let more = kernels.push(kernel);
        resources_measured_from(items, i + 1, more);
        assert(measured(items[i]));
        assert(more[kernels.len() as int] == kernel);
        assert(more.contains(kernel));
        assert forall|k: int| i <= k < items.len() implies !kernels.contains(
            text_at(#[trigger] items[k], "kernel"@)->0,
        ) by {
            if k > i && kernels.contains(text_at(items[k], "kernel"@)->0) {
                let x = text_at(items[k], "kernel"@)->0;
                let j = choose|j: int| 0 <= j < kernels.len() && kernels[j] == x;
                assert(more[j] == x);
                assert(more.contains(x));
            }
        }
        assert forall|j: int, k: int| i <= j < k < items.len() implies text_at(
            #[trigger] items[j],
            "kernel"@,
        ) != text_at(#[trigger] items[k], "kernel"@) by {
            if j == i {
                assert(!more.contains(text_at(items[k], "kernel"@)->0));
            }
        }
    }
}

/// Verified pipelines are there, each measured, no two of one kernel.
pub proof fn pipelines_are_measured_once(report: JsonModel, j: int, k: int)
    requires
        resources_outcome(report) is Ok,
    ensures
        array_at(report, "pipeline_resources"@) is Some,
        ({
            let items = array_at(report, "pipeline_resources"@)->0;
            &&& items.len() > 0
            &&& 0 <= k < items.len() ==> measured(items[k])
            &&& 0 <= j < k < items.len() ==> text_at(items[j], "kernel"@) != text_at(
                items[k],
                "kernel"@,
            )
        }),
{
    resources_measured_from(array_at(report, "pipeline_resources"@)->0, 0, Seq::empty());
}

/// Whether a claim is made under a status, with a reason.
pub open spec fn claimed(claims: JsonModel, key: Seq<char>, status: Seq<char>) -> bool {
    let claim = at(claims, key)->0;
    &&& text_at(claim, "status"@) == Some(status)
    &&& text_at(claim, "reason"@) is Some && text_at(claim, "reason"@)->0.len() > 0
}

/// A verified report is of one schema, one status and one scope; it seals its source,
/// its intermediate, its library and its collector, binds its toolchain and its device,
/// measures its pipelines, keeps what the compiler left, and claims nothing that was
/// not observed.
pub proof fn reports_bind_every_artifact(files: Seq<ReadFile>, report: JsonModel)
    requires
        report_outcome(files, report) is Ok,
    ensures
        text_at(report, "schema"@) == Some("rvllm.metal_artifact_evidence.v1"@),
        text_at(report, "status"@) == Some("captured"@),
        text_at(report, "scope"@) == Some(
            "rvLLM artifact evidence only; contains no MLX trace or performance claim"@,
        ),
        sealed(files, at(report, "source"@)->0),
        sealed(files, at(report, "air"@)->0),
        sealed(files, at(report, "metallib"@)->0),
        sealed(files, at(report, "collector"@)->0),
        toolchain_outcome(files, at(report, "toolchain"@)->0) is Ok,
        device_outcome(at(report, "device"@)->0) is Ok,
        resources_outcome(report) is Ok,
        captured(files, at(at(report, "compiler_artifacts"@)->0, "build_tables"@)->0),
        captured(files, at(at(report, "compiler_artifacts"@)->0, "disassembly"@)->0),
        ({
            let claims = at(report, "claims"@)->0;
            &&& claimed(claims, "register_count"@, "unavailable"@)
            &&& claimed(claims, "register_residency"@, "unavailable"@)
            &&& claimed(claims, "occupancy"@, "unavailable"@)
            &&& claimed(claims, "simd_matrix_machine_lowering"@, "unverified"@)
            &&& claimed(claims, "low_bit_unpack_machine_arithmetic"@, "unverified"@)
        }),
{
    artifacts_are_sealed(files, at(report, "source"@)->0, "source"@);
    artifacts_are_sealed(files, at(report, "air"@)->0, "air"@);
    artifacts_are_sealed(files, at(report, "metallib"@)->0, "metallib"@);
    artifacts_are_sealed(files, at(report, "collector"@)->0, "collector"@);
    let compiler = at(report, "compiler_artifacts"@)->0;
    captures_agree_with_their_exit(
        files,
        at(compiler, "build_tables"@)->0,
        "compiler_artifacts.build_tables"@,
    );
    captures_agree_with_their_exit(
        files,
        at(compiler, "disassembly"@)->0,
        "compiler_artifacts.disassembly"@,
    );
}

/// Whether a path is among those to read where an artifact names it.
pub open spec fn read_where_named(report: JsonModel, artifact: Option<JsonModel>) -> bool {
    artifact is Some && text_at(artifact->0, "path"@) is Some ==> named_paths(report).contains(
        text_at(artifact->0, "path"@)->0,
    )
}

proof fn kept_together(a: Seq<Seq<char>>, b: Seq<Seq<char>>, x: Seq<char>)
    requires
        a.contains(x) || b.contains(x),
    ensures
        (a + b).contains(x),
{
    if a.contains(x) {
        let i = choose|i: int| 0 <= i < a.len() && a[i] == x;
        assert((a + b)[i] == x);
    } else {
        let i = choose|i: int| 0 <= i < b.len() && b[i] == x;
        assert((a + b)[a.len() + i] == x);
    }
}

/// Every file that a report's artifacts name is among those to read.
#[verifier::rlimit(40)]
pub proof fn every_named_file_is_read(report: JsonModel)
    ensures
        read_where_named(report, at(report, "source"@)),
        read_where_named(report, at(report, "air"@)),
        read_where_named(report, at(report, "metallib"@)),
        read_where_named(report, at(report, "collector"@)),
        at(report, "toolchain"@) matches Some(t) ==> {
            &&& at(t, "metal"@) matches Some(v) ==> read_where_named(report, at(v, "identity"@))
            &&& at(t, "metallib"@) matches Some(v) ==> read_where_named(report, at(v, "identity"@))
            &&& at(t, "metal_objdump"@) matches Some(v) ==> read_where_named(
                report,
                at(v, "identity"@),
            )
            &&& at(t, "compile_capture"@) matches Some(v) ==> read_where_named(
                report,
                at(v, "artifact"@),
            )
            &&& at(t, "link_capture"@) matches Some(v) ==> read_where_named(
                report,
                at(v, "artifact"@),
            )
        },
        at(report, "compiler_artifacts"@) matches Some(c) ==> {
            &&& at(c, "build_tables"@) matches Some(v) ==> read_where_named(
                report,
                at(v, "artifact"@),
            )
            &&& at(c, "disassembly"@) matches Some(v) ==> read_where_named(report, at(v, "artifact"@))
        },
{
    assert forall|a: Seq<Seq<char>>, b: Seq<Seq<char>>, x: Seq<char>|
        a.contains(x) || b.contains(x) implies #[trigger] (a + b).contains(x) by {
        kept_together(a, b, x);
    }
    assert forall|value: JsonModel| text_at(value, "path"@) is Some implies (
    #[trigger] crate::evidence::path_of(Some(value))).contains(text_at(value, "path"@)->0) by {
        let s = crate::evidence::path_of(Some(value));
        assert(s[0] == text_at(value, "path"@)->0);
    }
}

} // verus!
