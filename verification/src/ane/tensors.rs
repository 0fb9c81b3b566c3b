//! The checkpoint tensors of the decoder: which ones must exist, with which
//! shapes, and where their rows lie.
use crate::ane::half_bits::DType;
use crate::ane::shape::{key_value_width, query_width, shape_of, HIDDEN, INTERMEDIATE, VOCAB};
use crate::text::{cat2, decimal, decimal_text, same};
use vstd::prelude::*;

verus! {

/// A tensor that a checkpoint holds.
#[derive(Debug)]
pub struct TensorInfo {
    pub name: String,
    pub shape: Vec<usize>,
    pub dtype: DType,
    pub nbytes: usize,
}

/// A tensor that the decoder needs: a vector, or a matrix of rows by columns.
#[derive(Debug)]
pub struct RequiredTensor {
    pub name: String,
    pub rows: usize,
    pub columns: Option<usize>,
}

pub struct TensorModel {
    pub name: Seq<char>,
    pub shape: Seq<usize>,
    pub dtype: DType,
    pub nbytes: usize,
}

pub struct RequiredModel {
    pub name: Seq<char>,
    pub rows: usize,
    pub columns: Option<usize>,
}

pub open spec fn tensor_model(t: TensorInfo) -> TensorModel {
    TensorModel { name: t.name@, shape: t.shape@, dtype: t.dtype, nbytes: t.nbytes }
}

pub open spec fn tensor_models(v: Seq<TensorInfo>) -> Seq<TensorModel> {
    Seq::new(v.len(), |i: int| tensor_model(v[i]))
}

pub open spec fn required_model(t: RequiredTensor) -> RequiredModel {
    RequiredModel { name: t.name@, rows: t.rows, columns: t.columns }
}

pub open spec fn required_models(v: Seq<RequiredTensor>) -> Seq<RequiredModel> {
    Seq::new(v.len(), |i: int| required_model(v[i]))
}

pub open spec fn vector_of(name: Seq<char>, rows: nat) -> RequiredModel {
    RequiredModel { name, rows: rows as usize, columns: None }
}

pub open spec fn matrix_of(name: Seq<char>, rows: nat, columns: nat) -> RequiredModel {
    RequiredModel { name, rows: rows as usize, columns: Some(columns as usize) }
}

/// The tensors of one layer, in the order in which they are checked.
pub open spec fn layer_tensors(prefix: Seq<char>, sliding: bool) -> Seq<RequiredModel> {
    let q = query_width(sliding);
    let kv = key_value_width(sliding);
    let head = shape_of(sliding).head_dim as nat;
    let h = HIDDEN as nat;
    let i = INTERMEDIATE as nat;
    let common = seq![
        vector_of(prefix + ".input_layernorm.weight"@, h),
        vector_of(prefix + ".post_attention_layernorm.weight"@, h),
        vector_of(prefix + ".pre_feedforward_layernorm.weight"@, h),
        vector_of(prefix + ".post_feedforward_layernorm.weight"@, h),
        vector_of(prefix + ".self_attn.q_norm.weight"@, head),
        vector_of(prefix + ".self_attn.k_norm.weight"@, head),
        vector_of(prefix + ".layer_scalar"@, 1),
        matrix_of(prefix + ".self_attn.q_proj.weight"@, q, h),
        matrix_of(prefix + ".self_attn.k_proj.weight"@, kv, h),
        matrix_of(prefix + ".self_attn.o_proj.weight"@, h, q),
        matrix_of(prefix + ".mlp.gate_proj.weight"@, i, h),
        matrix_of(prefix + ".mlp.up_proj.weight"@, i, h),
        matrix_of(prefix + ".mlp.down_proj.weight"@, h, i),
    ];
    if sliding {
        common.push(matrix_of(prefix + ".self_attn.v_proj.weight"@, kv, h))
    } else {
        common
    }
}

pub open spec fn layer_prefix(prefix: Seq<char>, index: int) -> Seq<char> {
    prefix + ".layers."@ + decimal(index as nat)
}

/// The tensors of the first layers.
pub open spec fn layers_tensors(prefix: Seq<char>, sliding: Seq<bool>, count: int) -> Seq<
    RequiredModel,
>
    decreases count,
{
    if count <= 0 {
        Seq::empty()
    } else {
        layers_tensors(prefix, sliding, count - 1) + layer_tensors(
            layer_prefix(prefix, count - 1),
            sliding[count - 1],
        )
    }
}

/// Every tensor that the decoder needs, in the order in which they are checked.
pub open spec fn decoder_tensors(prefix: Seq<char>, sliding: Seq<bool>) -> Seq<RequiredModel> {
    layers_tensors(prefix, sliding, sliding.len() as int) + seq![
        vector_of(prefix + ".norm.weight"@, HIDDEN as nat),
        matrix_of(prefix + ".embed_tokens.weight"@, VOCAB as nat, HIDDEN as nat),
    ]
}

/// The entry of a name: the first that has it.
pub open spec fn entry_named(entries: Seq<TensorModel>, name: Seq<char>, from: int) -> Option<
    TensorModel,
>
    decreases entries.len() - from,
{
    if from >= entries.len() {
        None
    } else if entries[from].name == name {
        Some(entries[from])
    } else {
        entry_named(entries, name, from + 1)
    }
}

/// Two bytes for each element.
pub open spec fn required_bytes(t: RequiredModel) -> nat {
    match t.columns {
        None => (t.rows * 2) as nat,
        Some(columns) => (t.rows * columns * 2) as nat,
    }
}

pub open spec fn required_shape(t: RequiredModel) -> Seq<usize> {
    match t.columns {
        None => seq![t.rows],
        Some(columns) => seq![t.rows, columns],
    }
}

/// What is wrong with a required tensor, if anything.
pub open spec fn tensor_fault(entries: Seq<TensorModel>, t: RequiredModel) -> Option<Seq<char>> {
    match entry_named(entries, t.name, 0) {
        None => Some("missing ANE tensor "@ + t.name),
        Some(entry) => if entry.shape != required_shape(t) || entry.dtype == DType::Other
            || entry.nbytes != required_bytes(t) {
            Some("unsupported ANE tensor shape/dtype: "@ + t.name)
        } else {
            None
        },
    }
}

/// The first fault of the required tensors from a position on.
pub open spec fn first_fault(
    entries: Seq<TensorModel>,
    required: Seq<RequiredModel>,
    from: int,
) -> Option<Seq<char>>
    decreases required.len() - from,
{
    if from >= required.len() {
        None
    } else {
        match tensor_fault(entries, required[from]) {
            Some(fault) => Some(fault),
            None => first_fault(entries, required, from + 1),
        }
    }
}

spec fn bounded(t: RequiredTensor) -> bool {
    t.rows <= 262144 && match t.columns {
        None => true,
        Some(columns) => columns <= 15360,
    }
}

spec fn all_bounded(v: Seq<RequiredTensor>) -> bool {
    forall|i: int| 0 <= i < v.len() ==> bounded(#[trigger] v[i])
}

fn push_vector(out: &mut Vec<RequiredTensor>, prefix: &str, suffix: &str, rows: usize)
    requires
        rows <= 262144,
        all_bounded(old(out)@),
    ensures
        required_models(final(out)@) == required_models(old(out)@).push(
            vector_of(prefix@ + suffix@, rows as nat),
        ),
        all_bounded(final(out)@),
{
    let ghost before = out@;
    let name = cat2(prefix, suffix);
    out.push(RequiredTensor { name, rows, columns: None });
    assert(required_models(out@) =~= required_models(before).push(
        vector_of(prefix@ + suffix@, rows as nat),
    ));
}

fn push_matrix(
    out: &mut Vec<RequiredTensor>,
    prefix: &str,
    suffix: &str,
    rows: usize,
    columns: usize,
)
    requires
        rows <= 262144,
        columns <= 15360,
        all_bounded(old(out)@),
    ensures
        required_models(final(out)@) == required_models(old(out)@).push(
            matrix_of(prefix@ + suffix@, rows as nat, columns as nat),
        ),
        all_bounded(final(out)@),
{
    let ghost before = out@;
    let name = cat2(prefix, suffix);
    out.push(RequiredTensor { name, rows, columns: Some(columns) });
    assert(required_models(out@) =~= required_models(before).push(
        matrix_of(prefix@ + suffix@, rows as nat, columns as nat),
    ));
}

fn push_layer(out: &mut Vec<RequiredTensor>, prefix: &str, sliding: bool)
    requires
        all_bounded(old(out)@),
    ensures
        required_models(final(out)@) == required_models(old(out)@) + layer_tensors(prefix@, sliding),
        all_bounded(final(out)@),
{
    let ghost before = required_models(out@);
    let q: usize = if sliding {
        4096
    } else {
        8192
    };
    let kv: usize = if sliding {
        2048
    } else {
        512
    };
    let head: usize = if sliding {
        256
    } else {
        512
    };
    push_vector(out, prefix, ".input_layernorm.weight", HIDDEN);
    push_vector(out, prefix, ".post_attention_layernorm.weight", HIDDEN);
    push_vector(out, prefix, ".pre_feedforward_layernorm.weight", HIDDEN);
    push_vector(out, prefix, ".post_feedforward_layernorm.weight", HIDDEN);
    push_vector(out, prefix, ".self_attn.q_norm.weight", head);
    push_vector(out, prefix, ".self_attn.k_norm.weight", head);
    push_vector(out, prefix, ".layer_scalar", 1);
    push_matrix(out, prefix, ".self_attn.q_proj.weight", q, HIDDEN);
    push_matrix(out, prefix, ".self_attn.k_proj.weight", kv, HIDDEN);
    push_matrix(out, prefix, ".self_attn.o_proj.weight", HIDDEN, q);
    push_matrix(out, prefix, ".mlp.gate_proj.weight", INTERMEDIATE, HIDDEN);
    push_matrix(out, prefix, ".mlp.up_proj.weight", INTERMEDIATE, HIDDEN);
    push_matrix(out, prefix, ".mlp.down_proj.weight", HIDDEN, INTERMEDIATE);
    if sliding {
        push_matrix(out, prefix, ".self_attn.v_proj.weight", kv, HIDDEN);
    }
    assert(required_models(out@) =~= before + layer_tensors(prefix@, sliding));
}

/// Lists the tensors that the decoder needs; `sliding` tells the kind of each
/// layer.
pub fn required_tensors(prefix: &str, sliding: &Vec<bool>) -> (r: Vec<RequiredTensor>)
    ensures
        required_models(r@) == decoder_tensors(prefix@, sliding@),
        forall|i: int|
            0 <= i < r@.len() ==> (#[trigger] r@[i]).rows <= 262144 && match r@[i].columns {
                None => true,
                Some(columns) => columns <= 15360,
            },
{
    let mut out: Vec<RequiredTensor> = Vec::new();
    let mut index: usize = 0;
    assert(required_models(out@) =~= layers_tensors(prefix@, sliding@, 0));
    while index < sliding.len()
        invariant
            index <= sliding@.len(),
            required_models(out@) == layers_tensors(prefix@, sliding@, index as int),
            all_bounded(out@),
        decreases sliding@.len() - index,
    {
        let number = decimal_text(index as u64);
        let mut layer = prefix.to_owned();
        layer.push_str(".layers.");
        layer.push_str(number.as_str());
        push_layer(&mut out, layer.as_str(), sliding[index]);
        index = index + 1;
    }
    let ghost layers = required_models(out@);
    push_vector(&mut out, prefix, ".norm.weight", HIDDEN);
    push_matrix(&mut out, prefix, ".embed_tokens.weight", VOCAB, HIDDEN);
    assert(required_models(out@) =~= decoder_tensors(prefix@, sliding@));
    assert forall|i: int| 0 <= i < out@.len() implies (#[trigger] out@[i]).rows <= 262144
        && match out@[i].columns {
        None => true,
        Some(columns) => columns <= 15360,
    } by {
        assert(bounded(out@[i]));
    }
    out
}

fn find_entry(entries: &Vec<TensorInfo>, name: &str) -> (r: Option<usize>)
    ensures
        match r {
            Some(i) => i < entries@.len() && entry_named(tensor_models(entries@), name@, 0) == Some(
                tensor_model(entries@[i as int]),
            ),
            None => entry_named(tensor_models(entries@), name@, 0) is None,
        },
{
    let mut i: usize = 0;
    while i < entries.len()
        invariant
            i <= entries@.len(),
            entry_named(tensor_models(entries@), name@, 0) == entry_named(
                tensor_models(entries@),
                name@,
                i as int,
            ),
        decreases entries@.len() - i,
    {
        if same(entries[i].name.as_str(), name) {
            return Some(i);
        }
        i = i + 1;
    }
    None
}

fn check_tensor(entries: &Vec<TensorInfo>, t: &RequiredTensor) -> (r: Result<(), String>)
    requires
        t.rows <= 262144,
        match t.columns {
            None => true,
            Some(columns) => columns <= 15360,
        },
    ensures
        match r {
            Ok(_) => tensor_fault(tensor_models(entries@), required_model(*t)) is None,
            Err(e) => tensor_fault(tensor_models(entries@), required_model(*t)) == Some(e@),
        },
{
    let found: usize = match find_entry(entries, t.name.as_str()) {
        Some(i) => i,
        None => {
            return Err(cat2("missing ANE tensor ", t.name.as_str()));
        },
    };
    let entry = &entries[found];
    let ghost wanted = required_shape(required_model(*t));
    let shaped: bool = match t.columns {
        None => entry.shape.len() == 1 && entry.shape[0] == t.rows,
        Some(columns) => entry.shape.len() == 2 && entry.shape[0] == t.rows && entry.shape[1]
            == columns,
    };
    proof {
        if shaped {
            assert(entry.shape@ =~= wanted);
        } else {
            assert(entry.shape@ != wanted) by {
                if entry.shape@ == wanted {
                    assert(entry.shape@.len() == wanted.len());
                    assert(entry.shape@[0] == wanted[0]);
                }
            }
        }
    }
    let bytes: u64 = match t.columns {
        None => (t.rows as u64) * 2,
        Some(columns) => {
            assert(t.rows * columns <= 262144 * 15360) by (nonlinear_arith)
                requires
                    t.rows <= 262144,
                    columns <= 15360,
            ;
            (t.rows as u64) * (columns as u64) * 2
        },
    };
    if !shaped || matches!(entry.dtype, DType::Other) || entry.nbytes as u64 != bytes {
        return Err(cat2("unsupported ANE tensor shape/dtype: ", t.name.as_str()));
    }
    Ok(())
}

/// Checks that a checkpoint holds every tensor of the decoder, in BF16 or FP16
/// and in its full shape; the first fault in order is reported.
pub fn validate_tensors(entries: &Vec<TensorInfo>, prefix: &str, sliding: &Vec<bool>) -> (r: Result<
    (),
    String,
>)
    ensures
        match r {
            Ok(_) => first_fault(
                tensor_models(entries@),
                decoder_tensors(prefix@, sliding@),
                0,
            ) is None,
            Err(e) => first_fault(
                tensor_models(entries@),
                decoder_tensors(prefix@, sliding@),
                0,
            ) == Some(e@),
        },
{
    let required = required_tensors(prefix, sliding);
    let ghost wanted = decoder_tensors(prefix@, sliding@);
    let ghost held = tensor_models(entries@);
    let mut i: usize = 0;
    while i < required.len()
        invariant
            i <= required@.len(),
            wanted == required_models(required@),
            wanted == decoder_tensors(prefix@, sliding@),
            held == tensor_models(entries@),
            first_fault(held, wanted, 0) == first_fault(held, wanted, i as int),
            forall|k: int|
                0 <= k < required@.len() ==> (#[trigger] required@[k]).rows <= 262144
                    && match required@[k].columns {
                    None => true,
                    Some(columns) => columns <= 15360,
                },
        decreases required@.len() - i,
    {
        assert(wanted[i as int] == required_model(required@[i as int]));
        match check_tensor(entries, &required[i]) {
            Ok(_) => {},
            Err(e) => {
                return Err(e);
            },
        }
        i = i + 1;
    }
    Ok(())
}

/// A matrix whose bytes a file can hold.
pub open spec fn addressable(shape: Seq<usize>) -> bool {
    shape.len() == 2 ==> shape[0] * shape[1] * 2 <= usize::MAX
}

/// The byte range of some rows of a matrix: its offset and its length.
pub fn load_rows(shape: &Vec<usize>, first: usize, rows: usize) -> (r: Result<
    (usize, usize),
    String,
>)
    requires
        addressable(shape@),
    ensures
        match r {
            Ok((offset, bytes)) => {
                &&& shape@.len() == 2
                &&& first + rows <= shape@[0]
                &&& offset == first * shape@[1] * 2
                &&& bytes == rows * shape@[1] * 2
            },
            Err(e) => if shape@.len() != 2 {
                e@ == "ANE row load requires a matrix"@
            } else {
                first + rows > shape@[0] && e@ == "ANE row load exceeds tensor"@
            },
        },
{
    if shape.len() != 2 {
        return Err("ANE row load requires a matrix".to_owned());
    }
    let height: usize = shape[0];
    let width: usize = shape[1];
    if first > height || rows > height - first {
        return Err("ANE row load exceeds tensor".to_owned());
    }
    proof {
        let hi = height as int;
        let wi = width as int;
        assert(first * wi <= hi * wi) by (nonlinear_arith)
            requires
                0 <= first <= hi,
                0 <= wi,
        ;
        assert(rows * wi <= hi * wi) by (nonlinear_arith)
            requires
                0 <= rows <= hi,
                0 <= wi,
        ;
        assert(first * wi >= 0) by (nonlinear_arith)
            requires
                first >= 0,
                wi >= 0,
        ;
        assert(rows * wi >= 0) by (nonlinear_arith)
            requires
                rows >= 0,
                wi >= 0,
        ;
    }
    Ok((first * width * 2, rows * width * 2))
}

/// Consecutive row loads tile the tensor: each ends where the next begins, and
/// none reaches past the tensor's bytes.
pub proof fn row_ranges_tile(height: nat, width: nat, first: nat, rows: nat, next: nat)
    requires
        first + rows + next <= height,
    ensures
        first * width * 2 + rows * width * 2 == (first + rows) * width * 2,
        (first + rows) * width * 2 + next * width * 2 <= height * width * 2,
{
    assert(first * width * 2 + rows * width * 2 == (first + rows) * width * 2) by (nonlinear_arith);
    assert((first + rows) * width * 2 + next * width * 2 <= height * width * 2) by (nonlinear_arith)
        requires
            first + rows + next <= height,
    ;
}

/// The offset of a token's row in the embedding table.
pub fn embedding_offset(file_offset: usize, token: u32) -> (r: usize)
    requires
        token < VOCAB,
        file_offset + VOCAB * HIDDEN * 2 <= usize::MAX,
    ensures
        r == file_offset + token * HIDDEN * 2,
{
    file_offset + token as usize * HIDDEN * 2
}

} // verus!
