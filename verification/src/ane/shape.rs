//! The dense Gemma 4 12B architecture: its dimensions, the shapes of its
//! layers, and the checkpoint tensors that the decoder needs.
use vstd::prelude::*;

verus! {

pub const HIDDEN: usize = 3840;

pub const INTERMEDIATE: usize = 15360;

pub const LAYERS: usize = 48;

pub const VOCAB: usize = 262144;

/// Rows of one vocabulary tile.
pub const HEAD_ROWS: usize = 16384;

/// The attention geometry of one layer.
#[derive(Clone, Copy, Debug, PartialEq, Eq, Structural)]
pub struct PrefillLayerShape {
    pub query_heads: usize,
    pub kv_heads: usize,
    pub head_dim: usize,
    pub sliding_window: Option<usize>,
}

pub open spec fn shape_of(sliding: bool) -> PrefillLayerShape {
    if sliding {
        PrefillLayerShape {
            query_heads: 16,
            kv_heads: 8,
            head_dim: 256,
            sliding_window: Some(1024),
        }
    } else {
        PrefillLayerShape { query_heads: 16, kv_heads: 1, head_dim: 512, sliding_window: None }
    }
}

/// The geometry of a sliding or a global layer.
pub fn layer_shape(sliding: bool) -> (r: PrefillLayerShape)
    ensures
        r == shape_of(sliding),
{
    PrefillLayerShape {
        query_heads: 16,
        kv_heads: if sliding {
            8
        } else {
            1
        },
        head_dim: if sliding {
            256
        } else {
            512
        },
        sliding_window: if sliding {
            Some(1024)
        } else {
            None
        },
    }
}

/// Width of a layer's query projection.
pub open spec fn query_width(sliding: bool) -> nat {
    (shape_of(sliding).query_heads * shape_of(sliding).head_dim) as nat
}

/// Width of a layer's key or value projection.
pub open spec fn key_value_width(sliding: bool) -> nat {
    (shape_of(sliding).kv_heads * shape_of(sliding).head_dim) as nat
}

/// Rows of a layer's joint projection: query and key, and value unless the
/// layer shares it with the key.
pub open spec fn projection_rows(sliding: bool) -> nat {
    query_width(sliding) + key_value_width(sliding) * if sliding {
        2nat
    } else {
        1nat
    }
}

/// The rows of a layer's joint projection, from its geometry.
pub fn projection_width(shape: &PrefillLayerShape) -> (r: usize)
    requires
        *shape == shape_of(true) || *shape == shape_of(false),
    ensures
        r == projection_rows(shape.sliding_window is Some),
{
    let kv_width: usize = shape.kv_heads * shape.head_dim;
    let factor: usize = if shape.sliding_window.is_none() {
        1
    } else {
        2
    };
    shape.query_heads * shape.head_dim + kv_width * factor
}

/// What the decoder requires of a model's architecture. Floats are given by
/// the bits of their single-precision values.
#[derive(Clone, Copy, Debug)]
pub struct ArchitectureFacts {
    pub hidden_size: usize,
    pub intermediate_size: usize,
    pub num_hidden_layers: usize,
    pub vocab_size: usize,
    pub num_attention_heads: usize,
    pub num_kv_heads_sliding: usize,
    pub num_kv_heads_global: usize,
    pub head_dim_sliding: usize,
    pub head_dim_global: usize,
    pub layer_types: usize,
    pub sliding_window_size: usize,
    pub enable_moe_block: bool,
    pub use_double_wide_mlp: bool,
    pub num_kv_shared_layers: usize,
    pub hidden_size_per_layer_input: usize,
    pub tie_word_embeddings: bool,
    pub attention_k_eq_v: bool,
    pub rope_theta_sliding_bits: u32,
    pub rope_theta_global_bits: u32,
    pub partial_rotary_factor_global_bits: u32,
    pub logit_softcap_bits: u32,
    pub rms_norm_eps_bits: u32,
}

/// 10000.0
pub const ROPE_THETA_SLIDING_BITS: u32 = 0x461c_4000;

/// 1000000.0
pub const ROPE_THETA_GLOBAL_BITS: u32 = 0x4974_2400;

/// 0.25
pub const PARTIAL_ROTARY_BITS: u32 = 0x3e80_0000;

/// 30.0
pub const LOGIT_SOFTCAP_BITS: u32 = 0x41f0_0000;

/// 1e-6
pub const RMS_NORM_EPS_BITS: u32 = 0x3586_37bd;

/// The dense 12B architecture with a qualified context capacity.
pub open spec fn supported(arch: ArchitectureFacts, capacity: usize) -> bool {
    &&& arch.hidden_size == HIDDEN
    &&& arch.intermediate_size == INTERMEDIATE
    &&& arch.num_hidden_layers == LAYERS
    &&& arch.vocab_size == VOCAB
    &&& arch.num_attention_heads == 16
    &&& arch.num_kv_heads_sliding == 8
    &&& arch.num_kv_heads_global == 1
    &&& arch.head_dim_sliding == 256
    &&& arch.head_dim_global == 512
    &&& arch.layer_types == LAYERS
    &&& arch.sliding_window_size == 1024
    &&& !arch.enable_moe_block
    &&& !arch.use_double_wide_mlp
    &&& arch.num_kv_shared_layers == 0
    &&& arch.hidden_size_per_layer_input == 0
    &&& arch.tie_word_embeddings
    &&& arch.attention_k_eq_v
    &&& arch.rope_theta_sliding_bits == ROPE_THETA_SLIDING_BITS
    &&& arch.rope_theta_global_bits == ROPE_THETA_GLOBAL_BITS
    &&& arch.partial_rotary_factor_global_bits == PARTIAL_ROTARY_BITS
    &&& arch.logit_softcap_bits == LOGIT_SOFTCAP_BITS
    &&& arch.rms_norm_eps_bits == RMS_NORM_EPS_BITS
    &&& (capacity == 64 || capacity == 1024)
}

pub fn validate_architecture(arch: &ArchitectureFacts, capacity: usize) -> (r: Result<(), String>)
    ensures
        match r {
            Ok(_) => supported(*arch, capacity),
            Err(e) => !supported(*arch, capacity) && e@
                == "ANE decoder currently requires the dense Gemma 4 12B architecture and a qualified 64- or 1024-token global context capacity"@,
        },
{
    if arch.hidden_size != HIDDEN || arch.intermediate_size != INTERMEDIATE
        || arch.num_hidden_layers != LAYERS || arch.vocab_size != VOCAB || arch.num_attention_heads
        != 16 || arch.num_kv_heads_sliding != 8 || arch.num_kv_heads_global != 1
        || arch.head_dim_sliding != 256 || arch.head_dim_global != 512 || arch.layer_types != LAYERS
        || arch.sliding_window_size != 1024 || arch.enable_moe_block || arch.use_double_wide_mlp
        || arch.num_kv_shared_layers != 0 || arch.hidden_size_per_layer_input != 0
        || !arch.tie_word_embeddings || !arch.attention_k_eq_v || arch.rope_theta_sliding_bits
        != ROPE_THETA_SLIDING_BITS || arch.rope_theta_global_bits != ROPE_THETA_GLOBAL_BITS
        || arch.partial_rotary_factor_global_bits != PARTIAL_ROTARY_BITS || arch.logit_softcap_bits
        != LOGIT_SOFTCAP_BITS || arch.rms_norm_eps_bits != RMS_NORM_EPS_BITS || !(capacity == 64
        || capacity == 1024) {
        return Err(
            "ANE decoder currently requires the dense Gemma 4 12B architecture and a qualified 64- or 1024-token global context capacity".to_owned(),
        );
    }
    Ok(())
}

} // verus!
