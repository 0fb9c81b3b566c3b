//! What the decoder requires of a model's `config.json`.
use crate::json::{
    at, bool_at, json_bytes_document, json_model, member, member_flag, member_text, parse_bytes,
    text_at, JsonModel,
};
use crate::text::same;
use vstd::prelude::*;

verus! {

/// The text model's part of a configuration: a member of its own, or the whole.
pub open spec fn text_config(config: JsonModel) -> JsonModel {
    match at(config, "text_config"@) {
        Some(text) => text,
        None => config,
    }
}

/// Tanh GELU and projections without bias.
pub open spec fn config_supported(config: JsonModel) -> bool {
    text_at(text_config(config), "hidden_activation"@) == Some("gelu_pytorch_tanh"@) && bool_at(
        text_config(config),
        "attention_bias"@,
    ) == Some(false)
}

pub open spec fn config_outcome(document: Result<JsonModel, Seq<char>>) -> Result<(), Seq<char>> {
    match document {
        Err(message) => Err(message),
        Ok(config) => if config_supported(config) {
            Ok(())
        } else {
            Err("ANE Gemma decode requires tanh GELU and bias-free projections"@)
        },
    }
}

/// Checks a parsed configuration.
pub fn check_config(config: &serde_json::Value) -> (r: Result<(), String>)
    ensures
        crate::text::told(r) == config_outcome(Ok(json_model(*config))),
{
    let text = match member(config, "text_config") {
        Some(text) => text,
        None => config,
    };
    let tanh = match member_text(text, "hidden_activation") {
        Some(activation) => same(activation, "gelu_pytorch_tanh"),
        None => false,
    };
    let unbiased = match member_flag(text, "attention_bias") {
        Some(bias) => !bias,
        None => false,
    };
    if !tanh || !unbiased {
        return Err("ANE Gemma decode requires tanh GELU and bias-free projections".to_owned());
    }
    Ok(())
}

/// Checks the bytes of a configuration file.
pub fn validate_config(bytes: &[u8]) -> (r: Result<(), String>)
    ensures
        crate::text::told(r) == config_outcome(json_bytes_document(bytes@)),
{
    match parse_bytes(bytes) {
        Ok(config) => check_config(&config),
        Err(error) => Err(error),
    }
}

} // verus!
