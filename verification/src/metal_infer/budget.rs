//! Token counts and budgets, from the command line, the environment or a case.
use crate::text::{
    cat2, cat3, cat6, decimal, decimal_text, fault_text, numeral, parse_numeral, quoted,
    quoted_text, told, trim_text, trimmed,
};
use vstd::prelude::*;

verus! {

pub const DEFAULT_MAX_METAL_TOTAL_TOKENS: usize = 2048;

/// A positive count, or why a text is not one.
pub open spec fn positive_count(flag: Seq<char>, raw: Seq<char>) -> Result<usize, Seq<char>> {
    match numeral(raw, usize::MAX as nat) {
        Err(f) => Err("invalid "@ + flag + " value "@ + quoted(raw) + ": "@ + fault_text(f)),
        Ok(value) => if value == 0 {
            Err(flag + " must be positive"@)
        } else {
            Ok(value as usize)
        },
    }
}

pub fn parse_positive_usize(flag: &str, raw: &str) -> (r: Result<usize, String>)
    ensures
        told(r) == positive_count(flag@, raw@),
{
    match parse_numeral(raw, usize::MAX as u64) {
        Err(f) => {
            let shown = quoted_text(raw);
            Err(cat6("invalid ", flag, " value ", shown.as_str(), ": ", f.text()))
        },
        Ok(value) => {
            if value == 0 {
                return Err(cat2(flag, " must be positive"));
            }
            Ok(value as usize)
        },
    }
}

/// Metadata holds counts as 32-bit integers.
pub open spec fn count_fits(label: Seq<char>, value: int) -> Result<(), Seq<char>> {
    if value > u32::MAX {
        Err(label + " must be at most "@ + decimal(u32::MAX as nat))
    } else {
        Ok(())
    }
}

pub fn validate_u32_count(label: &str, value: usize) -> (r: Result<(), String>)
    ensures
        told(r) == count_fits(label@, value as int),
{
    if value as u64 > u32::MAX as u64 {
        let limit = decimal_text(u32::MAX as u64);
        return Err(cat3(label, " must be at most ", limit.as_str()));
    }
    Ok(())
}

/// A positive count that metadata can hold.
pub open spec fn token_limit(flag: Seq<char>, raw: Seq<char>) -> Result<usize, Seq<char>> {
    match positive_count(flag, raw) {
        Err(message) => Err(message),
        Ok(value) => match count_fits(flag, value as int) {
            Err(message) => Err(message),
            Ok(_) => Ok(value),
        },
    }
}

pub fn parse_max_total_tokens(flag: &str, raw: &str) -> (r: Result<usize, String>)
    ensures
        told(r) == token_limit(flag@, raw@),
{
    let value: usize = match parse_positive_usize(flag, raw) {
        Ok(value) => value,
        Err(message) => {
            return Err(message);
        },
    };
    match validate_u32_count(flag, value) {
        Ok(_) => Ok(value),
        Err(message) => Err(message),
    }
}

/// A positive count that is rendered and read back is limited by its value
/// alone.
pub proof fn rendered_limit(flag: Seq<char>, value: usize)
    requires
        value > 0,
    ensures
        token_limit(flag, decimal(value as nat)) == match count_fits(flag, value as int) {
            Err(message) => Err::<usize, Seq<char>>(message),
            Ok(_) => Ok(value),
        },
{
    crate::text::numeral_of_decimal(value as nat, usize::MAX as nat);
}

/// What an environment variable holds.
#[derive(Debug)]
pub enum EnvValue {
    Missing,
    NotUnicode,
    Text(String),
}

pub open spec fn env_limit(name: Seq<char>, value: EnvValue) -> Result<Option<usize>, Seq<char>> {
    match value {
        EnvValue::Missing => Ok(None),
        EnvValue::NotUnicode => Err(name + " must be valid UTF-8"@),
        EnvValue::Text(raw) => match token_limit(name, trimmed(raw@)) {
            Ok(limit) => Ok(Some(limit)),
            Err(message) => Err(message),
        },
    }
}

/// The limit that the environment configures: the current variable, or the
/// older one where the current one is missing.
pub open spec fn configured_limit(current: EnvValue, legacy: EnvValue) -> Result<
    Option<usize>,
    Seq<char>,
> {
    if current is Missing {
        env_limit("RVLLM_METAL_MAX_PROBE_TOKENS"@, legacy)
    } else {
        env_limit("RVLLM_METAL_MAX_TOTAL_TOKENS"@, current)
    }
}

fn read_limit(name: &str, value: &EnvValue) -> (r: Result<Option<usize>, String>)
    ensures
        told(r) == env_limit(name@, *value),
{
    match value {
        EnvValue::Missing => Ok(None),
        EnvValue::NotUnicode => Err(cat2(name, " must be valid UTF-8")),
        EnvValue::Text(raw) => {
            let text = trim_text(raw.as_str());
            match parse_max_total_tokens(name, text.as_str()) {
                Ok(limit) => Ok(Some(limit)),
                Err(message) => Err(message),
            }
        },
    }
}

pub fn env_configured_max_total_tokens(current: &EnvValue, legacy: &EnvValue) -> (r: Result<
    Option<usize>,
    String,
>)
    ensures
        told(r) == configured_limit(*current, *legacy),
{
    match current {
        EnvValue::Missing => read_limit("RVLLM_METAL_MAX_PROBE_TOKENS", legacy),
        _ => read_limit("RVLLM_METAL_MAX_TOTAL_TOKENS", current),
    }
}

/// The default limit: what is configured, or 2048, and never less than what is
/// required.
pub open spec fn default_limit(configured: Option<usize>, required: usize) -> usize {
    let base = match configured {
        Some(limit) => limit,
        None => DEFAULT_MAX_METAL_TOTAL_TOKENS,
    };
    if base >= required {
        base
    } else {
        required
    }
}

pub fn default_max_total_tokens(
    required_total_tokens: usize,
    current: &EnvValue,
    legacy: &EnvValue,
) -> (r: Result<usize, String>)
    ensures
        told(r) == match configured_limit(*current, *legacy) {
            Ok(configured) => Ok::<usize, Seq<char>>(default_limit(configured, required_total_tokens)),
            Err(message) => Err(message),
        },
{
    match env_configured_max_total_tokens(current, legacy) {
        Ok(configured) => {
            let base: usize = match configured {
                Some(limit) => limit,
                None => DEFAULT_MAX_METAL_TOTAL_TOKENS,
            };
            if base >= required_total_tokens {
                Ok(base)
            } else {
                Ok(required_total_tokens)
            }
        },
        Err(message) => Err(message),
    }
}

/// An explicit limit stands; otherwise the default applies.
pub open spec fn effective_limit(
    explicit: Option<usize>,
    required: usize,
    current: EnvValue,
    legacy: EnvValue,
) -> Result<usize, Seq<char>> {
    match explicit {
        Some(limit) => Ok(limit),
        None => match configured_limit(current, legacy) {
            Ok(configured) => Ok(default_limit(configured, required)),
            Err(message) => Err(message),
        },
    }
}

pub fn effective_max_total_tokens(
    max_total_tokens: Option<usize>,
    required_total_tokens: usize,
    current: &EnvValue,
    legacy: &EnvValue,
) -> (r: Result<usize, String>)
    ensures
        told(r) == effective_limit(max_total_tokens, required_total_tokens, *current, *legacy),
{
    match max_total_tokens {
        Some(limit) => Ok(limit),
        None => default_max_total_tokens(required_total_tokens, current, legacy),
    }
}

/// Whether a prompt and its new tokens fit a limit.
pub open spec fn token_budget(prompt_len: usize, max_new_tokens: usize, max_total_tokens: usize) -> Result<
    (),
    Seq<char>,
> {
    let total = prompt_len + max_new_tokens;
    if prompt_len == 0 {
        Err("Metal prompt must contain at least one token"@)
    } else if max_new_tokens == 0 {
        Err("Metal max_new_tokens must be positive"@)
    } else if count_fits("Metal max_total_tokens"@, max_total_tokens as int) is Err {
        Err(count_fits("Metal max_total_tokens"@, max_total_tokens as int)->Err_0)
    } else if total > usize::MAX {
        Err("Metal token budget overflow"@)
    } else if count_fits("Metal total token count"@, total as int) is Err {
        Err(count_fits("Metal total token count"@, total as int)->Err_0)
    } else if total > max_total_tokens {
        Err(
            "current Metal E2B workflow supports prompt token count + max_new_tokens <= "@
                + decimal(max_total_tokens as nat) + "; got "@ + decimal(prompt_len as nat) + " + "@
                + decimal(max_new_tokens as nat),
        )
    } else {
        Ok(())
    }
}

pub fn validate_token_budget(prompt_len: usize, max_new_tokens: usize, max_total_tokens: usize) -> (r:
    Result<(), String>)
    ensures
        told(r) == token_budget(prompt_len, max_new_tokens, max_total_tokens),
{
    if prompt_len == 0 {
        return Err("Metal prompt must contain at least one token".to_owned());
    }
    if max_new_tokens == 0 {
        return Err("Metal max_new_tokens must be positive".to_owned());
    }
    match validate_u32_count("Metal max_total_tokens", max_total_tokens) {
        Err(message) => {
            return Err(message);
        },
        Ok(_) => {},
    }
    if max_new_tokens > usize::MAX - prompt_len {
        return Err("Metal token budget overflow".to_owned());
    }
    let total_tokens: usize = prompt_len + max_new_tokens;
    match validate_u32_count("Metal total token count", total_tokens) {
        Err(message) => {
            return Err(message);
        },
        Ok(_) => {},
    }
    if total_tokens > max_total_tokens {
        let limit = decimal_text(max_total_tokens as u64);
        let prompt = decimal_text(prompt_len as u64);
        let fresh = decimal_text(max_new_tokens as u64);
        return Err(
            cat6(
                "current Metal E2B workflow supports prompt token count + max_new_tokens <= ",
                limit.as_str(),
                "; got ",
                prompt.as_str(),
                " + ",
                fresh.as_str(),
            ),
        );
    }
    Ok(())
}

/// A budget that is accepted keeps every position below the limit and every
/// count within 32 bits.
pub proof fn accepted_budgets_fit(prompt_len: usize, max_new_tokens: usize, max_total_tokens: usize)
    requires
        token_budget(prompt_len, max_new_tokens, max_total_tokens) is Ok,
    ensures
        0 < prompt_len,
        0 < max_new_tokens,
        prompt_len + max_new_tokens <= max_total_tokens <= u32::MAX,
{
}

} // verus!
