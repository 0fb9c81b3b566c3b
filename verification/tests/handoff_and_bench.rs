//! The prefill handoff's verifier and the paired benchmark.
use rvllm_runtime::bench::{block_order, block_pairs, next_random};
use rvllm_runtime::disagg::prefill_case::{PrefillAnswer, PrefillCounters};
use rvllm_runtime::handoff::{
    check_captured, check_continuation, check_layer, check_layouts, check_start, check_vocabulary,
    continuation_position, count_nonzero, emit_layout, layout_stem, load_reference_tokens,
    parse_ids, parse_options, tensor_file, CacheShape, ContinuationDecode, VerifiedContinuation,
};

fn strings(list: &[&str]) -> Vec<String> {
    list.iter().map(|s| s.to_string()).collect()
}

#[test]
fn options_need_a_prompt_that_fits() {
    let good = parse_options(&strings(&[
        "--model-dir",
        "/m",
        "--output-dir",
        "/o",
        "--prompt-token-ids",
        "2,+3,4",
        "--max-total-tokens",
        "96",
    ]))
    .unwrap();
    assert_eq!(good.prompt, [2, 3, 4]);
    assert_eq!(good.capacity, 96);
    assert!(good.check().is_ok());
    let check = |list: &[&str]| parse_options(&strings(list)).unwrap().check().unwrap_err();
    assert_eq!(check(&[]), "--model-dir is required");
    assert_eq!(check(&["--model-dir", "/m"]), "--output-dir is required");
    let prompt = "provide nonempty --prompt-token-ids within a 32-aligned --max-total-tokens";
    let base = ["--model-dir", "/m", "--output-dir", "/o"];
    let with = |more: &[&str]| {
        let list: Vec<&str> = base.iter().chain(more).copied().collect();
        check(&list)
    };
    assert_eq!(with(&[]), prompt);
    assert_eq!(with(&["--prompt-token-ids", "1", "--max-total-tokens", "33"]), prompt);
    assert_eq!(with(&["--prompt-token-ids", "1", "--max-total-tokens", "0"]), prompt);
    let error = |list: &[&str]| parse_options(&strings(list)).unwrap_err();
    assert_eq!(error(&["--model-dir"]), "missing value for --model-dir");
    assert_eq!(error(&["--x", "1"]), "unknown option --x");
    assert_eq!(error(&["--max-total-tokens", "-1"]), "invalid digit found in string");
    assert_eq!(parse_ids("1,,2").unwrap_err(), "cannot parse integer from empty string");
}

#[test]
fn references_continue_the_prompt() {
    let load = |text: &str, capacity| load_reference_tokens(text.as_bytes(), &vec![2, 3], capacity);
    let good = "{\"prompt_token_ids\":[2,3],\"generated_tokens\":[7,8]}";
    assert_eq!(load(good, 3), Ok(vec![7, 8]));
    assert_eq!(
        load(good, 2),
        Err("reference continuation exceeds --max-total-tokens".to_string())
    );
    let other = "{\"prompt_token_ids\":[2],\"generated_tokens\":[7]}";
    assert_eq!(
        load(other, 9),
        Err("reference prompt IDs do not match --prompt-token-ids".to_string())
    );
    let empty = "{\"prompt_token_ids\":[2,3],\"generated_tokens\":[]}";
    assert_eq!(load(empty, 9), Err("reference has no generated token".to_string()));
    assert!(load("{}", 9).is_err());
    assert!(load("[", 9).is_err());
}

#[test]
fn tokens_are_known_and_stop_late() {
    let check = |prompt: &[u32], generated: Option<Vec<u32>>| {
        check_vocabulary(&prompt.to_vec(), &generated, 10, &vec![9])
    };
    assert!(check(&[1, 2], Some(vec![3, 9])).is_ok());
    assert!(check(&[1, 9], None).is_ok());
    assert_eq!(
        check(&[10], None),
        Err("prompt token is outside the checkpoint vocabulary".to_string())
    );
    let invalid = "reference contains an invalid token or continues after model EOS";
    assert_eq!(check(&[1], Some(vec![9, 3])), Err(invalid.to_string()));
    assert_eq!(check(&[1], Some(vec![10])), Err(invalid.to_string()));
}

#[test]
fn prefills_are_one_command_at_the_prompts_end() {
    let once = PrefillCounters { prefill_steps: 1, decode_steps: 0, command_buffers: 1 };
    let answer = PrefillAnswer { req_id: 1, next_position: 4, first_token: 42 };
    assert!(check_start(once, answer, 1, 4, Some(42)).is_ok());
    assert!(check_start(once, answer, 1, 4, None).is_ok());
    assert_eq!(
        check_start(once, answer, 1, 4, Some(7)),
        Err("first prefill token 42 differs from reference Some(7)".to_string())
    );
    assert!(check_start(once, answer, 2, 4, None).is_err());
    assert!(check_start(once, answer, 1, 5, None).is_err());
    let twice = PrefillCounters { command_buffers: 2, ..once };
    assert!(check_start(twice, answer, 1, 4, None).is_err());
}

#[test]
fn layers_have_their_shape_and_are_not_empty() {
    let shape = CacheShape {
        query_heads: 16,
        kv_heads: 8,
        head_dim: 256,
        sliding_window: Some(1024),
    };
    let global = CacheShape { sliding_window: None, ..shape };
    assert!(check_layer(3, shape, shape, 1, 1).is_ok());
    assert_eq!(
        check_layer(3, shape, global, 1, 1),
        Err("layer 3 cache shape disagrees with checkpoint".to_string())
    );
    assert_eq!(
        check_layer(3, shape, shape, 0, 1),
        Err("layer 3 exported an empty key or value tensor".to_string())
    );
    assert!(check_layouts(48, 48).is_ok());
    assert_eq!(
        check_layouts(47, 48),
        Err("checkpoint layer types disagree with layer count".to_owned())
    );
    assert!(check_captured(48, 48).is_ok());
    assert_eq!(
        check_captured(47, 48),
        Err("captured layer count disagrees with checkpoint".to_owned())
    );
    assert_eq!(count_nonzero(&vec![0, 0x8000, 1, 0x3c00]), 2);
    assert_eq!(tensor_file(7, true), "layer-07-values.fp16");
    assert_eq!(tensor_file(17, false), "layer-17-keys.fp16");
    assert_eq!(layout_stem(shape, 1024), "attention-h16-kv8-d256-c1024");
    let mut emitted = vec![];
    assert!(emit_layout(&mut emitted, shape, 64));
    assert!(!emit_layout(&mut emitted, global, 64));
    assert!(emit_layout(&mut emitted, shape, 1024));
}

#[test]
fn continuations_are_compared_token_by_token() {
    assert_eq!(check_continuation(&vec![(1, 8)], 1, 8, 5), Ok(8));
    assert_eq!(
        check_continuation(&vec![(1, 9)], 1, 8, 5),
        Err("Metal continuation token 9 at position 5 differs from reference 8".to_string())
    );
    assert!(check_continuation(&vec![(2, 8)], 1, 8, 5).is_err());
    assert!(check_continuation(&vec![], 1, 8, 5).is_err());
    assert_eq!(continuation_position(4, 1), Ok(4));
    assert!(continuation_position(1 << 32, 1).is_err());
}

#[test]
fn benchmark_blocks_are_mirrored() {
    assert_eq!(block_order(0), [false, true, true, false]);
    assert_eq!(block_order(1), [true, false, false, true]);
    let (first, second) = block_pairs(0, 8);
    assert_eq!((first.baseline, first.candidate), (8, 9));
    assert_eq!((second.baseline, second.candidate), (11, 10));
    let (first, second) = block_pairs(1, 4);
    assert_eq!((first.baseline, first.candidate), (5, 4));
    assert_eq!((second.baseline, second.candidate), (6, 7));
    assert_eq!(
        next_random(7),
        7_u64.wrapping_mul(6364136223846793005).wrapping_add(1)
    );
}

#[test]
fn continuations_follow_their_reference() {
    let mut c = VerifiedContinuation::begin(4, 1, 7, vec![7, 8, 9]);
    let first = c.next().unwrap().unwrap();
    assert_eq!(first, ContinuationDecode { token: 7, position: 4 });
    assert!(c.accept(first, &vec![(1, 5)]).is_err());
    assert_eq!(c.generated(), &[7]);
    c.accept(first, &vec![(1, 8)]).unwrap();
    let second = c.next().unwrap().unwrap();
    assert_eq!(second, ContinuationDecode { token: 8, position: 5 });
    c.accept(second, &vec![(1, 9)]).unwrap();
    assert_eq!(c.next(), Ok(None));
    assert_eq!(c.generated(), &[7, 8, 9]);
}
