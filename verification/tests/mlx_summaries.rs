//! Summaries of MLX benchmark queues.
use rvllm_runtime::mlx::benchmark::{
    order_statistics, parse_averages, parse_benchmark_stdout, parse_fields, parse_trial,
    required_field, Trial,
};
use rvllm_runtime::mlx::queue_summary::{
    argument, numeric_argument, parse_job, parse_report, push_unique_stratum, summarize_job,
    validate_summary, JobSummary, StdoutRead,
};
use serde_json::Value;

fn value(text: &str) -> Value {
    serde_json::from_str(text).unwrap()
}

fn strings(list: &[&str]) -> Vec<String> {
    list.iter().map(|s| s.to_string()).collect()
}

const OUTPUT: &str = r#"
Running warmup..
Timing with prompt_tokens=256, generation_tokens=64, batch_size=1.
Trial 1:  prompt_tps=94.494, generation_tps=2.583, peak_memory=24.066, total_time=27.503
Trial 2:  prompt_tps=73.956, generation_tps=3.387, peak_memory=24.067, total_time=22.371
Averages: prompt_tps=84.225, generation_tps=2.985, peak_memory=24.067
"#;

#[test]
fn parses_mlx_trials_and_reported_averages() {
    let (trials, averages) = parse_benchmark_stdout(OUTPUT).unwrap();
    assert_eq!(trials.len(), 2);
    assert_eq!(trials[0].trial, 1);
    assert_eq!(f64::from_bits(trials[1].total_time), 22.371);
    assert_eq!(f64::from_bits(averages.unwrap().generation_tps), 2.985);
}

#[test]
fn calculates_all_distributions_from_trials() {
    let (trials, _) = parse_benchmark_stdout(OUTPUT).unwrap();
    let of = |pick: fn(&Trial) -> u64| {
        order_statistics(&trials.iter().map(pick).collect()).unwrap()
    };
    let prompt = of(|t| t.prompt_tps);
    assert_eq!(f64::from_bits(prompt.least), 73.956);
    assert_eq!(
        (f64::from_bits(prompt.lower_middle) + f64::from_bits(prompt.upper_middle)) / 2.0,
        (73.956 + 94.494) / 2.0
    );
    assert_eq!(f64::from_bits(prompt.greatest), 94.494);
    let total = of(|t| t.total_time);
    assert_eq!(f64::from_bits(total.least), 22.371);
    assert_eq!(f64::from_bits(total.greatest), 27.503);
    assert!(order_statistics(&vec![]).is_none());
}

#[test]
fn order_statistics_follow_the_numbers_not_the_bits() {
    let list: Vec<u64> = [2.0_f64, -3.0, 10.0, 0.5].iter().map(|x| x.to_bits()).collect();
    let found = order_statistics(&list).unwrap();
    let of = |bits: u64| f64::from_bits(bits);
    assert_eq!((of(found.least), of(found.greatest)), (-3.0, 10.0));
    assert_eq!((of(found.lower_middle), of(found.upper_middle)), (0.5, 2.0));
}

#[test]
fn rejects_missing_and_non_finite_metrics() {
    let missing = "Trial 1: prompt_tps=1, generation_tps=2, peak_memory=3\n";
    assert!(parse_benchmark_stdout(missing).unwrap_err().contains("missing total_time"));
    let infinite = "Trial 1: prompt_tps=inf, generation_tps=2, peak_memory=3, total_time=4\n";
    assert!(parse_benchmark_stdout(infinite).unwrap_err().contains("finite non-negative"));
}

#[test]
fn rejects_duplicate_trial_numbers() {
    let duplicate = "Trial 1: prompt_tps=1, generation_tps=2, peak_memory=3, total_time=4\n\
                     Trial 1: prompt_tps=5, generation_tps=6, peak_memory=7, total_time=8\n";
    assert_eq!(parse_benchmark_stdout(duplicate).unwrap_err(), "duplicate Trial 1");
}

#[test]
fn fields_are_read_one_by_one() {
    let fields = parse_fields(" a=1.5, b=2 ").unwrap();
    assert_eq!(fields.len(), 2);
    assert_eq!(f64::from_bits(required_field(&fields, "a").unwrap()), 1.5);
    assert!(required_field(&fields, "c").unwrap_err().contains("missing c"));
    assert!(parse_fields("a=x").is_err());
    assert!(parse_fields("a=-1").is_err());
    assert!(parse_fields("a=nan").is_err());
    assert!(parse_fields("a").is_err());
    assert!(parse_trial(" x: a=1").is_err());
    assert!(parse_trial(" 1 a=1").unwrap_err().starts_with("malformed Trial line"));
    let averages = parse_averages(" prompt_tps=1, generation_tps=2, peak_memory=3").unwrap();
    assert_eq!(averages.total_time, None);
}

#[test]
fn reads_both_argument_forms() {
    let args = strings(&["--model=/models/gemma", "--prompt-tokens", "256"]);
    assert_eq!(argument(&args, "--model").as_deref(), Some("/models/gemma"));
    assert_eq!(argument(&args, "--prompt-tokens").as_deref(), Some("256"));
    assert_eq!(argument(&args, "--num-trials"), None);
}

#[test]
fn numeric_arguments_report_what_they_cannot_read() {
    let mut errors = vec![];
    let args = strings(&["--a=7", "--b", "x"]);
    assert_eq!(numeric_argument(&args, "--a", &mut errors), Some(7));
    assert!(errors.is_empty());
    assert_eq!(numeric_argument(&args, "--b", &mut errors), None);
    assert_eq!(errors.len(), 1);
    assert_eq!(numeric_argument(&args, "--c", &mut errors), None);
}

fn empty_job_summary() -> JobSummary {
    JobSummary::new("directory-name", "/results/directory-name")
}

#[test]
fn parses_job_identity_and_work_shape() {
    let job = value(
        r#"{
            "id":"mlx-q4-1024",
            "command":{"args":["-m","mlx_lm.benchmark","--model","/m/q4",
                "--prompt-tokens=1024","--generation-tokens","64","--num-trials","7"]}
        }"#,
    );
    let mut summary = empty_job_summary();
    parse_job(&job, &mut summary);
    assert_eq!(summary.id, "mlx-q4-1024");
    assert_eq!(summary.model.as_deref(), Some("/m/q4"));
    assert_eq!(summary.prompt_tokens, Some(1024));
    assert_eq!(summary.generation_tokens, Some(64));
    assert_eq!(summary.requested_trials, Some(7));
    assert!(summary.errors.is_empty());
}

#[test]
fn parses_report_eligibility_and_all_observed_strata() {
    let report = value(
        r#"{
            "status":"rejected", "exit_code":0, "sampled_conditions_eligible":false,
            "measurement":{
                "sampled_controls_eligible":false,
                "comparison_stratum":null,
                "start_host":{"thermal_state":0,"low_power_mode":true},
                "end_host":{"thermal_state":1,"low_power_mode":true},
                "power_samples":[
                    {"controls":{"thermal_state":0,"low_power_mode":true}},
                    {"controls":{"thermal_state":1,"low_power_mode":true}}
                ]
            }
        }"#,
    );
    let mut summary = empty_job_summary();
    parse_report(&report, &mut summary);
    assert_eq!(summary.status, "rejected");
    assert_eq!(summary.sampled_conditions_eligible, Some(false));
    assert_eq!(summary.sampled_controls_eligible, Some(false));
    assert_eq!(summary.exit_code, Some(0));
    assert_eq!(summary.observed_strata.len(), 2);
}

#[test]
fn validates_required_identity_trial_count_and_terminal_averages() {
    let mut summary = empty_job_summary();
    summary.status = "rejected".to_owned();
    summary.requested_trials = Some(2);
    summary.trials.push(Trial {
        trial: 1,
        prompt_tps: 1.0_f64.to_bits(),
        generation_tps: 2.0_f64.to_bits(),
        peak_memory: 3.0_f64.to_bits(),
        total_time: 4.0_f64.to_bits(),
    });
    validate_summary(&mut summary);
    assert!(summary.errors.iter().any(|error| error.contains("--model")));
    assert!(summary.errors.iter().any(|error| error.contains("trial count mismatch")));
    assert!(summary.errors.iter().any(|error| error.contains("missing reported Averages")));
}

#[test]
fn strata_are_kept_once() {
    let mut strata = vec![];
    push_unique_stratum(&mut strata, Some(&value("{\"a\":1}")));
    push_unique_stratum(&mut strata, Some(&value("{\"a\":1}")));
    push_unique_stratum(&mut strata, Some(&Value::Null));
    push_unique_stratum(&mut strata, None);
    push_unique_stratum(&mut strata, Some(&value("{\"a\":2}")));
    assert_eq!(strata.len(), 2);
}

#[test]
fn jobs_are_summarised_from_their_files() {
    let job = br#"{"id":"j","command":{"args":["--model","/m","--prompt-tokens","256",
        "--generation-tokens","64","--num-trials","2"]}}"#
        .to_vec();
    let report = br#"{"status":"succeeded","exit_code":0}"#.to_vec();
    let summary = summarize_job(
        "j",
        "/results/j",
        &Ok(job.clone()),
        &Ok(report.clone()),
        &StdoutRead::Text(OUTPUT.into()),
    );
    assert_eq!((summary.id.as_str(), summary.trials.len()), ("j", 2));
    assert!(summary.reported_averages.is_some());
    let broken = summarize_job(
        "j",
        "/results/j",
        &Err("denied".into()),
        &Ok(report),
        &StdoutRead::Missing,
    );
    assert!(broken.errors.iter().any(|e| e.contains("denied")));
    let unreadable = summarize_job(
        "j",
        "/results/j",
        &Ok(job),
        &Ok(b"{".to_vec()),
        &StdoutRead::Unreadable("io".into()),
    );
    assert!(unreadable.errors.iter().any(|e| e.starts_with("parse ")));
}
