//! Runs of disaggregated inference, with a host in memory.
use rvllm_runtime::disagg::references::Reference;
use rvllm_runtime::disagg::run::{Run, RunCall, RunMode, RunReply};

fn mode(interleave: bool, interactive: bool, text_mode: bool) -> RunMode {
    RunMode {
        interleave,
        interactive,
        text_mode,
        capture_layers: true,
        capture_ffn_inputs: false,
        max_new_tokens: 3,
        context_capacity: 64,
    }
}

fn reference(prompt: usize, generated: &[u32]) -> Reference {
    Reference {
        path: Some(format!("ref-{prompt}.json")),
        prompt: vec![7; prompt],
        generated: Some(generated.to_vec()),
        max_new_tokens: generated.len(),
    }
}

struct Host {
    /// The tokens that prefills and decodes give, in order.
    tokens: Vec<u32>,
    lines: Vec<&'static str>,
    drift: usize,
    compiled: usize,
    log: Vec<String>,
}

fn host(tokens: &[u32]) -> Host {
    Host { tokens: tokens.to_vec(), lines: vec![], drift: 0, compiled: 0, log: vec![] }
}

impl Host {
    fn token(&mut self) -> u32 {
        self.tokens.remove(0)
    }

    fn run(&mut self, (mut run, mut call): (Run, RunCall)) -> Result<(), String> {
        let mut streamed = String::new();
        loop {
            let done = RunReply::Done { outcome: Ok(()) };
            let reply = match call {
                RunCall::PrefillReference { index } => {
                    self.log.push(format!("prefill {index}"));
                    RunReply::Prefilled { token: Ok(self.token()) }
                }
                RunCall::PrefillCurrent => {
                    self.log.push("prefill".into());
                    RunReply::Prefilled { token: Ok(self.token()) }
                }
                RunCall::LoadAne => {
                    self.log.push("load".into());
                    done
                }
                RunCall::ReadLine => {
                    let line = if self.lines.is_empty() { "" } else { self.lines.remove(0) };
                    let words = line.split_whitespace().count();
                    let tokens = if line.contains('!') {
                        Err("no".to_string())
                    } else {
                        Ok(vec![1; words])
                    };
                    RunReply::Line { bytes_read: line.len(), line: line.into(), tokens }
                }
                RunCall::RejectPrompt { message } => {
                    self.log.push(message);
                    done
                }
                RunCall::CountCompilerCalls => RunReply::Counted { calls: self.compiled },
                RunCall::Stream { token } => {
                    streamed.push_str(&format!("<{token}>"));
                    done
                }
                RunCall::Import => {
                    self.log.push("import".into());
                    done
                }
                RunCall::Decode { step } => {
                    self.log.push(format!(
                        "decode {} at {}{}",
                        step.input,
                        step.position,
                        if step.capture_layers { " captured" } else { "" }
                    ));
                    let token = self.token();
                    RunReply::Decoded { outcome: Ok((step.position + self.drift, token)) }
                }
                RunCall::Conclude => {
                    let text = Ok(format!("{streamed}."));
                    let own = std::mem::take(&mut streamed);
                    RunReply::Concluded { calls: self.compiled, text, streamed: own }
                }
                RunCall::SaveCase { matched, compiler_calls, tail } => {
                    self.log.push(format!("case {matched:?} {compiler_calls} {tail:?}"));
                    done
                }
                RunCall::SaveReport { report } => {
                    self.log.push(format!("report {}", report.qualification_complete));
                    done
                }
                RunCall::Close => {
                    self.log.push("close".into());
                    done
                }
                RunCall::Finish => return Ok(()),
                RunCall::Fail { error } => return Err(error),
            };
            call = run.resume(reply);
        }
    }
}

#[test]
fn phased_runs_prefill_first_and_load_when_needed() {
    let mut h = host(&[5, 9, 6]);
    let references = vec![reference(2, &[5, 6]), reference(4, &[9])];
    let run = Run::begin(mode(false, false, false), vec![9], references);
    assert_eq!(h.run(run), Ok(()));
    assert_eq!(
        h.log,
        [
            "prefill 0",
            "prefill 1",
            "load",
            "import",
            "decode 5 at 2 captured",
            "case Some(true) 0 None",
            "report false",
            "case Some(true) 0 None",
            "report true",
            "close"
        ]
    );
}

#[test]
fn a_mismatch_ends_the_run_after_its_report() {
    let mut h = host(&[5, 7]);
    let run = Run::begin(mode(true, false, false), vec![9], vec![reference(2, &[5, 6])]);
    assert_eq!(h.run(run), Err("ANE continuation differs from ref-2.json".to_string()));
    assert_eq!(h.log[h.log.len() - 2..], ["case Some(false) 0 None", "report false"]);
    let mut drifted = host(&[5, 6]);
    drifted.drift = 1;
    let run = Run::begin(mode(true, false, false), vec![9], vec![reference(2, &[5, 6])]);
    assert_eq!(drifted.run(run), Err("ANE position drift".to_string()));
}

#[test]
fn interactive_runs_stream_until_the_input_ends() {
    let mut h = host(&[5, 6, 9]);
    h.lines = vec!["\n", "bad!\n", "hello there\n"];
    let run = Run::begin(mode(true, true, true), vec![9], vec![]);
    assert_eq!(h.run(run), Ok(()));
    assert_eq!(
        h.log,
        [
            "load",
            "Prompt rejected: no",
            "prefill",
            "import",
            "decode 5 at 2 captured",
            "decode 6 at 3",
            "case None 0 Some(\".\")",
            "report false",
            "close"
        ]
    );
}

#[test]
fn prompts_that_do_not_fit_are_rejected() {
    let mut h = host(&[]);
    h.lines = vec!["a b c\n"];
    let mut small = mode(true, true, true);
    small.context_capacity = 4;
    let run = Run::begin(small, vec![9], vec![]);
    assert_eq!(h.run(run), Ok(()));
    assert_eq!(
        h.log[1],
        "Prompt rejected: 3 prompt tokens and output limit 3 exceed context capacity 4"
    );
}
