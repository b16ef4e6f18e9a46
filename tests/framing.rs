use mer_driver::{Ending, Failure, Output, Phase, Relay, Tokens};

fn tokens() -> Tokens {
    Tokens::from_strs("@!#READY#!@", "@!#START#!@", "@!#STOP#!@", "@!#EXIT#!@")
}

fn diag(s: &str) -> Output {
    Output::Diagnostic(s.to_string())
}

fn resp(s: &str) -> Output {
    Output::Response(s.to_string())
}

fn ready_relay() -> Relay {
    let mut r = Relay::new(tokens());
    assert_eq!(r.on_stdout("@!#READY#!@"), vec![]);
    r
}

#[test]
fn noise_before_ready_is_diagnostic() {
    let mut r = Relay::new(tokens());
    assert_eq!(r.on_stdout("loading weights\n"), vec![diag("loading weights\n")]);
    assert_eq!(r.phase(), Phase::AwaitingReady);
    assert!(!r.is_ready());
    assert_eq!(r.on_request("too early"), None);
    assert_eq!(r.on_stdout("done @!#READY#!@\n"), vec![diag("\n")]);
    assert_eq!(r.phase(), Phase::Ready);
    assert!(r.is_ready());
}

#[test]
fn ping_comes_back_stripped() {
    let mut r = Relay::new(tokens());
    r.on_stdout("@!#READY#!@\n");
    let w = r.on_request("ping");
    assert_eq!(w, Some("@!#START#!@ping@!#STOP#!@".to_string()));
    assert_eq!(r.phase(), Phase::Active);
    let out = r.on_stdout("@!#START#!@ping@!#STOP#!@");
    assert_eq!(out, vec![resp("ping")]);
}

#[test]
fn same_request_twice_same_response() {
    let mut r = ready_relay();
    let mut answers = Vec::new();
    for _ in 0..2 {
        let w = r.on_request("hello").unwrap();
        answers.push((w.clone(), r.on_stdout(&w)));
    }
    assert_eq!(answers[0], answers[1]);
    assert_eq!(answers[0].1, vec![resp("hello")]);
}

#[test]
fn noise_around_brackets_goes_to_diagnostics() {
    let mut r = ready_relay();
    assert_eq!(r.on_stdout("log line @!#START#!@ans"), vec![diag("log line ")]);
    assert_eq!(r.on_stdout("wer@!#STOP#!@ tail"), vec![resp("answer"), diag(" tail")]);
    assert_eq!(r.on_stdout("plain output"), vec![diag("plain output")]);
}

#[test]
fn stop_token_split_across_chunks() {
    let mut r = ready_relay();
    assert_eq!(r.on_stdout("@!#START#!@multi\nline@!#ST"), vec![]);
    assert_eq!(r.on_stdout("OP#!@"), vec![resp("multi\nline")]);
}

#[test]
fn two_responses_in_one_chunk() {
    let mut r = ready_relay();
    let out = r.on_stdout("@!#START#!@a@!#STOP#!@-@!#START#!@b@!#STOP#!@");
    assert_eq!(out, vec![resp("a"), diag("-"), resp("b")]);
}

#[test]
fn ready_token_rest_is_scanned() {
    let mut r = Relay::new(tokens());
    let out = r.on_stdout("boot@!#READY#!@x@!#START#!@y@!#STOP#!@");
    assert_eq!(out, vec![diag("x"), resp("y")]);
}

#[test]
fn stderr_is_raw_diagnostic() {
    let r = ready_relay();
    assert_eq!(r.on_stderr("@!#START#!@warn"), vec![diag("@!#START#!@warn")]);
    assert_eq!(r.on_stderr(""), vec![]);
}

#[test]
fn exit_token_shuts_down() {
    let mut r = ready_relay();
    assert_eq!(r.on_request("@!#EXIT#!@"), Some("@!#EXIT#!@".to_string()));
    assert_eq!(r.phase(), Phase::Closing);
    assert_eq!(r.on_request("more"), None);
    assert_eq!(r.on_stdout("bye"), vec![diag("bye")]);
    assert_eq!(r.on_end(Ending::Exited { success: false }), vec![]);
    assert_eq!(r.phase(), Phase::Terminated);
    assert!(r.is_finished());
    assert_eq!(r.on_stdout("late"), vec![]);
    assert_eq!(r.on_stderr("late"), vec![]);
    assert_eq!(r.on_request("again"), None);
}

#[test]
fn exit_before_ready_fails() {
    let mut r = Relay::new(tokens());
    r.on_end(Ending::Exited { success: true });
    assert_eq!(r.phase(), Phase::Failed(Failure::ExitedBeforeReady));
}

#[test]
fn failing_exit_while_serving_fails() {
    let mut r = ready_relay();
    r.on_request("q");
    r.on_end(Ending::Exited { success: false });
    assert_eq!(r.phase(), Phase::Failed(Failure::ExitStatus));
}

#[test]
fn clean_exit_while_serving_terminates() {
    let mut r = ready_relay();
    r.on_end(Ending::Exited { success: true });
    assert_eq!(r.phase(), Phase::Terminated);
}

#[test]
fn stream_error_fails_and_keeps_open_bracket() {
    let mut r = ready_relay();
    assert_eq!(r.on_stdout("@!#START#!@partial"), vec![]);
    assert_eq!(r.on_end(Ending::StreamError), vec![diag("@!#START#!@partial")]);
    assert_eq!(r.phase(), Phase::Failed(Failure::StreamError));
    assert_eq!(r.on_stdout("x"), vec![]);
}

#[test]
fn interleaved_stream_keeps_every_payload() {
    let mut r = ready_relay();
    let chunks = ["noise @!#STA", "RT#!@p1@!#STOP#!@ log\n@!#START#!@p", "2@!#STO", "P#!@tail", "@!#START#!@p3@!#STOP#!@"];
    let mut responses = Vec::new();
    let mut noise = String::new();
    for c in chunks {
        for o in r.on_stdout(c) {
            match o {
                Output::Response(p) => responses.push(p),
                Output::Diagnostic(d) => noise.push_str(&d),
            }
        }
    }
    assert_eq!(responses, vec!["p1".to_string(), "p2".to_string(), "p3".to_string()]);
    assert_eq!(noise, "noise  log\ntail");
}

#[test]
fn held_back_text_is_flushed_at_end() {
    let mut r = ready_relay();
    assert_eq!(r.on_stdout("abc@!#S"), vec![diag("abc")]);
    assert_eq!(r.on_stdout("X"), vec![diag("@!#SX")]);
    assert_eq!(r.on_stdout("def@!#"), vec![diag("def")]);
    assert_eq!(r.on_end(Ending::Exited { success: true }), vec![diag("@!#")]);
    assert_eq!(r.phase(), Phase::Terminated);
}
