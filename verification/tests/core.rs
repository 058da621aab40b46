use embodi::api::{health, not_found_message, routes, Method};
use embodi::demux::{
    process_chunk, stream_step, Channel, Chunk, StreamEffect, StreamEvent, StreamState,
};
use embodi::register::{make_registration, platform_label, Platform, Repo};
use embodi::run::{is_image_absent, run_action, run_step, EngineFailure, RunAction, RunState,
    RunEvent};

fn repo() -> Repo {
    Repo {
        owner: String::from("acme"),
        name: String::from("widget"),
        platform: Platform::GitHub,
        token: String::from("t"),
    }
}

fn failure(code: Option<u16>, message: &str) -> EngineFailure {
    EngineFailure { code, message: String::from(message) }
}

#[test]
fn isolation_between_keys() {
    let line = Chunk::Stdout(b"[k1] hello".to_vec());
    let seen = process_chunk("k2", &line);
    assert!(seen.is_none());
    let seen_by_owner = process_chunk("k1", &line).unwrap();
    assert_eq!(seen_by_owner.channel, Channel::Output);
    assert_eq!(seen_by_owner.payload, "hello");
}

#[test]
fn isolation_prefix_of_key() {
    // A key that is a prefix of the addressed key never yields the
    // addressed payload.
    let line = Chunk::Stdout(b"[abc] hello".to_vec());
    match process_chunk("ab", &line) {
        None => {}
        Some(ev) => assert_ne!(ev.payload, "hello"),
    }
}

#[test]
fn output_payload_is_trimmed() {
    let line = Chunk::Stdout(b"[key]   padded value  ".to_vec());
    let ev = process_chunk("key", &line).unwrap();
    assert_eq!(ev.channel, Channel::Output);
    assert_eq!(ev.payload, "padded value");
    // Re-trimming changes nothing: the payload is already trimmed.
    let again = Chunk::Stdout(format!("[key] {}", ev.payload).into_bytes());
    assert_eq!(process_chunk("key", &again).unwrap().payload, ev.payload);
}

#[test]
fn output_empty_remainder() {
    let line = Chunk::Stdout(b"[key]".to_vec());
    let ev = process_chunk("key", &line).unwrap();
    assert_eq!(ev.payload, "");
}

#[test]
fn unprefixed_output_dropped() {
    assert!(process_chunk("key", &Chunk::Stdout(b"no prefix here".to_vec())).is_none());
    assert!(process_chunk("key", &Chunk::Stdout(b"".to_vec())).is_none());
    assert!(process_chunk("key", &Chunk::Stdin(b"[key] typed".to_vec())).is_none());
}

#[test]
fn stderr_passes_through_unmodified() {
    let ev = process_chunk("key", &Chunk::Stderr(b"warn: slow disk".to_vec())).unwrap();
    assert_eq!(ev.channel, Channel::Error);
    assert_eq!(ev.payload, "warn: slow disk");
    let empty = process_chunk("key", &Chunk::Stderr(Vec::new())).unwrap();
    assert_eq!(empty.payload, "");
}

#[test]
fn stderr_invalid_bytes_replaced() {
    // Invalid UTF-8 is replaced, never fatal — and never echoed back as
    // the raw bytes.
    let ev = process_chunk("key", &Chunk::Stderr(vec![0xFF, b'o', b'k'])).unwrap();
    assert_eq!(ev.channel, Channel::Error);
    assert_eq!(ev.payload, "\u{FFFD}ok");
}

#[test]
fn run_pull_on_missing_image() {
    // First create misses the image: one pull, one retried create, then
    // the start.
    let s0 = RunState::Creating;
    assert!(matches!(run_action(&s0), Some(RunAction::Create)));
    let s1 = run_step(s0, RunEvent::CreateFailed(failure(Some(404), "no such image")));
    assert!(matches!(run_action(&s1), Some(RunAction::Pull)));
    let s2 = run_step(s1, RunEvent::PullOk);
    assert!(matches!(run_action(&s2), Some(RunAction::Create)));
    let s3 = run_step(s2, RunEvent::CreateOk(String::from("c1")));
    match run_action(&s3) {
        Some(RunAction::Start(id)) => assert_eq!(id, "c1"),
        other => panic!("expected a start action, got {:?}", other.is_some()),
    }
    let s4 = run_step(s3, RunEvent::StartOk);
    assert!(matches!(s4, RunState::Running(id) if id == "c1"));
}

#[test]
fn run_no_pull_when_image_present() {
    let s1 = run_step(RunState::Creating, RunEvent::CreateOk(String::from("c2")));
    assert!(matches!(s1, RunState::Starting(_)));
    let s2 = run_step(s1, RunEvent::StartOk);
    assert!(matches!(s2, RunState::Running(id) if id == "c2"));
}

#[test]
fn run_non_missing_failure_is_fatal() {
    let s1 = run_step(
        RunState::Creating,
        RunEvent::CreateFailed(failure(Some(500), "engine unavailable")),
    );
    assert!(matches!(s1, RunState::Failed(f) if f.message == "engine unavailable"));
}

#[test]
fn run_retry_only_once() {
    // A second miss after the pull is fatal, not retried again.
    let s1 = run_step(RunState::Creating, RunEvent::CreateFailed(failure(Some(404), "missing")));
    let s2 = run_step(s1, RunEvent::PullOk);
    let s3 = run_step(s2, RunEvent::CreateFailed(failure(Some(404), "still missing")));
    assert!(matches!(s3, RunState::Failed(_)));
}

#[test]
fn run_pull_failure_is_fatal() {
    let s1 = run_step(RunState::Creating, RunEvent::CreateFailed(failure(Some(404), "missing")));
    let s2 = run_step(s1, RunEvent::PullFailed(failure(None, "registry unreachable")));
    assert!(matches!(s2, RunState::Failed(f) if f.message == "registry unreachable"));
}

#[test]
fn run_start_failure_is_fatal() {
    let s1 = run_step(RunState::Creating, RunEvent::CreateOk(String::from("c3")));
    let s2 = run_step(s1, RunEvent::StartFailed(failure(Some(500), "cannot start")));
    assert!(matches!(s2, RunState::Failed(_)));
}

#[test]
fn image_absent_detection() {
    assert!(is_image_absent(&failure(Some(404), "x")));
    assert!(!is_image_absent(&failure(Some(500), "x")));
    assert!(!is_image_absent(&failure(None, "x")));
}

#[test]
fn subscribe_missing_container_not_found() {
    // The existence check fails: not-found before any attach or read.
    let (state, effect) = stream_step("key", StreamState::AwaitingExists,
        StreamEvent::ExistsAnswer(false));
    assert_eq!(state, StreamState::Ended);
    assert!(matches!(effect, StreamEffect::NotFound));
}

#[test]
fn subscribe_existing_container_attaches() {
    let (state, effect) = stream_step("key", StreamState::AwaitingExists,
        StreamEvent::ExistsAnswer(true));
    assert_eq!(state, StreamState::Streaming);
    assert!(matches!(effect, StreamEffect::Attach));
}

#[test]
fn disconnect_releases_within_one_step() {
    let (state, effect) = stream_step("key", StreamState::Streaming, StreamEvent::Disconnected);
    assert_eq!(state, StreamState::Ended);
    assert!(matches!(effect, StreamEffect::Release));
}

#[test]
fn read_failure_and_source_end_release() {
    let (state, effect) = stream_step("key", StreamState::Streaming, StreamEvent::ReadFailed);
    assert_eq!(state, StreamState::Ended);
    assert!(matches!(effect, StreamEffect::Release));
    let (state, effect) = stream_step("key", StreamState::Streaming, StreamEvent::SourceEnded);
    assert_eq!(state, StreamState::Ended);
    assert!(matches!(effect, StreamEffect::Release));
}

#[test]
fn register_and_stream_scenario() {
    let r = make_registration("3.18", &repo());
    assert_eq!(r.key.len(), 36);
    assert_eq!(r.opts.image, "alpine:3.18");
    assert!(!r.opts.remove);
    let env = r.opts.env.clone().unwrap();
    assert_eq!(env.len(), 5);
    assert_eq!(env[0], (String::from("PLATFORM"), String::from("GitHub")));
    assert_eq!(env[1], (String::from("OWNER"), String::from("acme")));
    assert_eq!(env[2], (String::from("NAME"), String::from("widget")));
    assert_eq!(env[3], (String::from("TOKEN"), String::from("t")));
    assert_eq!(env[4], (String::from("CORRELATION_PREFIX"), format!("[{}]", r.key)));

    // The container prefixes its own lines with the injected key.
    let mut state = StreamState::AwaitingExists;
    let (next, effect) = stream_step(&r.key, state, StreamEvent::ExistsAnswer(true));
    assert!(matches!(effect, StreamEffect::Attach));
    state = next;
    let stdout = Chunk::Stdout(format!("[{}] build started", r.key).into_bytes());
    let (next, effect) = stream_step(&r.key, state, StreamEvent::Chunk(stdout));
    match effect {
        StreamEffect::Emit(ev) => {
            assert_eq!(ev.channel, Channel::Output);
            assert_eq!(ev.payload, "build started");
        }
        _ => panic!("expected an emitted event"),
    }
    state = next;
    let stderr = Chunk::Stderr(b"warn: slow disk".to_vec());
    let (next, effect) = stream_step(&r.key, state, StreamEvent::Chunk(stderr));
    match effect {
        StreamEffect::Emit(ev) => {
            assert_eq!(ev.channel, Channel::Error);
            assert_eq!(ev.payload, "warn: slow disk");
        }
        _ => panic!("expected an emitted event"),
    }
    state = next;
    let (_, effect) = stream_step(&r.key, state, StreamEvent::SourceEnded);
    assert!(matches!(effect, StreamEffect::Release));
}

#[test]
fn fresh_keys_differ() {
    let a = make_registration("3.18", &repo());
    let b = make_registration("3.18", &repo());
    assert_ne!(a.key, b.key);
}

#[test]
fn chunk_dropped_keeps_streaming() {
    let (state, effect) = stream_step(
        "key",
        StreamState::Streaming,
        StreamEvent::Chunk(Chunk::Stdout(b"[other] line".to_vec())),
    );
    assert_eq!(state, StreamState::Streaming);
    assert!(matches!(effect, StreamEffect::Skip));
}

#[test]
fn trim_agrees_with_std() {
    let samples = [
        "",
        "   ",
        "a",
        "  left",
        "right\t\n",
        " \u{3000}wide\u{2028} ",
        "\u{A0}bound\u{1680}",
        "mid dle stays",
    ];
    for s in samples {
        assert_eq!(embodi::text::trim(s), s.trim());
    }
}

#[test]
fn platform_labels() {
    assert_eq!(platform_label(&Platform::GitHub), "GitHub");
    assert_eq!(platform_label(&Platform::GitLab), "GitLab");
    assert_eq!(platform_label(&Platform::Bitbucket), "Bitbucket");
}

#[test]
fn not_found_message_text() {
    assert_eq!(not_found_message("abc123"), "Container abc123 not found");
}

#[test]
fn health_and_routes() {
    assert!(health().healthy);
    let r = routes();
    assert_eq!(r.len(), 2);
    assert!(matches!(r[0].method, Method::Post));
    assert_eq!(r[0].path, "/register");
    assert!(matches!(r[1].method, Method::Get));
    assert_eq!(r[1].path, "/<id>/<key>");
}
