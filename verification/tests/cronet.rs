use h3proxy::config::ProxyAddr;
use h3proxy::cronet_client::{
    Callback, CallbackHandler, CronetAction, CronetClient, CronetClientConfig, CronetEvent,
    CronetOutcome, Reader, ReaderAction, ReaderEvent, Reply,
};
use h3proxy::cronet_dist::{cronet_archive, Unpacker};

fn client() -> CronetClient {
    CronetClient::new(CronetClientConfig {
        proxy_addr: ProxyAddr { ipv4: true, text: "127.0.0.1:4433".to_string() },
        target_url: "https://example.com:443".to_string(),
        root_certs: Vec::new(),
    })
}

#[test]
fn a_build_without_cronet() {
    let c = client();
    let (mut run, action) = c.run(false);
    match action {
        CronetAction::Bail(message) => assert_eq!(
            message,
            "cronet-rs backend was not enabled at compile time. Please compile with `--features cronet-backend`"
        ),
        _ => panic!("it runs"),
    }
    assert!(matches!(run.step(CronetEvent::EngineStarted), CronetAction::Ignore));
}

#[test]
fn a_run_through_cronet() {
    let c = client();
    let (mut run, action) = c.run(true);
    match action {
        CronetAction::StartEngine(setup) => {
            assert!(setup.quic);
            assert!(setup.http2);
            assert_eq!(setup.options, r#"{"env_options": {"proxy": "QUIC://127.0.0.1:4433"}}"#)
        }
        _ => panic!("no engine"),
    }
    match run.step(CronetEvent::EngineStarted) {
        CronetAction::InitRequest(method, url) => {
            assert_eq!(method, "CONNECT");
            assert_eq!(url, "https://example.com:443");
        }
        _ => panic!("no request"),
    }
    assert!(matches!(run.step(CronetEvent::RequestReady), CronetAction::StartRequest));
    assert!(matches!(run.step(CronetEvent::RequestStarted), CronetAction::AwaitRequest));
    assert!(matches!(
        run.step(CronetEvent::RequestDone(CronetOutcome::Success)),
        CronetAction::AwaitReader
    ));
    assert!(matches!(run.step(CronetEvent::ReaderDone), CronetAction::Close));
    assert!(matches!(run.step(CronetEvent::ReaderDone), CronetAction::Ignore));
}

#[test]
fn each_step_can_fail() {
    let c = client();
    let code = || "Failure".to_string();

    let (mut run, _) = c.run(true);
    assert!(matches!(
        run.step(CronetEvent::EngineFailed(code())),
        CronetAction::Bail(m) if m == "Failed to start cronet engine: Failure"
    ));

    let (mut run, _) = c.run(true);
    run.step(CronetEvent::EngineStarted);
    assert!(matches!(
        run.step(CronetEvent::RequestRejected(code())),
        CronetAction::Bail(m) if m == "Failed to init cronet request: Failure"
    ));

    let (mut run, _) = c.run(true);
    run.step(CronetEvent::EngineStarted);
    run.step(CronetEvent::RequestReady);
    assert!(matches!(
        run.step(CronetEvent::RequestStuck(code())),
        CronetAction::Bail(m) if m == "Failed to start cronet request: Failure"
    ));

    let (mut run, _) = c.run(true);
    run.step(CronetEvent::EngineStarted);
    run.step(CronetEvent::RequestReady);
    run.step(CronetEvent::RequestStarted);
    assert!(matches!(
        run.step(CronetEvent::RequestDone(CronetOutcome::Failure("why".to_string()))),
        CronetAction::Bail(m) if m == "why"
    ));
}

#[test]
fn a_handler_that_goes_without_an_outcome() {
    let c = client();
    let (mut run, _) = c.run(true);
    run.step(CronetEvent::EngineStarted);
    run.step(CronetEvent::RequestReady);
    assert!(matches!(run.step(CronetEvent::HandlerGone), CronetAction::Ignore));
    run.step(CronetEvent::RequestStarted);
    assert!(matches!(
        run.step(CronetEvent::HandlerGone),
        CronetAction::Bail(m) if m == "channel closed"
    ));
    assert!(matches!(run.step(CronetEvent::ReaderDone), CronetAction::Ignore));
}

#[test]
fn a_reader_that_breaks_off() {
    let c = client();
    let (mut run, _) = c.run(true);
    run.step(CronetEvent::EngineStarted);
    run.step(CronetEvent::RequestReady);
    run.step(CronetEvent::RequestStarted);
    run.step(CronetEvent::RequestDone(CronetOutcome::Success));
    assert!(matches!(
        run.step(CronetEvent::ReaderFailed("why".to_string())),
        CronetAction::Bail(m) if m == "why"
    ));
}

#[test]
fn the_address_of_a_proxy_keeps_its_brackets() {
    let c = CronetClient::new(CronetClientConfig {
        proxy_addr: ProxyAddr { ipv4: false, text: "[::1]:4433".to_string() },
        target_url: "https://example.com:443".to_string(),
        root_certs: Vec::new(),
    });
    assert!(matches!(
        c.run(true).1,
        CronetAction::StartEngine(s)
            if s.options == r#"{"env_options": {"proxy": "QUIC://[::1]:4433"}}"#
    ));
}

#[test]
fn a_reader_prints_each_part_by_itself() {
    let (mut reader, first) = Reader::start();
    assert!(matches!(first, ReaderAction::Receive));
    for (part, text) in [(vec![0x61], "a"), (vec![0xc3], "\u{fffd}"), (vec![0xa9], "\u{fffd}")] {
        assert!(matches!(reader.step(ReaderEvent::Part(part)), ReaderAction::Print(t) if t == text));
        assert!(matches!(reader.print("x".to_string()), ReaderAction::Ignore));
        assert!(matches!(reader.step(ReaderEvent::Printed), ReaderAction::Receive));
    }
    assert!(matches!(reader.step(ReaderEvent::Ended), ReaderAction::Stop));
    assert!(matches!(reader.step(ReaderEvent::Part(vec![1])), ReaderAction::Ignore));
}

#[test]
fn callbacks_and_their_answers() {
    let mut handler = CallbackHandler::new();
    assert!(matches!(handler.answer(Callback::RedirectReceived), Reply::FollowRedirect));
    assert!(matches!(handler.answer(Callback::ResponseStarted), Reply::Read(8192)));
    assert!(matches!(
        handler.answer(Callback::ReadCompleted(vec![1, 2])),
        Reply::Deliver(data) if data == [1, 2]
    ));
    assert!(matches!(handler.answer(Callback::Delivered(true)), Reply::Read(8192)));
    assert!(matches!(handler.answer(Callback::Delivered(false)), Reply::Cancel));
    assert!(matches!(
        handler.answer(Callback::Canceled),
        Reply::Report(CronetOutcome::Failure(m)) if m == "cronet request canceled"
    ));
    assert!(matches!(handler.answer(Callback::Succeeded), Reply::Nothing));
}

#[test]
fn an_outcome_is_reported_once() {
    let mut handler = CallbackHandler::new();
    assert!(matches!(handler.answer(Callback::Succeeded), Reply::Report(CronetOutcome::Success)));
    assert!(matches!(handler.answer(Callback::Failed("x".to_string())), Reply::Nothing));
    assert!(matches!(handler.answer(Callback::Canceled), Reply::Nothing));

    let mut handler = CallbackHandler::new();
    assert!(matches!(
        handler.answer(Callback::Failed("Timeout".to_string())),
        Reply::Report(CronetOutcome::Failure(m)) if m == "cronet request failed with error code Timeout"
    ));
    assert!(matches!(handler.answer(Callback::Succeeded), Reply::Nothing));
}

#[test]
fn archives_for_platforms() {
    let a = cronet_archive("linux", "x86_64").unwrap();
    assert_eq!(a.filename, "cronet-v119.0.6045.66-linux-x64.tar.xz");
    assert_eq!(a.folder, "cronet-v119.0.6045.66-linux-x64");
    assert_eq!(
        a.url,
        "https://github.com/sleeyax/cronet-binaries/releases/download/v119.0.6045.66/cronet-v119.0.6045.66-linux-x64.tar.xz"
    );
    assert_eq!(a.unpacker, Unpacker::Tar);
    assert!(a.needs_rpath);

    let a = cronet_archive("macos", "aarch64").unwrap();
    assert_eq!(a.filename, "cronet-v119.0.6045.66-mac-arm64.tar.xz");
    assert!(a.needs_rpath);

    let a = cronet_archive("windows", "x86").unwrap();
    assert_eq!(a.filename, "cronet-v119.0.6045.66-win-x86.zip");
    assert_eq!(a.unpacker, Unpacker::Unzip);
    assert!(!a.needs_rpath);

    assert_eq!(
        cronet_archive("linux", "arm").unwrap().folder,
        "cronet-v119.0.6045.66-linux-arm"
    );
}

#[test]
fn platforms_without_an_archive() {
    assert!(cronet_archive("freebsd", "x86_64").is_none());
    assert!(cronet_archive("linux", "riscv64").is_none());
    assert!(cronet_archive("", "").is_none());
}
