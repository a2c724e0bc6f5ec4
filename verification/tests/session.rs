use moonshine::audio::AudioStreamContext;
use moonshine::session::{
    SessionContext, SessionKeys, SessionManager, SessionManagerCommand, SessionOutcome,
    SessionStage,
};
use moonshine::video::VideoStreamContext;

fn context() -> SessionContext {
    SessionContext {
        app_id: 1,
        client_id: "client".to_string(),
        keys: SessionKeys { aes_key: vec![0u8; 16] },
        rtsp_session_id: "MoonshineSession".to_string(),
        client_address: None,
    }
}

fn video_context() -> VideoStreamContext {
    VideoStreamContext {
        width: 1920,
        height: 1080,
        fps: 60,
        packet_size: 1024,
        bitrate: 20000 * 1024,
        minimum_fec_packets: 0,
        qos: false,
        video_format: 0,
    }
}

fn audio_context() -> AudioStreamContext {
    AudioStreamContext { packet_duration: 5, qos: false }
}

/// Initialise, store the stream parameters, start: the workers are
/// spawned with exactly the stored parameters.
#[test]
fn session_lifecycle() {
    let mut manager = SessionManager::new();
    assert!(manager.initialize_session(context()).is_ok());
    assert!(manager.set_stream_context(video_context(), audio_context()).is_ok());
    let (video, audio) = manager.start_session().unwrap();
    assert_eq!(video, video_context());
    assert_eq!(audio, audio_context());
    assert_eq!(manager.session.as_ref().unwrap().stage, SessionStage::Running);
    // Starting twice is rejected.
    assert!(manager.start_session().is_err());
}

/// At most one session exists: a second initialisation is rejected
/// while the first session is active.
#[test]
fn single_session() {
    let mut manager = SessionManager::new();
    assert!(manager.initialize_session(context()).is_ok());
    assert!(manager.initialize_session(context()).is_err());
}

/// Stopping tears the session down, and a new initialisation then
/// succeeds.
#[test]
fn shutdown_and_reinitialize() {
    let mut manager = SessionManager::new();
    assert!(manager.initialize_session(context()).is_ok());
    assert!(manager.set_stream_context(video_context(), audio_context()).is_ok());
    manager.start_session().unwrap();
    assert!(manager.stop_session().is_ok());
    assert!(manager.session.is_none());
    assert!(manager.initialize_session(context()).is_ok());
    assert_eq!(manager.session.as_ref().unwrap().stage, SessionStage::Created);
}

/// Stream parameters are rejected while no session exists.
#[test]
fn stream_context_needs_session() {
    let mut manager = SessionManager::new();
    assert!(manager.set_stream_context(video_context(), audio_context()).is_err());
}

/// The command dispatch drives the same transitions.
#[test]
fn command_dispatch() {
    let mut manager = SessionManager::new();
    let outcome = manager.handle_command(SessionManagerCommand::GetSessionContext);
    match outcome {
        SessionOutcome::ContextReply(reply) => assert!(reply.is_none()),
        _ => panic!("expected a context reply"),
    }
    assert!(matches!(
        manager.handle_command(SessionManagerCommand::InitializeSession(context())),
        SessionOutcome::Done
    ));
    assert!(matches!(
        manager.handle_command(
            SessionManagerCommand::SetStreamContext(video_context(), audio_context())
        ),
        SessionOutcome::Done
    ));
    match manager.handle_command(SessionManagerCommand::StartSession) {
        SessionOutcome::StartWorkers(video, _audio) => assert_eq!(video, video_context()),
        _ => panic!("expected workers to start"),
    }
    let outcome = manager.handle_command(SessionManagerCommand::GetSessionContext);
    match outcome {
        SessionOutcome::ContextReply(reply) => {
            let snapshot = reply.unwrap();
            assert_eq!(snapshot.app_id, 1);
            assert_eq!(snapshot.client_id, "client");
        },
        _ => panic!("expected a context reply"),
    }
    assert!(matches!(
        manager.handle_command(SessionManagerCommand::UpdateKeys(SessionKeys {
            aes_key: vec![9u8; 16],
        })),
        SessionOutcome::Done
    ));
    assert_eq!(
        manager.session.as_ref().unwrap().context.keys.aes_key,
        vec![9u8; 16]
    );
    assert!(matches!(
        manager.handle_command(SessionManagerCommand::StopSession),
        SessionOutcome::StopWorkers
    ));
    assert!(manager.session.is_none());
}
