//! Session manager: the single owner of the at-most-one active
//! streaming session. Every lifecycle command is applied here, so all
//! front ends observe one linearisable session state.

use vstd::prelude::*;

use crate::audio::AudioStreamContext;
use crate::video::VideoStreamContext;

verus! {

/// A peer address, held as plain values: the two halves of an IPv6
/// address (an IPv4 address sits in the low half) and the UDP port.
#[derive(Clone, Copy, Debug, PartialEq, Eq, Structural)]
pub struct NetAddress {
    pub ip_hi: u64,
    pub ip_lo: u64,
    pub port: u16,
}

/// The symmetric key material of a session, rotated by `UpdateKeys`.
pub struct SessionKeys {
    /// AES-128 key that encrypts control-channel payloads.
    pub aes_key: Vec<u8>,
}

impl SessionKeys {
    pub open spec fn wf(self) -> bool {
        self.aes_key@.len() == 16
    }
}

/// Fingerprint of a launched session.
pub struct SessionContext {
    pub app_id: u32,
    /// Unique id of the client the session belongs to.
    pub client_id: String,
    pub keys: SessionKeys,
    /// Identifier handed out in RTSP `Session` headers.
    pub rtsp_session_id: String,
    /// The only peer whose RTSP and control traffic is accepted, once
    /// known.
    pub client_address: Option<NetAddress>,
}

/// Whether two session contexts carry the same values.
pub open spec fn ctx_eqv(a: SessionContext, b: SessionContext) -> bool {
    &&& a.app_id == b.app_id
    &&& a.client_id@ == b.client_id@
    &&& a.keys.aes_key@ == b.keys.aes_key@
    &&& a.rtsp_session_id@ == b.rtsp_session_id@
    &&& a.client_address == b.client_address
}

impl SessionContext {
    pub open spec fn wf(self) -> bool {
        self.keys.wf()
    }

    /// A copy of this context, handed out as a snapshot.
    pub fn snapshot(&self) -> (r: SessionContext)
        ensures
            ctx_eqv(r, *self),
    {
        SessionContext {
            app_id: self.app_id,
            client_id: self.client_id.clone(),
            keys: SessionKeys { aes_key: self.keys.aes_key.clone() },
            rtsp_session_id: self.rtsp_session_id.clone(),
            client_address: self.client_address,
        }
    }
}

/// Lifecycle stage of the active session.
#[derive(Clone, Copy, Debug, PartialEq, Eq, Structural)]
pub enum SessionStage {
    /// Created by `InitializeSession`, workers not yet running.
    Created,
    /// Workers running after `StartSession`.
    Running,
}

/// The active session: its context and its stage.
pub struct Session {
    pub context: SessionContext,
    pub stage: SessionStage,
}

/// A lifecycle command, processed in arrival order.
pub enum SessionManagerCommand {
    SetStreamContext(VideoStreamContext, AudioStreamContext),
    GetSessionContext,
    InitializeSession(SessionContext),
    StartSession,
    StopSession,
    UpdateKeys(SessionKeys),
}

/// What applying a command asks the surrounding runtime to do.
pub enum SessionOutcome {
    /// Command applied; nothing to do outside.
    Done,
    /// Command could not be applied in the current state.
    Rejected,
    /// Snapshot of the active session's context, if any.
    ContextReply(Option<SessionContext>),
    /// Spawn the stream workers with these parameters.
    StartWorkers(VideoStreamContext, AudioStreamContext),
    /// Signal the stream workers to shut down and release their sockets.
    StopWorkers,
}

/// The session manager's state: the at-most-one active session and the
/// stream parameters for the next start.
pub struct SessionManager {
    pub session: Option<Session>,
    pub video_context: Option<VideoStreamContext>,
    pub audio_context: Option<AudioStreamContext>,
}

/// How many sessions exist: never more than one, by construction.
pub open spec fn session_count(m: SessionManager) -> int {
    if m.session is Some {
        1
    } else {
        0
    }
}

impl SessionManager {
    pub open spec fn wf(self) -> bool {
        self.session matches Some(s) ==> s.context.wf()
    }

    /// A fresh manager: no session, no stream contexts.
    pub fn new() -> (r: SessionManager)
        ensures
            r.wf(),
            r.session is None,
            r.video_context is None,
            r.audio_context is None,
    {
        SessionManager { session: None, video_context: None, audio_context: None }
    }

    /// Store the stream parameters for the next start. Rejected when no
    /// session exists, since the parameters belong to a session.
    pub fn set_stream_context(
        &mut self,
        video: VideoStreamContext,
        audio: AudioStreamContext,
    ) -> (r: Result<(), ()>)
        requires
            old(self).wf(),
        ensures
            final(self).wf(),
            final(self).session == old(self).session,
            session_count(*final(self)) <= 1,
            match r {
                Ok(()) => {
                    &&& old(self).session is Some
                    &&& final(self).video_context == Some(video)
                    &&& final(self).audio_context == Some(audio)
                },
                Err(()) => {
                    &&& old(self).session is None
                    &&& final(self).video_context == old(self).video_context
                    &&& final(self).audio_context == old(self).audio_context
                },
            },
    {
        if self.session.is_none() {
            return Err(());
        }
        self.video_context = Some(video);
        self.audio_context = Some(audio);
        Ok(())
    }

    /// A snapshot of the active session's context, if one exists.
    pub fn get_session_context(&self) -> (r: Option<SessionContext>)
        ensures
            match self.session {
                Some(s) => r matches Some(c) && ctx_eqv(c, s.context),
                None => r is None,
            },
    {
        match &self.session {
            Some(s) => Some(s.context.snapshot()),
            None => None,
        }
    }

    /// Create the session. Rejected when one is already active: at most
    /// one session exists at any instant.
    pub fn initialize_session(&mut self, context: SessionContext) -> (r: Result<(), ()>)
        requires
            old(self).wf(),
            context.wf(),
        ensures
            final(self).wf(),
            session_count(*final(self)) <= 1,
            final(self).video_context == old(self).video_context,
            final(self).audio_context == old(self).audio_context,
            match r {
                Ok(()) => {
                    &&& old(self).session is None
                    &&& final(self).session matches Some(s) && s.context == context && s.stage
                        == SessionStage::Created
                },
                Err(()) => {
                    &&& old(self).session is Some
                    &&& final(self).session == old(self).session
                },
            },
    {
        if self.session.is_some() {
            return Err(());
        }
        self.session = Some(Session { context, stage: SessionStage::Created });
        Ok(())
    }

    /// Start the stream workers. Requires a created session that is not
    /// yet running and both stream contexts; hands the parameters back
    /// for the runtime to spawn the workers with.
    pub fn start_session(&mut self) -> (r: Result<(VideoStreamContext, AudioStreamContext), ()>)
        requires
            old(self).wf(),
        ensures
            final(self).wf(),
            session_count(*final(self)) <= 1,
            final(self).video_context == old(self).video_context,
            final(self).audio_context == old(self).audio_context,
            match r {
                Ok(ctxs) => {
                    &&& old(self).session matches Some(s) && s.stage == SessionStage::Created
                    &&& old(self).video_context == Some(ctxs.0)
                    &&& old(self).audio_context == Some(ctxs.1)
                    &&& final(self).session matches Some(t) && t.stage == SessionStage::Running
                        && t.context == (old(self).session->Some_0).context
                },
                Err(()) => {
                    &&& final(self).session == old(self).session
                    &&& (old(self).session is None || (old(self).session matches Some(s) && (
                    s.stage == SessionStage::Running || old(self).video_context is None || old(self).audio_context is None)))
                },
            },
    {
        let session = match self.session.take() {
            Some(s) => s,
            None => return Err(()),
        };
        if matches!(session.stage, SessionStage::Running) {
            self.session = Some(session);
            return Err(());
        }
        let video = match self.video_context {
            Some(v) => v,
            None => {
                self.session = Some(session);
                return Err(());
            },
        };
        let audio = match self.audio_context {
            Some(a) => a,
            None => {
                self.session = Some(session);
                return Err(());
            },
        };
        self.session = Some(Session { context: session.context, stage: SessionStage::Running });
        Ok((video, audio))
    }

    /// Tear the session down. The session is gone afterwards, so a new
    /// `InitializeSession` succeeds; the runtime must stop the workers.
    pub fn stop_session(&mut self) -> (r: Result<(), ()>)
        requires
            old(self).wf(),
        ensures
            final(self).wf(),
            session_count(*final(self)) == 0,
            final(self).session is None,
            final(self).video_context == old(self).video_context,
            final(self).audio_context == old(self).audio_context,
            r matches Ok(()) <==> old(self).session is Some,
    {
        match self.session.take() {
            Some(_) => Ok(()),
            None => Err(()),
        }
    }

    /// Rotate the control-channel key material of the active session.
    pub fn update_keys(&mut self, keys: SessionKeys) -> (r: Result<(), ()>)
        requires
            old(self).wf(),
            keys.wf(),
        ensures
            final(self).wf(),
            session_count(*final(self)) <= 1,
            final(self).video_context == old(self).video_context,
            final(self).audio_context == old(self).audio_context,
            match r {
                Ok(()) => {
                    &&& old(self).session matches Some(s)
                    &&& final(self).session matches Some(t) && t.stage == s.stage
                        && t.context.keys.aes_key@ == keys.aes_key@ && t.context.app_id
                        == s.context.app_id && t.context.client_id@ == s.context.client_id@
                        && t.context.rtsp_session_id@ == s.context.rtsp_session_id@
                        && t.context.client_address == s.context.client_address
                },
                Err(()) => {
                    &&& old(self).session is None
                    &&& final(self).session == old(self).session
                },
            },
    {
        let session = match self.session.take() {
            Some(s) => s,
            None => return Err(()),
        };
        let context = SessionContext {
            app_id: session.context.app_id,
            client_id: session.context.client_id,
            keys,
            rtsp_session_id: session.context.rtsp_session_id,
            client_address: session.context.client_address,
        };
        self.session = Some(Session { context, stage: session.stage });
        Ok(())
    }

    /// Apply one command from the queue: the dispatch loop of the
    /// manager actor. Commands arrive in order; each is applied against
    /// the state the previous one left.
    pub fn handle_command(&mut self, command: SessionManagerCommand) -> (r: SessionOutcome)
        requires
            old(self).wf(),
        ensures
            final(self).wf(),
            session_count(*final(self)) <= 1,
            match command {
                SessionManagerCommand::GetSessionContext => {
                    &&& final(self).session == old(self).session
                    &&& final(self).video_context == old(self).video_context
                    &&& final(self).audio_context == old(self).audio_context
                    &&& r matches SessionOutcome::ContextReply(c) && (match old(self).session {
                        Some(s) => c matches Some(cc) && ctx_eqv(cc, s.context),
                        None => c is None,
                    })
                },
                SessionManagerCommand::StartSession => {
                    &&& (r is StartWorkers || r is Rejected)
                    &&& final(self).video_context == old(self).video_context
                    &&& final(self).audio_context == old(self).audio_context
                    &&& (r is StartWorkers <==> (old(self).session matches Some(s) && s.stage
                        == SessionStage::Created) && old(self).video_context is Some && old(self).audio_context is Some)
                    &&& (r matches SessionOutcome::StartWorkers(v, a) ==> old(self).video_context == Some(v) && old(self).audio_context == Some(a) && (final(self).session matches Some(t) && t.stage == SessionStage::Running && t.context
                        == (old(self).session->Some_0).context))
                    &&& (r is Rejected ==> final(self).session == old(self).session)
                },
                SessionManagerCommand::StopSession => {
                    &&& (r is StopWorkers || r is Rejected)
                    &&& final(self).session is None
                    &&& final(self).video_context == old(self).video_context
                    &&& final(self).audio_context == old(self).audio_context
                    &&& (r is StopWorkers <==> old(self).session is Some)
                },
                SessionManagerCommand::SetStreamContext(v, a) => {
                    &&& (r is Done || r is Rejected)
                    &&& final(self).session == old(self).session
                    &&& (r is Done <==> old(self).session is Some)
                    &&& (r is Done ==> final(self).video_context == Some(v) && final(self).audio_context == Some(a))
                    &&& (r is Rejected ==> final(self).video_context == old(self).video_context
                        && final(self).audio_context == old(self).audio_context)
                },
                SessionManagerCommand::InitializeSession(ctx) => {
                    &&& (r is Done || r is Rejected)
                    &&& final(self).video_context == old(self).video_context
                    &&& final(self).audio_context == old(self).audio_context
                    &&& (r is Done <==> old(self).session is None && ctx.wf())
                    &&& (r is Done ==> (final(self).session matches Some(s) && s.context == ctx
                        && s.stage == SessionStage::Created))
                    &&& (r is Rejected ==> final(self).session == old(self).session)
                },
                SessionManagerCommand::UpdateKeys(k) => {
                    &&& (r is Done || r is Rejected)
                    &&& final(self).video_context == old(self).video_context
                    &&& final(self).audio_context == old(self).audio_context
                    &&& (r is Done <==> old(self).session is Some && k.wf())
                    &&& (r is Done ==> (final(self).session matches Some(t) && (
                    old(self).session matches Some(s) && t.stage == s.stage
                        && t.context.keys.aes_key@ == k.aes_key@ && t.context.app_id
                        == s.context.app_id && t.context.client_id@ == s.context.client_id@
                        && t.context.rtsp_session_id@ == s.context.rtsp_session_id@
                        && t.context.client_address == s.context.client_address)))
                    &&& (r is Rejected ==> final(self).session == old(self).session)
                },
            },
    {
        match command {
            SessionManagerCommand::SetStreamContext(video, audio) => {
                match self.set_stream_context(video, audio) {
                    Ok(()) => SessionOutcome::Done,
                    Err(()) => SessionOutcome::Rejected,
                }
            },
            SessionManagerCommand::GetSessionContext => {
                SessionOutcome::ContextReply(self.get_session_context())
            },
            SessionManagerCommand::InitializeSession(context) => {
                if context_keys_ok(&context) {
                    match self.initialize_session(context) {
                        Ok(()) => SessionOutcome::Done,
                        Err(()) => SessionOutcome::Rejected,
                    }
                } else {
                    SessionOutcome::Rejected
                }
            },
            SessionManagerCommand::StartSession => {
                match self.start_session() {
                    Ok((video, audio)) => SessionOutcome::StartWorkers(video, audio),
                    Err(()) => SessionOutcome::Rejected,
                }
            },
            SessionManagerCommand::StopSession => {
                match self.stop_session() {
                    Ok(()) => SessionOutcome::StopWorkers,
                    Err(()) => SessionOutcome::Rejected,
                }
            },
            SessionManagerCommand::UpdateKeys(keys) => {
                if keys.aes_key.len() == 16 {
                    match self.update_keys(keys) {
                        Ok(()) => SessionOutcome::Done,
                        Err(()) => SessionOutcome::Rejected,
                    }
                } else {
                    SessionOutcome::Rejected
                }
            },
        }
    }
}

/// Whether a context's key material has the right shape; commands with
/// malformed keys are rejected before they touch the session.
fn context_keys_ok(context: &SessionContext) -> (r: bool)
    ensures
        r == context.wf(),
{
    context.keys.aes_key.len() == 16
}

} // verus!
