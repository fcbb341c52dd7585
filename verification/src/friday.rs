//! The Friday voice receiver: a local HTTP endpoint that takes base64 MP3
//! audio and hands it to a player.
//!
//! This module holds the receiver's state machine and the request rules;
//! the listener thread, the sockets and the player process belong to the
//! program around the library, which reports what happened as events.

use vstd::prelude::*;

use base64::engine::general_purpose;
use base64::Engine;

use crate::text::{eq_text, owned, str_chars};

verus! {

/// Where the receiver listens (loopback only).
pub const LISTEN_ADDR: &'static str = "127.0.0.1:17322";

/// Largest request body taken, in bytes.
pub const MAX_BODY_BYTES: u64 = 10485760;

/// Requests handled at once; more are answered busy.
pub const MAX_CONCURRENT_REQUESTS: usize = 8;

/// Lifecycle of the receiver as the control panel shows it.
#[derive(Clone, Copy, Debug, PartialEq, Eq, Structural)]
pub enum FridayState {
    Starting,
    Listening,
    Stopping,
    Stopped,
    Failed,
}

impl Default for FridayState {
    fn default() -> (r: Self)
        ensures
            r == FridayState::Stopped,
    {
        FridayState::Stopped
    }
}

/// What the listener thread reports.
#[derive(Debug)]
pub enum WorkerEvent {
    /// Listening, with this player program.
    Started { player: String },
    Stopped,
    Failed(String),
}

/// The receiver as the control panel drives it: its state, the player in
/// use, the last error, and whether a listener thread exists and was asked
/// to stop.
#[derive(Debug)]
pub struct FridayReceiver {
    state: FridayState,
    player: Option<String>,
    error: Option<String>,
    worker: bool,
    stop_requested: bool,
}

impl FridayReceiver {
    pub closed spec fn state_spec(&self) -> FridayState {
        self.state
    }

    pub closed spec fn player_spec(&self) -> Option<String> {
        self.player
    }

    pub closed spec fn error_spec(&self) -> Option<String> {
        self.error
    }

    /// A listener thread exists.
    pub closed spec fn has_worker(&self) -> bool {
        self.worker
    }

    /// The existing listener was asked to stop.
    pub closed spec fn stop_requested_spec(&self) -> bool {
        self.stop_requested
    }

    /// Stopped, with no listener, player or error.
    pub fn new() -> (r: Self)
        ensures
            r.state_spec() == FridayState::Stopped,
            r.player_spec() is None,
            r.error_spec() is None,
            !r.has_worker(),
            !r.stop_requested_spec(),
    {
        FridayReceiver {
            state: FridayState::Stopped,
            player: None,
            error: None,
            worker: false,
            stop_requested: false,
        }
    }

    pub fn state(&self) -> (r: FridayState)
        ensures
            r == self.state_spec(),
    {
        self.state
    }

    pub fn player(&self) -> (r: Option<&str>)
        ensures
            match r {
                Some(p) => self.player_spec() matches Some(q) && p@ == q@,
                None => self.player_spec() is None,
            },
    {
        match &self.player {
            Some(p) => Some(p.as_str()),
            None => None,
        }
    }

    pub fn error(&self) -> (r: Option<&str>)
        ensures
            match r {
                Some(e) => self.error_spec() matches Some(q) && e@ == q@,
                None => self.error_spec() is None,
            },
    {
        match &self.error {
            Some(e) => Some(e.as_str()),
            None => None,
        }
    }

    /// Starting, listening or stopping.
    pub fn is_active(&self) -> (r: bool)
        ensures
            r == !(self.state_spec() == FridayState::Stopped || self.state_spec()
                == FridayState::Failed),
    {
        match self.state {
            FridayState::Stopped | FridayState::Failed => false,
            _ => true,
        }
    }

    /// Start: with a listener already there nothing happens; otherwise the
    /// receiver is starting, forgets player and error, and the caller must
    /// spawn the listener (the result says so).
    pub fn start(&mut self) -> (spawn: bool)
        ensures
            old(self).has_worker() ==> !spawn && *final(self) == *old(self),
            !old(self).has_worker() ==> {
                &&& spawn
                &&& final(self).state_spec() == FridayState::Starting
                &&& final(self).player_spec() is None
                &&& final(self).error_spec() is None
                &&& final(self).has_worker()
                &&& !final(self).stop_requested_spec()
            },
    {
        if self.worker {
            return false;
        }
        self.state = FridayState::Starting;
        self.player = None;
        self.error = None;
        self.worker = true;
        self.stop_requested = false;
        true
    }

    /// Stop: without a listener the receiver is simply stopped; otherwise
    /// the listener is asked to stop (the result says to signal it) and the
    /// receiver is stopping.
    pub fn stop(&mut self) -> (signal: bool)
        ensures
            !old(self).has_worker() ==> {
                &&& !signal
                &&& final(self).state_spec() == FridayState::Stopped
                &&& final(self).player_spec() == old(self).player_spec()
                &&& final(self).error_spec() == old(self).error_spec()
                &&& !final(self).has_worker()
                &&& final(self).stop_requested_spec() == old(self).stop_requested_spec()
            },
            old(self).has_worker() ==> {
                &&& signal
                &&& final(self).state_spec() == FridayState::Stopping
                &&& final(self).player_spec() == old(self).player_spec()
                &&& final(self).error_spec() == old(self).error_spec()
                &&& final(self).has_worker()
                &&& final(self).stop_requested_spec()
            },
    {
        if !self.worker {
            self.state = FridayState::Stopped;
            return false;
        }
        self.stop_requested = true;
        self.state = FridayState::Stopping;
        true
    }

    /// One event of the listener: started (listening, or stopping if a stop
    /// was already asked for), stopped, or failed with a message.
    pub fn on_event(&mut self, event: WorkerEvent)
        ensures
            final(self).has_worker() == old(self).has_worker(),
            final(self).stop_requested_spec() == old(self).stop_requested_spec(),
            match event {
                WorkerEvent::Started { player } => {
                    &&& final(self).player_spec() == Some(player)
                    &&& final(self).state_spec() == if old(self).has_worker()
                        && old(self).stop_requested_spec() {
                        FridayState::Stopping
                    } else {
                        FridayState::Listening
                    }
                    &&& final(self).error_spec() == old(self).error_spec()
                },
                WorkerEvent::Stopped => {
                    &&& final(self).player_spec() is None
                    &&& final(self).state_spec() == FridayState::Stopped
                    &&& final(self).error_spec() == old(self).error_spec()
                },
                WorkerEvent::Failed(message) => {
                    &&& final(self).player_spec() is None
                    &&& final(self).error_spec() == Some(message)
                    &&& final(self).state_spec() == FridayState::Failed
                },
            },
    {
        match event {
            WorkerEvent::Started { player } => {
                self.player = Some(player);
                self.state = if self.worker && self.stop_requested {
                    FridayState::Stopping
                } else {
                    FridayState::Listening
                };
            },
            WorkerEvent::Stopped => {
                self.player = None;
                self.state = FridayState::Stopped;
            },
            WorkerEvent::Failed(message) => {
                self.player = None;
                self.error = Some(message);
                self.state = FridayState::Failed;
            },
        }
    }

    /// The listener thread has ended: there is none any more.
    pub fn on_worker_finished(&mut self)
        ensures
            !final(self).has_worker(),
            !final(self).stop_requested_spec(),
            final(self).state_spec() == old(self).state_spec(),
            final(self).player_spec() == old(self).player_spec(),
            final(self).error_spec() == old(self).error_spec(),
    {
        self.worker = false;
        self.stop_requested = false;
    }
}

/// The panel's button: start when stopped or failed, stop when listening,
/// none while starting or stopping.
pub open spec fn control_of(state: FridayState) -> Option<bool> {
    match state {
        FridayState::Stopped | FridayState::Failed => Some(true),
        FridayState::Listening => Some(false),
        _ => None,
    }
}

pub fn control_action(state: FridayState) -> (r: Option<bool>)
    ensures
        r == control_of(state),
{
    match state {
        FridayState::Stopped | FridayState::Failed => Some(true),
        FridayState::Listening => Some(false),
        FridayState::Starting | FridayState::Stopping => None,
    }
}

pub open spec fn status_label_of(state: FridayState) -> Seq<char> {
    match state {
        FridayState::Starting => "starting"@,
        FridayState::Listening => "listening"@,
        FridayState::Stopping => "stopping"@,
        FridayState::Stopped => "stopped"@,
        FridayState::Failed => "failed"@,
    }
}

pub fn status_label(state: FridayState) -> (r: &'static str)
    ensures
        r@ == status_label_of(state),
{
    match state {
        FridayState::Starting => "starting",
        FridayState::Listening => "listening",
        FridayState::Stopping => "stopping",
        FridayState::Stopped => "stopped",
        FridayState::Failed => "failed",
    }
}

// ───────────────────────── requests ─────────────────────────

/// The request methods the receiver tells apart.
#[derive(Clone, Copy, Debug, PartialEq, Eq, Structural)]
pub enum HttpMethod {
    Get,
    Post,
    Other,
}

/// How a request is answered.
#[derive(Clone, Copy, Debug, PartialEq, Eq, Structural)]
pub enum Route {
    /// `200 ok`: the health endpoints.
    Health,
    /// Read the body and play it.
    Speak,
    /// `405`, naming the allowed method.
    WrongMethod { allow_post: bool },
    NotFound,
}

pub open spec fn is_health_path(url: Seq<char>) -> bool {
    url == "/"@ || url == "/health"@ || url == "/ping"@
}

/// `GET /`, `/health`, `/ping` answer ok; `POST /speak` plays; another
/// method on those paths is refused naming the right one; anything else is
/// not found.
pub open spec fn route_of(method: HttpMethod, url: Seq<char>) -> Route {
    if is_health_path(url) {
        if method == HttpMethod::Get {
            Route::Health
        } else {
            Route::WrongMethod { allow_post: false }
        }
    } else if url == "/speak"@ {
        if method == HttpMethod::Post {
            Route::Speak
        } else {
            Route::WrongMethod { allow_post: true }
        }
    } else {
        Route::NotFound
    }
}

pub fn route(method: HttpMethod, url: &str) -> (r: Route)
    ensures
        r == route_of(method, url@),
{
    let u = str_chars(url);
    let health = eq_text(u.as_slice(), "/") || eq_text(u.as_slice(), "/health") || eq_text(
        u.as_slice(),
        "/ping",
    );
    if health {
        match method {
            HttpMethod::Get => Route::Health,
            _ => Route::WrongMethod { allow_post: false },
        }
    } else if eq_text(u.as_slice(), "/speak") {
        match method {
            HttpMethod::Post => Route::Speak,
            _ => Route::WrongMethod { allow_post: true },
        }
    } else {
        Route::NotFound
    }
}

/// A refused `/speak` request: its status and message.
#[derive(Debug, PartialEq, Eq)]
pub struct SpeakError {
    pub status: u16,
    pub message: String,
}

impl SpeakError {
    /// The message, as the response and the log show it.
    pub fn to_string(&self) -> (r: String)
        ensures
            r@ == self.message@,
    {
        self.message.clone()
    }
}

/// Whether another request may be handled, given how many are in flight.
pub fn admit_request(active: usize) -> (r: bool)
    ensures
        r == (active < MAX_CONCURRENT_REQUESTS),
{
    active < MAX_CONCURRENT_REQUESTS
}

/// A body longer than the limit is refused with `413`.
pub fn check_body_size(len: u64) -> (r: Result<(), SpeakError>)
    ensures
        len <= MAX_BODY_BYTES ==> r is Ok,
        len > MAX_BODY_BYTES ==> (r matches Err(e) && e.status == 413 && e.message@
            == "request body exceeds 10485760 bytes"@),
{
    if len > MAX_BODY_BYTES {
        Err(SpeakError { status: 413, message: owned("request body exceeds 10485760 bytes") })
    } else {
        Ok(())
    }
}

/// Only MP3 audio is played; another type is refused with `400`.
pub fn check_payload_kind(kind: &str) -> (r: Result<(), SpeakError>)
    ensures
        kind@ == "mp3"@ ==> r is Ok,
        kind@ != "mp3"@ ==> (r matches Err(e) && e.status == 400 && e.message@
            == "unsupported type: "@ + kind@),
{
    let k = str_chars(kind);
    if eq_text(k.as_slice(), "mp3") {
        Ok(())
    } else {
        let mut message = owned("unsupported type: ");
        crate::text::push_str(&mut message, kind);
        Err(SpeakError { status: 400, message })
    }
}

/// What standard base64 (with padding) decoding makes of `data`: the bytes
/// it denotes, or the text of the decoder's error (such as
/// `Invalid padding`). It depends on `data` alone.
pub uninterp spec fn base64_standard_decoding(data: Seq<char>) -> Result<Seq<u8>, Seq<char>>;

/// `base64::engine::general_purpose::STANDARD.decode`: the decoded bytes,
/// or the decoder's error rendered by its `Display`. The outcome, error text
/// included, is the named decoding of the argument; the decoder's rules are
/// not restated.
#[verifier::external_body]
fn decode_base64(data: &str) -> (r: Result<Vec<u8>, String>)
    ensures
        match r {
            Ok(bytes) => base64_standard_decoding(data@) == Ok::<Seq<u8>, Seq<char>>(bytes@),
            Err(why) => base64_standard_decoding(data@) == Err::<Seq<u8>, Seq<char>>(why@),
        },
{
    general_purpose::STANDARD.decode(data).map_err(|error| format!("{error}"))
}

/// The audio to play from a decoding outcome: the bytes, or a `400` that
/// quotes the decoder's complaint.
pub fn audio_from_decoding(decoded: Result<Vec<u8>, String>) -> (r: Result<Vec<u8>, SpeakError>)
    ensures
        match decoded {
            Ok(bytes) => r == Ok::<Vec<u8>, SpeakError>(bytes),
            Err(why) => r matches Err(e) && e.status == 400 && e.message@ == "invalid base64 audio: "@
                + why@,
        },
{
    match decoded {
        Ok(bytes) => Ok(bytes),
        Err(why) => {
            let mut message = owned("invalid base64 audio: ");
            crate::text::push_str(&mut message, why.as_str());
            Err(SpeakError { status: 400, message })
        },
    }
}

/// The MP3 bytes of a payload's base64 `data`, or a `400` that quotes the
/// decoder's complaint.
pub fn decode_audio(data: &str) -> (r: Result<Vec<u8>, SpeakError>)
    ensures
        match base64_standard_decoding(data@) {
            Ok(bytes) => r matches Ok(audio) && audio@ == bytes,
            Err(why) => r matches Err(e) && e.status == 400 && e.message@ == "invalid base64 audio: "@
                + why,
        },
{
    audio_from_decoding(decode_base64(data))
}

} // verus!
