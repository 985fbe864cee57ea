//! The per-connection command protocol: one session per client, commands
//! dispatched strictly in arrival order, single-shot and streamed
//! responses, and cancellation of in-flight streams on connection loss.
//!
//! Reading and writing the connection, the folder picker, the settings
//! store and the tag container are collaborators; their results come in
//! as plain values and every decision about them is made here.
use vstd::prelude::*;
use crate::track::TaggerConfig;
use crate::tagger::{ProgressEvent, FileStatus};
use crate::player::AudioPlayer;
use crate::waveform::CancellationToken;
use crate::text::{chars_of, string_of};

verus! {

/// One parsed command envelope. A payload field the client left out is
/// `None`: the dispatcher answers it with one error response.
pub enum Command {
    SaveSettings { settings: Option<String> },
    LoadSettings,
    Browse { context: String },
    StartTagging { config: Option<TaggerConfig> },
    Waveform { path: Option<String> },
    PlayerLoad { path: Option<String> },
    PlayerPlay,
    PlayerPause,
    PlayerSeek { pos: Option<u64> },
    PlayerVolume { volume: Option<u32> },
    QuicktagLoad { path: Option<String> },
    QuicktagSave { changes: Option<String> },
    Unknown,
}

/// One response envelope written back to the client.
pub enum Response {
    Error { message: String },
    LoadSettings { settings: String },
    Browse { path: String, context: String },
    TaggingProgress { path: String, status: FileStatus },
    TaggingDone,
    WaveformWave { wave: u16 },
    WaveformDone,
    PlayerLoad { duration: u64 },
    PlayerSync { playing: bool },
    QuicktagLoad { data: String },
    QuicktagSaved { path: String, file: String },
}

/// What the collaborators returned while this one command was handled.
pub struct CommandEnv {
    /// saveSettings: whether the settings store took the document.
    pub save_ok: bool,
    /// loadSettings: the stored settings document, if it loaded.
    pub settings_doc: Option<String>,
    /// browse: the folder the picker chose, if any.
    pub browse_choice: Option<String>,
    /// startTagging: whether the configured root path exists.
    pub root_valid: bool,
    /// startTagging: the orchestrator's events, one per file.
    pub tag_events: Vec<ProgressEvent>,
    /// playerLoad: the opened source's duration, if it opened.
    pub source_duration: Option<u64>,
    /// waveform: the produced amplitude buckets.
    pub wave_chunks: Vec<u16>,
    /// quicktagLoad: the serialised file data, if it loaded.
    pub quicktag_data: Option<String>,
    /// quicktagSave: the saved path and serialised file, if it committed.
    pub quicktag_saved: Option<(String, String)>,
}

/// Per-connection state: one audio player, owned exclusively.
pub struct Session {
    pub player: AudioPlayer,
}

/// A path as shown to the client: the run's root prefix removed.
pub open spec fn trim_root(p: Seq<char>, n: int) -> Seq<char> {
    if n <= p.len() {
        p.skip(n)
    } else {
        Seq::<char>::empty()
    }
}

fn trim_root_exec(p: &String, n: usize) -> (r: String)
    ensures
        r@ == trim_root(p@, n as int),
{
    let cs = chars_of(p.as_str());
    if n >= cs.len() {
        if n == cs.len() {
            assert(p@.skip(n as int) =~= Seq::<char>::empty());
        }
        String::new()
    } else {
        let mut out: Vec<char> = Vec::new();
        let mut i: usize = n;
        while i < cs.len()
            invariant
                n <= i <= cs@.len(),
                cs@ == p@,
                out@ == p@.subrange(n as int, i as int),
            decreases cs@.len() - i,
        {
            out.push(cs[i]);
            i = i + 1;
            assert(out@ =~= p@.subrange(n as int, i as int));
        }
        assert(out@ =~= p@.skip(n as int));
        string_of(&out)
    }
}

/// Whether the connection loop must end: only when the transport
/// confirms it can neither read nor write.
pub fn should_close(can_read: bool, can_write: bool) -> (r: bool)
    ensures
        r == (!can_read && !can_write),
{
    !can_read && !can_write
}

/// The per-chunk acknowledgment decision of the waveform stream: when the
/// connection can no longer be written to, the producer's token is
/// signalled; an already-requested token stays requested.
pub fn waveform_ack(can_write: bool, token: &mut CancellationToken)
    ensures
        final (token).requested == (old(token).requested || !can_write),
{
    if !can_write {
        token.request();
    }
}

/// What closing a connection does to its own session: the in-flight
/// stream's token is signalled and the player is released.
pub fn close_session(session: &mut Session, token: &mut CancellationToken)
    ensures
        final (token).requested,
        !final (session).player.loaded,
        !final (session).player.playing,
{
    token.request();
    session.player.release();
}

impl Session {
    pub fn new() -> (r: Session)
        ensures
            !r.player.loaded,
            !r.player.playing,
    {
        Session { player: AudioPlayer::new() }
    }
}

fn error_response(msg: &str) -> (r: Vec<Response>)
    ensures
        r@.len() == 1,
        r@[0] is Error,
{
    let mut v: Vec<Response> = Vec::new();
    v.push(Response::Error { message: msg.to_owned() });
    v
}

/// Handles one command envelope: dispatches it, mutates the session's
/// player where the command asks for it, and returns the responses to
/// write, in order. A handling failure yields exactly one error response;
/// an unrecognized action yields none.
pub fn handle_message(session: &mut Session, cmd: &Command, env: &CommandEnv) -> (r: Vec<Response>)
    ensures
        match cmd {
            Command::SaveSettings { settings } => {
                &&& (match settings {
                    None => r@.len() == 1 && r@[0] is Error,
                    Some(_) => if env.save_ok {
                        r@.len() == 0
                    } else {
                        r@.len() == 1 && r@[0] is Error
                    },
                })
                &&& final (session).player == old(session).player
            },
            Command::LoadSettings => {
                &&& (match env.settings_doc {
                    Some(d) => r@.len() == 1 && (r@[0] matches Response::LoadSettings { settings }
                        && settings@ == d@),
                    None => r@.len() == 1 && r@[0] is Error,
                })
                &&& final (session).player == old(session).player
            },
            Command::Browse { context } => {
                &&& (match env.browse_choice {
                    Some(p) => r@.len() == 1 && (r@[0] matches Response::Browse {
                        path,
                        context: c,
                    } && path@ == p@ && c@ == context@),
                    None => r@.len() == 0,
                })
                &&& final (session).player == old(session).player
            },
            Command::StartTagging { config } => {
                &&& (match config {
                    None => r@.len() == 1 && r@[0] is Error,
                    Some(cfg) => if !env.root_valid {
                        r@.len() == 1 && r@[0] is Error
                    } else {
                        let n = env.tag_events@.len() as int;
                        r@.len() == n + 1 && r@[n] is TaggingDone && forall|i: int|
                            0 <= i < n ==> (#[trigger] r@[i] matches Response::TaggingProgress {
                                path,
                                status,
                            } && path@ == trim_root(
                                env.tag_events@[i].path@,
                                cfg.path@.len() as int,
                            ) && status == env.tag_events@[i].status)
                    },
                })
                &&& final (session).player == old(session).player
            },
            Command::Waveform { path } => {
                &&& (match path {
                    None => r@.len() == 1 && r@[0] is Error,
                    Some(_) => {
                        let n = env.wave_chunks@.len() as int;
                        r@.len() == n + 1 && r@[n] is WaveformDone && forall|i: int|
                            0 <= i < n ==> (#[trigger] r@[i] matches Response::WaveformWave { wave }
                                && wave == env.wave_chunks@[i])
                    },
                })
                &&& final (session).player == old(session).player
            },
            Command::PlayerLoad { path } => {
                match (path, env.source_duration) {
                    (Some(_), Some(d)) => {
                        &&& r@.len() == 1
                        &&& (r@[0] matches Response::PlayerLoad { duration } && duration == d)
                        &&& final (session).player.loaded
                        &&& final (session).player.duration == d
                        &&& !final (session).player.playing
                        &&& final (session).player.volume == old(session).player.volume
                    },
                    _ => r@.len() == 1 && r@[0] is Error && final (session).player == old(session).player,
                }
            },
            Command::PlayerPlay => {
                &&& r@.len() == 0
                &&& final (session).player.playing == old(session).player.loaded
                &&& final (session).player.loaded == old(session).player.loaded
                &&& final (session).player.duration == old(session).player.duration
                &&& final (session).player.volume == old(session).player.volume
            },
            Command::PlayerPause => {
                &&& r@.len() == 0
                &&& !final (session).player.playing
                &&& final (session).player.loaded == old(session).player.loaded
                &&& final (session).player.duration == old(session).player.duration
                &&& final (session).player.volume == old(session).player.volume
            },
            Command::PlayerSeek { pos } => {
                match pos {
                    None => r@.len() == 1 && r@[0] is Error && final (session).player == old(session).player,
                    Some(p) => {
                        &&& r@.len() == 1
                        &&& (r@[0] matches Response::PlayerSync { playing } && playing == final(session).player.playing)
                        &&& final (session).player.playing == old(session).player.playing
                        &&& final (session).player.position == (if p
                            <= old(session).player.duration {
                            p as u64
                        } else {
                            old(session).player.duration
                        })
                        &&& final (session).player.loaded == old(session).player.loaded
                        &&& final (session).player.duration == old(session).player.duration
                        &&& final (session).player.volume == old(session).player.volume
                    },
                }
            },
            Command::PlayerVolume { volume } => {
                match volume {
                    None => r@.len() == 1 && r@[0] is Error && final (session).player == old(session).player,
                    Some(v) => {
                        &&& r@.len() == 0
                        &&& final (session).player.volume == (if v <= 1000 {
                            v as u32
                        } else {
                            1000u32
                        })
                        &&& final (session).player.loaded == old(session).player.loaded
                        &&& final (session).player.playing == old(session).player.playing
                        &&& final (session).player.duration == old(session).player.duration
                    },
                }
            },
            Command::QuicktagLoad { path } => {
                &&& (match (path, env.quicktag_data) {
                    (Some(_), Some(d)) => r@.len() == 1 && (r@[0]
                        matches Response::QuicktagLoad { data } && data@ == d@),
                    _ => r@.len() == 1 && r@[0] is Error,
                })
                &&& final (session).player == old(session).player
            },
            Command::QuicktagSave { changes } => {
                &&& (match (changes, env.quicktag_saved) {
                    (Some(_), Some(pf)) => r@.len() == 1 && (r@[0]
                        matches Response::QuicktagSaved { path, file } && path@ == pf.0@ && file@
                        == pf.1@),
                    _ => r@.len() == 1 && r@[0] is Error,
                })
                &&& final (session).player == old(session).player
            },
            Command::Unknown => r@.len() == 0 && final (session).player == old(session).player,
        },
{
    match cmd {
        Command::SaveSettings { settings } => {
            match settings {
                None => error_response("Missing settings!"),
                Some(_) => {
                    if env.save_ok {
                        Vec::new()
                    } else {
                        error_response("Failed saving settings!")
                    }
                },
            }
        },
        Command::LoadSettings => {
            match &env.settings_doc {
                Some(d) => {
                    let mut v: Vec<Response> = Vec::new();
                    v.push(Response::LoadSettings { settings: d.clone() });
                    v
                },
                None => error_response("Failed loading settings!"),
            }
        },
        Command::Browse { context } => {
            match &env.browse_choice {
                Some(p) => {
                    let mut v: Vec<Response> = Vec::new();
                    v.push(
                        Response::Browse { path: p.clone(), context: context.clone() },
                    );
                    v
                },
                None => Vec::new(),
            }
        },
        Command::StartTagging { config } => {
            match config {
                None => error_response("Missing config!"),
                Some(cfg) => {
                    if !env.root_valid {
                        error_response("Invalid path!")
                    } else {
                        let root_chars = chars_of(cfg.path.as_str());
                        let root_len = root_chars.len();
                        let mut v: Vec<Response> = Vec::new();
                        let mut i: usize = 0;
                        while i < env.tag_events.len()
                            invariant
                                i <= env.tag_events@.len(),
                                root_len == cfg.path@.len(),
                                v@.len() == i,
                                forall|j: int|
                                    0 <= j < i ==> (#[trigger] v@[j]
                                        matches Response::TaggingProgress { path, status } && path@
                                        == trim_root(
                                        env.tag_events@[j].path@,
                                        cfg.path@.len() as int,
                                    ) && status == env.tag_events@[j].status),
                            decreases env.tag_events@.len() - i,
                        {
                            let ev = &env.tag_events[i];
                            v.push(
                                Response::TaggingProgress {
                                    path: trim_root_exec(&ev.path, root_len),
                                    status: ev.status,
                                },
                            );
                            i = i + 1;
                        }
                        v.push(Response::TaggingDone);
                        v
                    }
                },
            }
        },
        Command::Waveform { path } => {
            match path {
                None => error_response("Missing path!"),
                Some(_) => {
                    let mut v: Vec<Response> = Vec::new();
                    let mut i: usize = 0;
                    while i < env.wave_chunks.len()
                        invariant
                            i <= env.wave_chunks@.len(),
                            v@.len() == i,
                            forall|j: int|
                                0 <= j < i ==> (#[trigger] v@[j] matches Response::WaveformWave {
                                    wave,
                                } && wave == env.wave_chunks@[j]),
                        decreases env.wave_chunks@.len() - i,
                    {
                        v.push(Response::WaveformWave { wave: env.wave_chunks[i] });
                        i = i + 1;
                    }
                    v.push(Response::WaveformDone);
                    v
                },
            }
        },
        Command::PlayerLoad { path } => {
            match (path, &env.source_duration) {
                (Some(_), Some(d)) => {
                    session.player.load_file(*d);
                    let mut v: Vec<Response> = Vec::new();
                    v.push(Response::PlayerLoad { duration: *d });
                    v
                },
                _ => error_response("Missing path!"),
            }
        },
        Command::PlayerPlay => {
            session.player.play();
            Vec::new()
        },
        Command::PlayerPause => {
            session.player.pause();
            Vec::new()
        },
        Command::PlayerSeek { pos } => {
            match pos {
                None => error_response("Missing position!"),
                Some(p) => {
                    let playing = session.player.seek(*p);
                    let mut v: Vec<Response> = Vec::new();
                    v.push(Response::PlayerSync { playing });
                    v
                },
            }
        },
        Command::PlayerVolume { volume } => {
            match volume {
                None => error_response("Missing volume!"),
                Some(vol) => {
                    session.player.set_volume(*vol);
                    Vec::new()
                },
            }
        },
        Command::QuicktagLoad { path } => {
            match (path, &env.quicktag_data) {
                (Some(_), Some(d)) => {
                    let mut v: Vec<Response> = Vec::new();
                    v.push(Response::QuicktagLoad { data: d.clone() });
                    v
                },
                _ => error_response("Missing path"),
            }
        },
        Command::QuicktagSave { changes } => {
            match (changes, &env.quicktag_saved) {
                (Some(_), Some(pf)) => {
                    let mut v: Vec<Response> = Vec::new();
                    v.push(
                        Response::QuicktagSaved { path: pf.0.clone(), file: pf.1.clone() },
                    );
                    v
                },
                _ => error_response("Failed loading tags"),
            }
        },
        Command::Unknown => Vec::new(),
    }
}

} // verus!
