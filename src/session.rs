//! Per-session decisions: the display a slot stands for, the lines a
//! waiting client reads, what each admission status leads to, and the name
//! a client is known by.
use vstd::prelude::*;
use vstd::string::StrSliceExecFns;
use vstd::utf8::encode_utf8;
use crate::pool::ResourceStatus;
use crate::text::{decimal, push_decimal};

verus! {

/// What a game session is started with.
pub struct MinecraftConfig {
    /// The display the game draws on, such as `:1`.
    pub xorg_display: String,
    pub username: String,
    /// The server to join; empty for a local world.
    pub server_address: String,
}

impl MinecraftConfig {
    /// Without a server to join the game starts in its menus, so the
    /// pointer starts in absolute mode.
    pub fn absolute_mouse_by_default(&self) -> (r: bool)
        ensures
            r == (self.server_address@.len() == 0),
    {
        self.server_address.as_str().is_empty()
    }
}

/// The launch script of the game.
pub const LAUNCH_SCRIPT: &'static str = "/root/launch_minecraft.py";

/// Arguments of the game's launch script: the user name, and the server to
/// join when there is one.
pub open spec fn launch_args_of(config: MinecraftConfig) -> Seq<Seq<char>> {
    let base = seq![LAUNCH_SCRIPT@, "--username"@, config.username@];
    if config.server_address@.len() == 0 {
        base
    } else {
        base + seq!["--server"@, config.server_address@]
    }
}

impl MinecraftConfig {
    /// The arguments the launch script is run with.
    pub fn launch_args(&self) -> (r: Vec<String>)
        ensures
            r@.map_values(|a: String| a@) == launch_args_of(*self),
    {
        let mut args: Vec<String> = Vec::new();
        args.push(LAUNCH_SCRIPT.to_string());
        args.push("--username".to_string());
        args.push(self.username.clone());
        if !self.server_address.as_str().is_empty() {
            args.push("--server".to_string());
            args.push(self.server_address.clone());
        }
        assert(args@.map_values(|a: String| a@) =~= launch_args_of(*self));
        args
    }
}

/// Milliseconds the game gets to exit after it is asked to stop.
pub const GAME_GRACE_MS: u64 = 5000;

/// Where the watch over a session's game process stands.
#[derive(Clone, Copy, Debug, PartialEq, Eq, Structural)]
pub enum GameWatch {
    Running,
    /// Asked to stop at this time; killed when the grace period is over.
    Stopping(u64),
    Finished,
}

/// What the watcher does after one look at the game process.
#[derive(Clone, Copy, Debug, PartialEq, Eq, Structural)]
pub enum GameAction {
    Wait,
    /// The game exited on its own: the session ends.
    EndSession,
    /// The session ended: ask the game to stop.
    Terminate,
    /// The game outlived its grace period.
    Kill,
}

/// One look at the game at time `now`: whether it has exited and whether
/// the session still runs.
pub open spec fn game_step(watch: GameWatch, exited: bool, session_running: bool, now: u64) -> (GameWatch, GameAction) {
    match watch {
        GameWatch::Running => {
            if exited {
                (GameWatch::Finished, GameAction::EndSession)
            } else if !session_running {
                (GameWatch::Stopping(now), GameAction::Terminate)
            } else {
                (GameWatch::Running, GameAction::Wait)
            }
        },
        GameWatch::Stopping(since) => {
            if exited {
                (GameWatch::Finished, GameAction::Wait)
            } else if now >= since && now - since >= GAME_GRACE_MS {
                (GameWatch::Finished, GameAction::Kill)
            } else {
                (watch, GameAction::Wait)
            }
        },
        GameWatch::Finished => (watch, GameAction::Wait),
    }
}

impl GameWatch {
    pub fn step(&mut self, exited: bool, session_running: bool, now: u64) -> (r: GameAction)
        ensures
            (*final(self), r) == game_step(*old(self), exited, session_running, now),
    {
        match *self {
            GameWatch::Running => {
                if exited {
                    *self = GameWatch::Finished;
                    GameAction::EndSession
                } else if !session_running {
                    *self = GameWatch::Stopping(now);
                    GameAction::Terminate
                } else {
                    GameAction::Wait
                }
            },
            GameWatch::Stopping(since) => {
                if exited {
                    *self = GameWatch::Finished;
                    GameAction::Wait
                } else if now >= since && now - since >= GAME_GRACE_MS {
                    *self = GameWatch::Finished;
                    GameAction::Kill
                } else {
                    GameAction::Wait
                }
            },
            GameWatch::Finished => GameAction::Wait,
        }
    }
}

/// `:` followed by `slot + 1`: the display of a slot.
pub open spec fn display_of(slot: u32) -> Seq<u8> {
    seq![0x3au8] + decimal(slot as nat + 1)
}

/// The display name of a slot, as ASCII bytes.
pub fn display_name(slot: u32) -> (r: Vec<u8>)
    ensures
        r@ == display_of(slot),
{
    let mut out: Vec<u8> = Vec::new();
    out.push(0x3a);
    push_decimal(&mut out, slot as u128 + 1);
    assert(out@ =~= display_of(slot));
    out
}

/// Where a session goes after a status.
#[derive(Clone, Copy, Debug, PartialEq, Eq, Structural)]
pub enum Admission {
    /// Keep waiting for further statuses.
    Wait,
    /// Start the game on this slot.
    Serve(u32),
    /// The request ended without a slot.
    End,
}

pub open spec fn admission_of(status: ResourceStatus) -> Admission {
    match status {
        ResourceStatus::Success(slot) => Admission::Serve(slot),
        ResourceStatus::QueuePosition(_) => Admission::Wait,
        _ => Admission::End,
    }
}

/// The line shown to the client for a status, in UTF-8; positions are
/// counted from one.
pub open spec fn status_text(status: ResourceStatus) -> Seq<u8> {
    match status {
        ResourceStatus::Success(slot) => encode_utf8("✅ Assigned session "@) + decimal(slot as nat)
            + encode_utf8("\r\n"@),
        ResourceStatus::QueuePosition(n) => encode_utf8("⏳ You are position "@) + decimal(n as nat + 1)
            + encode_utf8(" in queue\r\n"@),
        ResourceStatus::Cancelled => encode_utf8("❌ Request was cancelled\r\n"@),
        ResourceStatus::Failed(reason) => encode_utf8("❌ Server error: "@) + encode_utf8(reason@)
            + encode_utf8("\r\n"@),
    }
}

/// A status line for the client and what the session does next.
pub struct StatusStep {
    pub message: Vec<u8>,
    pub next: Admission,
}

/// Handles one status of the session's own request.
pub fn on_status(status: &ResourceStatus) -> (r: StatusStep)
    ensures
        r.message@ == status_text(*status),
        r.next == admission_of(*status),
{
    let mut message: Vec<u8> = Vec::new();
    let next = match status {
        ResourceStatus::Success(slot) => {
            message.extend_from_slice("✅ Assigned session ".as_bytes());
            push_decimal(&mut message, *slot as u128);
            message.extend_from_slice("\r\n".as_bytes());
            Admission::Serve(*slot)
        },
        ResourceStatus::QueuePosition(n) => {
            message.extend_from_slice("⏳ You are position ".as_bytes());
            push_decimal(&mut message, *n as u128 + 1);
            message.extend_from_slice(" in queue\r\n".as_bytes());
            Admission::Wait
        },
        ResourceStatus::Cancelled => {
            message.extend_from_slice("❌ Request was cancelled\r\n".as_bytes());
            Admission::End
        },
        ResourceStatus::Failed(reason) => {
            message.extend_from_slice("❌ Server error: ".as_bytes());
            message.extend_from_slice(reason.as_str().as_bytes());
            message.extend_from_slice("\r\n".as_bytes());
            Admission::End
        },
    };
    assert(message@ =~= status_text(*status));
    StatusStep { message, next }
}

/// The lowercase hexadecimal SHA-256 digest of a text's UTF-8 bytes.
pub uninterp spec fn sha256_hex(text: Seq<char>) -> Seq<char>;

/// Relies on `sha256::digest` for `&str`: the hex encoding of the SHA-256
/// digest of the text's bytes, two characters for each of its 32 bytes.
#[verifier::external_body]
fn sha256_digest(text: &str) -> (r: String)
    ensures
        r@ == sha256_hex(text@),
        r@.len() == 64,
{
    sha256::digest(text)
}

/// The first twelve characters of a key digest (all of it if shorter).
pub fn identity_from_digest(digest: &str) -> (r: String)
    ensures
        r@ == if digest@.len() >= 12 { digest@.take(12) } else { digest@ },
{
    if digest.unicode_len() >= 12 {
        digest.substring_char(0, 12).to_owned()
    } else {
        digest.to_owned()
    }
}

/// The name a client is known by: the first twelve characters of the
/// SHA-256 digest of its public key in base64.
pub fn user_identity(public_key_base64: &str) -> (r: String)
    ensures
        r@ == sha256_hex(public_key_base64@).take(12),
{
    let digest = sha256_digest(public_key_base64);
    identity_from_digest(digest.as_str())
}

} // verus!
