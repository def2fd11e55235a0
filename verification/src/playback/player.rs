//! The player's state and the commands it accepts. The process and its
//! control socket are driven by the caller: this module says what to start,
//! what to send, and how the state follows.
use crate::text::{chars_of, extend_str, join_path, path_join, string_of};
use vstd::prelude::*;

verus! {

/// What the player is doing.
#[derive(Debug, Clone)]
pub enum PlaybackState {
    Stopped,
    Playing(String),
    Paused(String),
}

/// What the user asks of the player.
#[derive(Debug, Clone)]
pub enum PlaybackCommand {
    Play(String),
    Pause,
    Resume,
    Stop,
    SeekForward,
    SeekBackward,
    VolumeUp,
    VolumeDown,
}

/// What a command takes.
#[derive(Debug, Clone)]
pub enum PlaybackStep {
    /// Stop any running player, then start one on the URL.
    Start(String),
    /// Stop the running player.
    Stop,
    /// Send this line to the player's control socket.
    Send(String),
}

/// The player's state and its control socket.
pub struct PlaybackEngine {
    pub state: PlaybackState,
    pub ipc_socket: String,
}

/// The control-socket command for a command that needs one.
pub open spec fn ipc_command(c: PlaybackCommand) -> Option<Seq<char>> {
    match c {
        PlaybackCommand::Pause => Some("\"set_property\", \"pause\", true"@),
        PlaybackCommand::Resume => Some("\"set_property\", \"pause\", false"@),
        PlaybackCommand::SeekForward => Some("\"seek\", 10"@),
        PlaybackCommand::SeekBackward => Some("\"seek\", -10"@),
        PlaybackCommand::VolumeUp => Some("\"add\", \"volume\", 5"@),
        PlaybackCommand::VolumeDown => Some("\"add\", \"volume\", -5"@),
        _ => None,
    }
}

/// The line sent for a control-socket command: a JSON object with the
/// command list, and a newline.
pub open spec fn ipc_line(cmd: Seq<char>) -> Seq<char> {
    "{ \"command\": ["@ + cmd + "] }\n"@
}

/// Wraps a control-socket command into the line the player reads.
pub fn ipc_payload(cmd: &str) -> (r: String)
    ensures
        r@ == ipc_line(cmd@),
{
    let mut v = chars_of("{ \"command\": [");
    extend_str(&mut v, cmd);
    extend_str(&mut v, "] }\n");
    string_of(&v)
}

/// The state after a control-socket command went through: pausing pauses
/// what plays, resuming resumes what is paused; nothing else changes it.
pub open spec fn state_after_ipc(s: PlaybackState, c: PlaybackCommand) -> PlaybackState {
    match (c, s) {
        (PlaybackCommand::Pause, PlaybackState::Playing(u)) => PlaybackState::Paused(u),
        (PlaybackCommand::Resume, PlaybackState::Paused(u)) => PlaybackState::Playing(u),
        _ => s,
    }
}

impl PlaybackEngine {
    /// A stopped player whose control socket lies in the temporary
    /// directory `temp_dir`.
    pub fn new(temp_dir: &str) -> (r: PlaybackEngine)
        ensures
            r.state is Stopped,
            r.ipc_socket@ == path_join(temp_dir@, "streamvault-mpv.sock"@),
    {
        PlaybackEngine {
            state: PlaybackState::Stopped,
            ipc_socket: join_path(temp_dir, "streamvault-mpv.sock"),
        }
    }

    /// What the player is doing.
    pub fn state(&self) -> (r: &PlaybackState)
        ensures
            *r == self.state,
    {
        &self.state
    }

    /// Whether something is playing.
    pub fn is_playing(&self) -> (r: bool)
        ensures
            r == self.state is Playing,
    {
        match &self.state {
            PlaybackState::Playing(_) => true,
            _ => false,
        }
    }

    /// Whether playback is paused.
    pub fn is_paused(&self) -> (r: bool)
        ensures
            r == self.state is Paused,
    {
        match &self.state {
            PlaybackState::Paused(_) => true,
            _ => false,
        }
    }

    /// The URL playing or paused, if any.
    pub fn current_url(&self) -> (r: Option<&str>)
        ensures
            match self.state {
                PlaybackState::Playing(u) => r matches Some(x) && x@ == u@,
                PlaybackState::Paused(u) => r matches Some(x) && x@ == u@,
                PlaybackState::Stopped => r is None,
            },
    {
        match &self.state {
            PlaybackState::Playing(u) => Some(u.as_str()),
            PlaybackState::Paused(u) => Some(u.as_str()),
            PlaybackState::Stopped => None,
        }
    }

    /// The player's arguments for a URL: the URL, the control socket, a
    /// window kept open, hardware decoding, fuzzy subtitle loading, a short
    /// on-screen display and the window title.
    pub fn player_args(&self, url: &str) -> (r: Vec<String>)
        ensures
            r@.len() == 8,
            r@[0]@ == url@,
            r@[1]@ == "--input-ipc-server="@ + self.ipc_socket@,
            r@[2]@ == "--force-window=yes"@,
            r@[3]@ == "--keep-open=yes"@,
            r@[4]@ == "--hwdec=auto"@,
            r@[5]@ == "--sub-auto=fuzzy"@,
            r@[6]@ == "--osd-level=1"@,
            r@[7]@ == "--title=StreamVault"@,
    {
        let mut a: Vec<String> = Vec::new();
        a.push(url.to_owned());
        let mut s = chars_of("--input-ipc-server=");
        extend_str(&mut s, self.ipc_socket.as_str());
        a.push(string_of(&s));
        a.push("--force-window=yes".to_owned());
        a.push("--keep-open=yes".to_owned());
        a.push("--hwdec=auto".to_owned());
        a.push("--sub-auto=fuzzy".to_owned());
        a.push("--osd-level=1".to_owned());
        a.push("--title=StreamVault".to_owned());
        a
    }

    /// What a command takes.
    pub fn plan(&self, command: &PlaybackCommand) -> (r: PlaybackStep)
        ensures
            match *command {
                PlaybackCommand::Play(u) => r matches PlaybackStep::Start(x) && x@ == u@,
                PlaybackCommand::Stop => r is Stop,
                _ => r matches PlaybackStep::Send(line) && ipc_command(*command) matches Some(c)
                    && line@ == ipc_line(c),
            },
    {
        match command {
            PlaybackCommand::Play(u) => PlaybackStep::Start(u.clone()),
            PlaybackCommand::Stop => PlaybackStep::Stop,
            PlaybackCommand::Pause => PlaybackStep::Send(ipc_payload("\"set_property\", \"pause\", true")),
            PlaybackCommand::Resume => PlaybackStep::Send(ipc_payload("\"set_property\", \"pause\", false")),
            PlaybackCommand::SeekForward => PlaybackStep::Send(ipc_payload("\"seek\", 10")),
            PlaybackCommand::SeekBackward => PlaybackStep::Send(ipc_payload("\"seek\", -10")),
            PlaybackCommand::VolumeUp => PlaybackStep::Send(ipc_payload("\"add\", \"volume\", 5")),
            PlaybackCommand::VolumeDown => PlaybackStep::Send(ipc_payload("\"add\", \"volume\", -5")),
        }
    }

    /// The player was started on a URL.
    pub fn started(&mut self, url: String)
        ensures
            final(self).state == PlaybackState::Playing(url),
            final(self).ipc_socket == old(self).ipc_socket,
    {
        self.state = PlaybackState::Playing(url);
    }

    /// The player was stopped.
    pub fn stopped(&mut self)
        ensures
            final(self).state is Stopped,
            final(self).ipc_socket == old(self).ipc_socket,
    {
        self.state = PlaybackState::Stopped;
    }

    /// A control-socket command went through.
    pub fn ipc_sent(&mut self, command: &PlaybackCommand)
        ensures
            final(self).state == state_after_ipc(old(self).state, *command),
            final(self).ipc_socket == old(self).ipc_socket,
    {
        let next = match (command, &self.state) {
            (PlaybackCommand::Pause, PlaybackState::Playing(u)) => Some(PlaybackState::Paused(u.clone())),
            (PlaybackCommand::Resume, PlaybackState::Paused(u)) => Some(PlaybackState::Playing(u.clone())),
            _ => None,
        };
        if let Some(s) = next {
            self.state = s;
        }
    }
}

/// Pausing and then resuming what plays brings back the same state.
pub proof fn law_pause_resume_round_trip(s: PlaybackState)
    requires
        s is Playing,
    ensures
        state_after_ipc(state_after_ipc(s, PlaybackCommand::Pause), PlaybackCommand::Resume) == s,
{
}

/// Seeking and changing the volume leave the state alone.
pub proof fn law_seek_and_volume_keep_state(s: PlaybackState)
    ensures
        state_after_ipc(s, PlaybackCommand::SeekForward) == s,
        state_after_ipc(s, PlaybackCommand::SeekBackward) == s,
        state_after_ipc(s, PlaybackCommand::VolumeUp) == s,
        state_after_ipc(s, PlaybackCommand::VolumeDown) == s,
{
}

} // verus!
