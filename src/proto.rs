use vstd::prelude::*;

use crate::config::ChangeMode;
use crate::wire;

verus! {

/// A request of the control client.
#[derive(Debug, Clone, PartialEq)]
pub enum ControlRequest {
    TriggerChange,
    RefreshPlaylists,
    Terminate,
    GetStatus,
    ChangePlaylist(String),
}

/// The daemon's answer to a control request.
#[derive(Debug, Clone, PartialEq)]
pub enum ControlResponse {
    TriggerChangeOk,
    RefreshPlaylistsOk,
    TerminateOk,
    StatusInfoOk(StatusInfo),
    StatusInfoFailed(String),
    ChangePlaylistOk,
    ChangePlaylistFailed(String),
}

/// A snapshot of the daemon's state.
#[derive(Debug, Clone, PartialEq)]
pub struct StatusInfo {
    /// Every playlist with its name, in configuration order.
    pub playlists: Vec<(String, PlaylistInfo)>,
    pub current_playlist: String,
    /// When the wallpaper was last changed (Unix seconds).
    pub last_update: i64,
}

/// A snapshot of one playlist.
#[derive(Debug, Clone, PartialEq)]
pub struct PlaylistInfo {
    pub directories: Vec<String>,
    pub files: Vec<String>,
    pub total_files: u64,
    pub mode: ChangeMode,
    pub current_image: Option<String>,
    pub trigger_on_select: bool,
    pub use_last_on_select: bool,
    /// When the playlist's next automatic change falls due (Unix seconds).
    pub next_update: i64,
}

/// The wire's encoding of a change mode.
pub open spec fn mode_to_wire_spec(m: ChangeMode) -> wire::ChangeMode {
    match m {
        ChangeMode::Sequential => wire::ChangeMode::SEQUENTIAL,
        ChangeMode::Random => wire::ChangeMode::RANDOM,
    }
}

pub fn mode_to_wire(m: ChangeMode) -> (r: wire::ChangeMode)
    ensures
        r == mode_to_wire_spec(m),
{
    match m {
        ChangeMode::Sequential => wire::ChangeMode::SEQUENTIAL,
        ChangeMode::Random => wire::ChangeMode::RANDOM,
    }
}

pub fn mode_from_wire(m: wire::ChangeMode) -> (r: ChangeMode)
    ensures
        mode_to_wire_spec(r) == m,
{
    match m {
        wire::ChangeMode::SEQUENTIAL => ChangeMode::Sequential,
        wire::ChangeMode::RANDOM => ChangeMode::Random,
    }
}

/// Whether `p` is the wire form `w` read back: an empty current image is none.
pub open spec fn playlist_read(w: wire::PlaylistInfo, p: PlaylistInfo) -> bool {
    &&& p.directories == w.directories
    &&& p.files == w.files
    &&& p.total_files == w.total_files
    &&& mode_to_wire_spec(p.mode) == w.mode
    &&& p.current_image == (if w.current_image@.len() == 0 {
        None
    } else {
        Some(w.current_image)
    })
    &&& p.trigger_on_select == w.trigger_on_select
    &&& p.use_last_on_select == w.use_last_on_select
    &&& p.next_update == w.next_update
}

/// Whether `w` is the wire form of `p`: no current image is sent as an empty one.
pub open spec fn playlist_written(p: PlaylistInfo, w: wire::PlaylistInfo) -> bool {
    &&& w.directories == p.directories
    &&& w.files == p.files
    &&& w.total_files == p.total_files
    &&& w.mode == mode_to_wire_spec(p.mode)
    &&& match p.current_image {
        Some(s) => w.current_image == s,
        None => w.current_image@.len() == 0,
    }
    &&& w.trigger_on_select == p.trigger_on_select
    &&& w.use_last_on_select == p.use_last_on_select
    &&& w.next_update == p.next_update
}

impl PlaylistInfo {
    pub fn from_wire(w: wire::PlaylistInfo) -> (r: PlaylistInfo)
        ensures
            playlist_read(w, r),
    {
        let current_image = if w.current_image.as_str().unicode_len() == 0 {
            None
        } else {
            Some(w.current_image)
        };
        PlaylistInfo {
            directories: w.directories,
            files: w.files,
            total_files: w.total_files,
            mode: mode_from_wire(w.mode),
            current_image,
            trigger_on_select: w.trigger_on_select,
            use_last_on_select: w.use_last_on_select,
            next_update: w.next_update,
        }
    }

    pub fn to_wire(self) -> (r: wire::PlaylistInfo)
        ensures
            playlist_written(self, r),
    {
        let current_image = match self.current_image {
            Some(s) => s,
            None => String::new(),
        };
        wire::PlaylistInfo {
            directories: self.directories,
            files: self.files,
            total_files: self.total_files,
            mode: mode_to_wire(self.mode),
            current_image,
            trigger_on_select: self.trigger_on_select,
            use_last_on_select: self.use_last_on_select,
            next_update: self.next_update,
        }
    }
}

impl StatusInfo {
    pub fn from_wire(w: wire::StatusInfo) -> (r: StatusInfo)
        ensures
            r.current_playlist == w.current_playlist,
            r.last_update == w.last_update,
            r.playlists@.len() == w.playlists@.len(),
            forall|i: int|
                0 <= i < r.playlists@.len() ==> (#[trigger] r.playlists@[i]).0 == w.playlists@[i].0
                    && playlist_read(w.playlists@[i].1, r.playlists@[i].1),
    {
        let ghost all = w.playlists@;
        let mut pending = w.playlists;
        let mut playlists: Vec<(String, PlaylistInfo)> = Vec::new();
        while pending.len() > 0
            invariant
                playlists@.len() + pending@.len() == all.len(),
                pending@ == all.subrange(playlists@.len() as int, all.len() as int),
                forall|i: int|
                    0 <= i < playlists@.len() ==> (#[trigger] playlists@[i]).0 == all[i].0
                        && playlist_read(all[i].1, playlists@[i].1),
            decreases pending@.len(),
        {
            let ghost k = playlists@.len() as int;
            let (name, info) = pending.remove(0);
            assert(all[k] == (name, info));
            playlists.push((name, PlaylistInfo::from_wire(info)));
            assert(pending@ =~= all.subrange(playlists@.len() as int, all.len() as int));
        }
        StatusInfo { playlists, current_playlist: w.current_playlist, last_update: w.last_update }
    }

    pub fn to_wire(self) -> (r: wire::StatusInfo)
        ensures
            r.current_playlist == self.current_playlist,
            r.last_update == self.last_update,
            r.playlists@.len() == self.playlists@.len(),
            forall|i: int|
                0 <= i < r.playlists@.len() ==> (#[trigger] r.playlists@[i]).0 == self.playlists@[i].0
                    && playlist_written(self.playlists@[i].1, r.playlists@[i].1),
    {
        let ghost all = self.playlists@;
        let mut pending = self.playlists;
        let mut playlists: Vec<(String, wire::PlaylistInfo)> = Vec::new();
        while pending.len() > 0
            invariant
                playlists@.len() + pending@.len() == all.len(),
                pending@ == all.subrange(playlists@.len() as int, all.len() as int),
                forall|i: int|
                    0 <= i < playlists@.len() ==> (#[trigger] playlists@[i]).0 == all[i].0
                        && playlist_written(all[i].1, playlists@[i].1),
            decreases pending@.len(),
        {
            let ghost k = playlists@.len() as int;
            let (name, info) = pending.remove(0);
            assert(all[k] == (name, info));
            playlists.push((name, info.to_wire()));
            assert(pending@ =~= all.subrange(playlists@.len() as int, all.len() as int));
        }
        wire::StatusInfo {
            playlists,
            current_playlist: self.current_playlist,
            last_update: self.last_update,
        }
    }
}

} // verus!
