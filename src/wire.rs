use vstd::prelude::*;

verus! {

/// The order of a playlist as the wire encodes it.
#[derive(Debug, Clone, Copy, PartialEq, Eq, Structural)]
pub enum ChangeMode {
    SEQUENTIAL,
    RANDOM,
}

impl ChangeMode {
    /// The number that encodes this mode.
    pub fn value(&self) -> (r: i32)
        ensures
            r == (match self {
                ChangeMode::SEQUENTIAL => 0i32,
                ChangeMode::RANDOM => 1i32,
            }),
    {
        match self {
            ChangeMode::SEQUENTIAL => 0,
            ChangeMode::RANDOM => 1,
        }
    }

    /// Every mode, in the order of their numbers.
    pub fn values() -> (r: Vec<ChangeMode>)
        ensures
            r@ == seq![ChangeMode::SEQUENTIAL, ChangeMode::RANDOM],
    {
        let r = vec![ChangeMode::SEQUENTIAL, ChangeMode::RANDOM];
        assert(r@ =~= seq![ChangeMode::SEQUENTIAL, ChangeMode::RANDOM]);
        r
    }

    /// The mode that `value` encodes, if any.
    pub fn from_i32(value: i32) -> (r: Option<ChangeMode>)
        ensures
            r == (if value == 0 {
                Some(ChangeMode::SEQUENTIAL)
            } else if value == 1 {
                Some(ChangeMode::RANDOM)
            } else {
                None
            }),
    {
        if value == 0 {
            Some(ChangeMode::SEQUENTIAL)
        } else if value == 1 {
            Some(ChangeMode::RANDOM)
        } else {
            None
        }
    }
}

/// An empty message.
#[derive(Debug, Clone, PartialEq)]
pub struct Empty {
}

impl Empty {
    pub fn new() -> (r: Empty)
    {
        Empty {  }
    }
}

/// The name of a playlist, as a client sends it.
#[derive(Debug, Clone, PartialEq)]
pub struct PlaylistName {
    pub name: String,
}

impl PlaylistName {
    pub fn new() -> (r: PlaylistName)
        ensures
            r.name@.len() == 0,
    {
        PlaylistName { name: String::new() }
    }

    /// Resets every field to its default.
    pub fn clear(&mut self)
        ensures
            final(self).name@.len() == 0,
    {
        self.name = String::new();
    }

    pub fn clear_name(&mut self)
        ensures
            final(self).name@.len() == 0,
            *final(self) == (PlaylistName { name: final(self).name, ..*old(self) }),
    {
        self.name = String::new();
    }

    pub fn set_name(&mut self, v: String)
        ensures
            *final(self) == (PlaylistName { name: v, ..*old(self) }),
    {
        self.name = v;
    }

    pub fn mut_name(&mut self) -> (r: &mut String)
        ensures
            *r == old(self).name,
            *final(self) == (PlaylistName { name: *final(r), ..*old(self) }),
    {
        &mut self.name
    }

    pub fn take_name(&mut self) -> (r: String)
        ensures
            r == old(self).name,
            final(self).name@.len() == 0,
            *final(self) == (PlaylistName { name: final(self).name, ..*old(self) }),
    {
        let mut r = String::new();
        std::mem::swap(&mut self.name, &mut r);
        r
    }

    pub fn get_name(&self) -> (r: &str)
        ensures
            r@ == self.name@,
    {
        self.name.as_str()
    }
}

/// The daemon's status as it travels over the wire.
#[derive(Debug, Clone, PartialEq)]
pub struct StatusInfo {
    pub playlists: Vec<(String, PlaylistInfo)>,
    pub current_playlist: String,
    pub last_update: i64,
}

impl StatusInfo {
    pub fn new() -> (r: StatusInfo)
        ensures
            r.playlists@.len() == 0,
            r.current_playlist@.len() == 0,
            r.last_update == 0,
    {
        StatusInfo { playlists: Vec::new(), current_playlist: String::new(), last_update: 0 }
    }

    /// Resets every field to its default.
    pub fn clear(&mut self)
        ensures
            final(self).playlists@.len() == 0,
            final(self).current_playlist@.len() == 0,
            final(self).last_update == 0,
    {
        self.playlists = Vec::new();
        self.current_playlist = String::new();
        self.last_update = 0;
    }

    pub fn clear_playlists(&mut self)
        ensures
            final(self).playlists@.len() == 0,
            *final(self) == (StatusInfo { playlists: final(self).playlists, ..*old(self) }),
    {
        self.playlists = Vec::new();
    }

    pub fn set_playlists(&mut self, v: Vec<(String, PlaylistInfo)>)
        ensures
            *final(self) == (StatusInfo { playlists: v, ..*old(self) }),
    {
        self.playlists = v;
    }

    pub fn mut_playlists(&mut self) -> (r: &mut Vec<(String, PlaylistInfo)>)
        ensures
            *r == old(self).playlists,
            *final(self) == (StatusInfo { playlists: *final(r), ..*old(self) }),
    {
        &mut self.playlists
    }

    pub fn take_playlists(&mut self) -> (r: Vec<(String, PlaylistInfo)>)
        ensures
            r == old(self).playlists,
            final(self).playlists@.len() == 0,
            *final(self) == (StatusInfo { playlists: final(self).playlists, ..*old(self) }),
    {
        let mut r = Vec::new();
        std::mem::swap(&mut self.playlists, &mut r);
        r
    }

    pub fn get_playlists(&self) -> (r: &[(String, PlaylistInfo)])
        ensures
            r@ == self.playlists@,
    {
        self.playlists.as_slice()
    }

    pub fn clear_current_playlist(&mut self)
        ensures
            final(self).current_playlist@.len() == 0,
            *final(self) == (StatusInfo { current_playlist: final(self).current_playlist, ..*old(self) }),
    {
        self.current_playlist = String::new();
    }

    pub fn set_current_playlist(&mut self, v: String)
        ensures
            *final(self) == (StatusInfo { current_playlist: v, ..*old(self) }),
    {
        self.current_playlist = v;
    }

    pub fn mut_current_playlist(&mut self) -> (r: &mut String)
        ensures
            *r == old(self).current_playlist,
            *final(self) == (StatusInfo { current_playlist: *final(r), ..*old(self) }),
    {
        &mut self.current_playlist
    }

    pub fn take_current_playlist(&mut self) -> (r: String)
        ensures
            r == old(self).current_playlist,
            final(self).current_playlist@.len() == 0,
            *final(self) == (StatusInfo { current_playlist: final(self).current_playlist, ..*old(self) }),
    {
        let mut r = String::new();
        std::mem::swap(&mut self.current_playlist, &mut r);
        r
    }

    pub fn get_current_playlist(&self) -> (r: &str)
        ensures
            r@ == self.current_playlist@,
    {
        self.current_playlist.as_str()
    }

    pub fn clear_last_update(&mut self)
        ensures
            final(self).last_update == 0,
            *final(self) == (StatusInfo { last_update: final(self).last_update, ..*old(self) }),
    {
        self.last_update = 0;
    }

    pub fn set_last_update(&mut self, v: i64)
        ensures
            *final(self) == (StatusInfo { last_update: v, ..*old(self) }),
    {
        self.last_update = v;
    }

    pub fn get_last_update(&self) -> (r: i64)
        ensures
            r == self.last_update,
    {
        self.last_update
    }
}

/// One playlist's status as it travels over the wire; an empty `current_image` stands for none.
#[derive(Debug, Clone, PartialEq)]
pub struct PlaylistInfo {
    pub directories: Vec<String>,
    pub files: Vec<String>,
    pub total_files: u64,
    pub mode: ChangeMode,
    pub current_image: String,
    pub trigger_on_select: bool,
    pub use_last_on_select: bool,
    pub next_update: i64,
}

impl PlaylistInfo {
    pub fn new() -> (r: PlaylistInfo)
        ensures
            r.directories@.len() == 0,
            r.files@.len() == 0,
            r.total_files == 0,
            r.mode == ChangeMode::SEQUENTIAL,
            r.current_image@.len() == 0,
            r.trigger_on_select == false,
            r.use_last_on_select == false,
            r.next_update == 0,
    {
        PlaylistInfo { directories: Vec::new(), files: Vec::new(), total_files: 0, mode: ChangeMode::SEQUENTIAL, current_image: String::new(), trigger_on_select: false, use_last_on_select: false, next_update: 0 }
    }

    /// Resets every field to its default.
    pub fn clear(&mut self)
        ensures
            final(self).directories@.len() == 0,
            final(self).files@.len() == 0,
            final(self).total_files == 0,
            final(self).mode == ChangeMode::SEQUENTIAL,
            final(self).current_image@.len() == 0,
            final(self).trigger_on_select == false,
            final(self).use_last_on_select == false,
            final(self).next_update == 0,
    {
        self.directories = Vec::new();
        self.files = Vec::new();
        self.total_files = 0;
        self.mode = ChangeMode::SEQUENTIAL;
        self.current_image = String::new();
        self.trigger_on_select = false;
        self.use_last_on_select = false;
        self.next_update = 0;
    }

    pub fn clear_directories(&mut self)
        ensures
            final(self).directories@.len() == 0,
            *final(self) == (PlaylistInfo { directories: final(self).directories, ..*old(self) }),
    {
        self.directories = Vec::new();
    }

    pub fn set_directories(&mut self, v: Vec<String>)
        ensures
            *final(self) == (PlaylistInfo { directories: v, ..*old(self) }),
    {
        self.directories = v;
    }

    pub fn mut_directories(&mut self) -> (r: &mut Vec<String>)
        ensures
            *r == old(self).directories,
            *final(self) == (PlaylistInfo { directories: *final(r), ..*old(self) }),
    {
        &mut self.directories
    }

    pub fn take_directories(&mut self) -> (r: Vec<String>)
        ensures
            r == old(self).directories,
            final(self).directories@.len() == 0,
            *final(self) == (PlaylistInfo { directories: final(self).directories, ..*old(self) }),
    {
        let mut r = Vec::new();
        std::mem::swap(&mut self.directories, &mut r);
        r
    }

    pub fn get_directories(&self) -> (r: &[String])
        ensures
            r@ == self.directories@,
    {
        self.directories.as_slice()
    }

    pub fn clear_files(&mut self)
        ensures
            final(self).files@.len() == 0,
            *final(self) == (PlaylistInfo { files: final(self).files, ..*old(self) }),
    {
        self.files = Vec::new();
    }

    pub fn set_files(&mut self, v: Vec<String>)
        ensures
            *final(self) == (PlaylistInfo { files: v, ..*old(self) }),
    {
        self.files = v;
    }

    pub fn mut_files(&mut self) -> (r: &mut Vec<String>)
        ensures
            *r == old(self).files,
            *final(self) == (PlaylistInfo { files: *final(r), ..*old(self) }),
    {
        &mut self.files
    }

    pub fn take_files(&mut self) -> (r: Vec<String>)
        ensures
            r == old(self).files,
            final(self).files@.len() == 0,
            *final(self) == (PlaylistInfo { files: final(self).files, ..*old(self) }),
    {
        let mut r = Vec::new();
        std::mem::swap(&mut self.files, &mut r);
        r
    }

    pub fn get_files(&self) -> (r: &[String])
        ensures
            r@ == self.files@,
    {
        self.files.as_slice()
    }

    pub fn clear_total_files(&mut self)
        ensures
            final(self).total_files == 0,
            *final(self) == (PlaylistInfo { total_files: final(self).total_files, ..*old(self) }),
    {
        self.total_files = 0;
    }

    pub fn set_total_files(&mut self, v: u64)
        ensures
            *final(self) == (PlaylistInfo { total_files: v, ..*old(self) }),
    {
        self.total_files = v;
    }

    pub fn get_total_files(&self) -> (r: u64)
        ensures
            r == self.total_files,
    {
        self.total_files
    }

    pub fn clear_mode(&mut self)
        ensures
            final(self).mode == ChangeMode::SEQUENTIAL,
            *final(self) == (PlaylistInfo { mode: final(self).mode, ..*old(self) }),
    {
        self.mode = ChangeMode::SEQUENTIAL;
    }

    pub fn set_mode(&mut self, v: ChangeMode)
        ensures
            *final(self) == (PlaylistInfo { mode: v, ..*old(self) }),
    {
        self.mode = v;
    }

    pub fn get_mode(&self) -> (r: ChangeMode)
        ensures
            r == self.mode,
    {
        self.mode
    }

    pub fn clear_current_image(&mut self)
        ensures
            final(self).current_image@.len() == 0,
            *final(self) == (PlaylistInfo { current_image: final(self).current_image, ..*old(self) }),
    {
        self.current_image = String::new();
    }

    pub fn set_current_image(&mut self, v: String)
        ensures
            *final(self) == (PlaylistInfo { current_image: v, ..*old(self) }),
    {
        self.current_image = v;
    }

    pub fn mut_current_image(&mut self) -> (r: &mut String)
        ensures
            *r == old(self).current_image,
            *final(self) == (PlaylistInfo { current_image: *final(r), ..*old(self) }),
    {
        &mut self.current_image
    }

    pub fn take_current_image(&mut self) -> (r: String)
        ensures
            r == old(self).current_image,
            final(self).current_image@.len() == 0,
            *final(self) == (PlaylistInfo { current_image: final(self).current_image, ..*old(self) }),
    {
        let mut r = String::new();
        std::mem::swap(&mut self.current_image, &mut r);
        r
    }

    pub fn get_current_image(&self) -> (r: &str)
        ensures
            r@ == self.current_image@,
    {
        self.current_image.as_str()
    }

    pub fn clear_trigger_on_select(&mut self)
        ensures
            final(self).trigger_on_select == false,
            *final(self) == (PlaylistInfo { trigger_on_select: final(self).trigger_on_select, ..*old(self) }),
    {
        self.trigger_on_select = false;
    }

    pub fn set_trigger_on_select(&mut self, v: bool)
        ensures
            *final(self) == (PlaylistInfo { trigger_on_select: v, ..*old(self) }),
    {
        self.trigger_on_select = v;
    }

    pub fn get_trigger_on_select(&self) -> (r: bool)
        ensures
            r == self.trigger_on_select,
    {
        self.trigger_on_select
    }

    pub fn clear_use_last_on_select(&mut self)
        ensures
            final(self).use_last_on_select == false,
            *final(self) == (PlaylistInfo { use_last_on_select: final(self).use_last_on_select, ..*old(self) }),
    {
        self.use_last_on_select = false;
    }

    pub fn set_use_last_on_select(&mut self, v: bool)
        ensures
            *final(self) == (PlaylistInfo { use_last_on_select: v, ..*old(self) }),
    {
        self.use_last_on_select = v;
    }

    pub fn get_use_last_on_select(&self) -> (r: bool)
        ensures
            r == self.use_last_on_select,
    {
        self.use_last_on_select
    }

    pub fn clear_next_update(&mut self)
        ensures
            final(self).next_update == 0,
            *final(self) == (PlaylistInfo { next_update: final(self).next_update, ..*old(self) }),
    {
        self.next_update = 0;
    }

    pub fn set_next_update(&mut self, v: i64)
        ensures
            *final(self) == (PlaylistInfo { next_update: v, ..*old(self) }),
    {
        self.next_update = v;
    }

    pub fn get_next_update(&self) -> (r: i64)
        ensures
            r == self.next_update,
    {
        self.next_update
    }
}

/// Statistics of all images.
#[derive(Debug, Clone, PartialEq)]
pub struct StatsInfo {
    pub image_stats: Vec<ImageStatsInfo>,
}

impl StatsInfo {
    pub fn new() -> (r: StatsInfo)
        ensures
            r.image_stats@.len() == 0,
    {
        StatsInfo { image_stats: Vec::new() }
    }

    /// Resets every field to its default.
    pub fn clear(&mut self)
        ensures
            final(self).image_stats@.len() == 0,
    {
        self.image_stats = Vec::new();
    }

    pub fn clear_image_stats(&mut self)
        ensures
            final(self).image_stats@.len() == 0,
            *final(self) == (StatsInfo { image_stats: final(self).image_stats, ..*old(self) }),
    {
        self.image_stats = Vec::new();
    }

    pub fn set_image_stats(&mut self, v: Vec<ImageStatsInfo>)
        ensures
            *final(self) == (StatsInfo { image_stats: v, ..*old(self) }),
    {
        self.image_stats = v;
    }

    pub fn mut_image_stats(&mut self) -> (r: &mut Vec<ImageStatsInfo>)
        ensures
            *r == old(self).image_stats,
            *final(self) == (StatsInfo { image_stats: *final(r), ..*old(self) }),
    {
        &mut self.image_stats
    }

    pub fn take_image_stats(&mut self) -> (r: Vec<ImageStatsInfo>)
        ensures
            r == old(self).image_stats,
            final(self).image_stats@.len() == 0,
            *final(self) == (StatsInfo { image_stats: final(self).image_stats, ..*old(self) }),
    {
        let mut r = Vec::new();
        std::mem::swap(&mut self.image_stats, &mut r);
        r
    }

    pub fn get_image_stats(&self) -> (r: &[ImageStatsInfo])
        ensures
            r@ == self.image_stats@,
    {
        self.image_stats.as_slice()
    }
}

/// Statistics of one image.
#[derive(Debug, Clone, PartialEq)]
pub struct ImageStatsInfo {
    pub filename: String,
    pub total_displays: i64,
    pub total_skips: i64,
    pub total_display_time: i64,
}

impl ImageStatsInfo {
    pub fn new() -> (r: ImageStatsInfo)
        ensures
            r.filename@.len() == 0,
            r.total_displays == 0,
            r.total_skips == 0,
            r.total_display_time == 0,
    {
        ImageStatsInfo { filename: String::new(), total_displays: 0, total_skips: 0, total_display_time: 0 }
    }

    /// Resets every field to its default.
    pub fn clear(&mut self)
        ensures
            final(self).filename@.len() == 0,
            final(self).total_displays == 0,
            final(self).total_skips == 0,
            final(self).total_display_time == 0,
    {
        self.filename = String::new();
        self.total_displays = 0;
        self.total_skips = 0;
        self.total_display_time = 0;
    }

    pub fn clear_filename(&mut self)
        ensures
            final(self).filename@.len() == 0,
            *final(self) == (ImageStatsInfo { filename: final(self).filename, ..*old(self) }),
    {
        self.filename = String::new();
    }

    pub fn set_filename(&mut self, v: String)
        ensures
            *final(self) == (ImageStatsInfo { filename: v, ..*old(self) }),
    {
        self.filename = v;
    }

    pub fn mut_filename(&mut self) -> (r: &mut String)
        ensures
            *r == old(self).filename,
            *final(self) == (ImageStatsInfo { filename: *final(r), ..*old(self) }),
    {
        &mut self.filename
    }

    pub fn take_filename(&mut self) -> (r: String)
        ensures
            r == old(self).filename,
            final(self).filename@.len() == 0,
            *final(self) == (ImageStatsInfo { filename: final(self).filename, ..*old(self) }),
    {
        let mut r = String::new();
        std::mem::swap(&mut self.filename, &mut r);
        r
    }

    pub fn get_filename(&self) -> (r: &str)
        ensures
            r@ == self.filename@,
    {
        self.filename.as_str()
    }

    pub fn clear_total_displays(&mut self)
        ensures
            final(self).total_displays == 0,
            *final(self) == (ImageStatsInfo { total_displays: final(self).total_displays, ..*old(self) }),
    {
        self.total_displays = 0;
    }

    pub fn set_total_displays(&mut self, v: i64)
        ensures
            *final(self) == (ImageStatsInfo { total_displays: v, ..*old(self) }),
    {
        self.total_displays = v;
    }

    pub fn get_total_displays(&self) -> (r: i64)
        ensures
            r == self.total_displays,
    {
        self.total_displays
    }

    pub fn clear_total_skips(&mut self)
        ensures
            final(self).total_skips == 0,
            *final(self) == (ImageStatsInfo { total_skips: final(self).total_skips, ..*old(self) }),
    {
        self.total_skips = 0;
    }

    pub fn set_total_skips(&mut self, v: i64)
        ensures
            *final(self) == (ImageStatsInfo { total_skips: v, ..*old(self) }),
    {
        self.total_skips = v;
    }

    pub fn get_total_skips(&self) -> (r: i64)
        ensures
            r == self.total_skips,
    {
        self.total_skips
    }

    pub fn clear_total_display_time(&mut self)
        ensures
            final(self).total_display_time == 0,
            *final(self) == (ImageStatsInfo { total_display_time: final(self).total_display_time, ..*old(self) }),
    {
        self.total_display_time = 0;
    }

    pub fn set_total_display_time(&mut self, v: i64)
        ensures
            *final(self) == (ImageStatsInfo { total_display_time: v, ..*old(self) }),
    {
        self.total_display_time = v;
    }

    pub fn get_total_display_time(&self) -> (r: i64)
        ensures
            r == self.total_display_time,
    {
        self.total_display_time
    }
}

} // verus!
