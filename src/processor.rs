use vstd::prelude::*;

use crate::command::{substituted, CommandLine};
use crate::config::{ValidatedPlaylist, ValidatedServerConfig};
use crate::files::{is_image_path, scanned, ScanEntry};
use crate::playlist::{
    advance_run, is_refill, marked_unusable, next_image_step, probed, rescan_step, shows, Apply,
    Image, Playlist, PlaylistView,
};
use crate::proto::{PlaylistInfo, StatusInfo};
use crate::scheduler::{scheduled, simulated, Job, JobKind, Scheduler};
use crate::util::same_text;

verus! {

/// Display time credited to the current image each time the statistics job runs, in seconds.
pub const UPDATE_STATS_INTERVAL_SECS: i64 = 5;

/// A change that follows the previous one within this many seconds counts
/// as a skip of the image that was replaced.
pub const SKIP_INTERVAL_SECS: i64 = 10;

/// Why a processor operation failed.
#[derive(Debug, Clone, Copy, PartialEq, Eq, Structural)]
pub enum ProcessorError {
    /// The change job has not run yet, so there is no status to report.
    MissingTimestamp,
    /// No playlist has the requested name.
    PlaylistDoesNotExist,
}

impl ProcessorError {
    /// The error as a message for the client.
    pub fn message(&self) -> (r: &'static str)
        ensures
            r@ == match self {
                ProcessorError::MissingTimestamp => {
                    "No last execution timestamp of image change trigger is available"@
                },
                ProcessorError::PlaylistDoesNotExist => "Specified playlist does not exist"@,
            },
    {
        match self {
            ProcessorError::MissingTimestamp => {
                "No last execution timestamp of image change trigger is available"
            },
            ProcessorError::PlaylistDoesNotExist => "Specified playlist does not exist",
        }
    }
}

/// What a wallpaper change asks of the caller.
pub struct TriggerOutcome {
    /// The command that shows the selected image.
    pub command: Option<CommandLine>,
    /// The image to credit with one display.
    pub displayed: Option<String>,
    /// The image to credit with one skip.
    pub skipped: Option<String>,
}

/// The state of the processor.
pub ghost struct ProcessorView {
    pub playlists: Seq<PlaylistView>,
    pub names: Seq<Seq<char>>,
    pub current_playlist: int,
    pub last_trigger_time: Option<i64>,
    pub last_used_image: Option<String>,
}

impl ProcessorView {
    pub open spec fn current(self) -> PlaylistView {
        self.playlists[self.current_playlist]
    }

    /// The same state with playlist `i` replaced.
    pub open spec fn with_playlist(self, i: int, p: PlaylistView) -> ProcessorView {
        ProcessorView { playlists: self.playlists.update(i, p), ..self }
    }

    pub open spec fn has_name(self, name: Seq<char>) -> bool {
        exists|i: int| 0 <= i < self.names.len() && self.names[i] == name
    }
}

pub open spec fn path_of(i: Option<Image>) -> Option<String> {
    match i {
        Some(img) => Some(img.path),
        None => None,
    }
}

/// `a + b`, clamped to the range of `i64`.
pub open spec fn saturating_sum(a: i64, b: i64) -> i64 {
    let s = a + b;
    if s > i64::MAX {
        i64::MAX
    } else if s < i64::MIN {
        i64::MIN
    } else {
        s as i64
    }
}

/// Whether `info` describes playlist `p` for a change last made at `last`.
pub open spec fn describes(info: PlaylistInfo, p: PlaylistView, last: i64) -> bool {
    &&& info.directories@ == p.config.directories@
    &&& info.files@ == p.config.files@
    &&& info.total_files == p.images.len()
    &&& info.mode == p.config.mode
    &&& info.current_image == path_of(p.current)
    &&& info.trigger_on_select == p.config.trigger_on_select
    &&& info.use_last_on_select == p.config.use_last_on_select
    &&& info.next_update == saturating_sum(last, p.config.change_every)
}

/// When the change job last ran, if it is registered and ran.
pub open spec fn trigger_timestamp(jobs: Map<JobKind, Job>) -> Option<i64> {
    if jobs.contains_key(JobKind::Trigger) {
        jobs[JobKind::Trigger].last_execution_timestamp
    } else {
        None
    }
}

/// Whether `info` is the status of processor state `v` for a change last made at `last`.
pub open spec fn status_of(info: StatusInfo, v: ProcessorView, last: i64) -> bool {
    &&& info.current_playlist@ == v.names[v.current_playlist]
    &&& info.last_update == last
    &&& info.playlists@.len() == v.playlists.len()
    &&& forall|i: int|
        0 <= i < v.playlists.len() ==> {
            &&& (#[trigger] info.playlists@[i]).0@ == v.names[i]
            &&& describes(info.playlists@[i].1, v.playlists[i], last)
        }
}

fn add_saturating(a: i64, b: i64) -> (r: i64)
    ensures
        r == saturating_sum(a, b),
{
    let s: i128 = a as i128 + b as i128;
    if s > i64::MAX as i128 {
        i64::MAX
    } else if s < i64::MIN as i128 {
        i64::MIN
    } else {
        s as i64
    }
}

fn playlist_info(p: &Playlist, last: i64) -> (r: PlaylistInfo)
    ensures
        describes(r, p@, last),
{
    let config = p.config();
    let current_image = match p.current() {
        Some(img) => Some(img.path.clone()),
        None => None,
    };
    PlaylistInfo {
        directories: config.directories.clone(),
        files: config.files.clone(),
        total_files: p.len() as u64,
        mode: config.mode,
        current_image,
        trigger_on_select: config.trigger_on_select,
        use_last_on_select: config.use_last_on_select,
        next_update: add_saturating(last, config.change_every),
    }
}

/// Whether a change at `now` follows the previous change within the skip
/// interval (strictly less than `SKIP_INTERVAL_SECS` seconds later).
pub open spec fn is_skip(last_trigger_time: Option<i64>, now: i64) -> bool {
    match last_trigger_time {
        Some(t) => now - t < SKIP_INTERVAL_SECS,
        None => false,
    }
}

/// How a wallpaper change at `now` takes processor state `o` to `n`, with
/// `out` asked of the caller. The active playlist moves on past images whose
/// file is gone (marking them unusable) to one that `accessible` finds, or
/// to none when no usable image is left (see `advance_run` and `probed`);
/// the image shown before is remembered, and a change within the skip
/// interval of the previous one credits that image with a skip.
pub open spec fn triggered<F: Fn(&String) -> bool>(
    accessible: F,
    o: ProcessorView,
    n: ProcessorView,
    now: i64,
    out: TriggerOutcome,
) -> bool {
    let c = o.current_playlist;
    let before = o.current();
    let after = n.current();
    &&& n.names == o.names
    &&& n.current_playlist == c
    &&& n.playlists.len() == o.playlists.len()
    &&& forall|i: int| 0 <= i < o.playlists.len() && i != c ==> n.playlists[i] == o.playlists[i]
    &&& exists|tried: Seq<PlaylistView>| advance_run(before, tried, after) && probed(accessible, tried)
    &&& after.current is None ==> after.images.len() == 0
    &&& after.config == before.config
    &&& n.last_trigger_time == Some(now)
    &&& n.last_used_image == path_of(before.current)
    &&& out.displayed == path_of(after.current)
    &&& (out.command is None <==> after.current is None)
    &&& (out.command matches Some(cmd) ==> after.current matches Some(img) && shows(cmd, after, img)
        && is_image_path(img.path@))
    &&& out.skipped == (if after.current is Some && before.current is Some && is_skip(
        o.last_trigger_time,
        now,
    ) {
        path_of(before.current)
    } else {
        None
    })
}

/// Whether applying the current image of playlist `m`, whose file
/// `accessible` answered `ok` for, leaves it as `q` and asks for `cmd`: the
/// command that shows the image when it has an image extension and `ok`
/// holds, else nothing, with the image marked unusable.
pub open spec fn applied(m: PlaylistView, q: PlaylistView, cmd: Option<CommandLine>, ok: bool) -> bool {
    match m.current {
        None => q == m && cmd is None,
        Some(img) => if ok && is_image_path(img.path@) {
            cmd matches Some(c) && q == m && shows(c, m, img)
        } else {
            cmd is None && q == (PlaylistView { images: marked_unusable(m.images, img.path@), ..m })
        },
    }
}

/// `applied`, with `ok` an answer `accessible` gave for the current image.
pub open spec fn applied_with<F: Fn(&String) -> bool>(
    accessible: F,
    m: PlaylistView,
    q: PlaylistView,
    cmd: Option<CommandLine>,
) -> bool {
    match m.current {
        None => applied(m, q, cmd, true),
        Some(img) => exists|ok: bool|
            accessible.ensures((&img.path,), ok) && #[trigger] applied(m, q, cmd, ok),
    }
}

/// Selecting playlist `p` with "use last on select" leaves it as `q`: its
/// current image is applied again, or, if it never had one, it picks its
/// first image, which is applied and credited with a display.
pub open spec fn resumed<F: Fn(&String) -> bool>(
    accessible: F,
    p: PlaylistView,
    q: PlaylistView,
    out: TriggerOutcome,
) -> bool {
    &&& out.skipped is None
    &&& if p.current is Some {
        applied_with(accessible, p, q, out.command) && out.displayed is None
    } else {
        exists|m: PlaylistView|
            #[trigger] next_image_step(p, m) && applied_with(accessible, m, q, out.command)
                && out.displayed == path_of(m.current)
    }
}

/// How selecting playlist `idx` at `now` takes processor state `o` to `n`
/// and the jobs `so` to `sn`. The change job moves to the new playlist's
/// interval; then, if the playlist is set to change on select, it either
/// resumes its own current image (restarting the change timer) or changes
/// the wallpaper as a trigger would.
pub open spec fn switched<F: Fn(&String) -> bool>(
    accessible: F,
    o: ProcessorView,
    n: ProcessorView,
    idx: int,
    now: i64,
    out: TriggerOutcome,
    so: Map<JobKind, Job>,
    sn: Map<JobKind, Job>,
) -> bool {
    let p = o.playlists[idx];
    let s1 = scheduled(so, JobKind::Trigger, p.config.change_every);
    let o1 = ProcessorView { current_playlist: idx, ..o };
    if !p.config.trigger_on_select {
        &&& n == o1
        &&& sn == s1
        &&& out.command is None && out.displayed is None && out.skipped is None
    } else if p.config.use_last_on_select {
        &&& n == o1.with_playlist(idx, n.playlists[idx])
        &&& resumed(accessible, p, n.playlists[idx], out)
        &&& sn == simulated(s1, JobKind::Trigger, now)
    } else {
        &&& triggered(accessible, o1, n, now, out)
        &&& sn == s1
    }
}

/// The jobs after a rescan: with `simulate`, the refresh job counts as run at `now`.
pub open spec fn refresh_jobs(jobs: Map<JobKind, Job>, simulate: bool, now: i64) -> Map<JobKind, Job> {
    if simulate {
        simulated(jobs, JobKind::Refresh, now)
    } else {
        jobs
    }
}

/// Whether `cmd` is the command that shows `img` with playlist `p`.
pub open spec fn command_shows(cmd: Option<CommandLine>, p: PlaylistView, img: Image) -> bool {
    match cmd {
        Some(c) => shows(c, p, img),
        None => false,
    }
}

/// Whether `accessible` answers true for every path it may be asked about.
pub open spec fn always_accessible<F: Fn(&String) -> bool>(accessible: F) -> bool {
    forall|p: &String, b: bool| accessible.ensures((p,), b) ==> b
}

/// Status availability: once the change job is registered and scheduled
/// but has never run there is no status; after a change that restarts the
/// change timer at `now`, the status reports `now` as the last change, names
/// the active playlist, and gives each playlist its next change at the time
/// of the last change plus its interval.
pub proof fn lemma_status_availability<F: Fn(&String) -> bool>(
    accessible: F,
    o: ProcessorView,
    n: ProcessorView,
    now: i64,
    out: TriggerOutcome,
    jobs: Map<JobKind, Job>,
    interval: i64,
    info: StatusInfo,
)
    requires
        triggered(accessible, o, n, now, out),
        jobs.contains_key(JobKind::Trigger),
    ensures
        trigger_timestamp(
            scheduled(
                jobs.insert(
                    JobKind::Trigger,
                    Job { last_execution_timestamp: None, trigger_duration: None },
                ),
                JobKind::Trigger,
                interval,
            ),
        ) is None,
        trigger_timestamp(simulated(jobs, JobKind::Trigger, now)) == Some(now),
        n.last_trigger_time == Some(now),
        status_of(info, n, now) ==> {
            &&& info.current_playlist@ == o.names[o.current_playlist]
            &&& info.last_update == now
            &&& forall|i: int|
                0 <= i < info.playlists@.len() ==> (#[trigger] info.playlists@[i]).1.next_update
                    == saturating_sum(now, n.playlists[i].config.change_every)
            &&& forall|i: int|
                0 <= i < info.playlists@.len() && i64::MIN <= now + n.playlists[i].config.change_every
                    <= i64::MAX ==> (#[trigger] info.playlists@[i]).1.next_update == now
                    + n.playlists[i].config.change_every
        },
{
}

/// Selecting a playlist that changes on select and resumes its last image:
/// the first time, it picks the image a move to the next image would pick;
/// after that, its rotation does not move and the same image is applied
/// again. Either way the change timer restarts at `now`, and when the file
/// is accessible the command that shows the image is returned.
pub proof fn lemma_select_resumes<F: Fn(&String) -> bool>(
    accessible: F,
    o: ProcessorView,
    n: ProcessorView,
    idx: int,
    now: i64,
    out: TriggerOutcome,
    so: Map<JobKind, Job>,
    sn: Map<JobKind, Job>,
)
    requires
        0 <= idx < o.playlists.len(),
        switched(accessible, o, n, idx, now, out, so, sn),
        o.playlists[idx].config.trigger_on_select,
        o.playlists[idx].config.use_last_on_select,
    ensures
        n.current_playlist == idx,
        trigger_timestamp(sn) == (if so.contains_key(JobKind::Trigger) {
            Some(now)
        } else {
            None
        }),
        o.playlists[idx].current is None ==> exists|m: PlaylistView|
            #[trigger] next_image_step(o.playlists[idx], m) && n.playlists[idx].current == m.current
                && out.displayed == path_of(m.current) && (always_accessible(accessible)
                && m.current is Some && is_image_path(m.current->0.path@) ==> command_shows(
                out.command,
                m,
                m.current->0,
            )),
        o.playlists[idx].current is Some ==> {
            &&& n.playlists[idx].current == o.playlists[idx].current
            &&& n.playlists[idx].unused == o.playlists[idx].unused
            &&& out.displayed is None
            &&& out.command matches Some(c) ==> shows(
                c,
                o.playlists[idx],
                o.playlists[idx].current.unwrap(),
            )
            &&& always_accessible(accessible) && is_image_path(o.playlists[idx].current->0.path@)
                ==> command_shows(out.command, o.playlists[idx], o.playlists[idx].current->0)
        },
{
    let p = o.playlists[idx];
    let q = n.playlists[idx];
    assert(n.current_playlist == idx);
    if p.current is None {
        let m = choose|m: PlaylistView|
            #[trigger] next_image_step(p, m) && applied_with(accessible, m, q, out.command)
                && out.displayed == path_of(m.current);
        if m.current is Some {
            let ok = choose|ok: bool|
                accessible.ensures((&m.current->0.path,), ok) && #[trigger] applied(m, q, out.command, ok);
            if always_accessible(accessible) {
                assert(ok);
            }
        }
        assert(q.current == m.current);
    } else {
        let ok = choose|ok: bool|
            accessible.ensures((&p.current->0.path,), ok) && #[trigger] applied(p, q, out.command, ok);
        if always_accessible(accessible) {
            assert(ok);
        }
    }
}

/// The daemon's playlists, which of them is active, and what the last
/// change did. It decides; the caller performs the commands it returns and
/// records the statistics.
pub struct Processor {
    playlists: Vec<Playlist>,
    playlist_names: Vec<String>,
    current_playlist: usize,
    last_trigger_time: Option<i64>,
    last_used_image: Option<String>,
}

impl View for Processor {
    type V = ProcessorView;

    closed spec fn view(&self) -> ProcessorView {
        ProcessorView {
            playlists: self.playlists@.map_values(|p: Playlist| p@),
            names: self.playlist_names@.map_values(|s: String| s@),
            current_playlist: self.current_playlist as int,
            last_trigger_time: self.last_trigger_time,
            last_used_image: self.last_used_image,
        }
    }
}

impl Processor {
    /// Every playlist has a name and the names are distinct; the active
    /// playlist exists; every playlist is well formed.
    pub open spec fn wf(&self) -> bool {
        let v = self@;
        &&& v.playlists.len() == v.names.len()
        &&& 0 <= v.current_playlist < v.playlists.len()
        &&& forall|i: int, j: int|
            0 <= i < j < v.names.len() ==> #[trigger] v.names[i] != #[trigger] v.names[j]
        &&& forall|i: int| 0 <= i < v.playlists.len() ==> (#[trigger] v.playlists[i]).unused_within_images()
    }

    /// Builds the processor from the validated configuration and a listing
    /// of each playlist's files and directories (`listings[i]` for the `i`-th
    /// configured playlist). The default playlist is the active one.
    pub fn new(config: ValidatedServerConfig, listings: &Vec<Vec<ScanEntry>>) -> (r: Processor)
        requires
            listings@.len() == config.playlists@.len(),
            forall|i: int, j: int|
                0 <= i < j < config.playlists@.len() ==> #[trigger] config.playlists@[i].0@
                    != #[trigger] config.playlists@[j].0@,
            exists|i: int|
                0 <= i < config.playlists@.len() && #[trigger] config.playlists@[i].0@
                    == config.default_playlist@,
        ensures
            r.wf(),
            r@.names == config.playlists@.map_values(|e: (String, ValidatedPlaylist)| e.0@),
            r@.names[r@.current_playlist] == config.default_playlist@,
            r@.last_trigger_time is None,
            r@.last_used_image is None,
            forall|i: int|
                0 <= i < r@.playlists.len() ==> {
                    let p = #[trigger] r@.playlists[i];
                    &&& p.images == scanned(listings@[i]@)
                    &&& is_refill(p.config.mode, p.images, p.unused)
                    &&& p.current is None
                    &&& p.config == config.playlists@[i].1
                },
    {
        let ghost all = config.playlists@;
        let mut pending = config.playlists;
        let mut playlists: Vec<Playlist> = Vec::new();
        let mut names: Vec<String> = Vec::new();
        let mut i: usize = 0;
        while i < listings.len()
            invariant
                i + pending@.len() == all.len(),
                pending@ == all.subrange(i as int, all.len() as int),
                listings@.len() == all.len(),
                playlists@.len() == i,
                names@.len() == i,
                forall|k: int| 0 <= k < i ==> (#[trigger] names@[k])@ == all[k].0@,
                forall|k: int|
                    0 <= k < i ==> {
                        let p = (#[trigger] playlists@[k])@;
                        &&& p.images == scanned(listings@[k]@)
                        &&& is_refill(p.config.mode, p.images, p.unused)
                        &&& p.current is None
                        &&& p.config == all[k].1
                        &&& p.unused_within_images()
                    },
            decreases pending@.len(),
        {
            let (name, pc) = pending.remove(0);
            assert(all[i as int] == (name, pc));
            let p = Playlist::from_config(pc, &listings[i]);
            playlists.push(p);
            names.push(name);
            i = i + 1;
            assert(pending@ =~= all.subrange(i as int, all.len() as int));
        }
        let mut r = Processor {
            playlists,
            playlist_names: names,
            current_playlist: 0,
            last_trigger_time: None,
            last_used_image: None,
        };
        assert(r@.names =~= all.map_values(|e: (String, ValidatedPlaylist)| e.0@));
        proof {
            let k = choose|k: int|
                0 <= k < all.len() && #[trigger] all[k].0@ == config.default_playlist@;
            assert(r@.names[k] == config.default_playlist@);
        }
        let d = r.find_playlist(config.default_playlist.as_str());
        match d {
            Some(k) => {
                r.current_playlist = k;
            },
            None => {},
        }
        r
    }

    /// Index of the playlist called `name`.
    fn find_playlist(&self, name: &str) -> (r: Option<usize>)
        ensures
            match r {
                Some(i) => i < self@.names.len() && self@.names[i as int] == name@,
                None => !self@.has_name(name@),
            },
    {
        let mut i: usize = 0;
        while i < self.playlist_names.len()
            invariant
                i <= self.playlist_names.len(),
                forall|k: int| 0 <= k < i ==> self@.names[k] != name@,
            decreases self.playlist_names.len() - i,
        {
            if same_text(self.playlist_names[i].as_str(), name) {
                return Some(i);
            }
            i = i + 1;
        }
        None
    }

    /// A snapshot of every playlist and of the last change. Fails with
    /// `MissingTimestamp` exactly when the change job has no execution time,
    /// that is when it never ran or is not registered.
    pub fn get_status(&self, scheduler: &Scheduler) -> (r: Result<StatusInfo, ProcessorError>)
        requires
            self.wf(),
        ensures
            match r {
                Err(e) => e == ProcessorError::MissingTimestamp && trigger_timestamp(scheduler@) is None,
                Ok(info) => trigger_timestamp(scheduler@) matches Some(t) && status_of(info, self@, t),
            },
    {
        let last = match scheduler.get_last_execution_timestamp(JobKind::Trigger) {
            Some(t) => t,
            None => {
                return Err(ProcessorError::MissingTimestamp);
            },
        };
        let mut result: Vec<(String, PlaylistInfo)> = Vec::new();
        let mut i: usize = 0;
        while i < self.playlists.len()
            invariant
                self.wf(),
                i <= self.playlists.len(),
                result@.len() == i,
                forall|k: int|
                    0 <= k < i ==> {
                        &&& (#[trigger] result@[k]).0@ == self@.names[k]
                        &&& describes(result@[k].1, self@.playlists[k], last)
                    },
            decreases self.playlists.len() - i,
        {
            let info = playlist_info(&self.playlists[i], last);
            result.push((self.playlist_names[i].clone(), info));
            i = i + 1;
        }
        Ok(
            StatusInfo {
                playlists: result,
                current_playlist: self.playlist_names[self.current_playlist].clone(),
                last_update: last,
            },
        )
    }

    proof fn lemma_view_update(&self, i: int, p: Playlist, n: Vec<Playlist>)
        requires
            0 <= i < self.playlists@.len(),
            n@ == self.playlists@.update(i, p),
        ensures
            n@.map_values(|q: Playlist| q@) == self@.playlists.update(i, p@),
    {
        assert(n@.map_values(|q: Playlist| q@) =~= self@.playlists.update(i, p@));
    }

    /// Moves the active playlist on to an image that can be shown and
    /// records the change at `now`.
    fn change_image<F: Fn(&String) -> bool>(&mut self, now: i64, accessible: &F) -> (r: TriggerOutcome)
        requires
            old(self).wf(),
            forall|p: &String| accessible.requires((p,)),
        ensures
            final(self).wf(),
            triggered(*accessible, old(self)@, final(self)@, now, r),
    {
        let c = self.current_playlist;
        let last_used = match self.playlists[c].current() {
            Some(img) => Some(img.path.clone()),
            None => None,
        };
        let ghost o = self@;
        assert(o.playlists[c as int] == self.playlists@[c as int]@);
        let applied = self.playlists[c].advance_and_apply(accessible);
        let ghost mid = self@;
        assert(mid.playlists =~= o.playlists.update(c as int, mid.playlists[c as int]));
        proof {
            let before = o.current();
            let after = mid.playlists[c as int];
            let tried = choose|tried: Seq<PlaylistView>|
                advance_run(before, tried, after) && probed(*accessible, tried);
            assert(advance_run(before, tried, after) && probed(*accessible, tried));
        }
        let displayed = match self.playlists[c].current() {
            Some(img) => Some(img.path.clone()),
            None => None,
        };
        let skipped = match (&displayed, &last_used, self.last_trigger_time) {
            (Some(_), Some(prev), Some(t)) => {
                if (now as i128) - (t as i128) < SKIP_INTERVAL_SECS as i128 {
                    Some(prev.clone())
                } else {
                    None
                }
            },
            _ => None,
        };
        let command = match applied {
            Apply::Run(cmd) => Some(cmd),
            _ => None,
        };
        self.last_used_image = last_used;
        self.last_trigger_time = Some(now);
        TriggerOutcome { command, displayed, skipped }
    }

    /// Changes the wallpaper at `now`: the active playlist moves on to the
    /// next image whose file is still there (`accessible` tells whether a
    /// path names an accessible regular file). With `simulate`, the change
    /// job's timer restarts at `now`, as after a change asked for by a client.
    pub fn trigger<F: Fn(&String) -> bool>(
        &mut self,
        scheduler: &mut Scheduler,
        simulate: bool,
        now: i64,
        accessible: &F,
    ) -> (r: Result<TriggerOutcome, ProcessorError>)
        requires
            old(self).wf(),
            forall|p: &String| accessible.requires((p,)),
        ensures
            final(self).wf(),
            r is Ok,
            r matches Ok(out) ==> triggered(*accessible, old(self)@, final(self)@, now, out),
            final(scheduler)@ == if simulate {
                simulated(old(scheduler)@, JobKind::Trigger, now)
            } else {
                old(scheduler)@
            },
            final(scheduler).stopped() == old(scheduler).stopped(),
    {
        let out = self.change_image(now, accessible);
        if simulate {
            scheduler.simulate(JobKind::Trigger, now);
        }
        Ok(out)
    }

    /// Makes the playlist called `playlist_name` the active one at `now`
    /// (see `switched`); fails with `PlaylistDoesNotExist`, changing nothing,
    /// when there is none.
    pub fn change_playlist<F: Fn(&String) -> bool>(
        &mut self,
        scheduler: &mut Scheduler,
        playlist_name: &str,
        now: i64,
        accessible: &F,
    ) -> (r: Result<TriggerOutcome, ProcessorError>)
        requires
            old(self).wf(),
            forall|p: &String| accessible.requires((p,)),
        ensures
            final(self).wf(),
            final(scheduler).stopped() == old(scheduler).stopped(),
            !old(self)@.has_name(playlist_name@) ==> {
                &&& r matches Err(e) && e == ProcessorError::PlaylistDoesNotExist
                &&& final(self)@ == old(self)@
                &&& final(scheduler)@ == old(scheduler)@
            },
            old(self)@.has_name(playlist_name@) ==> {
                &&& r is Ok
                &&& exists|i: int|
                    0 <= i < old(self)@.names.len() && old(self)@.names[i] == playlist_name@
                        && switched(
                        *accessible,
                        old(self)@,
                        final(self)@,
                        i,
                        now,
                        r->Ok_0,
                        old(scheduler)@,
                        final(scheduler)@,
                    )
            },
    {
        let idx = match self.find_playlist(playlist_name) {
            Some(i) => i,
            None => {
                return Err(ProcessorError::PlaylistDoesNotExist);
            },
        };
        let ghost o = self@;
        self.current_playlist = idx;
        let ghost o1 = self@;
        assert(o1 == (ProcessorView { current_playlist: idx as int, ..o }));
        let every = self.playlists[idx].config().change_every;
        let on_select = self.playlists[idx].config().trigger_on_select;
        let use_last = self.playlists[idx].config().use_last_on_select;
        scheduler.schedule(JobKind::Trigger, every);
        if !on_select {
            return Ok(TriggerOutcome { command: None, displayed: None, skipped: None });
        }
        if use_last {
            assert(o.playlists[idx as int] == self.playlists@[idx as int]@);
            let first = self.playlists[idx].move_to_next_image_if_first_time();
            let ghost m = self@.playlists[idx as int];
            let displayed = if first {
                match self.playlists[idx].current() {
                    Some(img) => Some(img.path.clone()),
                    None => None,
                }
            } else {
                None
            };
            let ok = match self.playlists[idx].current() {
                Some(img) => accessible(&img.path),
                None => true,
            };
            let result = self.playlists[idx].apply_current_image(ok);
            scheduler.simulate(JobKind::Trigger, now);
            let command = match result {
                Apply::Run(c) => Some(c),
                _ => None,
            };
            let out = TriggerOutcome { command, displayed, skipped: None };
            proof {
                let n = self@;
                assert(n.playlists =~= o1.playlists.update(idx as int, n.playlists[idx as int]));
                if m.current is Some {
                    assert(applied(m, n.playlists[idx as int], out.command, ok));
                }
                assert(applied_with(*accessible, m, n.playlists[idx as int], out.command));
            }
            Ok(out)
        } else {
            let out = self.change_image(now, accessible);
            Ok(out)
        }
    }

    /// Rescans every playlist against its fresh listing: `listings[i]` lists
    /// the files and directories of playlist `i`. With `simulate`, the
    /// refresh job's timer restarts at `now`.
    pub fn refresh_playlists(
        &mut self,
        scheduler: &mut Scheduler,
        listings: &Vec<Vec<ScanEntry>>,
        simulate: bool,
        now: i64,
    ) -> (r: Result<(), ProcessorError>)
        requires
            old(self).wf(),
            listings@.len() == old(self)@.playlists.len(),
        ensures
            final(self).wf(),
            r is Ok,
            final(self)@.names == old(self)@.names,
            final(self)@.current_playlist == old(self)@.current_playlist,
            final(self)@.last_trigger_time == old(self)@.last_trigger_time,
            final(self)@.last_used_image == old(self)@.last_used_image,
            final(self)@.playlists.len() == old(self)@.playlists.len(),
            forall|i: int|
                0 <= i < old(self)@.playlists.len() ==> rescan_step(
                    old(self)@.playlists[i],
                    listings@[i]@,
                    #[trigger] final(self)@.playlists[i],
                ),
            final(scheduler)@ == refresh_jobs(old(scheduler)@, simulate, now),
            final(scheduler).stopped() == old(scheduler).stopped(),
    {
        let mut i: usize = 0;
        while i < self.playlists.len()
            invariant
                self.wf(),
                0 <= i <= self.playlists.len(),
                self.playlists.len() == old(self).playlists.len(),
                listings@.len() == self.playlists.len(),
                self@.names == old(self)@.names,
                self@.current_playlist == old(self)@.current_playlist,
                self@.last_trigger_time == old(self)@.last_trigger_time,
                self@.last_used_image == old(self)@.last_used_image,
                forall|k: int|
                    0 <= k < i ==> rescan_step(
                        old(self)@.playlists[k],
                        listings@[k]@,
                        #[trigger] self@.playlists[k],
                    ),
                forall|k: int| i <= k < self.playlists.len() ==> self@.playlists[k] == old(self)@.playlists[k],
            decreases self.playlists.len() - i,
        {
            let ghost before = self@;
            assert(before.playlists[i as int] == self.playlists@[i as int]@);
            self.playlists[i].update(&listings[i]);
            proof {
                let n = self@;
                assert(n.playlists =~= before.playlists.update(i as int, n.playlists[i as int]));
            }
            i = i + 1;
        }
        if simulate {
            scheduler.simulate(JobKind::Refresh, now);
        }
        Ok(())
    }

    /// Schedules the change job at the active playlist's interval.
    pub fn start(&self, scheduler: &mut Scheduler)
        requires
            self.wf(),
        ensures
            final(scheduler)@ == scheduled(
                old(scheduler)@,
                JobKind::Trigger,
                self@.current().config.change_every,
            ),
            final(scheduler).stopped() == old(scheduler).stopped(),
    {
        let every = self.playlists[self.current_playlist].config().change_every;
        scheduler.schedule(JobKind::Trigger, every);
    }

    /// The image to credit with display time when the statistics job runs:
    /// the current image of the active playlist.
    pub fn update_stats(&self) -> (r: Option<String>)
        requires
            self.wf(),
        ensures
            r == path_of(self@.current().current),
    {
        match self.playlists[self.current_playlist].current() {
            Some(img) => Some(img.path.clone()),
            None => None,
        }
    }
}

} // verus!
