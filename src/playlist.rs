use vstd::prelude::*;

use rand::seq::SliceRandom;

use crate::command::{ChangeCommand, CommandLine, substituted};
use crate::config::{ChangeMode, ValidatedPlaylist};
use crate::files::{
    absent_from, check_file, has_path, images_absent_from, images_present_in, is_image_path,
    present_in, scan_playlist, scanned, RescanResult, ScanEntry,
};

verus! {

/// A wallpaper candidate found on disk.
pub struct Image {
    pub path: String,
    /// False once the file was found missing or unreadable when it was about to be shown.
    pub usable: bool,
}

impl Clone for Image {
    fn clone(&self) -> (r: Image)
        ensures
            r == *self,
    {
        Image { path: self.path.clone(), usable: self.usable }
    }
}

impl Image {
    /// Whether the image's file still qualifies, given whether it is an accessible regular file.
    pub fn check(&self, is_file: bool) -> (r: bool)
        ensures
            r == (is_file && is_image_path(self.path@)),
    {
        check_file(self.path.as_str(), is_file)
    }
}

/// The images of `s` that are still usable, in order.
pub open spec fn usable_only(s: Seq<Image>) -> Seq<Image>
    decreases s.len(),
{
    if s.len() == 0 {
        s
    } else if s.last().usable {
        usable_only(s.drop_last()).push(s.last())
    } else {
        usable_only(s.drop_last())
    }
}

/// `s` with every image marked usable again.
pub open spec fn revived(s: Seq<Image>) -> Seq<Image> {
    s.map_values(|i: Image| Image { path: i.path, usable: true })
}

/// `s` with every image at path `p` marked unusable.
pub open spec fn marked_unusable(s: Seq<Image>, p: Seq<char>) -> Seq<Image> {
    s.map_values(|i: Image| if i.path@ == p { Image { path: i.path, usable: false } } else { i })
}

/// Whether `unused` is a fresh rotation over `pool`: images are taken from the
/// end of `unused`, so sequential mode holds `pool` reversed (and visits it in
/// order), random mode any permutation of it.
pub open spec fn is_refill(mode: ChangeMode, pool: Seq<Image>, unused: Seq<Image>) -> bool {
    match mode {
        ChangeMode::Sequential => unused == pool.reverse(),
        ChangeMode::Random => unused.to_multiset() == pool.to_multiset(),
    }
}

/// The state of a playlist.
pub ghost struct PlaylistView {
    /// Every known image.
    pub images: Seq<Image>,
    /// The images not shown yet in this cycle; the next one is the last.
    pub unused: Seq<Image>,
    /// The image shown now, if any.
    pub current: Option<Image>,
    pub config: ValidatedPlaylist,
}

impl PlaylistView {
    /// Every image waiting in the rotation is one of the known images.
    pub open spec fn unused_within_images(self) -> bool {
        forall|i: int| 0 <= i < self.unused.len() ==> has_path(self.images, #[trigger] self.unused[i].path@)
    }
}

/// How a single move to the next image changes a playlist.
pub open spec fn next_image_step(old: PlaylistView, new: PlaylistView) -> bool {
    &&& new.config == old.config
    &&& if old.unused.len() > 0 {
        &&& new.images == old.images
        &&& new.unused == old.unused.drop_last()
        &&& new.current == Some(old.unused.last())
    } else {
        let pool = usable_only(old.images);
        &&& new.images == pool
        &&& if pool.len() == 0 {
            new.unused.len() == 0 && new.current is None
        } else {
            new.current is Some && is_refill(
                old.config.mode,
                pool,
                new.unused.push(new.current.unwrap()),
            )
        }
    }
}

/// How a rescan that found the listing `entries` changes a playlist: images
/// that no longer qualify leave `images` and `unused`, images that appeared
/// join both (to be shown after those already waiting), the kept ones count as
/// usable again, and the current image stays as it is.
pub open spec fn rescan_step(old: PlaylistView, entries: Seq<ScanEntry>, new: PlaylistView) -> bool {
    let fresh = scanned(entries);
    let added = absent_from(fresh, old.images);
    let waiting = added.reverse() + present_in(old.unused, fresh);
    &&& new.images == revived(present_in(old.images, fresh)) + added
    &&& new.current == old.current
    &&& new.config == old.config
    &&& if added.len() > 0 && old.config.mode == ChangeMode::Random {
        new.unused.to_multiset() == waiting.to_multiset()
    } else {
        new.unused == waiting
    }
}

/// A playlist after its current image was found gone: that image is marked
/// unusable.
pub open spec fn passed_over(m: PlaylistView) -> PlaylistView {
    PlaylistView { images: marked_unusable(m.images, m.current->0.path@), ..m }
}

/// Whether `tried` are the states reached by successive moves from `old`,
/// each image before the last having been passed over.
pub open spec fn advance_chain(old: PlaylistView, tried: Seq<PlaylistView>) -> bool {
    &&& tried.len() >= 1
    &&& next_image_step(old, tried[0])
    &&& forall|j: int|
        0 <= j < tried.len() - 1 ==> (#[trigger] tried[j]).current is Some && next_image_step(
            passed_over(tried[j]),
            tried[j + 1],
        )
}

/// Whether moving on past gone images takes `old` through the states
/// `tried` to `new`, the last of them.
pub open spec fn advance_run(old: PlaylistView, tried: Seq<PlaylistView>, new: PlaylistView) -> bool {
    advance_chain(old, tried) && new == tried.last()
}

/// Whether the current image of `m` was found unusable: it has no image
/// extension, or `accessible` said its file is gone.
pub open spec fn failed_probe<F: Fn(&String) -> bool>(accessible: F, m: PlaylistView) -> bool {
    &&& m.current is Some
    &&& is_image_path(m.current->0.path@) ==> accessible.ensures((&m.current->0.path,), false)
}

/// Whether `accessible` gave the answers that make `tried` a run: every
/// image but the last failed, and the last, if any, has an image extension
/// and an accessible file.
pub open spec fn probed<F: Fn(&String) -> bool>(accessible: F, tried: Seq<PlaylistView>) -> bool {
    &&& forall|j: int| 0 <= j < tried.len() - 1 ==> failed_probe(accessible, #[trigger] tried[j])
    &&& tried.last().current matches Some(img) ==> is_image_path(img.path@) && accessible.ensures(
        (&img.path,),
        true,
    )
}

/// Whether `c` is the command that shows `img` with playlist `p`.
pub open spec fn shows(c: CommandLine, p: PlaylistView, img: Image) -> bool {
    c.program == p.config.command && c.args@ == substituted(p.config.command_args@, img.path)
}

/// What applying the current image of a playlist calls for.
pub enum Apply {
    /// There is no current image: nothing to do.
    Nothing,
    /// The current image's file is gone; it was marked unusable.
    Unusable,
    /// Run this command to show the current image.
    Run(CommandLine),
}

impl Apply {
    /// False only when the image could not be used and the caller should move on.
    pub fn succeeded(&self) -> (r: bool)
        ensures
            r == !(self is Unusable),
    {
        match self {
            Apply::Unusable => false,
            _ => true,
        }
    }
}

/// Relies on rand's `SliceRandom::shuffle` with the thread-local generator,
/// which only swaps elements: the result is a permutation of the input.
#[verifier::external_body]
fn shuffle_images(v: &mut Vec<Image>)
    ensures
        final(v)@.to_multiset() == old(v)@.to_multiset(),
{
    v.shuffle(&mut rand::thread_rng());
}

fn reversed(s: &Vec<Image>) -> (r: Vec<Image>)
    ensures
        r@ == s@.reverse(),
{
    let mut out: Vec<Image> = Vec::new();
    let mut i: usize = s.len();
    while i > 0
        invariant
            i <= s.len(),
            out@ =~= s@.subrange(i as int, s@.len() as int).reverse(),
        decreases i,
    {
        i = i - 1;
        out.push(s[i].clone());
        assert(s@.subrange(i as int, s@.len() as int).reverse() =~= s@.subrange(
            i + 1,
            s@.len() as int,
        ).reverse().push(s@[i as int]));
    }
    assert(s@.subrange(0, s@.len() as int) =~= s@);
    out
}

fn usable_images(s: &Vec<Image>) -> (r: Vec<Image>)
    ensures
        r@ == usable_only(s@),
{
    let mut out: Vec<Image> = Vec::new();
    let mut i: usize = 0;
    while i < s.len()
        invariant
            i <= s.len(),
            out@ == usable_only(s@.subrange(0, i as int)),
        decreases s.len() - i,
    {
        assert(s@.subrange(0, i + 1).drop_last() =~= s@.subrange(0, i as int));
        if s[i].usable {
            out.push(s[i].clone());
        }
        i = i + 1;
    }
    assert(s@.subrange(0, i as int) =~= s@);
    out
}

fn revive(s: &Vec<Image>) -> (r: Vec<Image>)
    ensures
        r@ == revived(s@),
{
    let mut out: Vec<Image> = Vec::new();
    let mut i: usize = 0;
    while i < s.len()
        invariant
            i <= s.len(),
            out@ =~= revived(s@.subrange(0, i as int)),
        decreases s.len() - i,
    {
        out.push(Image { path: s[i].path.clone(), usable: true });
        i = i + 1;
    }
    assert(s@.subrange(0, i as int) =~= s@);
    out
}

proof fn lemma_usable_only(s: Seq<Image>)
    ensures
        usable_only(s).len() <= s.len(),
        forall|i: int| 0 <= i < usable_only(s).len() ==> (#[trigger] usable_only(s)[i]).usable,
        forall|i: int| 0 <= i < usable_only(s).len() ==> s.contains(#[trigger] usable_only(s)[i]),
        usable_only(usable_only(s)) == usable_only(s),
    decreases s.len(),
{
    if s.len() > 0 {
        lemma_usable_only(s.drop_last());
        let r = usable_only(s.drop_last());
        if s.last().usable {
            assert(r.push(s.last()).drop_last() =~= r);
            assert forall|i: int| 0 <= i < usable_only(s).len() implies s.contains(
                #[trigger] usable_only(s)[i],
            ) by {
                if i < r.len() {
                    let j = choose|j: int| 0 <= j < s.drop_last().len() && s.drop_last()[j] == r[i];
                    assert(s[j] == r[i]);
                } else {
                    assert(s[s.len() - 1] == usable_only(s)[i]);
                }
            }
        } else {
            assert forall|i: int| 0 <= i < usable_only(s).len() implies s.contains(
                #[trigger] usable_only(s)[i],
            ) by {
                let j = choose|j: int| 0 <= j < s.drop_last().len() && s.drop_last()[j] == r[i];
                assert(s[j] == r[i]);
            }
        }
    }
}

/// Marking images unusable never adds usable ones, and marking a usable one
/// removes at least one.
proof fn lemma_marked_unusable_count(s: Seq<Image>, p: Seq<char>)
    ensures
        usable_only(marked_unusable(s, p)).len() <= usable_only(s).len(),
        (exists|i: int| 0 <= i < s.len() && s[i].usable && s[i].path@ == p) ==> usable_only(
            marked_unusable(s, p),
        ).len() < usable_only(s).len(),
    decreases s.len(),
{
    if s.len() > 0 {
        lemma_marked_unusable_count(s.drop_last(), p);
        assert(marked_unusable(s, p).drop_last() =~= marked_unusable(s.drop_last(), p));
        if exists|i: int| 0 <= i < s.len() && s[i].usable && s[i].path@ == p {
            let i = choose|i: int| 0 <= i < s.len() && s[i].usable && s[i].path@ == p;
            if i < s.len() - 1 {
                assert(s.drop_last()[i] == s[i]);
            }
        }
    }
}

proof fn lemma_has_path_of_contains(s: Seq<Image>, x: Image)
    requires
        s.contains(x),
    ensures
        has_path(s, x.path@),
{
    let j = choose|j: int| 0 <= j < s.len() && s[j] == x;
    assert(s[j].path@ == x.path@);
}

proof fn lemma_present_in(s: Seq<Image>, f: Seq<Image>)
    ensures
        forall|i: int| 0 <= i < present_in(s, f).len() ==> s.contains(#[trigger] present_in(s, f)[i]),
        forall|i: int|
            0 <= i < present_in(s, f).len() ==> has_path(f, (#[trigger] present_in(s, f)[i]).path@),
        forall|p: Seq<char>| has_path(s, p) && has_path(f, p) ==> has_path(present_in(s, f), p),
    decreases s.len(),
{
    if s.len() > 0 {
        lemma_present_in(s.drop_last(), f);
        let r = present_in(s.drop_last(), f);
        assert forall|i: int| 0 <= i < present_in(s, f).len() implies s.contains(
            #[trigger] present_in(s, f)[i],
        ) by {
            if i < r.len() {
                assert(present_in(s, f)[i] == r[i]);
                let j = choose|j: int| 0 <= j < s.drop_last().len() && s.drop_last()[j] == r[i];
                assert(s[j] == r[i]);
            } else {
                assert(s[s.len() - 1] == present_in(s, f)[i]);
            }
        }
        assert forall|p: Seq<char>| has_path(s, p) && has_path(f, p) implies has_path(
            present_in(s, f),
            p,
        ) by {
            let j = choose|j: int| 0 <= j < s.len() && s[j].path@ == p;
            if j < s.len() - 1 {
                assert(s.drop_last()[j].path@ == p);
                let k = choose|k: int| 0 <= k < r.len() && r[k].path@ == p;
                assert(present_in(s, f)[k] == r[k]);
            } else {
                assert(present_in(s, f)[present_in(s, f).len() - 1] == s.last());
            }
        }
    }
}

proof fn lemma_revived_paths(s: Seq<Image>, p: Seq<char>)
    ensures
        has_path(revived(s), p) == has_path(s, p),
{
    if has_path(s, p) {
        let j = choose|j: int| 0 <= j < s.len() && s[j].path@ == p;
        assert(revived(s)[j].path@ == p);
    }
    if has_path(revived(s), p) {
        let j = choose|j: int| 0 <= j < revived(s).len() && revived(s)[j].path@ == p;
        assert(s[j].path@ == p);
    }
}

fn append_clones(dst: &mut Vec<Image>, src: &Vec<Image>)
    ensures
        final(dst)@ == old(dst)@ + src@,
{
    let mut i: usize = 0;
    while i < src.len()
        invariant
            i <= src.len(),
            dst@ =~= old(dst)@ + src@.subrange(0, i as int),
        decreases src.len() - i,
    {
        dst.push(src[i].clone());
        i = i + 1;
    }
    assert(src@.subrange(0, i as int) =~= src@);
}

/// A playlist: its known images and its place in the rotation over them.
pub struct Playlist {
    images: Vec<Image>,
    unused: Vec<Image>,
    current: Option<Image>,
    config: ValidatedPlaylist,
}

impl View for Playlist {
    type V = PlaylistView;

    closed spec fn view(&self) -> PlaylistView {
        PlaylistView {
            images: self.images@,
            unused: self.unused@,
            current: self.current,
            config: self.config,
        }
    }
}

impl Playlist {
    pub open spec fn wf(&self) -> bool {
        self@.unused_within_images()
    }

    /// Builds a playlist from its configuration and a listing of its files and
    /// directories; the rotation starts over all images found.
    pub fn from_config(config: ValidatedPlaylist, entries: &Vec<ScanEntry>) -> (r: Playlist)
        ensures
            r.wf(),
            r@.images == scanned(entries@),
            is_refill(config.mode, r@.images, r@.unused),
            r@.current is None,
            r@.config == config,
    {
        let images = scan_playlist(entries);
        let mut unused = reversed(&images);
        proof {
            images@.lemma_reverse_to_multiset();
        }
        if config.mode == ChangeMode::Random {
            shuffle_images(&mut unused);
        }
        let r = Playlist { images, unused, current: None, config };
        proof {
            broadcast use vstd::seq_lib::group_to_multiset_ensures;
            assert forall|i: int| 0 <= i < r@.unused.len() implies has_path(
                r@.images,
                #[trigger] r@.unused[i].path@,
            ) by {
                assert(r@.unused.contains(r@.unused[i]));
                if config.mode == ChangeMode::Sequential {
                    assert(r@.unused[i] == r@.images[r@.images.len() - 1 - i]);
                    assert(r@.images.contains(r@.unused[i]));
                } else {
                    assert(r@.unused.to_multiset().count(r@.unused[i]) > 0);
                    assert(r@.images.to_multiset().count(r@.unused[i]) > 0);
                }
                lemma_has_path_of_contains(r@.images, r@.unused[i]);
            }
        }
        r
    }

    pub fn config(&self) -> (r: &ValidatedPlaylist)
        ensures
            *r == self@.config,
    {
        &self.config
    }

    /// Number of known images.
    pub fn len(&self) -> (r: usize)
        ensures
            r == self@.images.len(),
    {
        self.images.len()
    }

    pub fn current(&self) -> (r: Option<&Image>)
        ensures
            match r {
                Some(i) => self@.current == Some(*i),
                None => self@.current is None,
            },
    {
        match &self.current {
            Some(i) => Some(i),
            None => None,
        }
    }

    fn shuffle_unused_if_needed(&mut self)
        ensures
            final(self)@.images == old(self)@.images,
            final(self)@.current == old(self)@.current,
            final(self)@.config == old(self)@.config,
            final(self)@.unused.to_multiset() == old(self)@.unused.to_multiset(),
            old(self)@.config.mode == ChangeMode::Sequential ==> final(self)@.unused == old(
                self,
            )@.unused,
    {
        if self.config.mode == ChangeMode::Random {
            shuffle_images(&mut self.unused);
        }
    }

    /// Advances the rotation by one image. When the cycle is over, unusable
    /// images are dropped and a new cycle starts over the rest; when none is
    /// left there is no current image.
    pub fn move_to_next_image(&mut self)
        requires
            old(self).wf(),
        ensures
            final(self).wf(),
            next_image_step(old(self)@, final(self)@),
    {
        broadcast use vstd::seq_lib::group_to_multiset_ensures;

        if self.unused.len() > 0 {
            let img = self.unused.pop().unwrap();
            self.current = Some(img);
            proof {
                let o = old(self)@;
                assert forall|i: int| 0 <= i < self@.unused.len() implies has_path(
                    self@.images,
                    #[trigger] self@.unused[i].path@,
                ) by {
                    assert(self@.unused[i] == o.unused[i]);
                    assert(has_path(o.images, o.unused[i].path@));
                }
            }
        } else {
            let pool = usable_images(&self.images);
            self.images = pool;
            if self.images.len() == 0 {
                self.current = None;
            } else {
                let mut refill = reversed(&self.images);
                proof {
                    self.images@.lemma_reverse_to_multiset();
                }
                if self.config.mode == ChangeMode::Random {
                    shuffle_images(&mut refill);
                }
                let ghost full = refill@;
                assert(full.to_multiset().len() == self.images@.len());
                let img = refill.pop().unwrap();
                assert(full =~= refill@.push(img));
                self.unused = refill;
                self.current = Some(img);
                proof {
                    assert forall|i: int| 0 <= i < self@.unused.len() implies has_path(
                        self@.images,
                        #[trigger] self@.unused[i].path@,
                    ) by {
                        assert(full[i] == self@.unused[i]);
                        assert(full.contains(full[i]));
                        if self.config.mode == ChangeMode::Sequential {
                            assert(full[i] == self@.images[self@.images.len() - 1 - i]);
                            assert(self@.images.contains(full[i]));
                        } else {
                            assert(full.to_multiset().count(full[i]) > 0);
                            assert(self@.images.to_multiset().count(full[i]) > 0);
                        }
                        lemma_has_path_of_contains(self@.images, full[i]);
                    }
                }
            }
        }
    }

    /// Rescans the playlist against a fresh listing of its files and
    /// directories (see `rescan_step`); reports what was added and removed.
    pub fn update(&mut self, entries: &Vec<ScanEntry>) -> (r: RescanResult)
        requires
            old(self).wf(),
        ensures
            final(self).wf(),
            rescan_step(old(self)@, entries@, final(self)@),
            r.added@ == absent_from(scanned(entries@), old(self)@.images),
            r.removed@ == absent_from(old(self)@.images, scanned(entries@)),
    {
        broadcast use vstd::seq_lib::group_to_multiset_ensures;

        let fresh = scan_playlist(entries);
        let added = images_absent_from(&fresh, &self.images);
        let removed = images_absent_from(&self.images, &fresh);
        let kept = images_present_in(&self.images, &fresh);
        let mut images = revive(&kept);
        append_clones(&mut images, &added);
        let mut unused = reversed(&added);
        let still = images_present_in(&self.unused, &fresh);
        append_clones(&mut unused, &still);
        let ghost o = old(self)@;
        proof {
            lemma_present_in(o.images, fresh@);
            lemma_present_in(o.unused, fresh@);
            assert forall|i: int| 0 <= i < unused@.len() implies has_path(
                images@,
                #[trigger] unused@[i].path@,
            ) by {
                let p = unused@[i].path@;
                if i < added@.len() {
                    let k = added@.len() - 1 - i;
                    assert(unused@[i] == added@[k]);
                    assert(images@[kept@.len() + k] == added@[k]);
                } else {
                    let u = still@[i - added@.len()];
                    assert(unused@[i] == u);
                    assert(o.unused.contains(u));
                    let j = choose|j: int| 0 <= j < o.unused.len() && o.unused[j] == u;
                    assert(has_path(o.images, o.unused[j].path@));
                    assert(has_path(kept@, p));
                    lemma_revived_paths(kept@, p);
                    let m = choose|m: int| 0 <= m < revived(kept@).len() && revived(kept@)[m].path@ == p;
                    assert(images@[m] == revived(kept@)[m]);
                }
            }
        }
        self.images = images;
        self.unused = unused;
        if added.len() > 0 {
            self.shuffle_unused_if_needed();
            proof {
                let v = self@;
                assert forall|i: int| 0 <= i < v.unused.len() implies has_path(
                    v.images,
                    #[trigger] v.unused[i].path@,
                ) by {
                    assert(v.unused.to_multiset().count(v.unused[i]) > 0);
                    let w = unused@;
                    assert(w.to_multiset().count(v.unused[i]) > 0);
                    assert(w.contains(v.unused[i]));
                    let j = choose|j: int| 0 <= j < w.len() && w[j] == v.unused[i];
                    assert(has_path(v.images, w[j].path@));
                }
            }
        }
        RescanResult { added, removed }
    }

    /// Moves to the next image and applies it, moving on past images whose
    /// file is gone, until one is applied or none is left (see `advance_run`
    /// and `probed`). `accessible` tells whether a path names an accessible
    /// regular file; it is asked about each image tried that has an image
    /// extension.
    pub fn advance_and_apply<F: Fn(&String) -> bool>(&mut self, accessible: &F) -> (r: Apply)
        requires
            old(self).wf(),
            forall|p: &String| accessible.requires((p,)),
        ensures
            final(self).wf(),
            final(self)@.config == old(self)@.config,
            exists|moved: Seq<PlaylistView>|
                advance_run(old(self)@, moved, final(self)@) && probed(*accessible, moved),
            !(r is Unusable),
            r is Nothing <==> final(self)@.current is None,
            r is Nothing ==> final(self)@.images.len() == 0,
            r matches Apply::Run(c) ==> {
                &&& final(self)@.current matches Some(img)
                &&& is_image_path(img.path@)
                &&& accessible.ensures((&img.path,), true)
                &&& shows(c, final(self)@, img)
            },
    {
        broadcast use vstd::seq_lib::group_to_multiset_ensures;

        let ghost mut tried: Seq<PlaylistView> = Seq::empty();
        loop
            invariant
                self.wf(),
                self@.config == old(self)@.config,
                forall|p: &String| accessible.requires((p,)),
                tried.len() == 0 ==> self@ == old(self)@,
                tried.len() > 0 ==> {
                    &&& advance_chain(old(self)@, tried)
                    &&& tried.last().current is Some
                    &&& self@ == passed_over(tried.last())
                },
                forall|j: int| 0 <= j < tried.len() ==> failed_probe(*accessible, #[trigger] tried[j]),
            decreases usable_only(self@.images).len(), self@.unused.len(),
        {
            let ghost before = self@;
            self.move_to_next_image();
            let ghost moved = self@;
            let ghost tried2 = tried.push(moved);
            proof {
                assert(tried2[tried2.len() - 1] == moved);
                if tried.len() == 0 {
                    assert(next_image_step(old(self)@, tried2[0]));
                } else {
                    assert forall|j: int| 0 <= j < tried2.len() - 1 implies (#[trigger] tried2[j]).current is Some
                        && next_image_step(passed_over(tried2[j]), tried2[j + 1]) by {
                        if j < tried.len() - 1 {
                            assert(tried2[j] == tried[j]);
                            assert(tried2[j + 1] == tried[j + 1]);
                        } else {
                            assert(tried2[j] == tried.last());
                        }
                    }
                    assert(tried2[0] == tried[0]);
                }
                assert(advance_chain(old(self)@, tried2));
            }
            let ok = match &self.current {
                Some(img) => accessible(&img.path),
                None => true,
            };
            let a = self.apply_current_image(ok);
            if a.succeeded() {
                proof {
                    assert(self@ == moved);
                    assert(advance_run(old(self)@, tried2, self@));
                    assert forall|j: int| 0 <= j < tried2.len() - 1 implies failed_probe(
                        *accessible,
                        #[trigger] tried2[j],
                    ) by {
                        assert(tried2[j] == tried[j]);
                    }
                    assert(probed(*accessible, tried2));
                }
                return a;
            }
            proof {
                let cur = moved.current.unwrap();
                assert(failed_probe(*accessible, moved));
                assert forall|j: int| 0 <= j < tried2.len() implies failed_probe(
                    *accessible,
                    #[trigger] tried2[j],
                ) by {
                    if j < tried.len() {
                        assert(tried2[j] == tried[j]);
                    }
                }
                tried = tried2;
                lemma_marked_unusable_count(moved.images, cur.path@);
                lemma_usable_only(before.images);
                if before.unused.len() == 0 {
                    let pool = usable_only(before.images);
                    let full = moved.unused.push(cur);
                    assert(full.last() == cur);
                    assert(full.contains(cur));
                    if before.config.mode == ChangeMode::Sequential {
                        assert(cur == pool[0]);
                    } else {
                        full.to_multiset_ensures();
                        pool.to_multiset_ensures();
                        assert(full.to_multiset().count(cur) > 0);
                        assert(pool.to_multiset().count(cur) > 0);
                    }
                    assert(pool.contains(cur));
                    let i = choose|i: int| 0 <= i < pool.len() && pool[i] == cur;
                    assert(pool[i].usable);
                }
            }
        }
    }

    /// Advances the rotation only if no image was ever picked; tells whether it did.
    pub fn move_to_next_image_if_first_time(&mut self) -> (r: bool)
        requires
            old(self).wf(),
        ensures
            final(self).wf(),
            r == old(self)@.current is None,
            r ==> next_image_step(old(self)@, final(self)@),
            !r ==> final(self)@ == old(self)@,
    {
        if self.current.is_none() {
            self.move_to_next_image();
            true
        } else {
            false
        }
    }

    fn mark_unusable(&mut self, p: &String)
        ensures
            final(self)@ == (PlaylistView { images: marked_unusable(old(self)@.images, p@), ..old(self)@ }),
    {
        let ghost start = self.images@;
        let mut j: usize = 0;
        while j < self.images.len()
            invariant
                j <= self.images.len(),
                self.images@.len() == start.len(),
                forall|k: int| 0 <= k < j ==> self.images@[k] == marked_unusable(start, p@)[k],
                forall|k: int| j <= k < start.len() ==> self.images@[k] == start[k],
                self.unused == old(self).unused,
                self.current == old(self).current,
                self.config == old(self).config,
            decreases start.len() - j,
        {
            if self.images[j].path == *p {
                let q = self.images[j].path.clone();
                self.images.set(j, Image { path: q, usable: false });
            }
            j = j + 1;
        }
        assert(self.images@ =~= marked_unusable(start, p@));
    }

    /// Applies the current image, given whether its file is an accessible
    /// regular file: asks to run the playlist's command on it when it still
    /// qualifies, marks it unusable when it does not, and does nothing when
    /// there is no current image.
    pub fn apply_current_image(&mut self, is_file: bool) -> (r: Apply)
        requires
            old(self).wf(),
        ensures
            final(self).wf(),
            match old(self)@.current {
                None => r is Nothing && final(self)@ == old(self)@,
                Some(img) => if is_file && is_image_path(img.path@) {
                    &&& final(self)@ == old(self)@
                    &&& r matches Apply::Run(c)
                    &&& c.program == old(self)@.config.command
                    &&& c.args@ == substituted(old(self)@.config.command_args@, img.path)
                } else {
                    &&& r is Unusable
                    &&& final(self)@ == (PlaylistView {
                        images: marked_unusable(old(self)@.images, img.path@),
                        ..old(self)@
                    })
                },
            },
    {
        let path = match &self.current {
            None => {
                return Apply::Nothing;
            },
            Some(img) => {
                if img.check(is_file) {
                    let command = ChangeCommand::from_config(&self.config);
                    return Apply::Run(command.command_line(&img.path));
                }
                img.path.clone()
            },
        };
        self.mark_unusable(&path);
        proof {
            let s = old(self)@.images;
            assert forall|i: int| 0 <= i < self@.unused.len() implies has_path(
                self@.images,
                #[trigger] self@.unused[i].path@,
            ) by {
                assert(has_path(s, self@.unused[i].path@));
                let j = choose|j: int| 0 <= j < s.len() && s[j].path@ == self@.unused[i].path@;
                assert(self@.images[j].path@ == s[j].path@);
            }
        }
        Apply::Unusable
    }
}

/// The images that a run of states shows: the current image of each state
/// after the first.
pub open spec fn shown(states: Seq<PlaylistView>) -> Seq<Option<Image>> {
    Seq::new((states.len() - 1) as nat, |k: int| states[k + 1].current)
}

proof fn lemma_cycle_prefix(states: Seq<PlaylistView>, k: int)
    requires
        states.len() == states[0].images.len() + 1,
        states[0].unused.len() == states[0].images.len(),
        forall|j: int| 0 <= j < states.len() - 1 ==> next_image_step(states[j], #[trigger] states[j + 1]),
        0 <= k < states.len(),
    ensures
        states[k].unused == states[0].unused.subrange(0, states[0].unused.len() - k),
        states[k].images == states[0].images,
        forall|j: int|
            1 <= j <= k ==> #[trigger] states[j].current == Some(
                states[0].unused[states[0].unused.len() - j],
            ),
    decreases k,
{
    if k > 0 {
        lemma_cycle_prefix(states, k - 1);
        let j = k - 1;
        assert(next_image_step(states[j], states[j + 1]));
        assert(states[k].unused =~= states[0].unused.subrange(0, states[0].unused.len() - k));
    } else {
        assert(states[0].unused.subrange(0, states[0].unused.len() as int) =~= states[0].unused);
    }
}

/// One cycle shows every image exactly once: from a state whose waiting
/// images are a fresh rotation over its N images, N consecutive moves make
/// each of them current once (as a multiset, so repeated paths count).
pub proof fn lemma_cycle_shows_each_image_once(states: Seq<PlaylistView>)
    requires
        states.len() >= 1,
        states.len() == states[0].images.len() + 1,
        is_refill(states[0].config.mode, states[0].images, states[0].unused),
        forall|j: int| 0 <= j < states.len() - 1 ==> next_image_step(states[j], #[trigger] states[j + 1]),
    ensures
        forall|j: int| 1 <= j < states.len() ==> (#[trigger] states[j].current) is Some,
        shown(states).map_values(|c: Option<Image>| c.unwrap()).to_multiset()
            == states[0].images.to_multiset(),
{
    broadcast use vstd::seq_lib::group_to_multiset_ensures;

    let s0 = states[0];
    let u = s0.unused;
    s0.images.lemma_reverse_to_multiset();
    assert(u.to_multiset().len() == s0.images.to_multiset().len());
    lemma_cycle_prefix(states, states.len() - 1);
    let v = shown(states).map_values(|c: Option<Image>| c.unwrap());
    assert(v =~= u.reverse());
    u.lemma_reverse_to_multiset();
    if s0.config.mode == ChangeMode::Sequential {
        assert(u.reverse() =~= s0.images);
    }
}

/// When a cycle is over, the next move starts a new one and at once shows a
/// usable image, provided one is left.
pub proof fn lemma_cycle_restart(old: PlaylistView, new: PlaylistView)
    requires
        old.unused.len() == 0,
        usable_only(old.images).len() > 0,
        next_image_step(old, new),
    ensures
        new.images == usable_only(old.images),
        new.current matches Some(img) && img.usable && new.images.contains(img),
        new.unused.len() == new.images.len() - 1,
{
    broadcast use vstd::seq_lib::group_to_multiset_ensures;

    let pool = usable_only(old.images);
    let full = new.unused.push(new.current.unwrap());
    lemma_usable_only(old.images);
    pool.lemma_reverse_to_multiset();
    full.to_multiset_ensures();
    pool.to_multiset_ensures();
    assert(full.len() == pool.len());
    assert(full[full.len() - 1] == new.current.unwrap());
    assert(full.contains(new.current.unwrap()));
    if old.config.mode == ChangeMode::Sequential {
        assert(full[full.len() - 1] == pool[0]);
    } else {
        full.to_multiset_ensures();
        pool.to_multiset_ensures();
        assert(full.to_multiset().count(new.current.unwrap()) > 0);
    }
}

/// A playlist with no usable image and none waiting shows nothing after a
/// move, and stays empty.
pub proof fn lemma_empty_playlist_stays_empty(old: PlaylistView, new: PlaylistView)
    requires
        old.unused.len() == 0,
        usable_only(old.images).len() == 0,
        next_image_step(old, new),
    ensures
        new.current is None,
        new.images.len() == 0,
        new.unused.len() == 0,
{
}

proof fn lemma_scanned_usable(entries: Seq<ScanEntry>)
    ensures
        forall|i: int| 0 <= i < scanned(entries).len() ==> (#[trigger] scanned(entries)[i]).usable,
    decreases entries.len(),
{
    if entries.len() > 0 {
        let rest = scanned(entries.drop_last());
        lemma_scanned_usable(entries.drop_last());
        assert forall|i: int| 0 <= i < scanned(entries).len() implies (#[trigger] scanned(
            entries,
        )[i]).usable by {
            if i < rest.len() {
                assert(scanned(entries)[i] == rest[i]);
            }
        }
    }
}

proof fn lemma_absent_from_paths(s: Seq<Image>, o: Seq<Image>)
    ensures
        forall|i: int|
            0 <= i < absent_from(s, o).len() ==> !has_path(o, (#[trigger] absent_from(s, o)[i]).path@),
    decreases s.len(),
{
    if s.len() > 0 {
        let r = absent_from(s.drop_last(), o);
        lemma_absent_from_paths(s.drop_last(), o);
        assert forall|i: int| 0 <= i < absent_from(s, o).len() implies !has_path(
            o,
            (#[trigger] absent_from(s, o)[i]).path@,
        ) by {
            if i < r.len() {
                assert(absent_from(s, o)[i] == r[i]);
            }
        }
    }
}

proof fn lemma_absent_from(s: Seq<Image>, o: Seq<Image>)
    ensures
        forall|i: int|
            0 <= i < absent_from(s, o).len() ==> s.contains(#[trigger] absent_from(s, o)[i]),
        forall|i: int|
            0 <= i < s.len() && !has_path(o, (#[trigger] s[i]).path@) ==> absent_from(
                s,
                o,
            ).contains(s[i]),
        (forall|i: int| 0 <= i < s.len() ==> has_path(o, (#[trigger] s[i]).path@)) ==> absent_from(
            s,
            o,
        ).len() == 0,
    decreases s.len(),
{
    if s.len() > 0 {
        let t = s.drop_last();
        lemma_absent_from(t, o);
        let r = absent_from(t, o);
        assert forall|i: int| 0 <= i < absent_from(s, o).len() implies s.contains(
            #[trigger] absent_from(s, o)[i],
        ) by {
            if i < r.len() {
                assert(absent_from(s, o)[i] == r[i]);
                let j = choose|j: int| 0 <= j < t.len() && t[j] == r[i];
                assert(s[j] == r[i]);
            } else {
                assert(s[s.len() - 1] == absent_from(s, o)[i]);
            }
        }
        assert forall|i: int|
            0 <= i < s.len() && !has_path(o, (#[trigger] s[i]).path@) implies absent_from(
            s,
            o,
        ).contains(s[i]) by {
            if i < s.len() - 1 {
                assert(t[i] == s[i]);
                let j = choose|j: int| 0 <= j < r.len() && r[j] == t[i];
                assert(absent_from(s, o)[j] == r[j]);
            } else {
                assert(absent_from(s, o)[absent_from(s, o).len() - 1] == s[i]);
            }
        }
        if forall|i: int| 0 <= i < s.len() ==> has_path(o, (#[trigger] s[i]).path@) {
            assert forall|i: int| 0 <= i < t.len() implies has_path(o, (#[trigger] t[i]).path@) by {
                assert(t[i] == s[i]);
            }
            assert(has_path(o, s[s.len() - 1].path@));
        }
    }
}

proof fn lemma_present_in_all(s: Seq<Image>, f: Seq<Image>)
    requires
        forall|i: int| 0 <= i < s.len() ==> has_path(f, (#[trigger] s[i]).path@),
    ensures
        present_in(s, f) == s,
    decreases s.len(),
{
    if s.len() > 0 {
        let t = s.drop_last();
        assert forall|i: int| 0 <= i < t.len() implies has_path(f, (#[trigger] t[i]).path@) by {
            assert(t[i] == s[i]);
        }
        lemma_present_in_all(t, f);
        assert(has_path(f, s[s.len() - 1].path@));
        assert(t.push(s.last()) =~= s);
    }
}

/// What a rescan leaves: known images that are exactly the listing's, all
/// usable, and waiting images that all belong to the listing.
proof fn lemma_rescan_paths(old: PlaylistView, entries: Seq<ScanEntry>, new: PlaylistView)
    requires
        rescan_step(old, entries, new),
    ensures
        forall|i: int|
            0 <= i < new.images.len() ==> has_path(scanned(entries), (#[trigger] new.images[i]).path@)
                && new.images[i].usable,
        forall|i: int|
            0 <= i < scanned(entries).len() ==> has_path(
                new.images,
                (#[trigger] scanned(entries)[i]).path@,
            ),
        forall|i: int|
            0 <= i < new.unused.len() ==> has_path(scanned(entries), (#[trigger] new.unused[i]).path@),
{
    broadcast use vstd::seq_lib::group_to_multiset_ensures;

    let fresh = scanned(entries);
    let added = absent_from(fresh, old.images);
    let kept = present_in(old.images, fresh);
    let waiting = added.reverse() + present_in(old.unused, fresh);
    lemma_scanned_usable(entries);
    lemma_absent_from(fresh, old.images);
    lemma_present_in(old.images, fresh);
    lemma_present_in(old.unused, fresh);
    assert forall|i: int| 0 <= i < new.images.len() implies has_path(
        fresh,
        (#[trigger] new.images[i]).path@,
    ) && new.images[i].usable by {
        if i < kept.len() {
            assert(new.images[i] == revived(kept)[i]);
        } else {
            let a = added[i - kept.len()];
            assert(new.images[i] == a);
            assert(fresh.contains(a));
            let j = choose|j: int| 0 <= j < fresh.len() && fresh[j] == a;
            assert(fresh[j].usable);
        }
    }
    assert forall|i: int| 0 <= i < fresh.len() implies has_path(
        new.images,
        (#[trigger] fresh[i]).path@,
    ) by {
        let p = fresh[i].path@;
        assert(has_path(fresh, p));
        if has_path(old.images, p) {
            assert(has_path(kept, p));
            lemma_revived_paths(kept, p);
            let m = choose|m: int| 0 <= m < revived(kept).len() && revived(kept)[m].path@ == p;
            assert(new.images[m] == revived(kept)[m]);
        } else {
            assert(added.contains(fresh[i]));
            let m = choose|m: int| 0 <= m < added.len() && added[m] == fresh[i];
            assert(new.images[kept.len() + m] == added[m]);
        }
    }
    assert forall|i: int| 0 <= i < waiting.len() implies has_path(
        fresh,
        (#[trigger] waiting[i]).path@,
    ) by {
        if i < added.len() {
            let a = added[added.len() - 1 - i];
            assert(waiting[i] == a);
            assert(fresh.contains(a));
            let j = choose|j: int| 0 <= j < fresh.len() && fresh[j] == a;
            assert(fresh[j].path@ == a.path@);
        } else {
            assert(waiting[i] == present_in(old.unused, fresh)[i - added.len()]);
        }
    }
    assert forall|i: int| 0 <= i < new.unused.len() implies has_path(
        fresh,
        (#[trigger] new.unused[i]).path@,
    ) by {
        if added.len() > 0 && old.config.mode == ChangeMode::Random {
            assert(new.unused.contains(new.unused[i]));
            assert(new.unused.to_multiset().count(new.unused[i]) > 0);
            assert(waiting.to_multiset().count(new.unused[i]) > 0);
            let j = choose|j: int| 0 <= j < waiting.len() && waiting[j] == new.unused[i];
            assert(has_path(fresh, waiting[j].path@));
        } else {
            assert(has_path(fresh, waiting[i].path@));
        }
    }
}

/// Rescanning twice against the same listing changes nothing the second time.
pub proof fn lemma_rescan_idempotent(
    s0: PlaylistView,
    entries: Seq<ScanEntry>,
    s1: PlaylistView,
    s2: PlaylistView,
)
    requires
        rescan_step(s0, entries, s1),
        rescan_step(s1, entries, s2),
    ensures
        s2 == s1,
{
    let fresh = scanned(entries);
    lemma_rescan_paths(s0, entries, s1);
    lemma_absent_from(fresh, s1.images);
    assert(absent_from(fresh, s1.images).len() == 0);
    lemma_present_in_all(s1.images, fresh);
    lemma_present_in_all(s1.unused, fresh);
    assert(revived(s1.images) =~= s1.images);
    assert(absent_from(fresh, s1.images).reverse() + s1.unused =~= s1.unused);
    assert(revived(s1.images) + absent_from(fresh, s1.images) =~= s1.images);
}

/// After a rescan the known images are exactly those of the listing (an
/// image that vanished is gone, one that appeared is there, the others stay);
/// the waiting images are those still waiting that remain listed, plus the
/// ones that appeared; and the current image stays as it was even if its
/// file vanished.
pub proof fn lemma_rescan_follows_listing(old: PlaylistView, entries: Seq<ScanEntry>, new: PlaylistView)
    requires
        rescan_step(old, entries, new),
    ensures
        forall|p: Seq<char>| has_path(new.images, p) <==> has_path(scanned(entries), p),
        forall|p: Seq<char>|
            has_path(new.unused, p) <==> (has_path(scanned(entries), p) && (has_path(old.unused, p)
                || !has_path(old.images, p))),
        new.current == old.current,
{
    broadcast use vstd::seq_lib::group_to_multiset_ensures;

    lemma_rescan_paths(old, entries, new);
    let fresh = scanned(entries);
    let added = absent_from(fresh, old.images);
    let kept = present_in(old.unused, fresh);
    let waiting = added.reverse() + kept;
    lemma_absent_from(fresh, old.images);
    lemma_absent_from_paths(fresh, old.images);
    lemma_present_in(old.unused, fresh);
    assert forall|x: Image| new.unused.contains(x) <==> waiting.contains(x) by {
        if added.len() > 0 && old.config.mode == ChangeMode::Random {
            new.unused.to_multiset_ensures();
            waiting.to_multiset_ensures();
            if new.unused.contains(x) {
                assert(new.unused.to_multiset().count(x) > 0);
            }
            if waiting.contains(x) {
                assert(waiting.to_multiset().count(x) > 0);
            }
        }
    }
    assert forall|p: Seq<char>|
        has_path(new.unused, p) <==> (has_path(fresh, p) && (has_path(old.unused, p) || !has_path(
            old.images,
            p,
        ))) by {
        if has_path(new.unused, p) {
            let i = choose|i: int| 0 <= i < new.unused.len() && new.unused[i].path@ == p;
            let x = new.unused[i];
            assert(new.unused.contains(x));
            assert(waiting.contains(x));
            let j = choose|j: int| 0 <= j < waiting.len() && waiting[j] == x;
            if j < added.len() {
                let k = added.len() - 1 - j;
                assert(x == added[k]);
                assert(fresh.contains(x));
                let m = choose|m: int| 0 <= m < fresh.len() && fresh[m] == x;
                assert(fresh[m].path@ == p);
                assert(!has_path(old.images, added[k].path@));
            } else {
                assert(x == kept[j - added.len()]);
                assert(old.unused.contains(x));
                let m = choose|m: int| 0 <= m < old.unused.len() && old.unused[m] == x;
                assert(old.unused[m].path@ == p);
            }
        }
        if has_path(fresh, p) && has_path(old.unused, p) {
            assert(has_path(kept, p));
            let k = choose|k: int| 0 <= k < kept.len() && kept[k].path@ == p;
            assert(waiting[added.len() + k] == kept[k]);
            assert(waiting.contains(kept[k]));
            assert(new.unused.contains(kept[k]));
            let i = choose|i: int| 0 <= i < new.unused.len() && new.unused[i] == kept[k];
        }
        if has_path(fresh, p) && !has_path(old.images, p) {
            let m = choose|m: int| 0 <= m < fresh.len() && fresh[m].path@ == p;
            assert(added.contains(fresh[m]));
            let k = choose|k: int| 0 <= k < added.len() && added[k] == fresh[m];
            assert(waiting[added.len() - 1 - k] == added[k]);
            assert(waiting.contains(added[k]));
            assert(new.unused.contains(added[k]));
            let i = choose|i: int| 0 <= i < new.unused.len() && new.unused[i] == added[k];
        }
    }
    assert forall|p: Seq<char>| has_path(new.images, p) <==> has_path(scanned(entries), p) by {
        if has_path(new.images, p) {
            let i = choose|i: int| 0 <= i < new.images.len() && new.images[i].path@ == p;
            assert(has_path(scanned(entries), new.images[i].path@));
        }
        if has_path(scanned(entries), p) {
            let i = choose|i: int| 0 <= i < scanned(entries).len() && scanned(entries)[i].path@ == p;
            assert(has_path(new.images, scanned(entries)[i].path@));
        }
    }
}

} // verus!
