use vstd::prelude::*;

use crate::playlist::Image;

verus! {

/// Index of the last occurrence of `c` in `s`, or -1.
pub open spec fn last_index_of(s: Seq<char>, c: char) -> int
    decreases s.len(),
{
    if s.len() == 0 {
        -1
    } else if s.last() == c {
        s.len() - 1
    } else {
        last_index_of(s.drop_last(), c)
    }
}

/// The final component of a path: everything after its last `/`.
pub open spec fn file_name(path: Seq<char>) -> Seq<char> {
    path.subrange(last_index_of(path, '/') + 1, path.len() as int)
}

/// The extension of a path: what follows the last dot of its file name,
/// unless that dot opens the name (a hidden file) or there is none.
pub open spec fn extension(path: Seq<char>) -> Option<Seq<char>> {
    let name = file_name(path);
    let dot = last_index_of(name, '.');
    if dot <= 0 {
        None
    } else {
        Some(name.subrange(dot + 1, name.len() as int))
    }
}

pub open spec fn ascii_lower(c: char) -> char {
    if 'A' <= c && c <= 'Z' {
        ((c as u8) + 32u8) as char
    } else {
        c
    }
}

/// Whether `e`, compared without regard to case, is one of the recognised
/// image extensions: jpg, jpeg, png and gif.
pub open spec fn is_image_extension(e: Seq<char>) -> bool {
    let l = e.map_values(|c: char| ascii_lower(c));
    l =~= seq!['j', 'p', 'g'] || l =~= seq!['j', 'p', 'e', 'g'] || l =~= seq!['p', 'n', 'g']
        || l =~= seq!['g', 'i', 'f']
}

/// Whether a path names a file of a recognised image format.
pub open spec fn is_image_path(path: Seq<char>) -> bool {
    match extension(path) {
        Some(e) => is_image_extension(e),
        None => false,
    }
}

proof fn lemma_last_index_from_scan(s: Seq<char>, c: char, i: int)
    requires
        -1 <= i < s.len(),
        i >= 0 ==> s[i] == c,
        forall|k: int| i < k < s.len() ==> s[k] != c,
    ensures
        last_index_of(s, c) == i,
    decreases s.len(),
{
    if s.len() > 0 && s.last() != c {
        lemma_last_index_from_scan(s.drop_last(), c, i);
    }
}

/// Position of the last `c` in `s` at or after `from`, or `None`.
fn find_last(s: &str, c: char, from: usize, len: usize) -> (r: Option<usize>)
    requires
        len == s@.len(),
        from <= len,
    ensures
        match r {
            Some(i) => from <= i < len && s@[i as int] == c && forall|k: int|
                i < k < len ==> s@[k] != c,
            None => forall|k: int| from <= k < len ==> s@[k] != c,
        },
{
    let mut i: usize = len;
    while i > from
        invariant
            from <= i <= len,
            len == s@.len(),
            forall|k: int| i <= k < len ==> s@[k] != c,
        decreases i,
    {
        let ch = s.get_char(i - 1);
        if ch == c {
            return Some(i - 1);
        }
        i = i - 1;
    }
    None
}

fn lower_matches(s: &str, start: usize, word: &str) -> (r: bool)
    requires
        start <= s@.len(),
    ensures
        r == (s@.subrange(start as int, s@.len() as int).map_values(|c: char| ascii_lower(c))
            =~= word@),
{
    let len = s.unicode_len();
    let wlen = word.unicode_len();
    let ghost tail = s@.subrange(start as int, s@.len() as int).map_values(|c: char| ascii_lower(c));
    if len - start != wlen {
        return false;
    }
    let mut j: usize = 0;
    while j < wlen
        invariant
            j <= wlen,
            wlen == word@.len(),
            len == s@.len(),
            len - start == wlen,
            start <= len,
            tail == s@.subrange(start as int, s@.len() as int).map_values(|c: char| ascii_lower(c)),
            forall|k: int| 0 <= k < j ==> tail[k] == word@[k],
        decreases wlen - j,
    {
        let ch = s.get_char(start + j);
        let lc = if 'A' <= ch && ch <= 'Z' {
            ((ch as u8) + 32u8) as char
        } else {
            ch
        };
        assert(lc == ascii_lower(s@[start + j]));
        if lc != word.get_char(j) {
            assert(tail[j as int] != word@[j as int]);
            return false;
        }
        j = j + 1;
    }
    assert(tail =~= word@);
    true
}

/// Whether the path has one of the recognised image extensions.
pub fn check_file_format(path: &str) -> (r: bool)
    ensures
        r == is_image_path(path@),
{
    let len = path.unicode_len();
    let slash = find_last(path, '/', 0, len);
    let start: usize = match slash {
        Some(i) => i + 1,
        None => 0,
    };
    proof {
        let p = path@;
        match slash {
            Some(i) => lemma_last_index_from_scan(p, '/', i as int),
            None => lemma_last_index_from_scan(p, '/', -1),
        }
    }
    let ghost name = file_name(path@);
    let dot = find_last(path, '.', start, len);
    match dot {
        None => {
            proof {
                lemma_last_index_from_scan(name, '.', -1);
            }
            false
        },
        Some(d) => {
            proof {
                lemma_last_index_from_scan(name, '.', d - start);
            }
            if d == start {
                return false;
            }
            proof {
                assert(name.subrange(d - start + 1, name.len() as int) =~= path@.subrange(
                    d + 1,
                    path@.len() as int,
                ));
                reveal_strlit("jpg");
                reveal_strlit("jpeg");
                reveal_strlit("png");
                reveal_strlit("gif");
            }
            lower_matches(path, d + 1, "jpg") || lower_matches(path, d + 1, "jpeg")
                || lower_matches(path, d + 1, "png") || lower_matches(path, d + 1, "gif")
        },
    }
}

/// Whether a path qualifies as an image, given whether it names an accessible regular file.
pub fn check_file(path: &str, is_file: bool) -> (r: bool)
    ensures
        r == (is_file && is_image_path(path@)),
{
    is_file && check_file_format(path)
}

/// A path found while listing a playlist's configured files and directories,
/// and whether it names an accessible regular file.
pub struct ScanEntry {
    pub path: String,
    pub is_file: bool,
}

pub open spec fn qualifies(e: ScanEntry) -> bool {
    e.is_file && is_image_path(e.path@)
}

/// The images that a listing yields, in listing order.
pub open spec fn scanned(entries: Seq<ScanEntry>) -> Seq<Image>
    decreases entries.len(),
{
    if entries.len() == 0 {
        Seq::empty()
    } else {
        let rest = scanned(entries.drop_last());
        if qualifies(entries.last()) {
            rest.push(Image { path: entries.last().path, usable: true })
        } else {
            rest
        }
    }
}

pub open spec fn has_path(s: Seq<Image>, p: Seq<char>) -> bool {
    exists|i: int| 0 <= i < s.len() && s[i].path@ == p
}

/// The images of `s` whose path occurs in `other`, in order.
pub open spec fn present_in(s: Seq<Image>, other: Seq<Image>) -> Seq<Image>
    decreases s.len(),
{
    if s.len() == 0 {
        s
    } else if has_path(other, s.last().path@) {
        present_in(s.drop_last(), other).push(s.last())
    } else {
        present_in(s.drop_last(), other)
    }
}

/// The images of `s` whose path does not occur in `other`, in order.
pub open spec fn absent_from(s: Seq<Image>, other: Seq<Image>) -> Seq<Image>
    decreases s.len(),
{
    if s.len() == 0 {
        s
    } else if has_path(other, s.last().path@) {
        absent_from(s.drop_last(), other)
    } else {
        absent_from(s.drop_last(), other).push(s.last())
    }
}

/// What a rescan found: images that appeared and known images that vanished.
pub struct RescanResult {
    pub added: Vec<Image>,
    pub removed: Vec<Image>,
}

pub fn contains_path(s: &Vec<Image>, p: &String) -> (r: bool)
    ensures
        r == has_path(s@, p@),
{
    let mut i: usize = 0;
    while i < s.len()
        invariant
            i <= s.len(),
            forall|k: int| 0 <= k < i ==> s@[k].path@ != p@,
        decreases s.len() - i,
    {
        if s[i].path == *p {
            return true;
        }
        i = i + 1;
    }
    false
}

/// The images of a listing: each entry that is an accessible regular file
/// with a recognised extension, in listing order.
pub fn scan_playlist(entries: &Vec<ScanEntry>) -> (r: Vec<Image>)
    ensures
        r@ == scanned(entries@),
{
    let mut images: Vec<Image> = Vec::new();
    let mut i: usize = 0;
    while i < entries.len()
        invariant
            i <= entries.len(),
            images@ == scanned(entries@.subrange(0, i as int)),
        decreases entries.len() - i,
    {
        let e = &entries[i];
        assert(entries@.subrange(0, i + 1).drop_last() =~= entries@.subrange(0, i as int));
        if check_file(e.path.as_str(), e.is_file) {
            images.push(Image { path: e.path.clone(), usable: true });
        }
        i = i + 1;
    }
    assert(entries@.subrange(0, i as int) =~= entries@);
    images
}

/// The images of `s` whose path does not occur in `other`.
pub fn images_absent_from(s: &Vec<Image>, other: &Vec<Image>) -> (r: Vec<Image>)
    ensures
        r@ == absent_from(s@, other@),
{
    let mut out: Vec<Image> = Vec::new();
    let mut i: usize = 0;
    while i < s.len()
        invariant
            i <= s.len(),
            out@ == absent_from(s@.subrange(0, i as int), other@),
        decreases s.len() - i,
    {
        assert(s@.subrange(0, i + 1).drop_last() =~= s@.subrange(0, i as int));
        if !contains_path(other, &s[i].path) {
            out.push(s[i].clone());
        }
        i = i + 1;
    }
    assert(s@.subrange(0, i as int) =~= s@);
    out
}

/// The images of `s` whose path occurs in `other`.
pub fn images_present_in(s: &Vec<Image>, other: &Vec<Image>) -> (r: Vec<Image>)
    ensures
        r@ == present_in(s@, other@),
{
    let mut out: Vec<Image> = Vec::new();
    let mut i: usize = 0;
    while i < s.len()
        invariant
            i <= s.len(),
            out@ == present_in(s@.subrange(0, i as int), other@),
        decreases s.len() - i,
    {
        assert(s@.subrange(0, i + 1).drop_last() =~= s@.subrange(0, i as int));
        if contains_path(other, &s[i].path) {
            out.push(s[i].clone());
        }
        i = i + 1;
    }
    assert(s@.subrange(0, i as int) =~= s@);
    out
}

/// Compares a fresh listing with the known images: `added` holds the
/// qualifying images not known yet, `removed` the known images that no longer
/// qualify.
pub fn rescan_playlist(entries: &Vec<ScanEntry>, existing_images: &Vec<Image>) -> (r: RescanResult)
    ensures
        r.added@ == absent_from(scanned(entries@), existing_images@),
        r.removed@ == absent_from(existing_images@, scanned(entries@)),
{
    let fresh = scan_playlist(entries);
    let added = images_absent_from(&fresh, existing_images);
    let removed = images_absent_from(existing_images, &fresh);
    RescanResult { added, removed }
}

} // verus!
