//! Path classification: which directory entries count as tracked media,
//! which paths are thumbnail-derived, and how a path splits into file name,
//! stem and extension.

use vstd::prelude::*;

use crate::strutil::{contains_str, ends_with_ci, lower_seq, seq_contains, str_eq};

verus! {

/// A file name is media when, case-insensitively, it ends in one of the
/// allowed suffixes jpg, jpeg, png, gif, mp4, webm.
pub open spec fn is_media_name_spec(name: Seq<char>) -> bool {
    "jpg"@.is_suffix_of(lower_seq(name)) || "jpeg"@.is_suffix_of(lower_seq(name))
        || "png"@.is_suffix_of(lower_seq(name)) || "gif"@.is_suffix_of(lower_seq(name))
        || "mp4"@.is_suffix_of(lower_seq(name)) || "webm"@.is_suffix_of(lower_seq(name))
}

/// A path is thumbnail-derived when its string contains the reserved marker.
pub open spec fn path_has_thumbnail_marker(p: Seq<char>) -> bool {
    seq_contains(p, "thumbnail"@)
}

/// The part of `s` after the last occurrence of `c` (all of `s` when `c`
/// does not occur).
pub open spec fn suffix_after_last(s: Seq<char>, c: char) -> Seq<char>
    decreases s.len(),
{
    if s.len() == 0 {
        s
    } else if s.last() == c {
        Seq::<char>::empty()
    } else {
        suffix_after_last(s.drop_last(), c).push(s.last())
    }
}

/// The part of `s` before the last occurrence of `c` (all of `s` when `c`
/// does not occur).
pub open spec fn prefix_before_last(s: Seq<char>, c: char) -> Seq<char>
    decreases s.len(),
{
    if s.len() == 0 {
        s
    } else if s.last() == c {
        s.drop_last()
    } else {
        prefix_before_last(s.drop_last(), c)
    }
}

/// The file-name component of a path: everything after the last separator.
pub open spec fn file_name_of(p: Seq<char>) -> Seq<char> {
    suffix_after_last(p, '/')
}

/// The extension of a path's file name: the part after the last dot, present
/// only when a dot occurs past the name's first character (a leading dot
/// alone marks a hidden file, not an extension).
pub open spec fn extension_of(p: Seq<char>) -> Option<Seq<char>> {
    let name = file_name_of(p);
    if name.len() >= 1 && name.skip(1).contains('.') {
        Some(suffix_after_last(name, '.'))
    } else {
        None
    }
}

/// The stem of a path's file name: the name without its extension.
pub open spec fn stem_of(p: Seq<char>) -> Seq<char> {
    let name = file_name_of(p);
    if name.len() >= 1 && name.skip(1).contains('.') {
        prefix_before_last(name, '.')
    } else {
        name
    }
}

/// A tracked path is an encode candidate only when its extension is exactly
/// `mp4`.
pub open spec fn is_video_path(p: Seq<char>) -> bool {
    extension_of(p) == Some("mp4"@)
}

pub proof fn lemma_suffix_after_last_at(s: Seq<char>, c: char, j: int)
    requires
        0 <= j < s.len(),
        s[j] == c,
        forall|k: int| j < k < s.len() ==> s[k] != c,
    ensures
        suffix_after_last(s, c) == s.subrange(j + 1, s.len() as int),
        prefix_before_last(s, c) == s.subrange(0, j),
    decreases s.len(),
{
    if j == s.len() - 1 {
        assert(s.subrange(j + 1, s.len() as int) =~= Seq::<char>::empty());
        assert(s.drop_last() =~= s.subrange(0, j));
    } else {
        lemma_suffix_after_last_at(s.drop_last(), c, j);
        assert(s.drop_last().subrange(j + 1, s.len() - 1).push(s.last()) =~= s.subrange(
            j + 1,
            s.len() as int,
        ));
        assert(s.drop_last().subrange(0, j) =~= s.subrange(0, j));
    }
}

pub proof fn lemma_suffix_after_last_absent(s: Seq<char>, c: char)
    requires
        forall|k: int| 0 <= k < s.len() ==> s[k] != c,
    ensures
        suffix_after_last(s, c) == s,
    decreases s.len(),
{
    if s.len() > 0 {
        lemma_suffix_after_last_absent(s.drop_last(), c);
        assert(s.drop_last().push(s.last()) =~= s);
    }
}

/// Index of the last occurrence of `c` in `p`, if any.
pub fn find_last(p: &str, c: char) -> (r: Option<usize>)
    ensures
        match r {
            Some(j) => j < p@.len() && p@[j as int] == c && forall|k: int|
                j < k < p@.len() ==> p@[k] != c,
            None => forall|k: int| 0 <= k < p@.len() ==> p@[k] != c,
        },
{
    let n = p.unicode_len();
    let mut i: usize = n;
    while i > 0
        invariant
            n == p@.len(),
            i <= n,
            forall|k: int| i <= k < n ==> p@[k] != c,
        decreases i,
    {
        i = i - 1;
        if p.get_char(i) == c {
            return Some(i);
        }
    }
    None
}

/// Does the entry's file name match the media allow-list? Pure; no I/O.
pub fn is_media_name(name: &str) -> (r: bool)
    ensures
        r == is_media_name_spec(name@),
{
    proof {
        reveal_strlit("jpg");
        reveal_strlit("jpeg");
        reveal_strlit("png");
        reveal_strlit("gif");
        reveal_strlit("mp4");
        reveal_strlit("webm");
        assert(lower_seq("jpg"@) =~= "jpg"@);
        assert(lower_seq("jpeg"@) =~= "jpeg"@);
        assert(lower_seq("png"@) =~= "png"@);
        assert(lower_seq("gif"@) =~= "gif"@);
        assert(lower_seq("mp4"@) =~= "mp4"@);
        assert(lower_seq("webm"@) =~= "webm"@);
    }
    ends_with_ci(name, "jpg") || ends_with_ci(name, "jpeg") || ends_with_ci(name, "png")
        || ends_with_ci(name, "gif") || ends_with_ci(name, "mp4") || ends_with_ci(name, "webm")
}

/// A directory entry is tracked media exactly when it is not a directory and
/// its file name matches the allow-list.
pub fn is_media_entry(is_dir: bool, name: &str) -> (r: bool)
    ensures
        r == (!is_dir && is_media_name_spec(name@)),
{
    !is_dir && is_media_name(name)
}

/// Does the path contain the reserved thumbnail marker?
pub fn path_is_thumbnail(path: &str) -> (r: bool)
    ensures
        r == path_has_thumbnail_marker(path@),
{
    contains_str(path, "thumbnail")
}

/// The file-name component of a path.
pub fn path_file_name(p: &str) -> (r: String)
    ensures
        r@ == file_name_of(p@),
{
    let n = p.unicode_len();
    match find_last(p, '/') {
        Some(j) => {
            proof {
                lemma_suffix_after_last_at(p@, '/', j as int);
            }
            String::from_str(p.substring_char(j + 1, n))
        },
        None => {
            proof {
                lemma_suffix_after_last_absent(p@, '/');
            }
            String::from_str(p)
        },
    }
}

/// The stem and extension of a path's file name; the extension is `None`
/// when the name has no dot past its first character.
pub fn path_stem_extension(p: &str) -> (r: (String, Option<String>))
    ensures
        r.0@ == stem_of(p@),
        match r.1 {
            Some(e) => extension_of(p@) == Some(e@),
            None => extension_of(p@) is None,
        },
{
    let name = path_file_name(p);
    let s = name.as_str();
    let n = s.unicode_len();
    match find_last(s, '.') {
        Some(j) => {
            if j >= 1 {
                proof {
                    lemma_suffix_after_last_at(s@, '.', j as int);
                    assert(s@.skip(1)[j - 1] == '.');
                    assert(s@.skip(1).contains('.'));
                }
                (
                    String::from_str(s.substring_char(0, j)),
                    Some(String::from_str(s.substring_char(j + 1, n))),
                )
            } else {
                proof {
                    let name_v = s@;
                    if name_v.len() >= 1 && name_v.skip(1).contains('.') {
                        let k = choose|k: int|
                            0 <= k < name_v.skip(1).len() && name_v.skip(1)[k] == '.';
                        assert(name_v[k + 1] == '.');
                        assert(false);
                    }
                }
                (name, None)
            }
        },
        None => {
            proof {
                let name_v = s@;
                if name_v.len() >= 1 && name_v.skip(1).contains('.') {
                    let k = choose|k: int|
                        0 <= k < name_v.skip(1).len() && name_v.skip(1)[k] == '.';
                    assert(name_v[k + 1] == '.');
                    assert(false);
                }
            }
            (name, None)
        },
    }
}

/// Is the path an encode candidate (extension exactly `mp4`)?
pub fn path_is_video(p: &str) -> (r: bool)
    ensures
        r == is_video_path(p@),
{
    let (_, ext) = path_stem_extension(p);
    match ext {
        Some(e) => str_eq(e.as_str(), "mp4"),
        None => false,
    }
}

} // verus!
