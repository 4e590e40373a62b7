//! File extension of a URL path.

use crate::parsed_url::ParsedUrl;
use vstd::prelude::*;

verus! {

/// Index of the last occurrence of `c` in `s`, or -1 when `c` does not occur.
pub open spec fn last_index_of(s: Seq<char>, c: char) -> int
    decreases s.len(),
{
    if s.len() == 0 {
        -1
    } else if s.last() == c {
        s.len() - 1
    } else {
        last_index_of(s.drop_last(), c)
    }
}

/// Where `c` occurs in `s`, `last_index_of` is the index of an occurrence
/// that no other follows; where it does not occur, -1.
pub proof fn lemma_last_index_of(s: Seq<char>, c: char)
    ensures
        -1 <= last_index_of(s, c) < s.len(),
        last_index_of(s, c) >= 0 ==> s[last_index_of(s, c)] == c,
        forall|j: int| last_index_of(s, c) < j < s.len() ==> s[j] != c,
    decreases s.len(),
{
    if s.len() > 0 && s.last() != c {
        lemma_last_index_of(s.drop_last(), c);
        assert forall|j: int| last_index_of(s, c) < j < s.len() implies s[j] != c by {
            if j < s.len() - 1 {
                assert(s[j] == s.drop_last()[j]);
            }
        }
    }
}

/// The extension of the last segment of `path`: what follows the last dot,
/// provided the path starts with a slash, the dot lies in the last segment
/// and is not the final character.
pub open spec fn spec_path_extension(path: Seq<char>) -> Option<Seq<char>> {
    let dot = last_index_of(path, '.');
    let slash = last_index_of(path, '/');
    if path.len() > 0 && path[0] == '/' && slash < dot && dot + 1 < path.len() {
        Some(path.skip(dot + 1))
    } else {
        None
    }
}

/// The extension of the last segment of `path`, without the dot, or `None`
/// where the path does not start with a slash, its last segment holds no dot,
/// or nothing follows that segment's last dot.
pub fn path_extension(path: &str) -> (ext: Option<String>)
    ensures
        ext.deep_view() == spec_path_extension(path@),
{
    let len: usize = path.unicode_len();
    // Whether the path starts with a slash, and where the last dot of the
    // segment that is being read stands.
    let mut rooted: bool = false;
    let mut dot: Option<usize> = None;
    let mut n: usize = 0;
    for c in it: path.chars()
        invariant
            n == it.index(),
            it.seq() == path@,
            len == path@.len(),
            rooted == (n > 0 && path@[0] == '/'),
            match dot {
                Some(d) => d == last_index_of(path@.take(n as int), '.') && last_index_of(
                    path@.take(n as int),
                    '/',
                ) < d < n,
                None => last_index_of(path@.take(n as int), '.') <= last_index_of(
                    path@.take(n as int),
                    '/',
                ),
            },
    {
        proof {
            assert(path@.take(n + 1).drop_last() == path@.take(n as int));
            lemma_last_index_of(path@.take(n as int), '/');
        }
        if n == 0 {
            rooted = c == '/';
        }
        if c == '.' {
            dot = Some(n);
        } else if c == '/' {
            dot = None;
        }
        n = n + 1;
    }
    assert(path@.take(n as int) == path@);
    match dot {
        Some(d) if rooted && d < len - 1 => Some(path.substring_char(d + 1, len).to_owned()),
        _ => None,
    }
}

/// Whether `ext` is the extension of `path`: the path starts with a slash and
/// ends in a dot followed by `ext`, and `ext` is not empty and holds neither
/// a dot nor a slash.
pub open spec fn is_extension_of(ext: Seq<char>, path: Seq<char>) -> bool {
    &&& path.len() > ext.len() > 0
    &&& path[0] == '/'
    &&& path == path.take(path.len() - ext.len() - 1).push('.') + ext
    &&& !ext.contains('.')
    &&& !ext.contains('/')
}

/// A path has the extension `ext` exactly where `ext` is what follows the
/// last dot of its last segment and is not empty. So `/archive.tar.gz` has
/// the extension `gz`, and `/file.`, `/a.b/c` and a path without a leading
/// slash have none.
pub proof fn lemma_path_extension_characterized(path: Seq<char>, ext: Seq<char>)
    ensures
        spec_path_extension(path) == Some(ext) <==> is_extension_of(ext, path),
{
    lemma_last_index_of(path, '.');
    lemma_last_index_of(path, '/');
    let dot = last_index_of(path, '.');
    if spec_path_extension(path) == Some(ext) {
        // What follows the last dot holds no dot, and no slash either, as
        // the last slash stands before that dot.
        assert forall|j: int| 0 <= j < ext.len() implies ext[j] != '.' && ext[j] != '/' by {
            assert(ext[j] == path[dot + 1 + j]);
        }
        assert(path =~= path.take(dot).push('.') + ext);
    }
    if is_extension_of(ext, path) {
        // The dot before `ext` is the last one, and no slash follows it.
        let at = path.len() - ext.len() - 1;
        assert(path[at] == '.');
        assert forall|j: int| at < j < path.len() implies path[j] != '.' && path[j] != '/' by {
            assert(path[j] == ext[j - at - 1]);
        }
        assert(dot == at);
        assert(path.skip(dot + 1) =~= ext);
    }
}

/// The extension of the file that `url` names, if it names one.
pub fn url_parse_extension(url: &ParsedUrl) -> (ext: Option<String>)
    ensures
        ext.deep_view() == spec_path_extension(url@.path),
{
    path_extension(url.path.as_str())
}

} // verus!
