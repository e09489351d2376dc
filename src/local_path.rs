use crate::error::HfError;
use crate::text::{starts_with, str_starts_with};
use vstd::prelude::*;

verus! {

/// Where the last segment of `s[..i]` starts: just after its last `/`.
pub open spec fn segment_start(s: Seq<char>, i: int) -> int
    decreases i,
{
    if i <= 0 {
        0
    } else if s[i - 1] == '/' {
        i
    } else {
        segment_start(s, i - 1)
    }
}

/// The last segment of path `s`: what follows its last `/`.
pub open spec fn file_name_of(s: Seq<char>) -> Seq<char> {
    s.subrange(segment_start(s, s.len() as int), s.len() as int)
}

/// A filter names a single file when its last segment holds a `.`.
pub open spec fn has_extension(filter: Seq<char>) -> bool {
    file_name_of(filter).contains('.')
}

/// `path` with the directory `dir` taken off its front, at a segment
/// boundary; `None` where `path` does not lie under `dir`.
pub open spec fn strip_dir(path: Seq<char>, dir: Seq<char>) -> Option<Seq<char>> {
    if !starts_with(path, dir) {
        None
    } else if dir.len() == 0 || dir.last() == '/' {
        Some(path.subrange(dir.len() as int, path.len() as int))
    } else if path.len() == dir.len() {
        Some(Seq::empty())
    } else if path[dir.len() as int] == '/' {
        Some(path.subrange(dir.len() as int + 1, path.len() as int))
    } else {
        None
    }
}

/// `path` placed under directory `dir`.
pub open spec fn join(dir: Seq<char>, path: Seq<char>) -> Seq<char> {
    if dir.len() == 0 || dir.last() == '/' {
        dir + path
    } else {
        dir + seq!['/'] + path
    }
}

/// The local path of remote file `rel`, given the identifier's filter and
/// the destination directory.
pub open spec fn resolved(filter: Option<Seq<char>>, rel: Seq<char>, dest: Option<Seq<char>>) -> Result<Seq<char>, HfError> {
    let local = match filter {
        None => Some(rel),
        Some(f) => if has_extension(f) {
            Some(file_name_of(f))
        } else {
            strip_dir(rel, f)
        },
    };
    match local {
        None => Err(HfError::FilterPrefixMismatch),
        Some(p) => match dest {
            None => Ok(p),
            Some(d) => Ok(join(d, p)),
        },
    }
}

/// An optional text, as text.
pub open spec fn opt_text(o: Option<&str>) -> Option<Seq<char>> {
    match o {
        Some(s) => Some(s@),
        None => None,
    }
}

/// The last segment of a path.
pub fn file_name(s: &str) -> (r: &str)
    ensures
        r@ == file_name_of(s@),
{
    let n = s.unicode_len();
    let mut i: usize = n;
    while i > 0
        invariant
            n == s@.len(),
            i <= n,
            segment_start(s@, n as int) == segment_start(s@, i as int),
        ensures
            segment_start(s@, n as int) == i,
        decreases i,
    {
        if s.get_char(i - 1) == '/' {
            assert(segment_start(s@, i as int) == i);
            break;
        }
        i = i - 1;
    }
    s.substring_char(i, n)
}

/// Whether a filter's last segment holds a `.`.
pub fn filter_has_extension(filter: &str) -> (r: bool)
    ensures
        r == has_extension(filter@),
{
    let name = file_name(filter);
    let n = name.unicode_len();
    let mut j: usize = 0;
    while j < n
        invariant
            name@ == file_name_of(filter@),
            n == name@.len(),
            j <= n,
            forall|k: int| 0 <= k < j ==> name@[k] != '.',
        decreases n - j,
    {
        if name.get_char(j) == '.' {
            assert(name@[j as int] == '.');
            assert(name@.contains('.'));
            return true;
        }
        j = j + 1;
    }
    false
}

/// A path with a directory prefix taken off.
pub fn strip_directory<'a>(path: &'a str, dir: &str) -> (r: Option<&'a str>)
    ensures
        match r {
            Some(x) => strip_dir(path@, dir@) == Some(x@),
            None => strip_dir(path@, dir@) is None,
        },
{
    if !str_starts_with(path, dir) {
        return None;
    }
    let n = path.unicode_len();
    let m = dir.unicode_len();
    if m == 0 || dir.get_char(m - 1) == '/' {
        Some(path.substring_char(m, n))
    } else if n == m {
        Some(path.substring_char(n, n))
    } else if path.get_char(m) == '/' {
        Some(path.substring_char(m + 1, n))
    } else {
        None
    }
}

/// A path placed under a directory.
pub fn join_path(dir: &str, path: &str) -> (r: String)
    ensures
        r@ == join(dir@, path@),
{
    let n = dir.unicode_len();
    let mut out = String::from_str(dir);
    if n > 0 && dir.get_char(n - 1) != '/' {
        out.append("/");
        proof {
            reveal_strlit("/");
        }
    }
    out.append(path);
    out
}

/// The local path a remote file is written to. Without a filter the remote
/// path is kept; a filter naming a single file puts that file's name
/// directly under the destination; a directory filter is taken off the
/// front of the remote path.
pub fn resolve_local_path(filter: Option<&str>, relative_path: &str, destination_dir: Option<&str>) -> (r: Result<String, HfError>)
    ensures
        match r {
            Ok(p) => resolved(opt_text(filter), relative_path@, opt_text(destination_dir)) == Ok::<Seq<char>, HfError>(p@),
            Err(e) => resolved(opt_text(filter), relative_path@, opt_text(destination_dir)) == Err::<Seq<char>, HfError>(e),
        },
{
    let local: &str = match filter {
        None => relative_path,
        Some(f) => if filter_has_extension(f) {
            file_name(f)
        } else {
            match strip_directory(relative_path, f) {
                Some(p) => p,
                None => {
                    return Err(HfError::FilterPrefixMismatch);
                },
            }
        },
    };
    match destination_dir {
        None => Ok(String::from_str(local)),
        Some(d) => Ok(join_path(d, local)),
    }
}

} // verus!
