//! The decision logic of a post-download file action: given a file path, an
//! optional root, and an action descriptor, decide whether the file is to be
//! moved (and where), deleted, or left alone. Paths are plain UTF-8 strings
//! with `/` as separator; the filesystem effects themselves are the
//! caller's, which hands back any failure as it stands.

use vstd::prelude::*;

use crate::text::{last_index_of, push_char, rfind_char};

verus! {

/// A requested disposition for a file. When `move_to` is set it takes
/// precedence over `delete`.
#[derive(Debug, Clone)]
pub struct FileAction {
    pub delete: bool,
    pub move_to: Option<String>,
}

/// The single outcome of one execution: the file was deleted, was moved to
/// the carried destination, or was left untouched.
#[derive(Debug, Clone)]
pub enum FileActionResult {
    Deleted(String),
    Moved(String),
    Nothing,
}

/// A malformed input the executor refuses instead of aborting: a rooted
/// move of a file that does not lie under the root, or a move of a path
/// with no extractable final name component.
#[derive(Debug, Clone, Copy, PartialEq, Eq, Structural)]
pub enum PathError {
    NotUnderRoot,
    NoFileName,
}

/// A root with at most one trailing separator removed.
pub open spec fn norm_root(root: Seq<char>) -> Seq<char> {
    if root.len() > 0 && root.last() == '/' {
        root.drop_last()
    } else {
        root
    }
}

/// The path of `file` relative to `root`: what follows the root and its
/// separator, the empty path when the two are equal, and nothing when
/// `file` does not lie under `root`. Paths are compared textually; no
/// component normalization beyond one trailing separator of the root.
pub open spec fn strip_prefix_spec(file: Seq<char>, root: Seq<char>) -> Option<Seq<char>> {
    let r = norm_root(root);
    if file == r {
        Some(Seq::<char>::empty())
    } else if r.len() < file.len() && file.take(r.len() as int) == r && file[r.len() as int] == '/' {
        Some(file.skip(r.len() as int + 1))
    } else {
        None
    }
}

/// The final name component of a path: the text after the last separator,
/// or nothing when that text is empty.
pub open spec fn file_name_spec(p: Seq<char>) -> Option<Seq<char>> {
    let name = p.skip(last_index_of(p, '/') + 1);
    if name.len() == 0 {
        None
    } else {
        Some(name)
    }
}

/// `target` and `part` joined with a single separator; either side empty
/// leaves the other alone.
pub open spec fn join_spec(target: Seq<char>, part: Seq<char>) -> Seq<char> {
    if part.len() == 0 {
        target
    } else if target.len() == 0 {
        part
    } else if target.last() == '/' {
        target + part
    } else {
        target + seq!['/'] + part
    }
}

/// The destination of a move: with a root, the target joined with the
/// file's path relative to that root; without one, the target joined with
/// the file's final name component alone.
pub open spec fn move_dest_spec(file: Seq<char>, root: Option<Seq<char>>, target: Seq<char>) -> Result<
    Seq<char>,
    PathError,
> {
    match root {
        Some(r) => match strip_prefix_spec(file, r) {
            Some(part) => Ok(join_spec(target, part)),
            None => Err(PathError::NotUnderRoot),
        },
        None => match file_name_spec(file) {
            Some(n) => Ok(join_spec(target, n)),
            None => Err(PathError::NoFileName),
        },
    }
}

/// The view of an optional borrowed path.
pub open spec fn opt_str_view(o: Option<&str>) -> Option<Seq<char>> {
    match o {
        Some(s) => Some(s@),
        None => None,
    }
}

/// The view of a computed destination.
pub open spec fn path_result_view(r: Result<String, PathError>) -> Result<Seq<char>, PathError> {
    match r {
        Ok(s) => Ok(s@),
        Err(e) => Err(e),
    }
}

/// The path of `file` relative to `root`, or `None` when `file` does not
/// lie under `root`.
pub fn strip_prefix(file: &str, root: &str) -> (r: Option<String>)
    ensures
        r.deep_view() == strip_prefix_spec(file@, root@),
{
    let flen = file.unicode_len();
    let rlen_full = root.unicode_len();
    let rlen = if rlen_full > 0 && root.get_char(rlen_full - 1) == '/' {
        rlen_full - 1
    } else {
        rlen_full
    };
    proof {
        assert(norm_root(root@) =~= root@.subrange(0, rlen as int));
    }
    if flen < rlen {
        return None;
    }
    let mut j: usize = 0;
    while j < rlen
        invariant
            j <= rlen <= flen,
            flen == file@.len(),
            rlen <= root@.len(),
            norm_root(root@) == root@.subrange(0, rlen as int),
            forall|k: int| 0 <= k < j ==> file@[k] == root@[k],
        decreases rlen - j,
    {
        if file.get_char(j) != root.get_char(j) {
            proof {
                let nr = norm_root(root@);
                assert(nr[j as int] == root@[j as int]);
                if file@ == nr {
                    assert(file@[j as int] == nr[j as int]);
                }
                if file@.take(rlen as int) == nr {
                    assert(file@.take(rlen as int)[j as int] == nr[j as int]);
                }
            }
            return None;
        }
        j = j + 1;
    }
    proof {
        let nr = norm_root(root@);
        if flen == rlen {
            assert(file@ =~= nr);
        } else {
            assert(file@.take(rlen as int) =~= nr);
            assert(file@.len() != nr.len());
        }
    }
    if flen == rlen {
        Some(String::new())
    } else if file.get_char(rlen) == '/' {
        Some(file.substring_char(rlen + 1, flen).to_owned())
    } else {
        None
    }
}

/// The final name component of a path, or `None` when there is none.
pub fn file_name(p: &str) -> (r: Option<String>)
    ensures
        r.deep_view() == file_name_spec(p@),
{
    let len = p.unicode_len();
    let start = match rfind_char(p, '/') {
        Some(i) => i + 1,
        None => 0,
    };
    proof {
        assert(p@.skip(0) =~= p@);
    }
    if start == len {
        None
    } else {
        Some(p.substring_char(start, len).to_owned())
    }
}

/// `target` and `part` joined with a single separator.
pub fn join_path(target: &str, part: &str) -> (r: String)
    ensures
        r@ == join_spec(target@, part@),
{
    let tlen = target.unicode_len();
    let plen = part.unicode_len();
    if plen == 0 {
        target.to_owned()
    } else if tlen == 0 {
        part.to_owned()
    } else if target.get_char(tlen - 1) == '/' {
        let mut r = target.to_owned();
        r.append(part);
        r
    } else {
        let mut r = target.to_owned();
        push_char(&mut r, '/');
        r.append(part);
        r
    }
}

impl FileAction {
    /// The destination a move would use, per `move_dest_spec`; an error
    /// names the malformed input instead.
    pub fn move_destination(file: &str, root: Option<&str>, target: &str) -> (r: Result<
        String,
        PathError,
    >)
        ensures
            path_result_view(r) == move_dest_spec(file@, opt_str_view(root), target@),
    {
        match root {
            Some(r) => match strip_prefix(file, r) {
                Some(part) => Ok(join_path(target, part.as_str())),
                None => Err(PathError::NotUnderRoot),
            },
            None => match file_name(file) {
                Some(n) => Ok(join_path(target, n.as_str())),
                None => Err(PathError::NoFileName),
            },
        }
    }

    /// Decides the outcome of this action on `file`. A set `move_to` takes
    /// precedence over `delete` and yields the computed destination; with
    /// no move target, `delete` yields the file's own path; otherwise
    /// nothing happens. The caller carries out the decided effect.
    pub fn execute(&self, file: &str, root: Option<&str>) -> (r: Result<
        FileActionResult,
        PathError,
    >)
        ensures
            match self.move_to {
                Some(t) => match move_dest_spec(file@, opt_str_view(root), t@) {
                    Ok(d) => r matches Ok(FileActionResult::Moved(m)) && m@ == d,
                    Err(e) => r matches Err(e2) && e2 == e,
                },
                None => if self.delete {
                    r matches Ok(FileActionResult::Deleted(p)) && p@ == file@
                } else {
                    r matches Ok(FileActionResult::Nothing)
                },
            },
    {
        match &self.move_to {
            Some(target) => match Self::move_destination(file, root, target.as_str()) {
                Ok(d) => Ok(FileActionResult::Moved(d)),
                Err(e) => Err(e),
            },
            None => {
                if self.delete {
                    Ok(FileActionResult::Deleted(file.to_owned()))
                } else {
                    Ok(FileActionResult::Nothing)
                }
            },
        }
    }
}

} // verus!
