use vstd::prelude::*;
use vstd::string::StrSliceExecFns;

use crate::files::paths_of;
use crate::options::Options;
use crate::text::{push_char, push_str, starts_with, str_eq};

verus! {

/// Why a remote operation could not be prepared or run.
#[derive(Debug)]
pub enum MegaError {
    /// Starting the remote tool, or reading a local path, failed.
    Io(std::io::Error),
    /// A file lies outside the local root.
    StripPrefix,
}

/// The path of `file` relative to `root`, with `/` as separator, when
/// `file` is `root` or lies under it.
pub open spec fn relative_to(file: Seq<char>, root: Seq<char>) -> Option<Seq<char>> {
    if root.len() == 0 {
        Some(file)
    } else if file == root {
        Some(Seq::empty())
    } else if root.last() == '/' {
        if root.is_prefix_of(file) {
            Some(file.subrange(root.len() as int, file.len() as int))
        } else if file == root.drop_last() {
            Some(Seq::empty())
        } else {
            None
        }
    } else if file.len() > root.len() && root.is_prefix_of(file) && file[root.len() as int] == '/' {
        Some(file.subrange(root.len() as int + 1, file.len() as int))
    } else {
        None
    }
}

/// `rel` appended to `base`: an absolute `rel` stands alone, and a `/` is put
/// between the two unless `base` is empty or already ends with one.
pub open spec fn join_path(base: Seq<char>, rel: Seq<char>) -> Seq<char> {
    if rel.len() > 0 && rel[0] == '/' {
        rel
    } else if base.len() > 0 && base.last() != '/' {
        base + seq!['/'] + rel
    } else {
        base + rel
    }
}

/// Where a local file goes under the remote root.
pub open spec fn remote_dest(file: Seq<char>, local: Seq<char>, remote: Seq<char>) -> Option<Seq<char>> {
    match relative_to(file, local) {
        Some(rel) => Some(join_path(remote, rel)),
        None => None,
    }
}

fn relative<'a>(file: &'a str, root: &str) -> (r: Option<&'a str>)
    ensures
        match r {
            Some(s) => relative_to(file@, root@) == Some(s@),
            None => relative_to(file@, root@).is_none(),
        },
{
    let n = root.unicode_len();
    let m = file.unicode_len();
    if n == 0 {
        return Some(file);
    }
    if str_eq(file, root) {
        return Some(file.substring_char(m, m));
    }
    if root.get_char(n - 1) == '/' {
        if starts_with(file, root) {
            return Some(file.substring_char(n, m));
        }
        let head = root.substring_char(0, n - 1);
        if str_eq(file, head) {
            assert(head@ == root@.drop_last());
            return Some(file.substring_char(m, m));
        }
        assert(root@.drop_last() =~= root@.subrange(0, n - 1));
        return None;
    }
    if m > n && starts_with(file, root) && file.get_char(n) == '/' {
        return Some(file.substring_char(n + 1, m));
    }
    None
}

/// The lines of `s` read so far, and the line still open: a line ends at
/// `\n`, and a `\r` just before that `\n` belongs to the line ending.
pub open spec fn lines_fold(s: Seq<char>) -> (Seq<Seq<char>>, Seq<char>)
    decreases s.len(),
{
    if s.len() == 0 {
        (Seq::empty(), Seq::empty())
    } else {
        let (done, cur) = lines_fold(s.drop_last());
        if s.last() == '\n' {
            if cur.len() > 0 && cur.last() == '\r' {
                (done.push(cur.drop_last()), Seq::empty())
            } else {
                (done.push(cur), Seq::empty())
            }
        } else {
            (done, cur.push(s.last()))
        }
    }
}

/// The lines of `s`, as `str::lines` gives them: the last line ending is
/// optional.
pub open spec fn lines_of(s: Seq<char>) -> Seq<Seq<char>> {
    let (done, cur) = lines_fold(s);
    if cur.len() > 0 {
        done.push(cur)
    } else {
        done
    }
}

/// Runs the remote tool.
pub struct MegaCmd;

impl MegaCmd {
    /// The remote destination of `file`: its path relative to the local root,
    /// under the remote root. Fails when the file lies outside the local root.
    pub fn push(file: &str, options: &Options) -> (r: Result<String, MegaError>)
        ensures
            match remote_dest(file@, options.local.path@, options.remote.path@) {
                Some(d) => r matches Ok(s) && s@ == d,
                None => r matches Err(MegaError::StripPrefix),
            },
    {
        let remote = options.remote_path();
        let local = options.local_path();
        match relative(file, local) {
            Some(rel) => {
                let mut dest = remote.to_owned();
                let n = remote.unicode_len();
                if rel.unicode_len() > 0 && rel.get_char(0) == '/' {
                    return Ok(rel.to_owned());
                }
                if n > 0 && remote.get_char(n - 1) != '/' {
                    push_char(&mut dest, '/');
                }
                push_str(&mut dest, rel);
                Ok(dest)
            },
            None => Err(MegaError::StripPrefix),
        }
    }

    /// The remote destinations of all `files`, in order; fails on the first
    /// file that lies outside the local root.
    pub fn extend(files: &Vec<String>, options: &Options) -> (r: Result<Vec<String>, MegaError>)
        ensures
            match r {
                Ok(v) => v@.len() == files@.len() && forall|i: int|
                    0 <= i < files@.len() ==> remote_dest(files@[i]@, options.local.path@, options.remote.path@)
                        == Some(#[trigger] v@[i]@),
                Err(e) => e is StripPrefix && exists|i: int|
                    0 <= i < files@.len() && remote_dest(#[trigger] files@[i]@, options.local.path@, options.remote.path@)
                        is None,
            },
    {
        let mut v: Vec<String> = Vec::new();
        let mut i: usize = 0;
        while i < files.len()
            invariant
                0 <= i <= files@.len(),
                v@.len() == i,
                forall|j: int|
                    0 <= j < i ==> remote_dest(files@[j]@, options.local.path@, options.remote.path@)
                        == Some(#[trigger] v@[j]@),
            decreases files@.len() - i,
        {
            match MegaCmd::push(files[i].as_str(), options) {
                Ok(d) => v.push(d),
                Err(e) => {
                    assert(remote_dest(files@[i as int]@, options.local.path@, options.remote.path@) is None);
                    return Err(e);
                },
            }
            i = i + 1;
        }
        Ok(v)
    }

    /// The entries of a remote listing, one per line of the tool's output.
    pub fn parse_listing(output: &str) -> (r: Vec<String>)
        ensures
            paths_of(r@) == lines_of(output@),
    {
        let n = output.unicode_len();
        let mut done: Vec<String> = Vec::new();
        let mut cur = String::new();
        let mut cr = false;
        let mut i: usize = 0;
        while i < n
            invariant
                n == output@.len(),
                0 <= i <= n,
                paths_of(done@) == lines_fold(output@.take(i as int)).0,
                (if cr { cur@.push('\r') } else { cur@ }) == lines_fold(output@.take(i as int)).1,
                !cr ==> cur@.len() == 0 || cur@.last() != '\r',
            decreases n - i,
        {
            let c = output.get_char(i);
            let ghost pre = output@.take(i as int);
            assert(output@.take(i + 1).drop_last() =~= pre);
            assert(output@.take(i + 1).last() == c);
            if c == '\n' {
                let ghost line = cur@;
                let ghost old_done = done@;
                let mut line_s = String::new();
                std::mem::swap(&mut cur, &mut line_s);
                done.push(line_s);
                proof {
                    assert(paths_of(done@) =~= paths_of(old_done).push(line));
                    if cr {
                        assert(line.push('\r').drop_last() =~= line);
                    }
                }
                cr = false;
            } else {
                if cr {
                    push_char(&mut cur, '\r');
                }
                if c == '\r' {
                    cr = true;
                } else {
                    cr = false;
                    push_char(&mut cur, c);
                }
            }
            i = i + 1;
        }
        assert(output@.take(n as int) =~= output@);
        if cr {
            push_char(&mut cur, '\r');
        }
        if cur.unicode_len() > 0 {
            let ghost old_done = done@;
            done.push(cur);
            assert(paths_of(done@) =~= paths_of(old_done).push(lines_fold(output@).1));
        }
        done
    }

    /// Whether a remote listing, one path per entry, holds the lock file.
    pub fn lock_exists(listing: &Vec<String>) -> (r: bool)
        ensures
            r == exists|i: int| 0 <= i < listing@.len() && (#[trigger] listing@[i])@ == crate::LOCK_PATH@,
    {
        let mut i: usize = 0;
        while i < listing.len()
            invariant
                0 <= i <= listing@.len(),
                forall|j: int| 0 <= j < i ==> (#[trigger] listing@[j])@ != crate::LOCK_PATH@,
            decreases listing@.len() - i,
        {
            if str_eq(listing[i].as_str(), crate::LOCK_PATH) {
                return true;
            }
            i = i + 1;
        }
        false
    }
}

} // verus!
