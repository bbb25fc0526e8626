use vstd::prelude::*;
use vstd::string::*;

use crate::text::chars_of;

verus! {

/// One component of a filesystem path, as `std::path::Component` tells them apart.
#[derive(Debug, PartialEq, Eq)]
pub enum PathPart {
    /// A Windows path prefix, such as `C:`.
    Prefix(String),
    /// The root directory.
    RootDir,
    /// A reference to the current directory, `.`.
    CurDir,
    /// A reference to the parent directory, `..`.
    ParentDir,
    /// A normal component: the name of a file or of a directory.
    Normal(String),
}

impl Clone for PathPart {
    fn clone(&self) -> (copy: Self)
        ensures
            copy == *self,
    {
        match self {
            PathPart::Prefix(text) => PathPart::Prefix(text.clone()),
            PathPart::RootDir => PathPart::RootDir,
            PathPart::CurDir => PathPart::CurDir,
            PathPart::ParentDir => PathPart::ParentDir,
            PathPart::Normal(name) => PathPart::Normal(name.clone()),
        }
    }
}

/// Whether a path has a parent: it has one unless it is empty or ends in
/// a root or a prefix.
pub open spec fn has_parent(path: Seq<PathPart>) -> bool {
    path.len() > 0 && !(path.last() is RootDir) && !(path.last() is Prefix)
}

/// The path without its final component.
pub open spec fn parent_of(path: Seq<PathPart>) -> Seq<PathPart> {
    path.drop_last()
}

/// The position of the last `.` of a name, or -1 if it has none.
pub open spec fn last_dot(name: Seq<char>) -> int
    decreases name.len(),
{
    if name.len() == 0 {
        -1
    } else if name.last() == '.' {
        name.len() - 1
    } else {
        last_dot(name.drop_last())
    }
}

/// The stem of a file name: the name up to its last `.`, or the whole name
/// if it has no `.` or only one that starts it.
pub open spec fn stem_of(name: Seq<char>) -> Seq<char> {
    if last_dot(name) <= 0 {
        name
    } else {
        name.subrange(0, last_dot(name))
    }
}

/// A copy of a path.
pub fn clone_path(path: &Vec<PathPart>) -> (copy: Vec<PathPart>)
    ensures
        copy@ == path@,
{
    let mut copy: Vec<PathPart> = Vec::new();
    let mut i: usize = 0;
    while i < path.len()
        invariant
            i <= path.len(),
            copy@ == path@.take(i as int),
        decreases path.len() - i,
    {
        copy.push(path[i].clone());
        proof {
            assert(path@.take(i + 1) =~= path@.take(i as int).push(path@[i as int]));
        }
        i += 1;
    }
    proof {
        assert(path@.take(path@.len() as int) =~= path@);
    }
    copy
}

/// Truncates the path to its parent. Returns `false` and does nothing if the
/// path has no parent.
pub fn pop(path: &mut Vec<PathPart>) -> (popped: bool)
    ensures
        popped == has_parent(old(path)@),
        popped ==> final(path)@ == parent_of(old(path)@),
        !popped ==> final(path)@ == old(path)@,
{
    let n = path.len();
    if n == 0 {
        return false;
    }
    match &path[n - 1] {
        PathPart::RootDir => {
            return false;
        },
        PathPart::Prefix(_) => {
            return false;
        },
        _ => {},
    }
    path.pop();
    true
}

/// The path of `name` inside the directory `dir`.
pub fn join(dir: &Vec<PathPart>, name: &str) -> (joined: Vec<PathPart>)
    ensures
        joined@.len() == dir@.len() + 1,
        joined@.drop_last() == dir@,
        joined@.last() matches PathPart::Normal(last) && last@ == name@,
{
    let mut joined = clone_path(dir);
    joined.push(PathPart::Normal(String::from_str(name)));
    proof {
        assert(joined@.drop_last() =~= dir@);
    }
    joined
}

/// The stem of the file that the path names: `None` unless the path ends in
/// a normal component.
pub fn file_stem(path: &Vec<PathPart>) -> (stem: Option<String>)
    ensures
        match stem {
            Some(text) => path@.len() > 0 && (path@.last() matches PathPart::Normal(name)
                && text@ == stem_of(name@)),
            None => path@.len() == 0 || !(path@.last() is Normal),
        },
{
    let n = path.len();
    if n == 0 {
        return None;
    }
    match &path[n - 1] {
        PathPart::Normal(name) => {
            let chars = chars_of(name.as_str());
            let mut dot: usize = 0;
            let mut found = false;
            let mut i: usize = 0;
            while i < chars.len()
                invariant
                    i <= chars.len(),
                    found ==> dot < i && last_dot(chars@.take(i as int)) == dot,
                    !found ==> last_dot(chars@.take(i as int)) == -1,
                decreases chars.len() - i,
            {
                proof {
                    assert(chars@.take(i + 1).drop_last() =~= chars@.take(i as int));
                }
                if chars[i] == '.' {
                    dot = i;
                    found = true;
                }
                i += 1;
            }
            proof {
                assert(chars@.take(chars@.len() as int) =~= chars@);
            }
            if found && dot > 0 {
                Some(String::from_str(name.as_str().substring_char(0, dot)))
            } else {
                Some(name.clone())
            }
        },
        _ => None,
    }
}

} // verus!
