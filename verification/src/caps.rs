//! The capability prober's decisions: which file name each tool goes by,
//! how a located binary becomes a capability, and which directory of the
//! executable search path wins.  Reading the search path and testing for
//! files are outside work; the selection rule is verified here.
use vstd::prelude::*;
use vstd::string::StringExecFns;

verus! {

/// The path a candidate file would have: `<dir>/<bin>`, with no second
/// separator when the directory already ends in one.
pub open spec fn joined_path(dir: Seq<char>, bin: Seq<char>) -> Seq<char> {
    if dir.len() > 0 && dir.last() == '/' {
        dir + bin
    } else {
        dir + "/"@ + bin
    }
}

/// Search `dirs` — the directories of the executable search path, in
/// order — for a file named `bin`; `present[i]` reports whether
/// `<dirs[i]>/<bin>` exists.  The first present candidate's full path
/// wins; with none present, the tool is absent.  Whether the file is
/// executable is not checked.
pub fn locate_in_dirs(bin: &str, dirs: &Vec<String>, present: &Vec<bool>) -> (r: Option<String>)
    requires
        dirs@.len() == present@.len(),
    ensures
        r matches Some(path) ==> exists|i: int|
            0 <= i < dirs@.len() && present@[i] && path@ == joined_path(
                #[trigger] dirs.deep_view()[i],
                bin@,
            ) && (forall|j: int| 0 <= j < i ==> !present@[j]),
        r is None ==> forall|i: int| 0 <= i < present@.len() ==> !present@[i],
{
    let mut i: usize = 0;
    while i < dirs.len()
        invariant
            i <= dirs@.len(),
            dirs@.len() == present@.len(),
            forall|j: int| 0 <= j < i ==> !present@[j],
        decreases dirs@.len() - i,
    {
        if present[i] {
            let mut path = dirs[i].clone();
            let dir_chars = path.as_str().unicode_len();
            if dir_chars == 0 || path.as_str().get_char(dir_chars - 1) != '/' {
                path.append("/");
            }
            path.append(bin);
            proof {
                assert(path@ == joined_path(dirs.deep_view()[i as int], bin@));
            }
            return Some(path);
        }
        i = i + 1;
    }
    None
}

/// The interface for deciding whether the agent's host offers a tool.
/// Locating the binary happens outside; an implementation says what file
/// name to probe for and how the located file becomes a capability.
pub trait Capability: Sized {
    /// The file name the probe looks for.
    fn binary_name() -> String;

    /// Build the capability from the location the probe found.
    fn from_path(path: String) -> Option<Self>;

    /// What the probe's outcome means: a located binary makes whatever
    /// `from_path` makes of it, absence means the host lacks the tool.
    fn has_capability(located: Option<String>) -> (r: Option<Self>)
        ensures
            located is None ==> r is None,
            located matches Some(p) ==> call_ensures(Self::from_path, (p,), r),
    {
        match located {
            Some(path) => Self::from_path(path),
            None => None,
        }
    }
}

/// The tool `git`.
#[derive(Clone, Debug)]
pub struct Git {
    pub path: String,
    pub data: Option<Vec<(String, String)>>,
}

impl Capability for Git {
    fn binary_name() -> (r: String)
        ensures
            r@ == "git"@,
    {
        String::from_str("git")
    }

    fn from_path(path: String) -> (r: Option<Git>)
        ensures
            r matches Some(c) ==> c.path == path && c.data is None,
            r is Some,
    {
        Some(Git { path, data: None })
    }
}

/// The tool `cargo`.
#[derive(Clone, Debug)]
pub struct Cargo {
    pub path: String,
    pub data: Option<Vec<(String, String)>>,
}

impl Capability for Cargo {
    fn binary_name() -> (r: String)
        ensures
            r@ == "cargo"@,
    {
        String::from_str("cargo")
    }

    fn from_path(path: String) -> (r: Option<Cargo>)
        ensures
            r matches Some(c) ==> c.path == path && c.data is None,
            r is Some,
    {
        Some(Cargo { path, data: None })
    }
}

} // verus!
