//! Where a downloaded application update is stored, and how it is installed.
use vstd::prelude::*;
use crate::text::{chars_of, string_of, same_text};

verus! {

/// The part of `s` after its last `/` (all of it when there is none).
pub open spec fn after_last_slash(s: Seq<char>) -> Seq<char>
    decreases s.len(),
{
    if s.len() == 0 {
        s
    } else if s.last() == '/' {
        Seq::empty()
    } else {
        after_last_slash(s.drop_last()).push(s.last())
    }
}

/// The file name an update is saved under: the last segment of its URL.
pub fn update_file_name(url: &str) -> (r: String)
    ensures
        r@ == after_last_slash(url@),
{
    let cs = chars_of(url);
    let mut out: Vec<char> = Vec::new();
    let mut i: usize = 0;
    while i < cs.len()
        invariant
            cs@ == url@,
            i <= cs.len(),
            out@ == after_last_slash(cs@.take(i as int)),
        decreases cs.len() - i,
    {
        assert(cs@.take(i as int + 1).drop_last() =~= cs@.take(i as int));
        if cs[i] == '/' {
            out = Vec::new();
        } else {
            out.push(cs[i]);
        }
        i = i + 1;
    }
    assert(cs@.take(cs.len() as int) =~= cs@);
    string_of(&out)
}

/// The extension of a file name: what follows its last `.`, unless that dot
/// is the first character or there is none.
pub open spec fn extension_of(name: Seq<char>) -> Option<Seq<char>> {
    if exists|k: int| 0 < k < name.len() && name[k] == '.' {
        let k = choose|k: int|
            0 < k < name.len() && name[k] == '.' && forall|j: int| k < j < name.len() ==> name[j] != '.';
        Some(name.subrange(k + 1, name.len() as int))
    } else {
        None
    }
}

/// How a downloaded update is installed on a desktop without an installer program.
#[derive(Clone, Copy, Debug, PartialEq, Eq)]
pub enum InstallPlan {
    /// Install the package through the system package manager.
    InstallPackage,
    /// Mark the image executable and start it.
    RunImage,
    /// Show the downloaded file's folder to the user.
    OpenFolder,
}

pub open spec fn install_plan_of(name: Seq<char>) -> InstallPlan {
    if extension_of(name) == Some("rpm"@) {
        InstallPlan::InstallPackage
    } else if extension_of(name) == Some("AppImage"@) {
        InstallPlan::RunImage
    } else {
        InstallPlan::OpenFolder
    }
}

fn last_dot(cs: &Vec<char>) -> (r: Option<usize>)
    ensures
        match r {
            Some(k) => 0 < k < cs@.len() && cs@[k as int] == '.' && forall|j: int|
                k < j < cs@.len() ==> cs@[j] != '.',
            None => !exists|k: int| 0 < k < cs@.len() && cs@[k] == '.',
        },
{
    let mut i: usize = cs.len();
    while i > 1
        invariant
            i <= cs.len(),
            forall|j: int| i <= j < cs@.len() ==> cs@[j] != '.',
        decreases i,
    {
        if cs[i - 1] == '.' {
            return Some(i - 1);
        }
        i = i - 1;
    }
    proof {
        assert forall|k: int| 0 < k < cs@.len() implies cs@[k] != '.' by {
            assert(k >= i);
        }
    }
    None
}

/// The extension of a file name, as `extension_of` states it.
pub fn file_extension(name: &str) -> (r: Option<String>)
    ensures
        match r {
            Some(e) => extension_of(name@) == Some(e@),
            None => extension_of(name@).is_none(),
        },
{
    let cs = chars_of(name);
    match last_dot(&cs) {
        None => None,
        Some(k) => {
            assert(cs@.len() == cs.len());
            let mut out: Vec<char> = Vec::new();
            let mut i: usize = k + 1;
            while i < cs.len()
                invariant
                    k < cs.len(),
                    k + 1 <= i <= cs.len(),
                    out@ == cs@.subrange(k + 1, i as int),
                decreases cs.len() - i,
            {
                out.push(cs[i]);
                assert(out@ =~= cs@.subrange(k + 1, i as int + 1));
                i = i + 1;
            }
            proof {
                let c = choose|c: int|
                    0 < c < cs@.len() && cs@[c] == '.' && forall|j: int| c < j < cs@.len() ==> cs@[j] != '.';
                if c < k {
                    assert(cs@[k as int] != '.');
                } else if k < c {
                    assert(cs@[c] != '.');
                }
            }
            Some(string_of(&out))
        },
    }
}

/// Chooses how to install a downloaded update from its file name.
pub fn install_plan(file_name: &str) -> (r: InstallPlan)
    ensures
        r == install_plan_of(file_name@),
{
    match file_extension(file_name) {
        Some(e) => {
            if same_text(e.as_str(), "rpm") {
                InstallPlan::InstallPackage
            } else if same_text(e.as_str(), "AppImage") {
                InstallPlan::RunImage
            } else {
                InstallPlan::OpenFolder
            }
        },
        None => InstallPlan::OpenFolder,
    }
}

} // verus!
