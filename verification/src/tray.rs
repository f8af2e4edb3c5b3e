//! Tray icon selection: choosing the icon file of the system-tray entry from
//! a custom path and the well-known installation locations. The caller
//! probes the filesystem and hands in which paths exist; decoding the image
//! stays with the shell.

use vstd::prelude::*;

use crate::LauncherError;

verus! {

/// The tray icon's chosen file.
pub struct TrayIcon {
    icon_path: String,
}

/// Index of the first candidate marked as existing, or `-1`.
pub open spec fn first_existing(candidates: Seq<(Seq<char>, bool)>) -> int
    decreases candidates.len(),
{
    if candidates.len() == 0 {
        -1
    } else if candidates[0].1 {
        0
    } else {
        let r = first_existing(candidates.drop_first());
        if r < 0 {
            -1
        } else {
            r + 1
        }
    }
}

/// The candidate views of a probed path list.
pub open spec fn candidate_views(cs: Seq<(String, bool)>) -> Seq<(Seq<char>, bool)> {
    cs.map_values(|c: (String, bool)| (c.0@, c.1))
}

pub proof fn lemma_first_existing_characterization(candidates: Seq<(Seq<char>, bool)>)
    ensures
        first_existing(candidates) == -1 ==> forall|i: int|
            0 <= i < candidates.len() ==> !(#[trigger] candidates[i]).1,
        first_existing(candidates) != -1 ==> {
            let f = first_existing(candidates);
            &&& 0 <= f < candidates.len()
            &&& candidates[f].1
            &&& forall|i: int| 0 <= i < f ==> !(#[trigger] candidates[i]).1
        },
    decreases candidates.len(),
{
    if candidates.len() > 0 && !candidates[0].1 {
        lemma_first_existing_characterization(candidates.drop_first());
        assert(forall|i: int|
            1 <= i < candidates.len() ==> candidates[i] == candidates.drop_first()[i - 1]);
    }
}

/// The well-known locations where the launcher's icon is installed, probed
/// in this order.
pub fn default_icon_candidates() -> (r: Vec<String>)
    ensures
        r@.len() == 5,
        r@[0]@ == "/usr/share/icons/hicolor/256x256/apps/faugus-launcher.png"@,
        r@[1]@ == "/usr/share/pixmaps/faugus-launcher.png"@,
        r@[2]@ == "/usr/local/share/icons/hicolor/256x256/apps/faugus-launcher.png"@,
        r@[3]@ == "assets/faugus-launcher.png"@,
        r@[4]@ == "../assets/faugus-launcher.png"@,
{
    let mut v: Vec<String> = Vec::new();
    v.push(String::from_str("/usr/share/icons/hicolor/256x256/apps/faugus-launcher.png"));
    v.push(String::from_str("/usr/share/pixmaps/faugus-launcher.png"));
    v.push(String::from_str("/usr/local/share/icons/hicolor/256x256/apps/faugus-launcher.png"));
    v.push(String::from_str("assets/faugus-launcher.png"));
    v.push(String::from_str("../assets/faugus-launcher.png"));
    v
}

impl TrayIcon {
    /// The first icon candidate that exists on disk, or an error when none
    /// does. The caller probes each path and hands in the results.
    pub fn find_default_icon(candidates: &Vec<(String, bool)>) -> (r: Result<
        String,
        LauncherError,
    >)
        ensures
            ({
                let f = first_existing(candidate_views(candidates@));
                match r {
                    Ok(p) => f >= 0 && p@ == candidate_views(candidates@)[f].0,
                    Err(e) => f == -1 && e == LauncherError::IconNotFound,
                }
            }),
    {
        proof {
            lemma_first_existing_characterization(candidate_views(candidates@));
        }
        let n = candidates.len();
        let mut i: usize = 0;
        while i < n
            invariant
                n == candidates@.len(),
                forall|j: int| 0 <= j < i ==> !(#[trigger] candidate_views(candidates@)[j]).1,
            decreases n - i,
        {
            if candidates[i].1 {
                proof {
                    assert(candidate_views(candidates@)[i as int].1);
                    lemma_first_existing_characterization(candidate_views(candidates@));
                }
                return Ok(candidates[i].0.clone());
            }
            proof {
                assert(candidate_views(candidates@)[i as int] == (
                    candidates@[i as int].0@,
                    candidates@[i as int].1,
                ));
            }
            i = i + 1;
        }
        proof {
            lemma_first_existing_characterization(candidate_views(candidates@));
        }
        Err(LauncherError::IconNotFound)
    }

    /// Choose the tray icon: a custom path that exists on disk wins;
    /// otherwise the first existing default candidate; otherwise an error.
    pub fn new(custom_path: Option<String>, custom_exists: bool, candidates: &Vec<(
        String,
        bool,
    )>) -> (r: Result<TrayIcon, LauncherError>)
        ensures
            ({
                let f = first_existing(candidate_views(candidates@));
                match r {
                    Ok(t) => if custom_path is Some && custom_exists {
                        t.spec_path() == custom_path->Some_0@
                    } else {
                        f >= 0 && t.spec_path() == candidate_views(candidates@)[f].0
                    },
                    Err(e) => {
                        &&& !(custom_path is Some && custom_exists)
                        &&& f == -1
                        &&& e == LauncherError::IconNotFound
                    },
                }
            }),
    {
        if custom_exists {
            if let Some(path) = custom_path {
                return Ok(TrayIcon { icon_path: path });
            }
        }
        match Self::find_default_icon(candidates) {
            Ok(path) => Ok(TrayIcon { icon_path: path }),
            Err(e) => Err(e),
        }
    }

    /// The chosen icon file.
    pub fn path(&self) -> (r: &String)
        ensures
            r@ == self.spec_path(),
    {
        &self.icon_path
    }

    /// The chosen icon file's path, as this type's view.
    pub closed spec fn spec_path(&self) -> Seq<char> {
        self.icon_path@
    }
}

} // verus!
