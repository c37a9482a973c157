//! Choosing the installer among the assets of a release.

use vstd::prelude::*;
use crate::text::{chars_of, ends_with, ends_with_exec, lower, lower_chars};

verus! {

/// The outcome of an update check.
#[derive(Debug, Clone)]
pub struct UpdateCheckResult {
    pub current_version: String,
    pub latest_version: Option<String>,
    pub update_available: bool,
    pub installer_url: Option<String>,
}

/// One downloadable file of a release.
#[derive(Debug, Clone)]
pub struct GhAsset {
    pub name: String,
    pub browser_download_url: String,
}

pub open spec fn setup_exe() -> Seq<char> {
    seq!['s', 'e', 't', 'u', 'p', '.', 'e', 'x', 'e']
}

pub open spec fn msi_ext() -> Seq<char> {
    seq!['.', 'm', 's', 'i']
}

pub open spec fn name_ends(a: GhAsset, suffix: Seq<char>) -> bool {
    ends_with(lower(a.name@), suffix)
}

/// Asset `k` is the first whose name ends with `suffix`, in any case.
pub open spec fn first_with(assets: Seq<GhAsset>, suffix: Seq<char>, k: int) -> bool {
    &&& 0 <= k < assets.len()
    &&& name_ends(assets[k], suffix)
    &&& forall|j: int| 0 <= j < k ==> !name_ends(#[trigger] assets[j], suffix)
}

pub open spec fn none_with(assets: Seq<GhAsset>, suffix: Seq<char>) -> bool {
    forall|j: int| 0 <= j < assets.len() ==> !name_ends(#[trigger] assets[j], suffix)
}

fn find_suffix(assets: &Vec<GhAsset>, suffix: &Vec<char>) -> (r: Option<usize>)
    ensures
        r matches Some(k) ==> first_with(assets@, suffix@, k as int),
        r is None ==> none_with(assets@, suffix@),
{
    let mut i: usize = 0;
    while i < assets.len()
        invariant
            i <= assets@.len(),
            forall|j: int| 0 <= j < i ==> !name_ends(#[trigger] assets@[j], suffix@),
        decreases assets@.len() - i,
    {
        let n = lower_chars(chars_of(assets[i].name.as_str()).as_slice());
        if ends_with_exec(n.as_slice(), suffix.as_slice()) {
            return Some(i);
        }
        i += 1;
    }
    None
}

/// The installer to download: the first asset named `...setup.exe`, else the
/// first named `...msi`, names compared in lowercase.
pub fn pick_windows_installer_url(assets: &Vec<GhAsset>) -> (r: Option<String>)
    ensures
        r is None <==> none_with(assets@, setup_exe()) && none_with(assets@, msi_ext()),
        forall|k: int|
            first_with(assets@, setup_exe(), k) ==> r == Some(#[trigger] assets@[k].browser_download_url),
        forall|k: int|
            none_with(assets@, setup_exe()) && first_with(assets@, msi_ext(), k) ==> r == Some(
                #[trigger] assets@[k].browser_download_url,
            ),
{
    let exe: Vec<char> = vec!['s', 'e', 't', 'u', 'p', '.', 'e', 'x', 'e'];
    assert(exe@ =~= setup_exe());
    let msi: Vec<char> = vec!['.', 'm', 's', 'i'];
    assert(msi@ =~= msi_ext());
    match find_suffix(assets, &exe) {
        Some(k) => {
            assert forall|j: int| first_with(assets@, setup_exe(), j) implies j == k as int by {
                if j < k {
                } else if j > k {
                }
            }
            Some(assets[k].browser_download_url.clone())
        },
        None => match find_suffix(assets, &msi) {
            Some(k) => {
                assert forall|j: int| first_with(assets@, msi_ext(), j) implies j == k as int by {
                    if j < k {
                    } else if j > k {
                    }
                }
                Some(assets[k].browser_download_url.clone())
            },
            None => None,
        },
    }
}

} // verus!
