//! The progress of checking a version's asset objects, which the launcher downloads many at a
//! time: the bar moves only when an object had to be downloaded.

use vstd::prelude::*;
use crate::minecraft::progress::{ProgressUpdate, ProgressUpdateSteps};

verus! {

/// The progress bar's value with `done` of `max` asset objects checked.
pub open spec fn assets_progress(done: nat, max: nat) -> nat {
    4 * 1024 + (done * 1024) / max
}

/// How many of a version's asset objects were checked, of how many.
pub struct AssetTally {
    checked: u64,
    max: u64,
}

impl AssetTally {
    pub closed spec fn checked_spec(&self) -> nat {
        self.checked as nat
    }

    pub closed spec fn max_spec(&self) -> nat {
        self.max as nat
    }

    /// None of `max` objects checked yet.
    pub fn new(max: u64) -> (r: Self)
        ensures
            r.checked_spec() == 0,
            r.max_spec() == max,
    {
        AssetTally { checked: 0, max }
    }

    /// Where the bar starts for the assets.
    pub fn start(&self) -> (r: ProgressUpdate)
        requires
            self.max_spec() > 0,
        ensures
            r == ProgressUpdate::SetProgress(assets_progress(0, self.max_spec()) as u64),
    {
        ProgressUpdate::set_for_step(ProgressUpdateSteps::DownloadAssets, 0, self.max)
    }

    /// One more object checked. The bar moves only where it was downloaded, and then to the
    /// count of those checked before it, as the count is taken before it is raised.
    pub fn checked(&mut self, downloaded: bool) -> (r: Option<ProgressUpdate>)
        requires
            old(self).checked_spec() < old(self).max_spec(),
            old(self).max_spec() * 1024 <= u64::MAX,
        ensures
            final(self).checked_spec() == old(self).checked_spec() + 1,
            final(self).max_spec() == old(self).max_spec(),
            downloaded ==> r == Some(ProgressUpdate::SetProgress(
                assets_progress(old(self).checked_spec(), old(self).max_spec()) as u64,
            )),
            !downloaded ==> r is None,
    {
        let before = self.checked;
        self.checked = self.checked + 1;
        if downloaded {
            proof {
                assert((before as nat * 1024) / (self.max as nat) <= 1024) by (nonlinear_arith)
                    requires
                        before < self.max,
                ;
            }
            Some(ProgressUpdate::set_for_step(ProgressUpdateSteps::DownloadAssets, before, self.max))
        } else {
            None
        }
    }

    /// Where the bar ends for the assets: every object checked.
    pub fn finish(&self) -> (r: ProgressUpdate)
        requires
            self.max_spec() > 0,
            self.max_spec() * 1024 <= u64::MAX,
        ensures
            r == ProgressUpdate::SetProgress(assets_progress(self.max_spec(), self.max_spec()) as u64),
    {
        proof {
            assert((self.max as nat * 1024) / (self.max as nat) == 1024) by (nonlinear_arith)
                requires
                    self.max > 0,
            ;
        }
        ProgressUpdate::set_for_step(ProgressUpdateSteps::DownloadAssets, self.max, self.max)
    }
}

} // verus!
