//! How far a launch has come, as the launcher's progress bar shows it.

use vstd::prelude::*;
use crate::utils::text::push_str;

verus! {

/// The progress through `idx` whole steps of a hundred each, and `curr` of `max` of the next.
pub open spec fn progress_spec(idx: nat, curr: nat, max: nat) -> nat {
    idx * 100 + (curr * 100) / (if max > 1 { max } else { 1 })
}

/// The progress of step `idx`, with `curr` of `max` done; a `max` of zero counts as one.
pub fn get_progress(idx: usize, curr: u64, max: u64) -> (r: u64)
    requires
        curr * 100 <= u64::MAX,
        progress_spec(idx as nat, curr as nat, max as nat) <= u64::MAX,
    ensures
        r == progress_spec(idx as nat, curr as nat, max as nat),
{
    let divisor: u64 = if max > 1 { max } else { 1 };
    let part: u64 = curr * 100 / divisor;
    assert(part <= curr * 100) by (nonlinear_arith)
        requires
            divisor >= 1,
            part as int == (curr * 100) as int / divisor as int,
    ;
    let steps: u64 = idx as u64 * 100;
    steps + part
}

/// A step done in full is where the next one begins.
pub proof fn law_a_full_step_reaches_the_next(idx: nat, max: nat)
    requires
        max > 0,
    ensures
        progress_spec(idx, max, max) == progress_spec(idx + 1, 0, max),
{
    let d: nat = if max > 1 { max } else { 1 };
    assert(d == max);
    assert((max * 100) / d == 100) by (nonlinear_arith)
        requires
            d == max,
            max > 0,
    ;
    assert((0nat * 100) / d == 0) by (nonlinear_arith)
        requires
            d > 0,
    ;
}

/// The progress of `len` steps done.
pub fn get_max(len: usize) -> (r: u64)
    requires
        len * 100 <= u64::MAX,
    ensures
        r == len * 100,
{
    len as u64 * 100
}

/// The steps of a launch, in the order they run.
#[derive(Debug)]
pub enum ProgressUpdateSteps {
    DownloadLiquidBounceMods,
    DownloadJRE,
    DownloadClientJar,
    DownloadLibraries,
    DownloadAssets,
}

/// How much of the bar each step takes.
pub const PER_STEP: u64 = 1024;

impl ProgressUpdateSteps {
    /// How many steps there are.
    pub fn len() -> (r: usize)
        ensures
            r == 5,
    {
        5
    }

    /// The position of a step, from zero.
    pub open spec fn idx_spec(&self) -> nat {
        match self {
            ProgressUpdateSteps::DownloadLiquidBounceMods => 0,
            ProgressUpdateSteps::DownloadJRE => 1,
            ProgressUpdateSteps::DownloadClientJar => 2,
            ProgressUpdateSteps::DownloadLibraries => 3,
            ProgressUpdateSteps::DownloadAssets => 4,
        }
    }

    pub fn step_idx(&self) -> (r: usize)
        ensures
            r == self.idx_spec(),
            r < 5,
    {
        match self {
            ProgressUpdateSteps::DownloadLiquidBounceMods => 0,
            ProgressUpdateSteps::DownloadJRE => 1,
            ProgressUpdateSteps::DownloadClientJar => 2,
            ProgressUpdateSteps::DownloadLibraries => 3,
            ProgressUpdateSteps::DownloadAssets => 4,
        }
    }
}

/// What the launcher tells its progress bar.
#[derive(Debug, Clone)]
pub enum ProgressUpdate {
    SetMax(u64),
    SetProgress(u64),
    SetLabel(String),
    /// Bytes per second, while the launcher downloads an update of itself.
    SetDownloadSpeed(u64),
}

impl ProgressUpdate {
    /// `progress` of `max` done in `step`: the steps before it in full, and its share of one.
    pub fn set_for_step(step: ProgressUpdateSteps, progress: u64, max: u64) -> (r: Self)
        requires
            max > 0,
            progress * 1024 <= u64::MAX,
            step.idx_spec() * 1024 + (progress * 1024) / (max as int) <= u64::MAX,
        ensures
            r == ProgressUpdate::SetProgress(
                (step.idx_spec() * 1024 + (progress * 1024) / (max as int)) as u64,
            ),
    {
        let idx = step.step_idx();
        let share: u64 = progress * PER_STEP / max;
        assert(share <= progress * 1024) by (nonlinear_arith)
            requires
                max >= 1,
                share as int == (progress * 1024) as int / max as int,
        ;
        ProgressUpdate::SetProgress(idx as u64 * PER_STEP + share)
    }

    /// Every step done.
    pub fn set_to_max() -> (r: Self)
        ensures
            r == ProgressUpdate::SetProgress(5120u64),
    {
        ProgressUpdate::SetProgress(ProgressUpdateSteps::len() as u64 * PER_STEP)
    }

    /// The whole of the bar.
    pub fn set_max() -> (r: Self)
        ensures
            r == ProgressUpdate::SetMax(5120u64),
    {
        let max = ProgressUpdateSteps::len() as u64;
        ProgressUpdate::SetMax(max * PER_STEP)
    }

    /// The line shown above the bar.
    pub fn set_label(label: &str) -> (r: Self)
        ensures
            r matches ProgressUpdate::SetLabel(s) && s@ == label@,
    {
        let mut s = String::new();
        push_str(&mut s, label);
        ProgressUpdate::SetLabel(s)
    }
}

/// Where the bar stands while a file of `step` downloads, `downloaded` of `total` bytes: the
/// share done, in hundredths, taken as progress through the step.
pub fn download_progress(step: ProgressUpdateSteps, downloaded: u64, total: u64) -> (r: ProgressUpdate)
    requires
        progress_spec(0, downloaded as nat, total as nat) * 1024 <= u64::MAX,
        downloaded * 100 <= u64::MAX,
    ensures
        r == ProgressUpdate::SetProgress(
            (step.idx_spec() * 1024 + (progress_spec(0, downloaded as nat, total as nat) * 1024) / 100) as u64,
        ),
{
    let progress = get_progress(0, downloaded, total);
    let max = get_max(1);
    assert((progress as nat * 1024) / 100 <= progress as nat * 1024) by (nonlinear_arith);
    ProgressUpdate::set_for_step(step, progress, max)
}

/// Where a launch reports its progress and its log.
pub trait ProgressReceiver {
    fn progress_update(&self, update: ProgressUpdate);

    fn log(&self, msg: &str);
}

} // verus!
