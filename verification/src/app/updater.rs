//! Updating the launcher itself: what it reports while the update downloads.

use vstd::prelude::*;
use crate::minecraft::progress::ProgressUpdate;
use crate::utils::text::push_str;

verus! {

/// How often the download reports its progress, in milliseconds.
pub const REPORT_INTERVAL_MILLIS: u64 = 250;

/// The progress of the download of an update, as its chunks come in.
pub struct UpdateDownload {
    downloaded: u64,
    max_reported: bool,
    /// When progress was last reported, in milliseconds on the launcher's clock.
    tick: u64,
    tick_bytes: u64,
    logged_percent: u64,
}

/// What a chunk of the download makes the launcher report: the size of the update once it is
/// known, then, at most every quarter second, the bytes downloaded and the speed; and the
/// percentage to log, at every ten more.
pub struct ChunkReport {
    pub updates: Vec<ProgressUpdate>,
    pub log_percent: Option<u64>,
}

impl UpdateDownload {
    pub closed spec fn downloaded_spec(&self) -> u64 {
        self.downloaded
    }

    pub closed spec fn max_reported_spec(&self) -> bool {
        self.max_reported
    }

    pub closed spec fn tick_spec(&self) -> u64 {
        self.tick
    }

    pub closed spec fn tick_bytes_spec(&self) -> u64 {
        self.tick_bytes
    }

    pub closed spec fn logged_percent_spec(&self) -> u64 {
        self.logged_percent
    }

    /// A download that starts at `now`, in milliseconds.
    pub fn new(now: u64) -> (r: Self)
        ensures
            r.downloaded_spec() == 0,
            !r.max_reported_spec(),
            r.tick_spec() == now,
            r.tick_bytes_spec() == 0,
            r.logged_percent_spec() == 0,
    {
        UpdateDownload { downloaded: 0, max_reported: false, tick: now, tick_bytes: 0, logged_percent: 0 }
    }

    /// A chunk of `chunk_length` bytes came in at `now`, of `content_length` in all when known.
    pub fn on_chunk(&mut self, chunk_length: u64, content_length: Option<u64>, now: u64) -> (r: ChunkReport)
        requires
            old(self).tick_spec() <= now,
            old(self).tick_bytes_spec() <= old(self).downloaded_spec(),
            old(self).logged_percent_spec() <= old(self).downloaded_spec() * 100,
            old(self).downloaded_spec() + chunk_length <= u64::MAX / 1000,
        ensures
            final(self).logged_percent_spec() <= final(self).downloaded_spec() * 100,
            final(self).tick_spec() <= now,
            final(self).downloaded_spec() == old(self).downloaded_spec() + chunk_length,
            final(self).max_reported_spec() == (old(self).max_reported_spec() || content_length is Some),
            final(self).tick_bytes_spec() <= final(self).downloaded_spec(),
            ({
                let downloaded = final(self).downloaded_spec();
                let max = if !old(self).max_reported_spec() && content_length is Some {
                    seq![ProgressUpdate::SetMax(content_length->0)]
                } else {
                    Seq::empty()
                };
                let elapsed = now - old(self).tick_spec();
                if elapsed < 250 {
                    &&& r.updates@ == max
                    &&& r.log_percent is None
                    &&& final(self).tick_spec() == old(self).tick_spec()
                    &&& final(self).tick_bytes_spec() == old(self).tick_bytes_spec()
                    &&& final(self).logged_percent_spec() == old(self).logged_percent_spec()
                } else {
                    let speed = ((downloaded - old(self).tick_bytes_spec()) * 1000 / elapsed) as u64;
                    &&& r.updates@ == max + seq![ProgressUpdate::SetProgress(downloaded), ProgressUpdate::SetDownloadSpeed(speed)]
                    &&& final(self).tick_spec() == now
                    &&& final(self).tick_bytes_spec() == downloaded
                    &&& match content_length {
                        Some(total) => if total > 0 && downloaded * 100 / (total as int)
                            >= old(self).logged_percent_spec() + 10 {
                            &&& r.log_percent == Some((downloaded * 100 / (total as int)) as u64)
                            &&& final(self).logged_percent_spec() == downloaded * 100 / (total as int)
                        } else {
                            &&& r.log_percent is None
                            &&& final(self).logged_percent_spec() == old(self).logged_percent_spec()
                        },
                        None => {
                            &&& r.log_percent is None
                            &&& final(self).logged_percent_spec() == old(self).logged_percent_spec()
                        },
                    }
                }
            }),
    {
        self.downloaded = self.downloaded + chunk_length;
        let mut updates: Vec<ProgressUpdate> = Vec::new();
        if !self.max_reported {
            if let Some(total) = content_length {
                self.max_reported = true;
                updates.push(ProgressUpdate::SetMax(total));
            }
        }
        let elapsed = now - self.tick;
        if elapsed < REPORT_INTERVAL_MILLIS {
            return ChunkReport { updates, log_percent: None };
        }
        let moved = self.downloaded - self.tick_bytes;
        assert(moved * 1000 <= u64::MAX) by (nonlinear_arith)
            requires
                moved <= self.downloaded,
                self.downloaded <= u64::MAX / 1000,
        ;
        let speed = moved * 1000 / elapsed;
        self.tick = now;
        self.tick_bytes = self.downloaded;
        updates.push(ProgressUpdate::SetProgress(self.downloaded));
        updates.push(ProgressUpdate::SetDownloadSpeed(speed));
        let mut log_percent: Option<u64> = None;
        if let Some(total) = content_length {
            if total > 0 {
                assert(self.downloaded * 100 <= u64::MAX) by (nonlinear_arith)
                    requires
                        self.downloaded <= u64::MAX / 1000,
                ;
                let percent = self.downloaded * 100 / total;
                let scaled = self.downloaded * 100;
                assert(percent <= scaled) by (nonlinear_arith)
                    requires
                        total > 0,
                        percent as int == scaled as int / total as int,
                ;
                if percent >= self.logged_percent + 10 {
                    self.logged_percent = percent;
                    log_percent = Some(percent);
                }
            }
        }
        ChunkReport { updates, log_percent }
    }
}

/// The label while an update downloads.
pub fn updating_label(version: &str) -> (r: String)
    ensures
        r@ == "Updating launcher to v"@ + version@ + "..."@,
{
    let mut r = String::new();
    push_str(&mut r, "Updating launcher to v");
    push_str(&mut r, version);
    push_str(&mut r, "...");
    r
}

/// What the launcher tells when it could not update itself.
pub fn failure_message(error: &str) -> (r: String)
    ensures
        r@ == "The launcher could not update itself and will try again on the next start.\n\n"@ + error@,
{
    let mut r = String::new();
    push_str(&mut r, "The launcher could not update itself and will try again on the next start.\n\n");
    push_str(&mut r, error);
    r
}

} // verus!
