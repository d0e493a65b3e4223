//! The counting behind a download's progress reports: bytes received in all
//! and since the last report, when a report is due, and when a download has
//! stalled. The caller turns a report into a fraction and a speed.

use vstd::prelude::*;

verus! {

/// How long a report period lasts at least, in milliseconds.
pub const REPORT_INTERVAL_MS: u64 = 250;

/// How long without a chunk counts as a stalled download, in milliseconds.
pub const STALL_TIMEOUT_MS: u64 = 10_000;

/// Bytes received in all, and since the current report period began.
pub struct DownloadMeter {
    pub downloaded: u64,
    pub downloaded_since_last: u64,
}

/// What a progress report is computed from: bytes received, the total size,
/// and the bytes received in the period that ends.
#[derive(Debug, Clone, Copy, PartialEq, Eq, Structural)]
pub struct ProgressSample {
    pub downloaded: u64,
    pub total: u64,
    pub since_last: u64,
}

/// What a chunk brings about.
#[derive(Debug, Clone, Copy, PartialEq, Eq, Structural)]
pub enum ChunkOutcome {
    /// The report period goes on.
    Continue,
    /// The period ended: start a new one, and report the sample, if there is one
    /// (there is none where the total size is unknown).
    PeriodEnded(Option<ProgressSample>),
}

impl DownloadMeter {
    /// Nothing received yet.
    pub fn new() -> (r: DownloadMeter)
        ensures
            r.downloaded == 0,
            r.downloaded_since_last == 0,
    {
        DownloadMeter { downloaded: 0, downloaded_since_last: 0 }
    }

    /// A chunk of `len` bytes arrived, `elapsed_ms` after the current report
    /// period began. Once the period has lasted `REPORT_INTERVAL_MS`, it ends:
    /// the count since its start restarts, and where the total size is known a
    /// sample is handed back.
    pub fn on_chunk(&mut self, len: u64, elapsed_ms: u64, content_length: Option<u64>) -> (r:
        ChunkOutcome)
        requires
            old(self).downloaded + len <= u64::MAX,
            old(self).downloaded_since_last + len <= u64::MAX,
        ensures
            final(self).downloaded == old(self).downloaded + len,
            elapsed_ms < REPORT_INTERVAL_MS ==> {
                &&& r == ChunkOutcome::Continue
                &&& final(self).downloaded_since_last == old(self).downloaded_since_last + len
            },
            elapsed_ms >= REPORT_INTERVAL_MS ==> {
                &&& final(self).downloaded_since_last == 0
                &&& r == ChunkOutcome::PeriodEnded(
                    match content_length {
                        Some(total) => Some(
                            ProgressSample {
                                downloaded: (old(self).downloaded + len) as u64,
                                total,
                                since_last: (old(self).downloaded_since_last + len) as u64,
                            },
                        ),
                        None => None,
                    },
                )
            },
    {
        self.downloaded = self.downloaded + len;
        self.downloaded_since_last = self.downloaded_since_last + len;
        if elapsed_ms < REPORT_INTERVAL_MS {
            return ChunkOutcome::Continue;
        }
        let sample = match content_length {
            Some(total) => Some(
                ProgressSample {
                    downloaded: self.downloaded,
                    total,
                    since_last: self.downloaded_since_last,
                },
            ),
            None => None,
        };
        self.downloaded_since_last = 0;
        ChunkOutcome::PeriodEnded(sample)
    }
}

/// Whether a download has stalled: no chunk for `STALL_TIMEOUT_MS`.
pub fn stalled(since_last_chunk_ms: u64) -> (r: bool)
    ensures
        r == (since_last_chunk_ms >= STALL_TIMEOUT_MS),
{
    since_last_chunk_ms >= STALL_TIMEOUT_MS
}

} // verus!
