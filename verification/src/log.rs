//! What a tracer log says of itself: its digest and the number of its events.

use crate::digest::{feed, finish, hex_string, new_hasher, MAX_MESSAGE_LEN};
use crate::receipt::TracerInfo;
use crate::text::is_blank;
use vstd::prelude::*;

verus! {

/// `count` and the event that `line` may hold. A count that has reached the largest `u64` stays
/// there.
pub open spec fn counted(count: u64, line: Seq<char>) -> u64 {
    if crate::text::blank(line) || count == u64::MAX {
        count
    } else {
        (count + 1) as u64
    }
}

/// The scan of a log that is read piece by piece, so that a large log need not be held in memory:
/// its bytes are fed to [`hash_chunk`](LogScan::hash_chunk) in order, and its lines to
/// [`count_line`](LogScan::count_line).
pub struct LogScan {
    hasher: sha2::Sha256,
    hashed_len: u64,
    event_count: u64,
}

impl LogScan {
    /// The bytes that have been hashed.
    pub closed spec fn hashed(&self) -> Seq<u8> {
        crate::digest::hashed_bytes(self.hasher)
    }

    /// The number of events that have been counted.
    pub closed spec fn counted(&self) -> u64 {
        self.event_count
    }

    /// The length that is kept beside the hasher is that of what was hashed, and a digest exists
    /// for it.
    pub closed spec fn well_formed(&self) -> bool {
        self.hashed_len == self.hashed().len() && self.hashed_len <= MAX_MESSAGE_LEN
    }

    /// A scan that has seen nothing.
    #[must_use]
    pub fn new() -> (scan: Self)
        ensures
            scan.well_formed(),
            scan.hashed() == Seq::<u8>::empty(),
            scan.counted() == 0,
    {
        LogScan { hasher: new_hasher(), hashed_len: 0, event_count: 0 }
    }

    /// The number of bytes that can still be hashed.
    #[must_use]
    pub fn room(&self) -> (room: u64)
        requires
            self.well_formed(),
        ensures
            room == MAX_MESSAGE_LEN - self.hashed().len(),
    {
        MAX_MESSAGE_LEN - self.hashed_len
    }

    /// Hashes the bytes of the log that follow those hashed so far.
    pub fn hash_chunk(&mut self, chunk: &[u8])
        requires
            old(self).well_formed(),
            old(self).hashed().len() + chunk@.len() <= MAX_MESSAGE_LEN,
        ensures
            final(self).well_formed(),
            final(self).hashed() == old(self).hashed() + chunk@,
            final(self).counted() == old(self).counted(),
    {
        feed(&mut self.hasher, chunk);
        self.hashed_len = self.hashed_len + chunk.len() as u64;
    }

    /// Counts `line`, unless it is blank.
    pub fn count_line(&mut self, line: &str)
        requires
            old(self).well_formed(),
        ensures
            final(self).well_formed(),
            final(self).hashed() == old(self).hashed(),
            final(self).counted() == counted(old(self).counted(), line@),
    {
        if !is_blank(line) {
            self.event_count = self.event_count.saturating_add(1);
        }
    }

    /// What the scan says of the log at `log_path`. The tracer's version and root PID are left
    /// unset for the caller to fill in.
    #[must_use]
    pub fn finish(self, log_path: String) -> (info: TracerInfo)
        requires
            self.well_formed(),
        ensures
            info.tool@ == "ctrace"@,
            info.version == None::<String>,
            info.root_pid == None::<u32>,
            info.log_sha256@ == crate::digest::hex(crate::digest::sha256(self.hashed())),
            info.log_sha256@.len() == 64,
            info.log_path == log_path,
            info.event_count == self.counted(),
    {
        TracerInfo {
            tool: "ctrace".to_string(),
            version: None,
            root_pid: None,
            log_sha256: hex_string(&finish(self.hasher)),
            log_path,
            event_count: self.event_count,
        }
    }
}

} // verus!
