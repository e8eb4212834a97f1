//! Rate/usage ledger: append-only usage records and window aggregation.
//!
//! One ledger serves every credential class. Records are only ever
//! appended; admission questions are answered by counting records in a
//! sliding window whose start moves continuously with the current time
//! (now minus the window length), not a calendar bucket.

use vstd::prelude::*;

verus! {

/// One usage record, owned by the credential it names.
pub struct UsageRecord {
    /// Id of the API key, admin token or A2A client that made the call.
    pub credential_id: Vec<u8>,
    /// Unix milliseconds.
    pub timestamp: u64,
    pub tool_name: Vec<u8>,
    pub status_code: u16,
    pub response_time_ms: Option<u32>,
    pub request_size_bytes: Option<u32>,
    pub response_size_bytes: Option<u32>,
}

/// Aggregates over one credential's records in a period, computed in a
/// single pass. Success is a status in [200,300); failure is >= 400.
pub struct UsageStats {
    pub total_requests: u64,
    pub successful_requests: u64,
    pub failed_requests: u64,
    pub total_response_time_ms: u64,
    pub total_request_bytes: u64,
    pub total_response_bytes: u64,
}

impl UsageStats {
    /// Mean response time over the period, in whole milliseconds;
    /// zero when nothing was recorded.
    pub fn average_response_time_ms(&self) -> (r: u64)
        ensures
            r == (if self.total_requests == 0 {
                0u64
            } else {
                (self.total_response_time_ms / self.total_requests) as u64
            }),
    {
        if self.total_requests == 0 {
            0
        } else {
            self.total_response_time_ms / self.total_requests
        }
    }
}

/// The append-only usage ledger.
pub struct UsageLedger {
    pub records: Vec<UsageRecord>,
}

/// Where the sliding window starts: `now` minus the window length,
/// clamped at the epoch.
pub open spec fn window_start(now: u64, window: u64) -> int {
    if window > now {
        0
    } else {
        now - window
    }
}

/// Does a record belong to `id` and fall at or after `start`?
pub open spec fn in_window(r: UsageRecord, id: Seq<u8>, start: int) -> bool {
    r.credential_id@ == id && r.timestamp >= start
}

/// How many records of `s` belong to `id` at or after `start`.
pub open spec fn count_in_window(s: Seq<UsageRecord>, id: Seq<u8>, start: int) -> nat
    decreases s.len(),
{
    if s.len() == 0 {
        0
    } else {
        count_in_window(s.drop_last(), id, start)
            + (if in_window(s.last(), id, start) { 1nat } else { 0nat })
    }
}

/// Does a record belong to `id` with `start <= timestamp <= end`?
pub open spec fn in_period(r: UsageRecord, id: Seq<u8>, start: u64, end: u64) -> bool {
    r.credential_id@ == id && start <= r.timestamp <= end
}

pub open spec fn is_success(r: UsageRecord) -> bool {
    200 <= r.status_code < 300
}

pub open spec fn is_failure(r: UsageRecord) -> bool {
    r.status_code >= 400
}

pub open spec fn opt_val(v: Option<u32>) -> nat {
    match v {
        Some(x) => x as nat,
        None => 0,
    }
}

/// The six aggregates over `s` restricted to `id` and the period, as
/// one tuple: total, successful, failed, response time, bytes in,
/// bytes out.
pub open spec fn stats_in_period(s: Seq<UsageRecord>, id: Seq<u8>, start: u64, end: u64) -> (
    nat,
    nat,
    nat,
    nat,
    nat,
    nat,
)
    decreases s.len(),
{
    if s.len() == 0 {
        (0nat, 0nat, 0nat, 0nat, 0nat, 0nat)
    } else {
        let rest = stats_in_period(s.drop_last(), id, start, end);
        let r = s.last();
        if in_period(r, id, start, end) {
            (
                rest.0 + 1,
                rest.1 + (if is_success(r) { 1nat } else { 0nat }),
                rest.2 + (if is_failure(r) { 1nat } else { 0nat }),
                rest.3 + opt_val(r.response_time_ms),
                rest.4 + opt_val(r.request_size_bytes),
                rest.5 + opt_val(r.response_size_bytes),
            )
        } else {
            rest
        }
    }
}

impl UsageLedger {
    /// An empty ledger.
    pub fn new() -> (r: UsageLedger)
        ensures
            r.records@.len() == 0,
    {
        UsageLedger { records: Vec::new() }
    }

    /// Append one record. Appending never rewrites history: the new
    /// sequence is the old one with the record at the end.
    pub fn append(&mut self, r: UsageRecord)
        ensures
            final(self).records@ == old(self).records@.push(r),
    {
        self.records.push(r);
    }

    /// Count the records of `id` inside the sliding window ending now.
    pub fn count_in_window(&self, id: &Vec<u8>, now: u64, window: u64) -> (r: usize)
        ensures
            r == count_in_window(self.records@, id@, window_start(now, window)),
    {
        let ghost start = window_start(now, window);
        let threshold: u64 = if window > now {
            0
        } else {
            now - window
        };
        let n = self.records.len();
        let mut count: usize = 0;
        let mut i: usize = 0;
        assert(self.records@.take(0) =~= Seq::<UsageRecord>::empty());
        while i < n
            invariant
                n == self.records@.len(),
                0 <= i <= n,
                threshold == start,
                count == count_in_window(self.records@.take(i as int), id@, start),
                count <= i,
            decreases n - i,
        {
            let rec = &self.records[i];
            if crate::bytes::ct_eq(rec.credential_id.as_slice(), id.as_slice())
                && rec.timestamp >= threshold {
                count = count + 1;
            }
            proof {
                let t = self.records@.take(i + 1);
                assert(t.drop_last() =~= self.records@.take(i as int));
                assert(t.last() == self.records@[i as int]);
            }
            i = i + 1;
        }
        assert(self.records@.take(n as int) =~= self.records@);
        count
    }

    /// Aggregate `id`'s records with `start <= timestamp <= end` in one
    /// pass.
    pub fn usage_stats(&self, id: &Vec<u8>, start: u64, end: u64) -> (r: UsageStats)
        requires
            self.records@.len() <= u32::MAX,
        ensures
            ({
                let s = stats_in_period(self.records@, id@, start, end);
                &&& r.total_requests == s.0
                &&& r.successful_requests == s.1
                &&& r.failed_requests == s.2
                &&& r.total_response_time_ms == s.3
                &&& r.total_request_bytes == s.4
                &&& r.total_response_bytes == s.5
            }),
    {
        let n = self.records.len();
        let mut total: u64 = 0;
        let mut ok_count: u64 = 0;
        let mut bad_count: u64 = 0;
        let mut time_sum: u64 = 0;
        let mut in_sum: u64 = 0;
        let mut out_sum: u64 = 0;
        let mut i: usize = 0;
        assert(self.records@.take(0) =~= Seq::<UsageRecord>::empty());
        while i < n
            invariant
                n == self.records@.len(),
                n <= u32::MAX,
                0 <= i <= n,
                ({
                    let s = stats_in_period(self.records@.take(i as int), id@, start, end);
                    &&& total == s.0
                    &&& ok_count == s.1
                    &&& bad_count == s.2
                    &&& time_sum == s.3
                    &&& in_sum == s.4
                    &&& out_sum == s.5
                }),
                total <= i,
                ok_count <= i,
                bad_count <= i,
                time_sum <= i * 0xffff_ffffu64,
                in_sum <= i * 0xffff_ffffu64,
                out_sum <= i * 0xffff_ffffu64,
            decreases n - i,
        {
            let rec = &self.records[i];
            if crate::bytes::ct_eq(rec.credential_id.as_slice(), id.as_slice())
                && start <= rec.timestamp && rec.timestamp <= end {
                total = total + 1;
                if 200 <= rec.status_code && rec.status_code < 300 {
                    ok_count = ok_count + 1;
                }
                if rec.status_code >= 400 {
                    bad_count = bad_count + 1;
                }
                match rec.response_time_ms {
                    Some(v) => {
                        time_sum = time_sum + v as u64;
                    },
                    None => {},
                }
                match rec.request_size_bytes {
                    Some(v) => {
                        in_sum = in_sum + v as u64;
                    },
                    None => {},
                }
                match rec.response_size_bytes {
                    Some(v) => {
                        out_sum = out_sum + v as u64;
                    },
                    None => {},
                }
            }
            proof {
                let t = self.records@.take(i + 1);
                assert(t.drop_last() =~= self.records@.take(i as int));
                assert(t.last() == self.records@[i as int]);
            }
            i = i + 1;
        }
        assert(self.records@.take(n as int) =~= self.records@);
        UsageStats {
            total_requests: total,
            successful_requests: ok_count,
            failed_requests: bad_count,
            total_response_time_ms: time_sum,
            total_request_bytes: in_sum,
            total_response_bytes: out_sum,
        }
    }
}

} // verus!
