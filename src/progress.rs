//! Progress notifications of a job, as handed to the event sink.
use vstd::prelude::*;

verus! {

/// The phase a notification belongs to.
#[derive(Debug, Clone, Copy, PartialEq, Eq, Structural)]
pub enum Phase {
    Download,
    Extract,
}

/// A share of work done: `part` out of `whole`. As a percentage it reads
/// `part / whole * 100`.
#[derive(Debug, Clone, Copy, PartialEq, Eq, Structural)]
pub struct Ratio {
    pub part: u64,
    pub whole: u64,
}

/// One progress notification. Download notifications carry the byte counters,
/// extraction notifications the entry counters and a message.
#[derive(Debug, Clone)]
pub struct ProgressPayload {
    pub phase: Phase,
    pub downloaded: Option<u64>,
    pub total: Option<u64>,
    pub percent: Option<Ratio>,
    pub current: Option<u64>,
    pub count: Option<u64>,
    pub message: Option<String>,
}

/// The notification after `downloaded` bytes, out of `total` when the length
/// of the response is known.
pub fn download_progress(downloaded: u64, total: Option<u64>) -> (r: ProgressPayload)
    ensures
        r.phase == Phase::Download,
        r.downloaded == Some(downloaded),
        r.total == total,
        r.percent == match total {
            Some(t) => Some(Ratio { part: downloaded, whole: t }),
            None => None,
        },
        r.current is None,
        r.count is None,
        r.message is None,
{
    let percent = match total {
        Some(t) => Some(Ratio { part: downloaded, whole: t }),
        None => None,
    };
    ProgressPayload {
        phase: Phase::Download,
        downloaded: Some(downloaded),
        total,
        percent,
        current: None,
        count: None,
        message: None,
    }
}

/// The notification after `processed` of `count` selected entries, the last of
/// them `entry_name`. With no entries selected there is no percentage.
pub fn extract_progress(processed: u64, count: u64, entry_name: &str) -> (r: ProgressPayload)
    ensures
        r.phase == Phase::Extract,
        r.downloaded is None,
        r.total is None,
        r.percent == if count > 0 {
            Some(Ratio { part: processed, whole: count })
        } else {
            None
        },
        r.current == Some(processed),
        r.count == Some(count),
        r.message is Some,
        r.message->Some_0@ == "Extracted "@ + entry_name@,
{
    let percent = if count > 0 {
        Some(Ratio { part: processed, whole: count })
    } else {
        None
    };
    let message = String::from_str("Extracted ").concat(entry_name);
    ProgressPayload {
        phase: Phase::Extract,
        downloaded: None,
        total: None,
        percent,
        current: Some(processed),
        count: Some(count),
        message: Some(message),
    }
}

/// The notification that the archive tool has started; it reports no counters.
pub fn tool_extract_progress() -> (r: ProgressPayload)
    ensures
        r.phase == Phase::Extract,
        r.downloaded is None,
        r.total is None,
        r.percent is None,
        r.current is None,
        r.count is None,
        r.message is None,
{
    ProgressPayload {
        phase: Phase::Extract,
        downloaded: None,
        total: None,
        percent: None,
        current: None,
        count: None,
        message: None,
    }
}

} // verus!
