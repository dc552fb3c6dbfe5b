//! Storage-side logic: the topic-to-entry-name mapping, label and URL
//! assembly for labeled writes, classification of backend responses, and
//! the retry-with-backoff policy. The network and filesystem calls
//! themselves happen outside the library, which hands them exact strings
//! and decides every retry step here.

use vstd::prelude::*;
use vstd::string::StrSliceExecFns;
use vstd::string::StringExecFns;

use crate::protocol::CompressionType;

verus! {

/// Drops every leading path separator.
pub open spec fn strip_leading_slashes(s: Seq<char>) -> Seq<char>
    decreases s.len(),
{
    if s.len() > 0 && s[0] == '/' {
        strip_leading_slashes(s.drop_first())
    } else {
        s
    }
}

/// One left-to-right pass over a stripped topic: the multi-level wildcard
/// token `**` becomes the literal `all`, and every `/` becomes `_`.
pub open spec fn entry_tail(s: Seq<char>) -> Seq<char>
    decreases s.len(),
{
    if s.len() == 0 {
        Seq::empty()
    } else if s.len() >= 2 && s[0] == '*' && s[1] == '*' {
        seq!['a', 'l', 'l'] + entry_tail(s.skip(2))
    } else {
        seq![if s[0] == '/' {
            '_'
        } else {
            s[0]
        }] + entry_tail(s.skip(1))
    }
}

/// The backend entry name derived from a topic pattern: strip the leading
/// separators, replace each separator with an underscore, and replace the
/// multi-level wildcard token with the literal `all`.
pub open spec fn entry_name_of(topic: Seq<char>) -> Seq<char> {
    entry_tail(strip_leading_slashes(topic))
}

/// Stripping takes exactly the leading run of separators.
proof fn lemma_strip_leading(s: Seq<char>, k: int)
    requires
        0 <= k <= s.len(),
        forall|j: int| 0 <= j < k ==> s[j] == '/',
        k < s.len() ==> s[k] != '/',
    ensures
        strip_leading_slashes(s) == s.skip(k),
    decreases k,
{
    if k == 0 {
        assert(s.skip(0) =~= s);
    } else {
        assert(s[0] == '/');
        lemma_strip_leading(s.drop_first(), k - 1);
        assert(s.drop_first().skip(k - 1) =~= s.skip(k));
    }
}

/// Maps a topic pattern to its backend entry name.
pub fn topic_to_entry_name(topic: &str) -> (r: String)
    ensures
        r@ == entry_name_of(topic@),
{
    let n = topic.unicode_len();
    let mut start: usize = 0;
    while start < n && topic.get_char(start) == '/'
        invariant
            start <= n,
            n == topic@.len(),
            forall|j: int| 0 <= j < start ==> topic@[j] == '/',
        decreases n - start,
    {
        start = start + 1;
    }
    proof {
        lemma_strip_leading(topic@, start as int);
    }
    let mut out = String::new();
    let mut i: usize = start;
    while i < n
        invariant
            start <= i <= n,
            n == topic@.len(),
            strip_leading_slashes(topic@) == topic@.skip(start as int),
            out@ + entry_tail(topic@.skip(i as int)) == entry_tail(topic@.skip(start as int)),
        decreases n - i,
    {
        let ghost rest = topic@.skip(i as int);
        proof {
            assert(rest[0] == topic@[i as int]);
            assert(rest.skip(1) =~= topic@.skip(i + 1));
        }
        let c = topic.get_char(i);
        if c == '*' && i + 1 < n && topic.get_char(i + 1) == '*' {
            proof {
                assert(rest[1] == topic@[i + 1]);
                assert(rest.skip(2) =~= topic@.skip(i + 2));
                reveal_strlit("all");
            }
            out.append("all");
            i = i + 2;
        } else if c == '/' {
            proof {
                reveal_strlit("_");
            }
            out.append("_");
            i = i + 1;
        } else {
            let piece = topic.substring_char(i, i + 1);
            proof {
                assert(piece@ =~= seq![topic@[i as int]]);
            }
            out.append(piece);
            i = i + 1;
        }
        proof {
            assert(out@ + entry_tail(topic@.skip(i as int)) =~= entry_tail(
                topic@.skip(start as int),
            ));
        }
    }
    proof {
        assert(topic@.skip(n as int) =~= Seq::<char>::empty());
        assert(out@ =~= entry_name_of(topic@));
    }
    out
}

/// The character of one decimal digit.
pub open spec fn digit_char(d: nat) -> char {
    if d == 0 {
        '0'
    } else if d == 1 {
        '1'
    } else if d == 2 {
        '2'
    } else if d == 3 {
        '3'
    } else if d == 4 {
        '4'
    } else if d == 5 {
        '5'
    } else if d == 6 {
        '6'
    } else if d == 7 {
        '7'
    } else if d == 8 {
        '8'
    } else {
        '9'
    }
}

/// Decimal digits of `n` as characters, most significant first.
pub open spec fn dec_chars(n: nat) -> Seq<char>
    decreases n,
{
    if n < 10 {
        seq![digit_char(n)]
    } else {
        dec_chars(n / 10) + seq![digit_char(n % 10)]
    }
}

/// Appends the character of one decimal digit.
fn push_digit(out: &mut String, d: u64)
    requires
        d < 10,
    ensures
        final(out)@ == old(out)@ + seq![digit_char(d as nat)],
{
    if d == 0 {
        proof {
            reveal_strlit("0");
        }
        out.append("0");
    } else if d == 1 {
        proof {
            reveal_strlit("1");
        }
        out.append("1");
    } else if d == 2 {
        proof {
            reveal_strlit("2");
        }
        out.append("2");
    } else if d == 3 {
        proof {
            reveal_strlit("3");
        }
        out.append("3");
    } else if d == 4 {
        proof {
            reveal_strlit("4");
        }
        out.append("4");
    } else if d == 5 {
        proof {
            reveal_strlit("5");
        }
        out.append("5");
    } else if d == 6 {
        proof {
            reveal_strlit("6");
        }
        out.append("6");
    } else if d == 7 {
        proof {
            reveal_strlit("7");
        }
        out.append("7");
    } else if d == 8 {
        proof {
            reveal_strlit("8");
        }
        out.append("8");
    } else {
        proof {
            reveal_strlit("9");
        }
        out.append("9");
    }
    proof {
        assert(final(out)@ =~= old(out)@ + seq![digit_char(d as nat)]);
    }
}

/// Appends the decimal digits of `n`.
fn push_dec_chars(out: &mut String, n: u64)
    ensures
        final(out)@ == old(out)@ + dec_chars(n as nat),
    decreases n,
{
    if n < 10 {
        push_digit(out, n);
    } else {
        push_dec_chars(out, n / 10);
        push_digit(out, n % 10);
        proof {
            assert(final(out)@ =~= old(out)@ + dec_chars(n as nat));
        }
    }
}

/// The decimal representation of `n`.
pub fn dec_string(n: u64) -> (r: String)
    ensures
        r@ == dec_chars(n as nat),
{
    let mut out = String::new();
    push_dec_chars(&mut out, n);
    proof {
        assert(out@ =~= dec_chars(n as nat));
    }
    out
}

/// The wire name of a compression selector.
pub open spec fn spec_compression_name(ct: CompressionType) -> Seq<char> {
    match ct {
        CompressionType::Uncompressed => "none"@,
        CompressionType::Lz4 => "lz4"@,
        CompressionType::Zstd => "zstd"@,
    }
}

/// The wire name of a compression selector: `none`, `lz4`, or `zstd`.
pub fn compression_type_name(ct: CompressionType) -> (r: String)
    ensures
        r@ == spec_compression_name(ct),
{
    match ct {
        CompressionType::Uncompressed => String::from_str("none"),
        CompressionType::Lz4 => String::from_str("lz4"),
        CompressionType::Zstd => String::from_str("zstd"),
    }
}

/// The labels attached to one flush write: recording id, topic,
/// compression, payload format, and the number of samples in the frame.
pub fn build_flush_labels(
    recording_id: &str,
    topic: &str,
    compression: CompressionType,
    format: &str,
    count: u64,
) -> (r: Vec<(String, String)>)
    ensures
        r@.len() == 5,
        r@[0].0@ == "recording_id"@ && r@[0].1@ == recording_id@,
        r@[1].0@ == "topic"@ && r@[1].1@ == topic@,
        r@[2].0@ == "compression"@ && r@[2].1@ == spec_compression_name(compression),
        r@[3].0@ == "format"@ && r@[3].1@ == format@,
        r@[4].0@ == "count"@ && r@[4].1@ == dec_chars(count as nat),
{
    let mut labels: Vec<(String, String)> = Vec::new();
    labels.push((String::from_str("recording_id"), String::from_str(recording_id)));
    labels.push((String::from_str("topic"), String::from_str(topic)));
    labels.push((String::from_str("compression"), compression_type_name(compression)));
    labels.push((String::from_str("format"), String::from_str(format)));
    labels.push((String::from_str("count"), dec_string(count)));
    labels
}

/// The record-write URL: `<base>/api/v1/b/<bucket>/<entry>?ts=<microseconds>`.
pub fn write_record_url(base: &str, bucket: &str, entry: &str, timestamp_us: u64) -> (r: String)
    ensures
        r@ == base@ + "/api/v1/b/"@ + bucket@ + "/"@ + entry@ + "?ts="@ + dec_chars(
            timestamp_us as nat,
        ),
{
    let mut out = String::new();
    out.append(base);
    out.append("/api/v1/b/");
    out.append(bucket);
    out.append("/");
    out.append(entry);
    out.append("?ts=");
    push_dec_chars(&mut out, timestamp_us);
    out
}

/// The bucket URL: `<base>/api/v1/b/<bucket>`.
pub fn bucket_url(base: &str, bucket: &str) -> (r: String)
    ensures
        r@ == base@ + "/api/v1/b/"@ + bucket@,
{
    let mut out = String::new();
    out.append(base);
    out.append("/api/v1/b/");
    out.append(bucket);
    out
}

/// The header name carrying one label: `x-reduct-label-<key>`.
pub fn label_header_name(key: &str) -> (r: String)
    ensures
        r@ == "x-reduct-label-"@ + key@,
{
    let mut out = String::new();
    out.append("x-reduct-label-");
    out.append(key);
    out
}

/// The relative path of a record file: `<entry>/<timestamp_us>.<format>`.
pub fn record_file_path(entry: &str, timestamp_us: u64, format: &str) -> (r: String)
    ensures
        r@ == entry@ + "/"@ + dec_chars(timestamp_us as nat) + "."@ + format@,
{
    let mut out = String::new();
    out.append(entry);
    out.append("/");
    push_dec_chars(&mut out, timestamp_us);
    out.append(".");
    out.append(format);
    out
}

/// The relative path of a record's label file:
/// `<entry>/<timestamp_us>.meta.json`.
pub fn metadata_file_path(entry: &str, timestamp_us: u64) -> (r: String)
    ensures
        r@ == entry@ + "/"@ + dec_chars(timestamp_us as nat) + ".meta.json"@,
{
    let mut out = String::new();
    out.append(entry);
    out.append("/");
    push_dec_chars(&mut out, timestamp_us);
    out.append(".meta.json");
    out
}

/// How one storage call ended, as the library classifies it from the
/// response; a network failure without a status is transient.
#[derive(Debug, Clone, Copy, PartialEq, Eq, Structural)]
pub enum WriteOutcome {
    Success,
    Transient,
    Permanent,
}

/// Classifies an HTTP status of a record write: 2xx succeeds, 5xx is
/// transient, anything else is permanent.
pub fn classify_write_status(status: u16) -> (r: WriteOutcome)
    ensures
        r == (if 200 <= status < 300 {
            WriteOutcome::Success
        } else if 500 <= status < 600 {
            WriteOutcome::Transient
        } else {
            WriteOutcome::Permanent
        }),
{
    if 200 <= status && status < 300 {
        WriteOutcome::Success
    } else if 500 <= status && status < 600 {
        WriteOutcome::Transient
    } else {
        WriteOutcome::Permanent
    }
}

/// Whether a bucket-creation status means the bucket is usable: 2xx, or
/// the conflict that says it already exists.
pub fn bucket_create_ok(status: u16) -> (r: bool)
    ensures
        r == (200 <= status < 300 || status == 409),
{
    (200 <= status && status < 300) || status == 409
}

/// What the caller of the retry policy should do next.
#[derive(Debug, Clone, Copy, PartialEq, Eq, Structural)]
pub enum RetryDecision {
    /// The write succeeded; stop.
    Done,
    /// Wait this many milliseconds, then try again.
    RetryAfterMs(u64),
    /// Stop and surface the failure.
    GiveUp,
}

/// Per-call retry state: exponential backoff from 100 ms, doubling, capped
/// at 30 s, for at most `max_retries` retries of transient failures.
#[derive(Debug, Clone, Copy)]
pub struct RetryState {
    pub attempt: u32,
    pub delay_ms: u64,
    pub max_retries: u32,
}

impl RetryState {
    /// The backoff delay stays within its first and final values.
    pub open spec fn wf(self) -> bool {
        100 <= self.delay_ms <= 30000
    }

    /// Fresh retry state for one write call.
    pub fn new(max_retries: u32) -> (r: RetryState)
        ensures
            r.attempt == 0,
            r.delay_ms == 100,
            r.max_retries == max_retries,
            r.wf(),
    {
        RetryState { attempt: 0, delay_ms: 100, max_retries }
    }

    /// Decides what follows one write attempt: success stops; a permanent
    /// failure is surfaced at once; a transient failure waits the current
    /// delay and doubles it, capped at 30 s, until the retries are spent.
    pub fn next(&mut self, outcome: WriteOutcome) -> (r: RetryDecision)
        requires
            old(self).wf(),
        ensures
            final(self).wf(),
            final(self).max_retries == old(self).max_retries,
            outcome == WriteOutcome::Success ==> r == RetryDecision::Done && *final(self) == *old(
                self,
            ),
            outcome == WriteOutcome::Permanent ==> r == RetryDecision::GiveUp && *final(self)
                == *old(self),
            outcome == WriteOutcome::Transient && old(self).attempt >= old(self).max_retries ==> r
                == RetryDecision::GiveUp && *final(self) == *old(self),
            outcome == WriteOutcome::Transient && old(self).attempt < old(self).max_retries ==> r
                == RetryDecision::RetryAfterMs(old(self).delay_ms) && final(self).attempt == old(
                self,
            ).attempt + 1 && final(self).delay_ms == (if old(self).delay_ms * 2 <= 30000 {
                old(self).delay_ms * 2
            } else {
                30000
            }),
    {
        match outcome {
            WriteOutcome::Success => RetryDecision::Done,
            WriteOutcome::Permanent => RetryDecision::GiveUp,
            WriteOutcome::Transient => {
                if self.attempt >= self.max_retries {
                    RetryDecision::GiveUp
                } else {
                    let wait = self.delay_ms;
                    self.attempt = self.attempt + 1;
                    let doubled = self.delay_ms * 2;
                    self.delay_ms = if doubled <= 30000 {
                        doubled
                    } else {
                        30000
                    };
                    RetryDecision::RetryAfterMs(wait)
                }
            },
        }
    }
}

} // verus!
