//! Subscription download records, the proxy chosen for a download, and the
//! `subscription-userinfo` header that reports a subscription's traffic and expiry.

use vstd::prelude::*;
use vstd::string::{StringExecFns, StringSliceAdditionalSpecFns};
use crate::bytes::{all_digits, digit_value, digits_value, equals_bytes, find, find_byte, occurs_at, parse_uint, parse_uint_in, skip_ws, trim, trim_end};
use crate::http::{decimal, decimal_string};

verus! {

/// How a subscription is downloaded.
#[derive(Clone, Copy, PartialEq, Eq, Structural, Debug)]
pub enum ProxyMode {
    /// Without a proxy.
    Direct,
    /// Through the system proxy.
    System,
    /// Through the core's local mixed port.
    Core,
}

impl ProxyMode {
    /// The proxy to configure explicitly: the core's mixed port on the loopback
    /// address for `Core`, none otherwise.
    pub fn proxy_url(&self, mixed_port: u16) -> (r: Option<String>)
        ensures
            match *self {
                ProxyMode::Core => r matches Some(u) && u@ == "http://127.0.0.1:"@ + decimal(mixed_port as nat),
                _ => r is None,
            },
    {
        match self {
            ProxyMode::Core => {
                let port = decimal_string(mixed_port as u64);
                Some(String::from_str("http://127.0.0.1:").concat(port.as_str()))
            },
            _ => None,
        }
    }
}

/// Request: download a subscription.
pub struct DownloadSubscriptionRequest {
    pub url: String,
    pub proxy_mode: ProxyMode,
    pub user_agent: String,
    pub timeout_seconds: u64,
    pub mixed_port: u16,
}

/// Traffic counters and expiry (Unix time) announced by a subscription.
pub struct SubscriptionInfoData {
    pub upload: Option<u64>,
    pub download: Option<u64>,
    pub total: Option<u64>,
    pub expire: Option<i64>,
}

/// Report of a subscription download.
pub struct DownloadSubscriptionResponse {
    pub success: bool,
    pub content: String,
    pub subscription_info: Option<SubscriptionInfoData>,
    pub error_message: Option<String>,
}

/// Message for a download whose content is empty.
pub open spec fn empty_content_text() -> Seq<char> {
    "订阅内容为空"@
}

impl DownloadSubscriptionResponse {
    /// The report of a download: its content and header data, or the error; empty
    /// content counts as a failure.
    pub fn from_download(outcome: Result<(String, Option<SubscriptionInfoData>), String>) -> (r: DownloadSubscriptionResponse)
        ensures
            match outcome {
                Ok((content, info)) => if content@.len() > 0 {
                    r.success && r.content == content && r.subscription_info == info && r.error_message is None
                } else {
                    !r.success && r.content@.len() == 0 && r.subscription_info is None
                        && (r.error_message matches Some(m) && m@ == empty_content_text())
                },
                Err(e) => !r.success && r.content@.len() == 0 && r.subscription_info is None
                    && r.error_message == Some(e),
            },
    {
        match outcome {
            Ok((content, info)) => {
                if content.as_str().is_empty() {
                    DownloadSubscriptionResponse {
                        success: false,
                        content: String::new(),
                        subscription_info: None,
                        error_message: Some(String::from_str("订阅内容为空")),
                    }
                } else {
                    DownloadSubscriptionResponse { success: true, content, subscription_info: info, error_message: None }
                }
            },
            Err(e) => DownloadSubscriptionResponse {
                success: false,
                content: String::new(),
                subscription_info: None,
                error_message: Some(e),
            },
        }
    }
}

pub open spec fn upload_word() -> Seq<u8> {
    seq![117u8, 112, 108, 111, 97, 100]
}

pub open spec fn download_word() -> Seq<u8> {
    seq![100u8, 111, 119, 110, 108, 111, 97, 100]
}

pub open spec fn total_word() -> Seq<u8> {
    seq![116u8, 111, 116, 97, 108]
}

pub open spec fn expire_word() -> Seq<u8> {
    seq![101u8, 120, 112, 105, 114, 101]
}

/// `[lo, hi)` holds exactly `word`.
pub open spec fn is_word(d: Seq<u8>, lo: int, hi: int, word: Seq<u8>) -> bool {
    hi - lo == word.len() && occurs_at(d, lo, word)
}

/// A signed decimal `i64` written in `[lo, hi)`: an optional sign, then at least one
/// digit, within range.
pub open spec fn parse_i64(d: Seq<u8>, lo: int, hi: int) -> Option<i64> {
    if lo < hi && d[lo] == 45 {
        if lo + 1 < hi && all_digits(d, lo + 1, hi, 10) && digits_value(d, lo + 1, hi, 10) <= 9223372036854775808 {
            Some((0 - digits_value(d, lo + 1, hi, 10)) as i64)
        } else {
            None
        }
    } else {
        match parse_uint(d, lo, hi, 10, i64::MAX as nat) {
            Some(v) => Some(v as i64),
            None => None,
        }
    }
}

/// Counters read so far: upload, download, total, expire.
pub type InfoFields = (Option<u64>, Option<u64>, Option<u64>, Option<i64>);

/// Effect of the `key=value` pair in `[lo, hi)`: a known key (after trimming) sets
/// its field to the trimmed value read as a number, or clears it when the value is
/// not one; a pair without `=` or with another key changes nothing.
pub open spec fn pair_effect(d: Seq<u8>, lo: int, hi: int, acc: InfoFields) -> InfoFields {
    let eq = find_byte(d, lo, hi, 61);
    if eq >= hi {
        acc
    } else {
        let ka = skip_ws(d, lo, eq);
        let kb = trim_end(d, ka, eq);
        let va = skip_ws(d, eq + 1, hi);
        let vb = trim_end(d, va, hi);
        let as_u64 = match parse_uint(d, va, vb, 10, u64::MAX as nat) {
            Some(v) => Some(v as u64),
            None => None,
        };
        if is_word(d, ka, kb, upload_word()) {
            (as_u64, acc.1, acc.2, acc.3)
        } else if is_word(d, ka, kb, download_word()) {
            (acc.0, as_u64, acc.2, acc.3)
        } else if is_word(d, ka, kb, total_word()) {
            (acc.0, acc.1, as_u64, acc.3)
        } else if is_word(d, ka, kb, expire_word()) {
            (acc.0, acc.1, acc.2, parse_i64(d, va, vb))
        } else {
            acc
        }
    }
}

/// Applies, in order, every `;`-separated pair of `[pos, end)`.
pub open spec fn scan_pairs(d: Seq<u8>, pos: int, end: int, acc: InfoFields) -> InfoFields
    decreases end + 1 - pos,
{
    if pos > end {
        acc
    } else {
        let sep = find_byte(d, pos, end, 59);
        let next = pair_effect(d, pos, sep, acc);
        if sep >= end || sep < pos {
            next
        } else {
            scan_pairs(d, sep + 1, end, next)
        }
    }
}

/// The data of a `subscription-userinfo` header value, when at least one field was
/// read.
pub open spec fn subscription_info_of(d: Seq<u8>) -> Option<(Option<u64>, Option<u64>, Option<u64>, Option<i64>)> {
    let f = scan_pairs(d, 0, d.len() as int, (None, None, None, None));
    if f.0 is Some || f.1 is Some || f.2 is Some || f.3 is Some {
        Some(f)
    } else {
        None
    }
}

fn parse_i64_in(d: &[u8], lo: usize, hi: usize) -> (r: Option<i64>)
    requires
        lo <= hi <= d@.len(),
    ensures
        r == parse_i64(d@, lo as int, hi as int),
{
    if lo < hi && d[lo] == 45 {
        if lo + 1 < hi && d[lo + 1] == 43 {
            assert(digit_value(d@[lo + 1], 10) is None);
            assert(!all_digits(d@, lo + 1, hi as int, 10));
        }
        if lo + 1 < hi && d[lo + 1] != 43 {
            match parse_uint_in(d, lo + 1, hi, 10, 9223372036854775808) {
                Some(m) => {
                    assert(m == digits_value(d@, lo + 1, hi as int, 10));
                    if m == 9223372036854775808 {
                        Some(i64::MIN)
                    } else {
                        Some(-(m as i64))
                    }
                },
                None => None,
            }
        } else {
            None
        }
    } else {
        match parse_uint_in(d, lo, hi, 10, i64::MAX as u64) {
            Some(v) => Some(v as i64),
            None => None,
        }
    }
}

/// Reads a `subscription-userinfo` header value such as
/// `upload=0; download=123456; total=1073741824; expire=1735689600`.
pub fn parse_subscription_info(header_value: &str) -> (r: Option<SubscriptionInfoData>)
    ensures
        match subscription_info_of(header_value.spec_bytes()) {
            Some(f) => (r matches Some(info) && info.upload == f.0 && info.download == f.1 && info.total == f.2
                && info.expire == f.3),
            None => r is None,
        },
{
    let d = header_value.as_bytes();
    let w_upload = vec![117u8, 112, 108, 111, 97, 100];
    let w_download = vec![100u8, 111, 119, 110, 108, 111, 97, 100];
    let w_total = vec![116u8, 111, 116, 97, 108];
    let w_expire = vec![101u8, 120, 112, 105, 114, 101];
    assert(w_upload@ =~= upload_word());
    assert(w_download@ =~= download_word());
    assert(w_total@ =~= total_word());
    assert(w_expire@ =~= expire_word());
    let end = d.len();
    let mut acc: (Option<u64>, Option<u64>, Option<u64>, Option<i64>) = (None, None, None, None);
    let mut pos: usize = 0;
    loop
        invariant
            pos <= end,
            end == d@.len(),
            w_upload@ == upload_word(),
            w_download@ == download_word(),
            w_total@ == total_word(),
            w_expire@ == expire_word(),
            scan_pairs(d@, pos as int, end as int, acc) == scan_pairs(d@, 0, end as int, (None, None, None, None)),
        ensures
            acc == scan_pairs(d@, 0, end as int, (None, None, None, None)),
        decreases end + 1 - pos,
    {
        let sep = find(d, pos, end, 59);
        let eq = find(d, pos, sep, 61);
        let ghost before = acc;
        if eq < sep {
            let (ka, kb) = trim(d, pos, eq);
            let (va, vb) = trim(d, eq + 1, sep);
            if equals_bytes(d, ka, kb, w_upload.as_slice()) {
                acc.0 = match parse_uint_in(d, va, vb, 10, u64::MAX) {
                    Some(v) => Some(v),
                    None => None,
                };
            } else if equals_bytes(d, ka, kb, w_download.as_slice()) {
                acc.1 = match parse_uint_in(d, va, vb, 10, u64::MAX) {
                    Some(v) => Some(v),
                    None => None,
                };
            } else if equals_bytes(d, ka, kb, w_total.as_slice()) {
                acc.2 = match parse_uint_in(d, va, vb, 10, u64::MAX) {
                    Some(v) => Some(v),
                    None => None,
                };
            } else if equals_bytes(d, ka, kb, w_expire.as_slice()) {
                acc.3 = parse_i64_in(d, va, vb);
            }
        }
        assert(acc == pair_effect(d@, pos as int, sep as int, before));
        if sep >= end {
            break;
        }
        pos = sep + 1;
    }
    if acc.0.is_some() || acc.1.is_some() || acc.2.is_some() || acc.3.is_some() {
        Some(SubscriptionInfoData { upload: acc.0, download: acc.1, total: acc.2, expire: acc.3 })
    } else {
        None
    }
}

} // verus!
