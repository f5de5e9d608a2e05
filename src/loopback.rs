//! Text forms used by loopback-exemption management: security identifiers in their
//! `S-R-A-S1-S2-…` notation and explanations of the firewall API's error codes.

use vstd::prelude::*;
use vstd::string::StringExecFns;
use crate::http::{decimal, decimal_string};

verus! {

/// The identifier authority: bytes 2 to 7 read as a big-endian number.
pub open spec fn sid_authority(b: Seq<u8>) -> nat {
    (b[2] as nat) * 1099511627776 + (b[3] as nat) * 4294967296 + (b[4] as nat) * 16777216 + (b[5] as nat)
        * 65536 + (b[6] as nat) * 256 + (b[7] as nat)
}

/// The little-endian `u32` at `at`.
pub open spec fn le_u32_at(b: Seq<u8>, at: int) -> nat {
    (b[at] as nat) + (b[at + 1] as nat) * 256 + (b[at + 2] as nat) * 65536 + (b[at + 3] as nat) * 16777216
}

/// `-S` for each sub-authority from number `i` up to `n`.
pub open spec fn sid_subauthorities(b: Seq<u8>, i: nat, n: nat) -> Seq<char>
    decreases n - i,
{
    if i >= n {
        Seq::empty()
    } else {
        "-"@ + decimal(le_u32_at(b, (8 + 4 * i) as int)) + sid_subauthorities(b, i + 1, n)
    }
}

/// The notation of a binary security identifier: `S-`, the revision (byte 0), the
/// identifier authority, then each of the sub-authorities counted by byte 1; empty
/// when the bytes are too short for what byte 1 announces.
pub open spec fn sid_text(b: Seq<u8>) -> Seq<char> {
    if b.len() < 8 || b.len() < 8 + 4 * (b[1] as nat) {
        Seq::empty()
    } else {
        "S-"@ + decimal(b[0] as nat) + "-"@ + decimal(sid_authority(b)) + sid_subauthorities(b, 0, b[1] as nat)
    }
}

proof fn lemma_subauthorities_step(b: Seq<u8>, i: nat, n: nat)
    requires
        i < n,
    ensures
        sid_subauthorities(b, i, n) == "-"@ + decimal(le_u32_at(b, (8 + 4 * i) as int)) + sid_subauthorities(b, i + 1, n),
{
}

/// The notation of the security identifier held in `sid_bytes`.
pub fn sid_to_string(sid_bytes: &[u8]) -> (r: String)
    ensures
        r@ == sid_text(sid_bytes@),
{
    if sid_bytes.len() < 8 {
        return String::new();
    }
    let count = sid_bytes[1] as usize;
    if sid_bytes.len() < 8 + count * 4 {
        return String::new();
    }
    let authority: u64 = (sid_bytes[2] as u64) * 1099511627776 + (sid_bytes[3] as u64) * 4294967296
        + (sid_bytes[4] as u64) * 16777216 + (sid_bytes[5] as u64) * 65536 + (sid_bytes[6] as u64) * 256
        + (sid_bytes[7] as u64);
    let mut r = String::from_str("S-");
    r.append(decimal_string(sid_bytes[0] as u64).as_str());
    r.append("-");
    r.append(decimal_string(authority).as_str());
    let ghost head = r@;
    let mut i: usize = 0;
    while i < count
        invariant
            i <= count,
            count == sid_bytes@[1] as nat,
            8 + 4 * count <= sid_bytes@.len(),
            r@ + sid_subauthorities(sid_bytes@, i as nat, count as nat) == head + sid_subauthorities(sid_bytes@, 0, count as nat),
        decreases count - i,
    {
        let at = 8 + i * 4;
        let sub: u64 = (sid_bytes[at] as u64) + (sid_bytes[at + 1] as u64) * 256 + (sid_bytes[at + 2] as u64) * 65536
            + (sid_bytes[at + 3] as u64) * 16777216;
        let ghost before = r@;
        r.append("-");
        r.append(decimal_string(sub).as_str());
        proof {
            lemma_subauthorities_step(sid_bytes@, i as nat, count as nat);
            assert(sub == le_u32_at(sid_bytes@, 8 + 4 * i));
            assert(r@ =~= before + ("-"@ + decimal(le_u32_at(sid_bytes@, 8 + 4 * i))));
            assert(r@ + sid_subauthorities(sid_bytes@, (i + 1) as nat, count as nat) =~= before + sid_subauthorities(
                sid_bytes@,
                i as nat,
                count as nat,
            ));
        }
        i = i + 1;
    }
    proof {
        assert(sid_subauthorities(sid_bytes@, count as nat, count as nat) =~= Seq::<char>::empty());
        assert(r@ =~= r@ + sid_subauthorities(sid_bytes@, count as nat, count as nat));
    }
    r
}

/// Explanation of an error code of the firewall API, in HRESULT or Win32 form.
pub open spec fn loopback_error_text(code: u32) -> Seq<char> {
    if code == 0x80070005 || code == 5 {
        "权限不足"@
    } else if code == 0x80070057 || code == 87 {
        "参数无效"@
    } else if code == 0x80004005 {
        "系统限制"@
    } else {
        "未知错误"@
    }
}

/// Explanation of an error code of the firewall API.
pub fn loopback_error_detail(code: u32) -> (r: &'static str)
    ensures
        r@ == loopback_error_text(code),
{
    if code == 0x80070005 || code == 5 {
        "权限不足"
    } else if code == 0x80070057 || code == 87 {
        "参数无效"
    } else if code == 0x80004005 {
        "系统限制"
    } else {
        "未知错误"
    }
}

} // verus!
