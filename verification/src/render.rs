//! Rendering of numbers and match records as text.

use vstd::prelude::*;
use vstd::string::StringExecFns;
use crate::worker::MatchResult;

verus! {

/// The ASCII digit byte for one decimal digit value.
pub open spec fn digit_byte(d: nat) -> u8 {
    (48 + d) as u8
}

/// The decimal digit bytes of `n`, most significant first, with no
/// leading zeros (a single `'0'` for zero).
pub open spec fn dec_bytes(n: nat) -> Seq<u8>
    decreases n,
{
    if n < 10 {
        seq![digit_byte(n)]
    } else {
        dec_bytes(n / 10).push(digit_byte(n % 10))
    }
}

/// Thousands grouping of a digit string, scanned from position `i`: a
/// comma goes before every position from which a multiple of three
/// digits remains, except the very first.
pub open spec fn grouped_from(s: Seq<u8>, i: int) -> Seq<u8>
    decreases s.len() - i,
    when 0 <= i
{
    if i >= s.len() {
        Seq::empty()
    } else {
        let rest = grouped_from(s, i + 1);
        if i > 0 && (s.len() - i) % 3 == 0 {
            seq![44u8, s[i]] + rest
        } else {
            seq![s[i]] + rest
        }
    }
}

/// A digit string with thousands separators inserted.
pub open spec fn grouped(s: Seq<u8>) -> Seq<u8> {
    grouped_from(s, 0)
}

/// ASCII bytes read as the characters with the same code points.
pub open spec fn ascii_chars(s: Seq<u8>) -> Seq<char> {
    s.map(|_i: int, b: u8| b as char)
}

/// Every decimal digit byte is an ASCII digit.
proof fn lemma_dec_bytes_ascii(n: nat)
    ensures
        forall|i: int|
            0 <= i < dec_bytes(n).len() ==> 48 <= #[trigger] dec_bytes(n)[i] <= 57,
    decreases n,
{
    if n < 10 {
        assert(dec_bytes(n)[0] == digit_byte(n));
    } else {
        lemma_dec_bytes_ascii(n / 10);
        assert forall|i: int| 0 <= i < dec_bytes(n).len() implies 48 <= #[trigger] dec_bytes(n)[i]
            <= 57 by {
            if i < dec_bytes(n / 10).len() {
                assert(dec_bytes(n)[i] == dec_bytes(n / 10)[i]);
            } else {
                assert(dec_bytes(n)[i] == digit_byte(n % 10));
            }
        }
    }
}

/// Appends the decimal digits of `n` to a byte buffer.
fn push_decimal(n: u64, out: &mut Vec<u8>)
    ensures
        final(out)@ == old(out)@ + dec_bytes(n as nat),
    decreases n,
{
    if n < 10 {
        out.push(48 + n as u8);
        proof {
            assert(final(out)@ =~= old(out)@ + dec_bytes(n as nat));
        }
    } else {
        push_decimal(n / 10, out);
        out.push(48 + (n % 10) as u8);
        proof {
            assert(final(out)@ =~= old(out)@ + dec_bytes(n as nat));
        }
    }
}

/// Relies on std's `String::from_utf8`: ASCII bytes are valid UTF-8,
/// one single-byte character per byte, with the same code points.
#[verifier::external_body]
fn ascii_bytes_to_string(v: Vec<u8>) -> (r: String)
    requires
        forall|i: int| 0 <= i < v@.len() ==> v@[i] < 128,
    ensures
        r@ == ascii_chars(v@),
{
    String::from_utf8(v).unwrap()
}

/// The decimal rendering of `n`, without separators.
pub fn to_decimal_string(n: u64) -> (r: String)
    ensures
        r@ == ascii_chars(dec_bytes(n as nat)),
{
    let mut digits: Vec<u8> = Vec::new();
    push_decimal(n, &mut digits);
    proof {
        lemma_dec_bytes_ascii(n as nat);
    }
    ascii_bytes_to_string(digits)
}

/// The decimal rendering of `n` with a comma between each group of
/// three digits, counted from the right.
pub fn format_number(n: u64) -> (r: String)
    ensures
        r@ == ascii_chars(grouped(dec_bytes(n as nat))),
{
    let mut digits: Vec<u8> = Vec::new();
    push_decimal(n, &mut digits);
    proof {
        lemma_dec_bytes_ascii(n as nat);
    }
    let mut out: Vec<u8> = Vec::new();
    let mut i: usize = 0;
    while i < digits.len()
        invariant
            i <= digits@.len(),
            out@ + grouped_from(digits@, i as int) == grouped(digits@),
            forall|k: int| 0 <= k < digits@.len() ==> 48 <= #[trigger] digits@[k] <= 57,
            forall|k: int| 0 <= k < out@.len() ==> #[trigger] out@[k] < 128,
        decreases digits@.len() - i,
    {
        if i > 0 && (digits.len() - i) % 3 == 0 {
            out.push(44);
            out.push(digits[i]);
            proof {
                assert(out@ + grouped_from(digits@, i + 1) =~= grouped(digits@));
            }
        } else {
            out.push(digits[i]);
            proof {
                assert(out@ + grouped_from(digits@, i + 1) =~= grouped(digits@));
            }
        }
        i = i + 1;
    }
    proof {
        assert(out@ =~= grouped(digits@));
    }
    ascii_bytes_to_string(out)
}

/// The text of one persisted match record: a numbered header, then the
/// discovery timestamp, the address, the exported private key, the
/// match metric and the finding worker, one field per line, closed by
/// a separator rule and a blank line.
pub open spec fn spec_record(
    address: Seq<char>,
    exported_private_key: Seq<char>,
    match_metric: nat,
    worker_id: nat,
    found_count: nat,
    timestamp: Seq<char>,
) -> Seq<char> {
    "MATCH #"@ + ascii_chars(dec_bytes(found_count)) + " FOUND!\nTimestamp: "@ + timestamp
        + "\nAddress: "@ + address + "\nPrivate Key: "@ + exported_private_key
        + "\nMatch Metric: "@ + ascii_chars(dec_bytes(match_metric)) + "\nFound by Worker: #"@
        + ascii_chars(dec_bytes(worker_id))
        + "\n======================================================================\n\n"@
}

/// Renders one match as the block of text appended to the durable
/// result destination.
pub fn format_record(result: &MatchResult, found_count: u64, timestamp: &str) -> (r: String)
    ensures
        r@ == spec_record(
            result.address@,
            result.exported_private_key@,
            result.match_metric as nat,
            result.worker_id as nat,
            found_count as nat,
            timestamp@,
        ),
{
    let mut s = String::new();
    s.append("MATCH #");
    let found = to_decimal_string(found_count);
    s.append(found.as_str());
    s.append(" FOUND!\nTimestamp: ");
    s.append(timestamp);
    s.append("\nAddress: ");
    s.append(result.address.as_str());
    s.append("\nPrivate Key: ");
    s.append(result.exported_private_key.as_str());
    s.append("\nMatch Metric: ");
    let metric = to_decimal_string(result.match_metric as u64);
    s.append(metric.as_str());
    s.append("\nFound by Worker: #");
    let worker = to_decimal_string(result.worker_id as u64);
    s.append(worker.as_str());
    s.append("\n======================================================================\n\n");
    proof {
        assert(s@ =~= spec_record(
            result.address@,
            result.exported_private_key@,
            result.match_metric as nat,
            result.worker_id as nat,
            found_count as nat,
            timestamp@,
        ));
    }
    s
}

} // verus!
