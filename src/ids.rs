//! Entity ids and the clock.

use vstd::prelude::*;

use crate::json::{hex, hex_digit};
use crate::text::string_of;

verus! {

/// The last `k` hexadecimal digits of `n`, most significant first.
pub open spec fn hex_digits(n: nat, k: nat) -> Seq<char>
    decreases k,
{
    if k == 0 {
        Seq::empty()
    } else {
        hex_digits(n / 16, (k - 1) as nat).push(hex_digit(n % 16))
    }
}

/// The hyphenated lowercase text of a UUID: its 32 hexadecimal digits, most
/// significant first, in groups of 8, 4, 4, 4 and 12 joined by hyphens.
pub open spec fn uuid_text(id: u128) -> Seq<char> {
    let h = hex_digits(id as nat, 32);
    h.subrange(0, 8) + seq!['-'] + h.subrange(8, 12) + seq!['-'] + h.subrange(12, 16) + seq!['-']
        + h.subrange(16, 20) + seq!['-'] + h.subrange(20, 32)
}

proof fn lemma_hex_digits_len(n: nat, k: nat)
    ensures
        hex_digits(n, k).len() == k,
    decreases k,
{
    if k > 0 {
        lemma_hex_digits_len(n / 16, (k - 1) as nat);
    }
}

fn push_hex(out: &mut Vec<char>, n: u128, k: usize)
    ensures
        final(out)@ == old(out)@ + hex_digits(n as nat, k as nat),
    decreases k,
{
    if k > 0 {
        push_hex(out, n / 16, k - 1);
        out.push(hex((n % 16) as u32));
        assert(out@ =~= old(out)@ + hex_digits(n as nat, k as nat));
    } else {
        assert(out@ =~= old(out)@ + hex_digits(n as nat, k as nat));
    }
}

fn push_range(out: &mut Vec<char>, h: &Vec<char>, from: usize, to: usize)
    requires
        from <= to <= h@.len(),
    ensures
        final(out)@ == old(out)@ + h@.subrange(from as int, to as int),
{
    let mut i: usize = from;
    while i < to
        invariant
            from <= i <= to <= h@.len(),
            out@ == old(out)@ + h@.subrange(from as int, i as int),
        decreases to - i,
    {
        out.push(h[i]);
        i = i + 1;
        assert(out@ =~= old(out)@ + h@.subrange(from as int, i as int));
    }
}

/// The hyphenated lowercase text of the UUID whose bits are `id`.
pub fn id_to_string(id: u128) -> (r: String)
    ensures
        r@ == uuid_text(id),
        r@.len() == 36,
{
    let mut h: Vec<char> = Vec::new();
    push_hex(&mut h, id, 32);
    proof {
        lemma_hex_digits_len(id as nat, 32);
        assert(h@ =~= hex_digits(id as nat, 32));
    }
    let mut out: Vec<char> = Vec::new();
    push_range(&mut out, &h, 0, 8);
    out.push('-');
    push_range(&mut out, &h, 8, 12);
    out.push('-');
    push_range(&mut out, &h, 12, 16);
    out.push('-');
    push_range(&mut out, &h, 16, 20);
    out.push('-');
    push_range(&mut out, &h, 20, 32);
    assert(out@ =~= uuid_text(id));
    string_of(&out)
}

/// Relies on `uuid::Uuid::now_v7`: a fresh time-ordered UUID, as its 128 bits.
/// Its version field (bits 76 to 79) is 7 and its variant field (bits 62 and
/// 63) is the RFC 4122 one, `10` in binary.
#[verifier::external_body]
pub fn fhir_generate_id() -> (r: u128)
    ensures
        (r >> 76u128) & 0xfu128 == 7,
        (r >> 62u128) & 0x3u128 == 2,
{
    uuid::Uuid::now_v7().as_u128()
}

/// Relies on `time::OffsetDateTime::now_utc`: the current instant, in
/// nanoseconds since the Unix epoch.
#[verifier::external_body]
pub(crate) fn now_utc() -> (r: i128) {
    time::OffsetDateTime::now_utc().unix_timestamp_nanos()
}

} // verus!
