//! Byte encoding of share-batch snapshots.
//!
//! A snapshot is stored in the share token's attributes as one
//! fixed-width little-endian record: the two decimals as raw payload and
//! precision, then the timestamp. Decoding accepts exactly the buffers
//! that encoding produces, and the round trip loses nothing.

use vstd::prelude::*;

verus! {

use crate::snapshot::ShareTokenAttributes;

/// Number of bytes in an encoded snapshot: two decimals of 16 + 4 bytes
/// each, then an 8-byte timestamp.
pub const ATTRIBUTES_BUFFER_LEN: usize = 48;

/// `256^n`, the number of values `n` bytes can carry.
pub open spec fn pow256(n: nat) -> nat
    decreases n,
{
    if n == 0 {
        1nat
    } else {
        256 * pow256((n - 1) as nat)
    }
}

/// The byte widths the encoding uses.
pub proof fn lemma_pow256_values()
    ensures
        pow256(4) == 0x1_0000_0000nat,
        pow256(8) == 0x1_0000_0000_0000_0000nat,
        pow256(16) == 0x1_0000_0000_0000_0000_0000_0000_0000_0000nat,
{
    reveal_with_fuel(pow256, 18);
}

/// The `n`-byte little-endian encoding of `v` (high bytes beyond `n` are
/// lost, so encoders demand `v < 256^n`).
pub open spec fn le_bytes(v: nat, n: nat) -> Seq<u8>
    decreases n,
{
    if n == 0 {
        Seq::empty()
    } else {
        seq![(v % 256) as u8] + le_bytes(v / 256, (n - 1) as nat)
    }
}

/// The value of a little-endian byte sequence.
pub open spec fn from_le_bytes(s: Seq<u8>) -> nat
    decreases s.len(),
{
    if s.len() == 0 {
        0nat
    } else {
        (s[0] + 256 * from_le_bytes(s.drop_first())) as nat
    }
}

/// A byte sequence's value fits in its width.
pub proof fn lemma_from_le_bytes_bound(s: Seq<u8>)
    ensures
        from_le_bytes(s) < pow256(s.len()),
    decreases s.len(),
{
    if s.len() > 0 {
        lemma_from_le_bytes_bound(s.drop_first());
    }
}

/// An encoded value is as long as asked.
pub proof fn lemma_le_bytes_len(v: nat, n: nat)
    ensures
        le_bytes(v, n).len() == n,
    decreases n,
{
    if n > 0 {
        lemma_le_bytes_len(v / 256, (n - 1) as nat);
    }
}

/// Round trip of one field: decoding the `n`-byte encoding of a value
/// below `256^n` gives the value back.
pub proof fn lemma_le_bytes_roundtrip(v: nat, n: nat)
    requires
        v < pow256(n),
    ensures
        from_le_bytes(le_bytes(v, n)) == v,
    decreases n,
{
    if n == 0 {
    } else {
        lemma_le_bytes_roundtrip(v / 256, (n - 1) as nat);
        let s = le_bytes(v, n);
        assert(s.drop_first() =~= le_bytes(v / 256, (n - 1) as nat));
        assert(v / 256 < pow256((n - 1) as nat)) by {
            vstd::arithmetic::div_mod::lemma_multiply_divide_lt(
                v as int,
                256,
                pow256((n - 1) as nat) as int,
            );
        }
        vstd::arithmetic::div_mod::lemma_fundamental_div_mod(v as int, 256);
    }
}

/// The whole encoded record.
pub open spec fn spec_encode_attributes(attrs: ShareTokenAttributes) -> Seq<u8> {
    le_bytes(attrs.total_share_supply.raw as nat, 16) + le_bytes(
        attrs.total_share_supply.precision as nat,
        4,
    ) + le_bytes(attrs.total_initial_supplied_amount.raw as nat, 16) + le_bytes(
        attrs.total_initial_supplied_amount.precision as nat,
        4,
    ) + le_bytes(attrs.last_interaction_ts_millis as nat, 8)
}

/// The record a buffer decodes to, if it has exactly the right length.
pub open spec fn spec_decode_attributes(s: Seq<u8>) -> Option<ShareTokenAttributes> {
    if s.len() != ATTRIBUTES_BUFFER_LEN {
        None
    } else {
        Some(
            ShareTokenAttributes {
                total_share_supply: (crate::decimal::FixedDecimal {
                    raw: from_le_bytes(s.subrange(0, 16)) as u128,
                    precision: from_le_bytes(s.subrange(16, 20)) as u32,
                }),
                total_initial_supplied_amount: (crate::decimal::FixedDecimal {
                    raw: from_le_bytes(s.subrange(20, 36)) as u128,
                    precision: from_le_bytes(s.subrange(36, 40)) as u32,
                }),
                last_interaction_ts_millis: from_le_bytes(s.subrange(40, 48)) as u64,
            },
        )
    }
}

/// Appends the `n`-byte little-endian encoding of `v`.
fn push_le_bytes(out: &mut Vec<u8>, v: u128, n: usize)
    requires
        n <= 16,
        (v as nat) < pow256(n as nat),
        old(out)@.len() + n <= usize::MAX,
    ensures
        final(out)@ == old(out)@ + le_bytes(v as nat, n as nat),
{
    let mut cur: u128 = v;
    let mut j: usize = 0;
    proof {
        assert(out@ + le_bytes(cur as nat, (n - j) as nat) =~= old(out)@ + le_bytes(
            v as nat,
            n as nat,
        ));
    }
    while j < n
        invariant
            j <= n,
            out@.len() == old(out)@.len() + j,
            out@ + le_bytes(cur as nat, (n - j) as nat) == old(out)@ + le_bytes(
                v as nat,
                n as nat,
            ),
            old(out)@.len() + n <= usize::MAX,
        decreases n - j,
    {
        let byte: u8 = (cur % 256) as u8;
        proof {
            assert(le_bytes(cur as nat, (n - j) as nat) == seq![(cur as nat % 256) as u8]
                + le_bytes(cur as nat / 256, (n - j - 1) as nat));
            assert(out@ + le_bytes(cur as nat, (n - j) as nat) =~= (out@ + seq![
                (cur as nat % 256) as u8,
            ]) + le_bytes(cur as nat / 256, (n - j - 1) as nat));
        }
        out.push(byte);
        cur = cur / 256;
        j = j + 1;
    }
    proof {
        assert(le_bytes(cur as nat, 0) =~= Seq::<u8>::empty());
        assert(out@ + Seq::<u8>::empty() =~= out@);
        assert(out@ =~= old(out)@ + le_bytes(v as nat, n as nat));
    }
}

/// Reads the value of `n` little-endian bytes starting at `offset`.
fn read_le_bytes(bytes: &Vec<u8>, offset: usize, n: usize) -> (r: u128)
    requires
        n <= 16,
        offset + n <= bytes@.len(),
    ensures
        r == from_le_bytes(bytes@.subrange(offset as int, offset + n)),
{
    proof {
        lemma_pow256_values();
    }
    let _total_len: usize = bytes.len();
    let mut acc: u128 = 0;
    let mut j: usize = n;
    proof {
        assert(bytes@.subrange(offset + n as int, offset + n) =~= Seq::<u8>::empty());
    }
    while j > 0
        invariant
            j <= n,
            n <= 16,
            offset + n <= bytes@.len(),
            bytes@.len() == _total_len,
            acc == from_le_bytes(bytes@.subrange(offset + j, offset + n)),
            pow256(16) == 0x1_0000_0000_0000_0000_0000_0000_0000_0000nat,
        decreases j,
    {
        j = j - 1;
        let byte: u8 = bytes[offset + j];
        proof {
            let tail = bytes@.subrange(offset + j + 1, offset + n);
            let whole = bytes@.subrange(offset + j, offset + n);
            assert(whole.drop_first() =~= tail);
            assert(whole[0] == bytes@[offset + j]);
            lemma_from_le_bytes_bound(whole);
            assert(pow256(whole.len() as nat) <= pow256(16)) by {
                lemma_pow256_increases(whole.len() as nat, 16);
            }
        }
        acc = acc * 256 + (byte as u128);
    }
    proof {
        assert(bytes@.subrange(offset as int, offset + n) =~= bytes@.subrange(
            offset + 0,
            offset + n,
        ));
    }
    acc
}

/// `256^a <= 256^b` when `a <= b`.
proof fn lemma_pow256_increases(a: nat, b: nat)
    requires
        a <= b,
    ensures
        pow256(a) <= pow256(b),
    decreases b,
{
    if a < b && b > 0 {
        lemma_pow256_increases(a, (b - 1) as nat);
        assert(pow256(b) == 256 * pow256((b - 1) as nat));
        assert(pow256((b - 1) as nat) <= 256 * pow256((b - 1) as nat)) by (nonlinear_arith)
            requires
                pow256((b - 1) as nat) >= 0,
        ;
    }
}

/// Encodes a snapshot into the share token's attribute buffer.
pub fn attributes_to_buffer(attrs: &ShareTokenAttributes) -> (r: Vec<u8>)
    ensures
        r@ == spec_encode_attributes(*attrs),
        r@.len() == ATTRIBUTES_BUFFER_LEN,
{
    proof {
        lemma_pow256_values();
        lemma_le_bytes_len(attrs.total_share_supply.raw as nat, 16);
        lemma_le_bytes_len(attrs.total_share_supply.precision as nat, 4);
        lemma_le_bytes_len(attrs.total_initial_supplied_amount.raw as nat, 16);
        lemma_le_bytes_len(attrs.total_initial_supplied_amount.precision as nat, 4);
        lemma_le_bytes_len(attrs.last_interaction_ts_millis as nat, 8);
    }
    let mut out: Vec<u8> = Vec::new();
    push_le_bytes(&mut out, attrs.total_share_supply.raw, 16);
    push_le_bytes(&mut out, attrs.total_share_supply.precision as u128, 4);
    push_le_bytes(&mut out, attrs.total_initial_supplied_amount.raw, 16);
    push_le_bytes(&mut out, attrs.total_initial_supplied_amount.precision as u128, 4);
    push_le_bytes(&mut out, attrs.last_interaction_ts_millis as u128, 8);
    proof {
        assert(out@ =~= spec_encode_attributes(*attrs));
    }
    out
}

/// Decodes a snapshot from an attribute buffer, rejecting any buffer
/// whose length is not exactly the encoded record's.
pub fn attributes_from_buffer(bytes: &Vec<u8>) -> (r: Option<ShareTokenAttributes>)
    ensures
        r == spec_decode_attributes(bytes@),
{
    if bytes.len() != ATTRIBUTES_BUFFER_LEN {
        return None;
    }
    proof {
        lemma_pow256_values();
        lemma_from_le_bytes_bound(bytes@.subrange(16, 20));
        lemma_from_le_bytes_bound(bytes@.subrange(36, 40));
        lemma_from_le_bytes_bound(bytes@.subrange(40, 48));
        lemma_pow256_increases(4, 16);
        lemma_pow256_increases(8, 16);
    }
    let supply_raw = read_le_bytes(bytes, 0, 16);
    let supply_precision = read_le_bytes(bytes, 16, 4) as u32;
    let initial_raw = read_le_bytes(bytes, 20, 16);
    let initial_precision = read_le_bytes(bytes, 36, 4) as u32;
    let ts = read_le_bytes(bytes, 40, 8) as u64;
    Some(
        ShareTokenAttributes {
            total_share_supply: crate::decimal::FixedDecimal::from_raw_units(
                supply_raw,
                supply_precision,
            ),
            total_initial_supplied_amount: crate::decimal::FixedDecimal::from_raw_units(
                initial_raw,
                initial_precision,
            ),
            last_interaction_ts_millis: ts,
        },
    )
}

/// Decodes a snapshot, falling back to the empty snapshot for any buffer
/// that does not carry one.
pub fn attributes_from_buffer_or_default(bytes: &Vec<u8>) -> (r: ShareTokenAttributes)
    ensures
        spec_decode_attributes(bytes@) matches Some(a) ==> r == a,
        spec_decode_attributes(bytes@) is None ==> r == crate::snapshot::default_attributes(),
{
    match attributes_from_buffer(bytes) {
        Some(attrs) => attrs,
        None => ShareTokenAttributes::default(),
    }
}

/// Encoding then decoding a snapshot yields the identical snapshot: the
/// attribute buffer loses no precision.
pub proof fn lemma_attributes_roundtrip(attrs: ShareTokenAttributes)
    ensures
        spec_decode_attributes(spec_encode_attributes(attrs)) == Some(attrs),
{
    lemma_pow256_values();
    let supply_raw = le_bytes(attrs.total_share_supply.raw as nat, 16);
    let supply_prec = le_bytes(attrs.total_share_supply.precision as nat, 4);
    let initial_raw = le_bytes(attrs.total_initial_supplied_amount.raw as nat, 16);
    let initial_prec = le_bytes(attrs.total_initial_supplied_amount.precision as nat, 4);
    let ts = le_bytes(attrs.last_interaction_ts_millis as nat, 8);
    lemma_le_bytes_len(attrs.total_share_supply.raw as nat, 16);
    lemma_le_bytes_len(attrs.total_share_supply.precision as nat, 4);
    lemma_le_bytes_len(attrs.total_initial_supplied_amount.raw as nat, 16);
    lemma_le_bytes_len(attrs.total_initial_supplied_amount.precision as nat, 4);
    lemma_le_bytes_len(attrs.last_interaction_ts_millis as nat, 8);
    let s = spec_encode_attributes(attrs);
    assert(s.subrange(0, 16) =~= supply_raw);
    assert(s.subrange(16, 20) =~= supply_prec);
    assert(s.subrange(20, 36) =~= initial_raw);
    assert(s.subrange(36, 40) =~= initial_prec);
    assert(s.subrange(40, 48) =~= ts);
    lemma_le_bytes_roundtrip(attrs.total_share_supply.raw as nat, 16);
    lemma_le_bytes_roundtrip(attrs.total_share_supply.precision as nat, 4);
    lemma_le_bytes_roundtrip(attrs.total_initial_supplied_amount.raw as nat, 16);
    lemma_le_bytes_roundtrip(attrs.total_initial_supplied_amount.precision as nat, 4);
    lemma_le_bytes_roundtrip(attrs.last_interaction_ts_millis as nat, 8);
}

} // verus!
