//! The Z1's 7-in-8 dump packing: 8-bit data travels in groups of up to 7
//! bytes, each group preceded by a lead byte that carries their top bits
//! (bit i of the lead byte is bit 7 of the i-th following byte).

use vstd::prelude::*;

use crate::sysex::DecodeError;

verus! {

/// The byte with only bit `i` set (for `i` in 0..8).
pub open spec fn bit_mask(i: int) -> u8 {
    1u8 << (i as u8)
}

/// Every byte of `s` has its top bit clear.
pub open spec fn all_seven_bit(s: Seq<u8>) -> bool {
    forall|i: int| 0 <= i < s.len() ==> #[trigger] s[i] < 0x80
}

/// The lead byte of a group: bit i is set exactly when the i-th byte of the
/// group has its top bit set.
pub open spec fn lead_byte(group: Seq<u8>) -> u8
    decreases group.len(),
{
    if group.len() == 0 {
        0
    } else {
        let rest = lead_byte(group.drop_last());
        if group.last() >= 0x80 {
            rest | bit_mask(group.len() - 1)
        } else {
            rest
        }
    }
}

/// One packed group: the lead byte, then each byte with its top bit cleared.
pub open spec fn pack_group(group: Seq<u8>) -> Seq<u8> {
    seq![lead_byte(group)] + Seq::new(group.len(), |i: int| group[i] & 0x7F)
}

/// The 7-in-8 packing of `data`: its groups of 7 bytes (the last one possibly
/// shorter), each packed, one after the other.
pub open spec fn pack_spec(data: Seq<u8>) -> Seq<u8>
    decreases data.len(),
{
    if data.len() == 0 {
        seq![]
    } else if data.len() <= 7 {
        pack_group(data)
    } else {
        pack_group(data.take(7)) + pack_spec(data.skip(7))
    }
}

/// `low` with its top bit set when `top` holds.
pub open spec fn with_top_bit(low: u8, top: bool) -> u8 {
    if top {
        low | 0x80
    } else {
        low
    }
}

/// The data bytes carried by one non-empty wire group: the bytes after the
/// lead, the i-th getting its top bit from bit i of the lead.
pub open spec fn unpack_group(group: Seq<u8>) -> Seq<u8> {
    Seq::new(
        (group.len() - 1) as nat,
        |i: int| with_top_bit(group[i + 1], group[0] & bit_mask(i) != 0),
    )
}

/// The data carried by wire bytes: their groups of 8 bytes (the last one
/// possibly shorter), each unpacked, one after the other.
pub open spec fn unpacked(wire: Seq<u8>) -> Seq<u8>
    decreases wire.len(),
{
    if wire.len() == 0 {
        seq![]
    } else if wire.len() <= 8 {
        unpack_group(wire)
    } else {
        unpack_group(wire.take(8)) + unpacked(wire.skip(8))
    }
}

/// What unpacking one wire group gives: an empty group is malformed, a byte
/// with its top bit set is refused.
pub open spec fn unpack_group_spec(group: Seq<u8>) -> Result<Seq<u8>, DecodeError> {
    if group.len() == 0 {
        Err(DecodeError::Malformed)
    } else if !all_seven_bit(group) {
        Err(DecodeError::HighBitInData)
    } else {
        Ok(unpack_group(group))
    }
}

/// What unpacking wire bytes gives: the data when every wire byte is 7-bit,
/// else the high-bit error.
pub open spec fn unpack_spec(wire: Seq<u8>) -> Result<Seq<u8>, DecodeError> {
    if all_seven_bit(wire) {
        Ok(unpacked(wire))
    } else {
        Err(DecodeError::HighBitInData)
    }
}

/// The view of an unpacking result.
pub open spec fn unpack_result_view(r: Result<Vec<u8>, DecodeError>) -> Result<Seq<u8>, DecodeError> {
    match r {
        Ok(v) => Ok(v@),
        Err(e) => Err(e),
    }
}

/// The byte with only bit `i` set.
fn bit(i: usize) -> (r: u8)
    requires
        i < 8,
    ensures
        r == bit_mask(i as int),
{
    1u8 << (i as u8)
}

/// `byte` when its top bit is clear.
fn seven_bit(byte: u8) -> (r: Result<u8, DecodeError>)
    ensures
        r == (if byte < 0x80 {
            Ok::<u8, DecodeError>(byte)
        } else {
            Err::<u8, DecodeError>(DecodeError::HighBitInData)
        }),
{
    let top: u8 = byte & 0x80;
    assert((top == 0) == (byte < 0x80)) by (bit_vector)
        requires
            top == byte & 0x80,
    ;
    if top == 0 {
        Ok(byte)
    } else {
        Err(DecodeError::HighBitInData)
    }
}

/// Append the packing of `data[start..end]`, a group of at most 7 bytes.
fn pack_group_into(data: &[u8], start: usize, end: usize, out: &mut Vec<u8>)
    requires
        start <= end <= data.len(),
        end - start <= 7,
    ensures
        final(out)@ == old(out)@ + pack_group(data@.subrange(start as int, end as int)),
{
    let ghost group = data@.subrange(start as int, end as int);
    let mut lead: u8 = 0;
    let mut i: usize = start;
    while i < end
        invariant
            start <= i <= end <= data.len(),
            end - start <= 7,
            group == data@.subrange(start as int, end as int),
            lead == lead_byte(data@.subrange(start as int, i as int)),
        decreases end - i,
    {
        let b = data[i];
        let top: u8 = b & 0x80;
        assert((top != 0) == (b >= 0x80)) by (bit_vector)
            requires
                top == b & 0x80,
        ;
        let ghost prefix = data@.subrange(start as int, i as int + 1);
        assert(prefix.drop_last() =~= data@.subrange(start as int, i as int));
        assert(prefix.last() == b);
        if top != 0 {
            lead = lead | bit(i - start);
        }
        i = i + 1;
    }
    let ghost base = out@;
    out.push(lead);
    let mut j: usize = start;
    while j < end
        invariant
            start <= j <= end <= data.len(),
            group == data@.subrange(start as int, end as int),
            lead == lead_byte(group),
            out@ == base + seq![lead] + Seq::new((j - start) as nat, |k: int| group[k] & 0x7F),
        decreases end - j,
    {
        let low: u8 = data[j] & 0x7F;
        out.push(low);
        j = j + 1;
        assert(out@ =~= base + seq![lead] + Seq::new((j - start) as nat, |k: int| group[k] & 0x7F));
    }
    assert(out@ =~= base + pack_group(group));
}

/// Pack 8-bit data into the Z1's 7-in-8 dump format: each group of up to
/// 7 data bytes is preceded by a byte carrying their top bits (bit i of the
/// lead byte is bit 7 of the i-th following byte).
#[must_use]
pub fn pack_7in8(data: &[u8]) -> (out: Vec<u8>)
    ensures
        out@ == pack_spec(data@),
{
    let mut out: Vec<u8> = Vec::new();
    let mut pos: usize = 0;
    assert(data@.skip(0) =~= data@);
    assert(out@ + pack_spec(data@) =~= pack_spec(data@));
    while pos < data.len()
        invariant
            pos <= data.len(),
            out@ + pack_spec(data@.skip(pos as int)) == pack_spec(data@),
        decreases data.len() - pos,
    {
        let end: usize = if data.len() - pos <= 7 {
            data.len()
        } else {
            pos + 7
        };
        let ghost rest = data@.skip(pos as int);
        let ghost old_out = out@;
        pack_group_into(data, pos, end, &mut out);
        if data.len() - pos <= 7 {
            assert(rest =~= data@.subrange(pos as int, end as int));
            assert(data@.skip(end as int) =~= Seq::<u8>::empty());
        } else {
            assert(rest.take(7) =~= data@.subrange(pos as int, end as int));
            assert(rest.skip(7) =~= data@.skip(end as int));
        }
        assert(out@ + pack_spec(data@.skip(end as int)) =~= old_out + pack_spec(rest));
        pos = end;
    }
    assert(data@.skip(pos as int) =~= Seq::<u8>::empty());
    assert(out@ =~= out@ + pack_spec(data@.skip(pos as int)));
    out
}

/// Unpack one wire group: a lead byte, then up to 7 bytes that get their top
/// bits from it.
fn unpack_chunk(chunk: &[u8]) -> (r: Result<Vec<u8>, DecodeError>)
    requires
        chunk.len() <= 8,
    ensures
        unpack_result_view(r) == unpack_group_spec(chunk@),
{
    if chunk.len() == 0 {
        return Err(DecodeError::Malformed);
    }
    let lead = match seven_bit(chunk[0]) {
        Ok(b) => b,
        Err(e) => {
            assert(!all_seven_bit(chunk@) && chunk@[0] >= 0x80);
            return Err(e);
        },
    };
    let mut out: Vec<u8> = Vec::new();
    let mut i: usize = 1;
    while i < chunk.len()
        invariant
            1 <= i <= chunk.len() <= 8,
            lead == chunk@[0],
            lead < 0x80,
            forall|k: int| 0 <= k < i ==> #[trigger] chunk@[k] < 0x80,
            out@ =~= unpack_group(chunk@.take(i as int)),
        decreases chunk.len() - i,
    {
        let low = match seven_bit(chunk[i]) {
            Ok(b) => b,
            Err(e) => {
                assert(!all_seven_bit(chunk@) && chunk@[i as int] >= 0x80);
                return Err(e);
            },
        };
        let b: u8 = if lead & bit(i - 1) != 0 {
            low | 0x80
        } else {
            low
        };
        out.push(b);
        i = i + 1;
        assert(out@ =~= unpack_group(chunk@.take(i as int)));
    }
    assert(chunk@.take(i as int) =~= chunk@);
    Ok(out)
}

proof fn lemma_all_seven_bit_split(s: Seq<u8>, n: int)
    requires
        0 <= n <= s.len(),
    ensures
        all_seven_bit(s) <==> all_seven_bit(s.take(n)) && all_seven_bit(s.skip(n)),
{
    if all_seven_bit(s.take(n)) && all_seven_bit(s.skip(n)) {
        assert forall|i: int| 0 <= i < s.len() implies #[trigger] s[i] < 0x80 by {
            if i < n {
                assert(s.take(n)[i] == s[i]);
            } else {
                assert(s.skip(n)[i - n] == s[i]);
            }
        }
    }
    if all_seven_bit(s) {
        assert forall|i: int| 0 <= i < s.take(n).len() implies #[trigger] s.take(n)[i] < 0x80 by {
            assert(s[i] < 0x80);
        }
        assert forall|i: int| 0 <= i < s.skip(n).len() implies #[trigger] s.skip(n)[i] < 0x80 by {
            assert(s[i + n] < 0x80);
        }
    }
}

/// Reverse of [`pack_7in8`].
///
/// Fails with [`DecodeError::HighBitInData`] when any wire byte has its top
/// bit set: packed dump data must be pure 7-bit.
pub fn unpack_7in8(wire: &[u8]) -> (r: Result<Vec<u8>, DecodeError>)
    ensures
        unpack_result_view(r) == unpack_spec(wire@),
{
    let mut out: Vec<u8> = Vec::new();
    let mut pos: usize = 0;
    assert(wire@.skip(0) =~= wire@);
    assert(out@ + unpacked(wire@) =~= unpacked(wire@));
    while pos < wire.len()
        invariant
            pos <= wire.len(),
            unpacked(wire@) == out@ + unpacked(wire@.skip(pos as int)),
            all_seven_bit(wire@) <==> all_seven_bit(wire@.skip(pos as int)),
        decreases wire.len() - pos,
    {
        let end: usize = if wire.len() - pos <= 8 {
            wire.len()
        } else {
            pos + 8
        };
        let ghost rest = wire@.skip(pos as int);
        let n = end - pos;
        proof {
            lemma_all_seven_bit_split(rest, n as int);
        }
        assert(rest.take(n as int) =~= wire@.subrange(pos as int, end as int));
        assert(rest.skip(n as int) =~= wire@.skip(end as int));
        let chunk = &wire[pos..end];
        match unpack_chunk(chunk) {
            Ok(v) => {
                let mut v = v;
                let ghost old_out = out@;
                out.append(&mut v);
                if n == 8 && pos + 8 < wire.len() {
                    assert(unpacked(rest) == unpack_group(rest.take(8)) + unpacked(rest.skip(8)));
                } else {
                    assert(rest =~= rest.take(n as int));
                    assert(wire@.skip(end as int) =~= Seq::<u8>::empty());
                    assert(unpacked(wire@.skip(end as int)) =~= Seq::<u8>::empty());
                }
                assert(out@ + unpacked(wire@.skip(end as int)) =~= old_out + unpacked(rest));
            },
            Err(e) => {
                return Err(e);
            },
        }
        pos = end;
    }
    assert(wire@.skip(pos as int) =~= Seq::<u8>::empty());
    assert(unpacked(wire@.skip(pos as int)) =~= Seq::<u8>::empty());
    assert(out@ =~= unpacked(wire@));
    Ok(out)
}

proof fn lemma_or_bit(x: u8, k: u8, i: u8)
    requires
        k < 8,
        i < 8,
    ensures
        ((x | (1u8 << k)) & (1u8 << i) != 0) == (i == k || x & (1u8 << i) != 0),
{
    assert(((x | (1u8 << k)) & (1u8 << i) != 0) == (i == k || x & (1u8 << i) != 0)) by (bit_vector)
        requires
            k < 8,
            i < 8,
    ;
}

/// Bit i of the lead byte of a group of at most 8 bytes is set exactly when
/// the group's i-th byte has its top bit set.
pub proof fn lemma_lead_byte_bits(group: Seq<u8>, i: int)
    requires
        group.len() <= 8,
        0 <= i < 8,
    ensures
        (lead_byte(group) & bit_mask(i) != 0) == (i < group.len() && group[i] >= 0x80),
    decreases group.len(),
{
    if group.len() == 0 {
        let m = bit_mask(i);
        assert(0u8 & m == 0) by (bit_vector);
    } else {
        let init = group.drop_last();
        lemma_lead_byte_bits(init, i);
        let k = group.len() - 1;
        if i < k {
            assert(init[i] == group[i]);
        }
        if group.last() >= 0x80 {
            lemma_or_bit(lead_byte(init), k as u8, i as u8);
        }
    }
}

proof fn lemma_pack_group(group: Seq<u8>)
    requires
        group.len() <= 7,
    ensures
        pack_group(group).len() == group.len() + 1,
        all_seven_bit(pack_group(group)),
        unpack_group(pack_group(group)) == group,
{
    let p = pack_group(group);
    let lead = lead_byte(group);
    lemma_lead_byte_bits(group, 7);
    assert(lead & (1u8 << 7u8) == 0 ==> lead < 0x80) by (bit_vector);
    assert forall|i: int| 0 <= i < p.len() implies #[trigger] p[i] < 0x80 by {
        if i > 0 {
            let b = group[i - 1];
            assert(b & 0x7F < 0x80) by (bit_vector);
        }
    }
    assert forall|i: int| 0 <= i < group.len() implies #[trigger] unpack_group(p)[i] == group[i] by {
        let b = group[i];
        lemma_lead_byte_bits(group, i);
        assert(b >= 0x80 ==> (b & 0x7F) | 0x80 == b) by (bit_vector);
        assert(b < 0x80 ==> b & 0x7F == b) by (bit_vector);
    }
    assert(unpack_group(p) =~= group);
}

/// Packed data is pure 7-bit.
pub proof fn lemma_pack_seven_bit(data: Seq<u8>)
    ensures
        all_seven_bit(pack_spec(data)),
    decreases data.len(),
{
    if data.len() > 7 {
        lemma_pack_group(data.take(7));
        lemma_pack_seven_bit(data.skip(7));
        let a = pack_group(data.take(7));
        let b = pack_spec(data.skip(7));
        assert forall|i: int| 0 <= i < (a + b).len() implies #[trigger] (a + b)[i] < 0x80 by {
            if i < a.len() {
                assert(a[i] < 0x80);
            } else {
                assert(b[i - a.len()] < 0x80);
            }
        }
    } else if data.len() > 0 {
        lemma_pack_group(data);
    }
}

/// Unpacking packed data gives the data back.
pub proof fn lemma_unpack_pack(data: Seq<u8>)
    ensures
        unpack_spec(pack_spec(data)) == Ok::<Seq<u8>, DecodeError>(data),
    decreases data.len(),
{
    lemma_pack_seven_bit(data);
    if data.len() > 7 {
        let g = data.take(7);
        let rest = data.skip(7);
        lemma_pack_group(g);
        lemma_unpack_pack(rest);
        lemma_pack_seven_bit(rest);
        let a = pack_group(g);
        let b = pack_spec(rest);
        assert(rest.len() > 0);
        assert(b.len() > 0) by {
            if rest.len() <= 7 {
                lemma_pack_group(rest);
            } else {
                lemma_pack_group(rest.take(7));
            }
        }
        assert((a + b).take(8) =~= a);
        assert((a + b).skip(8) =~= b);
        assert(unpacked(a + b) == unpack_group(a) + unpacked(b));
        assert(unpacked(b) == rest);
        assert(g + rest =~= data);
    } else if data.len() > 0 {
        lemma_pack_group(data);
        assert(unpacked(pack_group(data)) == unpack_group(pack_group(data)));
    } else {
        assert(unpacked(pack_spec(data)) =~= data);
    }
}

} // verus!

verus! {

/// Where each data byte travels: packing puts one wire group of 8 bytes per 7
/// data bytes (the last group shorter), data byte i keeps its low seven bits
/// at wire position 8·(i/7) + 1 + i mod 7, in order, and its top bit becomes
/// bit (i mod 7) of the lead byte at 8·(i/7).
pub proof fn lemma_pack_layout(data: Seq<u8>)
    ensures
        pack_spec(data).len() == data.len() + (data.len() + 6) / 7,
        forall|i: int|
            0 <= i < data.len() ==> {
                &&& pack_spec(data)[8 * (i / 7) + 1 + i % 7] == #[trigger] data[i] % 128
                &&& (pack_spec(data)[8 * (i / 7)] & bit_mask(i % 7) != 0) == (data[i] >= 128)
            },
    decreases data.len(),
{
    if data.len() == 0 {
    } else if data.len() <= 7 {
        assert forall|i: int| 0 <= i < data.len() implies {
            &&& pack_spec(data)[8 * (i / 7) + 1 + i % 7] == #[trigger] data[i] % 128
            &&& (pack_spec(data)[8 * (i / 7)] & bit_mask(i % 7) != 0) == (data[i] >= 128)
        } by {
            let b = data[i];
            assert(b & 0x7F == b % 128) by (bit_vector);
            lemma_lead_byte_bits(data, i);
        }
    } else {
        let g = data.take(7);
        let rest = data.skip(7);
        lemma_pack_layout(rest);
        let a = pack_group(g);
        let b = pack_spec(rest);
        assert(pack_spec(data) == a + b);
        assert forall|i: int| 0 <= i < data.len() implies {
            &&& pack_spec(data)[8 * (i / 7) + 1 + i % 7] == #[trigger] data[i] % 128
            &&& (pack_spec(data)[8 * (i / 7)] & bit_mask(i % 7) != 0) == (data[i] >= 128)
        } by {
            if i < 7 {
                let x = g[i];
                assert(x == data[i]);
                assert(x & 0x7F == x % 128) by (bit_vector);
                lemma_lead_byte_bits(g, i);
            } else {
                let j = i - 7;
                assert(j / 7 == i / 7 - 1);
                assert(j % 7 == i % 7);
                assert(rest[j] == data[i]);
                assert(b[8 * (j / 7) + 1 + j % 7] == rest[j] % 128);
            }
        }
    }
}

/// Where each data byte comes from: from 7-bit wire bytes, unpacking gives 7
/// data bytes per wire group of 8 (the last group shorter; a lead byte
/// alone gives none), and data byte i is the wire byte at 8·(i/7) + 1 +
/// i mod 7 plus 128 when bit (i mod 7) of the lead byte at 8·(i/7) is set.
pub proof fn lemma_unpack_layout(wire: Seq<u8>)
    requires
        all_seven_bit(wire),
    ensures
        unpacked(wire).len() == wire.len() - (wire.len() + 7) / 8,
        forall|i: int|
            0 <= i < unpacked(wire).len() ==> #[trigger] unpacked(wire)[i] == wire[8 * (i / 7) + 1
                + i % 7] + (if wire[8 * (i / 7)] & bit_mask(i % 7) != 0 {
                128int
            } else {
                0int
            }),
    decreases wire.len(),
{
    if wire.len() == 0 {
    } else if wire.len() <= 8 {
        assert forall|i: int| 0 <= i < unpacked(wire).len() implies #[trigger] unpacked(wire)[i]
            == wire[8 * (i / 7) + 1 + i % 7] + (if wire[8 * (i / 7)] & bit_mask(i % 7) != 0 {
            128int
        } else {
            0int
        }) by {
            let x = wire[i + 1];
            assert(x < 128);
            assert(x < 128 ==> x | 0x80 == x + 128) by (bit_vector);
        }
    } else {
        let g = wire.take(8);
        let rest = wire.skip(8);
        assert(all_seven_bit(rest)) by {
            assert forall|k: int| 0 <= k < rest.len() implies #[trigger] rest[k] < 0x80 by {
                assert(rest[k] == wire[k + 8]);
            }
        }
        lemma_unpack_layout(rest);
        let a = unpack_group(g);
        let b = unpacked(rest);
        assert(unpacked(wire) == a + b);
        assert forall|i: int| 0 <= i < unpacked(wire).len() implies #[trigger] unpacked(wire)[i]
            == wire[8 * (i / 7) + 1 + i % 7] + (if wire[8 * (i / 7)] & bit_mask(i % 7) != 0 {
            128int
        } else {
            0int
        }) by {
            if i < 7 {
                let x = g[i + 1];
                assert(x == wire[i + 1]);
                assert(x < 128);
                assert(x < 128 ==> x | 0x80 == x + 128) by (bit_vector);
            } else {
                let j = i - 7;
                assert(j / 7 == i / 7 - 1);
                assert(j % 7 == i % 7);
                assert(b[j] == unpacked(wire)[i]);
                assert(rest[8 * (j / 7) + 1 + j % 7] == wire[8 * (i / 7) + 1 + i % 7]);
                assert(rest[8 * (j / 7)] == wire[8 * (i / 7)]);
            }
        }
    }
}

} // verus!

verus! {

/// Unpacking accepts exactly the wire strings whose bytes are all below
/// 128, and refuses every other one with the high-bit error.
pub proof fn lemma_unpack_accepts(wire: Seq<u8>)
    ensures
        (forall|i: int| 0 <= i < wire.len() ==> wire[i] < 128) ==> unpack_spec(wire) == Ok::<
            Seq<u8>,
            DecodeError,
        >(unpacked(wire)),
        (exists|i: int| 0 <= i < wire.len() && wire[i] >= 128) ==> unpack_spec(wire) == Err::<
            Seq<u8>,
            DecodeError,
        >(DecodeError::HighBitInData),
{
}

} // verus!
