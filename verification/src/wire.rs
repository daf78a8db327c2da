//! The binary wire-format contract: base-128 varints, tag packing, and the
//! per-field size formulas that every generated message must agree on.

use vstd::prelude::*;
use vstd::slice::{slice_subrange, slice_to_vec};
use vstd::utf8::{decode_utf8, encode_utf8, encode_utf8_decode_utf8, valid_utf8};

verus! {

/// How a field's bytes are framed on the wire.
#[derive(Clone, Copy, PartialEq, Eq, Structural, Debug)]
pub enum WireType {
    Varint,
    Fixed64,
    LengthDelimited,
    StartGroup,
    EndGroup,
    Fixed32,
}

/// A recoverable decode failure, classified so that a caller can tell
/// truncation apart from malformed data.
#[derive(Clone, Copy, PartialEq, Eq, Structural, Debug)]
pub enum WireError {
    /// The input ended before the announced data did.
    TruncatedInput,
    /// A varint ran past its last allowed byte with the continuation bit
    /// still set, or did not fit in 64 bits.
    MalformedVarint,
    /// A tag carried a wire-type code that names no wire type, or field
    /// number zero.
    InvalidTag,
    /// A known field arrived under a different wire type than its declared
    /// kind calls for.
    WireTypeMismatch,
    /// A string field's payload was not valid UTF-8.
    InvalidUtf8,
}

/// The small integer that identifies a wire type inside a tag.
pub open spec fn wire_type_code(wt: WireType) -> nat {
    match wt {
        WireType::Varint => 0,
        WireType::Fixed64 => 1,
        WireType::LengthDelimited => 2,
        WireType::StartGroup => 3,
        WireType::EndGroup => 4,
        WireType::Fixed32 => 5,
    }
}

/// The little-endian base-128 encoding of `n`: seven payload bits per byte,
/// the high bit of every byte but the last set as a continuation mark.
pub open spec fn varint(n: nat) -> Seq<u8>
    decreases n,
{
    if n < 128 {
        seq![n as u8]
    } else {
        seq![(128 + n % 128) as u8] + varint(n / 128)
    }
}

/// How many bytes `varint(n)` takes.
pub open spec fn varint_len(n: nat) -> nat
    decreases n,
{
    if n < 128 {
        1
    } else {
        1 + varint_len(n / 128)
    }
}

pub proof fn lemma_varint_len(n: nat)
    ensures
        varint(n).len() == varint_len(n),
        1 <= varint_len(n),
    decreases n,
{
    if n >= 128 {
        lemma_varint_len(n / 128);
    }
}

/// A varint for a 64-bit value never takes more than ten bytes.
pub proof fn lemma_varint_len_bound(n: nat)
    requires
        n < 0x1_0000_0000_0000_0000,
    ensures
        varint_len(n) <= 10,
{
    assert(pow128(10) == 0x40_0000_0000_0000_0000) by {
        reveal_with_fuel(pow128, 11);
    }
    lemma_varint_len_pow(n, 10);
}

proof fn lemma_varint_len_pow(n: nat, k: nat)
    requires
        n < pow128(k),
        1 <= k,
    ensures
        varint_len(n) <= k,
    decreases k,
{
    if n >= 128 {
        lemma_varint_len_pow(n / 128, (k - 1) as nat);
    }
}

/// 128 raised to `k`; the place value of the `k`-th varint byte.
pub open spec fn pow128(k: nat) -> nat
    decreases k,
{
    if k == 0 {
        1
    } else {
        128 * pow128((k - 1) as nat)
    }
}

/// What reading a varint at `pos` yields, given at most `fuel` more bytes
/// of the encoding: the value and the position just past it, or the error.
/// Running out of input is truncation; running out of fuel means the
/// continuation bit was still set on the last allowed byte.
pub open spec fn varint_decode_rec(data: Seq<u8>, pos: int, fuel: nat) -> Result<
    (nat, int),
    WireError,
>
    decreases fuel,
{
    if fuel == 0 {
        Err(WireError::MalformedVarint)
    } else if !(0 <= pos < data.len()) {
        Err(WireError::TruncatedInput)
    } else if data[pos] < 128 {
        Ok((data[pos] as nat, pos + 1))
    } else {
        match varint_decode_rec(data, pos + 1, (fuel - 1) as nat) {
            Ok((v, end)) => Ok((((data[pos] - 128) + 128 * v) as nat, end)),
            Err(e) => Err(e),
        }
    }
}

/// What reading a 64-bit varint at `pos` yields: at most ten bytes are
/// read, and a value that does not fit in 64 bits is malformed.
pub open spec fn spec_read_varint(data: Seq<u8>, pos: int) -> Result<(nat, int), WireError> {
    match varint_decode_rec(data, pos, 10) {
        Ok((v, end)) => if v < 0x1_0000_0000_0000_0000 {
            Ok((v, end))
        } else {
            Err(WireError::MalformedVarint)
        },
        Err(e) => Err(e),
    }
}

/// Appends the varint encoding of `n` to `out`.
pub fn write_raw_varint64(out: &mut Vec<u8>, n: u64)
    ensures
        final(out)@ == old(out)@ + varint(n as nat),
    decreases n,
{
    if n < 128 {
        out.push(n as u8);
        assert(final(out)@ =~= old(out)@ + varint(n as nat));
    } else {
        let b: u8 = (128 + n % 128) as u8;
        out.push(b);
        write_raw_varint64(out, n / 128);
        assert(final(out)@ =~= old(out)@ + varint(n as nat));
    }
}

fn read_varint_rec(data: &[u8], pos: usize, fuel: u8) -> (r: Result<(u64, usize), WireError>)
    ensures
        match r {
            Ok(p) => varint_decode_rec(data@, pos as int, fuel as nat) == Ok::<(nat, int),
                WireError,
            >(((p.0 as nat), (p.1 as int))) && pos < p.1 <= data@.len(),
            Err(e) => {
                &&& (e == WireError::TruncatedInput || e == WireError::MalformedVarint)
                &&& e == WireError::TruncatedInput ==> varint_decode_rec(
                    data@,
                    pos as int,
                    fuel as nat,
                ) == Err::<(nat, int), WireError>(WireError::TruncatedInput)
                &&& e == WireError::MalformedVarint ==> ((varint_decode_rec(
                    data@,
                    pos as int,
                    fuel as nat,
                ) matches Ok(p) && p.0 >= 0x1_0000_0000_0000_0000) || varint_decode_rec(
                    data@,
                    pos as int,
                    fuel as nat,
                ) == Err::<(nat, int), WireError>(WireError::MalformedVarint))
            },
        },
    decreases fuel,
{
    if fuel == 0 {
        Err(WireError::MalformedVarint)
    } else if pos >= data.len() {
        Err(WireError::TruncatedInput)
    } else {
        let b = data[pos];
        if b < 128 {
            Ok((b as u64, pos + 1))
        } else {
            match read_varint_rec(data, pos + 1, fuel - 1) {
                Ok((v, end)) => {
                    let tot: u128 = (b - 128) as u128 + 128u128 * (v as u128);
                    if tot <= 0xFFFF_FFFF_FFFF_FFFFu128 {
                        Ok((tot as u64, end))
                    } else {
                        Err(WireError::MalformedVarint)
                    }
                },
                Err(e) => {
                    proof {
                        let rec = varint_decode_rec(data@, pos + 1, (fuel - 1) as nat);
                        if e == WireError::MalformedVarint && rec is Ok {
                            let p = rec->Ok_0;
                            assert((data@[pos as int] - 128) + 128 * p.0
                                >= 0x1_0000_0000_0000_0000) by (nonlinear_arith)
                                requires
                                    p.0 >= 0x1_0000_0000_0000_0000,
                                    data@[pos as int] >= 128,
                            ;
                        }
                    }
                    Err(e)
                },
            }
        }
    }
}

/// Reads one 64-bit varint starting at `pos`, per `spec_read_varint`.
pub fn read_raw_varint64(data: &[u8], pos: usize) -> (r: Result<(u64, usize), WireError>)
    ensures
        match r {
            Ok(p) => spec_read_varint(data@, pos as int) == Ok::<(nat, int), WireError>((
                (p.0 as nat),
                (p.1 as int),
            )) && pos < p.1 <= data@.len(),
            Err(e) => spec_read_varint(data@, pos as int) == Err::<(nat, int), WireError>(e),
        },
{
    read_varint_rec(data, pos, 10)
}

proof fn lemma_vdec_encode(n: nat, data: Seq<u8>, pos: int, fuel: nat)
    requires
        0 <= pos,
        pos + varint_len(n) <= data.len(),
        data.subrange(pos, pos + varint_len(n)) == varint(n),
        varint_len(n) <= fuel,
    ensures
        varint_decode_rec(data, pos, fuel) == Ok::<(nat, int), WireError>((
            n,
            pos + varint_len(n),
        )),
    decreases n,
{
    lemma_varint_len(n);
    assert(data[pos] == varint(n)[0]);
    if n >= 128 {
        assert(data.subrange(pos + 1, pos + varint_len(n)) =~= varint(n).subrange(
            1,
            varint_len(n) as int,
        ));
        assert(varint(n).subrange(1, varint_len(n) as int) =~= varint(n / 128));
        lemma_vdec_encode(n / 128, data, pos + 1, (fuel - 1) as nat);
    }
}

/// Reading a varint where its encoding was written gives the value back:
/// the decoder is a left inverse of the encoder.
pub proof fn lemma_varint_round_trip(n: nat, data: Seq<u8>, pos: int)
    requires
        n < 0x1_0000_0000_0000_0000,
        0 <= pos,
        pos + varint_len(n) <= data.len(),
        data.subrange(pos, pos + varint_len(n)) == varint(n),
    ensures
        spec_read_varint(data, pos) == Ok::<(nat, int), WireError>((n, pos + varint_len(n))),
{
    lemma_varint_len_bound(n);
    lemma_vdec_encode(n, data, pos, 10);
}

/// The packed tag for a field: the field number shifted into the high bits
/// with the wire-type code in the low three.
pub open spec fn make_tag(field_number: nat, wt: WireType) -> nat {
    field_number * 8 + wire_type_code(wt)
}

/// The wire type a tag's low three bits name, if any.
pub open spec fn wire_type_of_code(c: nat) -> Option<WireType> {
    if c == 0 {
        Some(WireType::Varint)
    } else if c == 1 {
        Some(WireType::Fixed64)
    } else if c == 2 {
        Some(WireType::LengthDelimited)
    } else if c == 3 {
        Some(WireType::StartGroup)
    } else if c == 4 {
        Some(WireType::EndGroup)
    } else if c == 5 {
        Some(WireType::Fixed32)
    } else {
        None
    }
}

/// The largest field number a tag can carry.
pub const FIELD_NUMBER_MAX: u32 = 0x1FFF_FFFF;

/// What reading a tag at `pos` yields: the field number, the wire type and
/// the position just past the tag. A tag whose wire-type code names no
/// wire type, or whose field number is zero or out of range, is invalid.
pub open spec fn spec_read_tag(data: Seq<u8>, pos: int) -> Result<(nat, WireType, int), WireError> {
    match spec_read_varint(data, pos) {
        Ok((t, end)) => match wire_type_of_code(t % 8) {
            Some(wt) => if 1 <= t / 8 <= FIELD_NUMBER_MAX {
                Ok((t / 8, wt, end))
            } else {
                Err(WireError::InvalidTag)
            },
            None => Err(WireError::InvalidTag),
        },
        Err(e) => Err(e),
    }
}

/// Reading a tag where its encoding was written gives the field number
/// and wire type back.
pub proof fn lemma_tag_round_trip(num: nat, wt: WireType, data: Seq<u8>, pos: int)
    requires
        1 <= num <= FIELD_NUMBER_MAX,
        0 <= pos,
        pos + varint_len(make_tag(num, wt)) <= data.len(),
        data.subrange(pos, pos + varint_len(make_tag(num, wt))) == varint(make_tag(num, wt)),
    ensures
        spec_read_tag(data, pos) == Ok::<(nat, WireType, int), WireError>((
            num,
            wt,
            pos + varint_len(make_tag(num, wt)),
        )),
{
    let t = make_tag(num, wt);
    let c = wire_type_code(wt);
    lemma_varint_round_trip(t, data, pos);
    assert((num * 8 + c) % 8 == c && (num * 8 + c) / 8 == num) by (nonlinear_arith)
        requires
            0 <= c < 8,
            0 <= num,
    ;
}

fn wire_type_code_exec(wt: WireType) -> (c: u64)
    ensures
        c == wire_type_code(wt),
{
    match wt {
        WireType::Varint => 0,
        WireType::Fixed64 => 1,
        WireType::LengthDelimited => 2,
        WireType::StartGroup => 3,
        WireType::EndGroup => 4,
        WireType::Fixed32 => 5,
    }
}

/// Reads and unpacks one tag starting at `pos`, per `spec_read_tag`.
pub fn read_tag_unpack(data: &[u8], pos: usize) -> (r: Result<(u32, WireType, usize), WireError>)
    ensures
        match r {
            Ok(t) => spec_read_tag(data@, pos as int) == Ok::<(nat, WireType, int), WireError>((
                (t.0 as nat),
                t.1,
                (t.2 as int),
            )) && pos < t.2 <= data@.len() && 1 <= t.0 <= FIELD_NUMBER_MAX,
            Err(e) => spec_read_tag(data@, pos as int) == Err::<(nat, WireType, int), WireError>(e),
        },
{
    match read_raw_varint64(data, pos) {
        Ok((t, end)) => {
            let code = t % 8;
            let field = t / 8;
            let wt = if code == 0 {
                WireType::Varint
            } else if code == 1 {
                WireType::Fixed64
            } else if code == 2 {
                WireType::LengthDelimited
            } else if code == 3 {
                WireType::StartGroup
            } else if code == 4 {
                WireType::EndGroup
            } else if code == 5 {
                WireType::Fixed32
            } else {
                return Err(WireError::InvalidTag);
            };
            if 1 <= field && field <= FIELD_NUMBER_MAX as u64 {
                Ok((field as u32, wt, end))
            } else {
                Err(WireError::InvalidTag)
            }
        },
        Err(e) => Err(e),
    }
}

/// Appends the tag for `(field_number, wt)` to `out`.
pub fn write_tag(out: &mut Vec<u8>, field_number: u32, wt: WireType)
    requires
        1 <= field_number <= FIELD_NUMBER_MAX,
    ensures
        final(out)@ == old(out)@ + varint(make_tag(field_number as nat, wt)),
{
    let code = wire_type_code_exec(wt);
    write_raw_varint64(out, (field_number as u64) * 8 + code);
}

/// Appends every byte of `bytes` to `out`.
pub fn append_bytes(out: &mut Vec<u8>, bytes: &[u8])
    ensures
        final(out)@ == old(out)@ + bytes@,
{
    let mut i: usize = 0;
    while i < bytes.len()
        invariant
            i <= bytes@.len(),
            out@ == old(out)@ + bytes@.subrange(0, i as int),
        decreases bytes@.len() - i,
    {
        out.push(bytes[i]);
        i = i + 1;
        assert(out@ =~= old(out)@ + bytes@.subrange(0, i as int));
    }
    assert(out@ =~= old(out)@ + bytes@);
}

/// The number of bytes the varint encoding of `n` takes.
pub fn compute_raw_varint64_size(n: u64) -> (r: u32)
    ensures
        r == varint_len(n as nat),
        1 <= r <= 10,
    decreases n,
{
    proof {
        lemma_varint_len_bound(n as nat);
    }
    if n < 128 {
        1
    } else {
        1 + compute_raw_varint64_size(n / 128)
    }
}

/// The number of bytes the tag for `(field_number, wt)` takes.
pub fn tag_size(field_number: u32, wt: WireType) -> (r: u32)
    requires
        1 <= field_number <= FIELD_NUMBER_MAX,
    ensures
        r == varint_len(make_tag(field_number as nat, wt)),
        1 <= r <= 5,
{
    let code = wire_type_code_exec(wt);
    let r = compute_raw_varint64_size((field_number as u64) * 8 + code);
    proof {
        assert(pow128(5) == 0x8_0000_0000) by {
            reveal_with_fuel(pow128, 6);
        }
        lemma_varint_len_pow((field_number as nat) * 8 + wire_type_code(wt), 5);
    }
    r
}

/// A length-delimited frame: the payload preceded by its varint length.
pub open spec fn length_delimited(payload: Seq<u8>) -> Seq<u8> {
    varint(payload.len()) + payload
}

/// What reading a length-delimited frame at `pos` yields: the payload and
/// the position just past it. A length prefix claiming more bytes than
/// remain is truncation.
pub open spec fn spec_read_len_delimited(data: Seq<u8>, pos: int) -> Result<
    (Seq<u8>, int),
    WireError,
> {
    match spec_read_varint(data, pos) {
        Ok((n, end)) => if end + n <= data.len() {
            Ok((data.subrange(end, end + n), end + n))
        } else {
            Err(WireError::TruncatedInput)
        },
        Err(e) => Err(e),
    }
}

/// Reads one length-delimited frame at `pos`, per `spec_read_len_delimited`.
pub fn read_length_delimited(data: &[u8], pos: usize) -> (r: Result<(Vec<u8>, usize), WireError>)
    ensures
        match r {
            Ok(p) => spec_read_len_delimited(data@, pos as int) == Ok::<(Seq<u8>, int), WireError>(
                (p.0@, (p.1 as int)),
            ) && pos < p.1 <= data@.len(),
            Err(e) => spec_read_len_delimited(data@, pos as int) == Err::<(Seq<u8>, int), WireError>(
                e,
            ),
        },
{
    match read_raw_varint64(data, pos) {
        Ok((n, end)) => {
            if n <= (data.len() - end) as u64 {
                let stop = end + (n as usize);
                let payload = slice_to_vec(slice_subrange(data, end, stop));
                Ok((payload, stop))
            } else {
                Err(WireError::TruncatedInput)
            }
        },
        Err(e) => Err(e),
    }
}

/// What reading a string field's payload at `pos` yields: the decoded
/// characters and the position just past them. A payload that is not
/// valid UTF-8 is an error of its own kind.
pub open spec fn spec_read_string(data: Seq<u8>, pos: int) -> Result<(Seq<char>, int), WireError> {
    match spec_read_len_delimited(data, pos) {
        Ok((payload, end)) => if valid_utf8(payload) {
            Ok((decode_utf8(payload), end))
        } else {
            Err(WireError::InvalidUtf8)
        },
        Err(e) => Err(e),
    }
}

/// Relies on String::from_utf8: it succeeds exactly when the bytes are
/// valid UTF-8, and the returned string's byte representation is the
/// input unchanged.
#[verifier::external_body]
fn string_from_utf8(bytes: Vec<u8>) -> (r: Option<String>)
    ensures
        r is Some <==> valid_utf8(bytes@),
        r is Some ==> encode_utf8(r->0@) == bytes@,
{
    String::from_utf8(bytes).ok()
}

/// Reads one length-delimited UTF-8 string at `pos`, per `spec_read_string`.
pub fn read_string(data: &[u8], pos: usize) -> (r: Result<(String, usize), WireError>)
    ensures
        match r {
            Ok(p) => spec_read_string(data@, pos as int) == Ok::<(Seq<char>, int), WireError>((
                p.0@,
                (p.1 as int),
            )) && pos < p.1 <= data@.len(),
            Err(e) => spec_read_string(data@, pos as int) == Err::<(Seq<char>, int), WireError>(e),
        },
{
    match read_length_delimited(data, pos) {
        Ok((payload, end)) => {
            match string_from_utf8(payload) {
                Some(s) => {
                    proof {
                        encode_utf8_decode_utf8(s@);
                    }
                    Ok((s, end))
                },
                None => Err(WireError::InvalidUtf8),
            }
        },
        Err(e) => Err(e),
    }
}

/// The encoding of one present string field: tag, then the UTF-8 bytes in
/// a length-delimited frame.
pub open spec fn string_field(field_number: nat, s: Seq<char>) -> Seq<u8> {
    varint(make_tag(field_number, WireType::LengthDelimited)) + length_delimited(encode_utf8(s))
}

/// Appends the encoding of one string field to `out`.
pub fn write_string(out: &mut Vec<u8>, field_number: u32, s: &str)
    requires
        1 <= field_number <= FIELD_NUMBER_MAX,
    ensures
        final(out)@ == old(out)@ + string_field(field_number as nat, s@),
{
    write_tag(out, field_number, WireType::LengthDelimited);
    let bytes = s.as_bytes();
    write_raw_varint64(out, bytes.len() as u64);
    append_bytes(out, bytes);
    assert(final(out)@ =~= old(out)@ + string_field(field_number as nat, s@));
}

/// The four little-endian bytes of a 32-bit fixed-width value.
pub open spec fn le32(v: nat) -> Seq<u8> {
    seq![
        (v % 256) as u8,
        ((v / 0x100) % 256) as u8,
        ((v / 0x10000) % 256) as u8,
        ((v / 0x1000000) % 256) as u8,
    ]
}

/// The eight little-endian bytes of a 64-bit fixed-width value.
pub open spec fn le64(v: nat) -> Seq<u8> {
    seq![
        (v % 256) as u8,
        ((v / 0x100) % 256) as u8,
        ((v / 0x10000) % 256) as u8,
        ((v / 0x1000000) % 256) as u8,
        ((v / 0x1_0000_0000) % 256) as u8,
        ((v / 0x100_0000_0000) % 256) as u8,
        ((v / 0x1_0000_0000_0000) % 256) as u8,
        ((v / 0x100_0000_0000_0000) % 256) as u8,
    ]
}

/// What reading a 32-bit fixed-width value at `pos` yields.
pub open spec fn spec_read_fixed32(data: Seq<u8>, pos: int) -> Result<(u32, int), WireError> {
    if 0 <= pos && pos + 4 <= data.len() {
        Ok(
            (
                (data[pos] + data[pos + 1] * 0x100 + data[pos + 2] * 0x10000 + data[pos + 3]
                    * 0x1000000) as u32,
                pos + 4,
            ),
        )
    } else {
        Err(WireError::TruncatedInput)
    }
}

/// What reading a 64-bit fixed-width value at `pos` yields.
pub open spec fn spec_read_fixed64(data: Seq<u8>, pos: int) -> Result<(u64, int), WireError> {
    if 0 <= pos && pos + 8 <= data.len() {
        Ok(
            (
                (data[pos] + data[pos + 1] * 0x100 + data[pos + 2] * 0x10000 + data[pos + 3]
                    * 0x1000000 + data[pos + 4] * 0x1_0000_0000 + data[pos + 5] * 0x100_0000_0000
                    + data[pos + 6] * 0x1_0000_0000_0000 + data[pos + 7]
                    * 0x100_0000_0000_0000) as u64,
                pos + 8,
            ),
        )
    } else {
        Err(WireError::TruncatedInput)
    }
}

/// Reading back the little-endian bytes of `v` gives `v` again.
pub proof fn lemma_le32_value(v: u32)
    ensures
        le32(v as nat)[0] + le32(v as nat)[1] * 0x100 + le32(v as nat)[2] * 0x10000 + le32(
            v as nat,
        )[3] * 0x1000000 == v,
{
    assert(v % 256 + ((v / 0x100) % 256) * 0x100 + ((v / 0x10000) % 256) * 0x10000 + ((v
        / 0x1000000) % 256) * 0x1000000 == v) by (bit_vector);
}

/// Reading back the little-endian bytes of `v` gives `v` again.
pub proof fn lemma_le64_value(v: u64)
    ensures
        le64(v as nat)[0] + le64(v as nat)[1] * 0x100 + le64(v as nat)[2] * 0x10000 + le64(
            v as nat,
        )[3] * 0x1000000 + le64(v as nat)[4] * 0x1_0000_0000 + le64(v as nat)[5] * 0x100_0000_0000
            + le64(v as nat)[6] * 0x1_0000_0000_0000 + le64(v as nat)[7] * 0x100_0000_0000_0000
            == v,
{
    assert(v % 256 + ((v / 0x100) % 256) * 0x100 + ((v / 0x10000) % 256) * 0x10000 + ((v
        / 0x1000000) % 256) * 0x1000000 + ((v / 0x1_0000_0000) % 256) * 0x1_0000_0000 + ((v
        / 0x100_0000_0000) % 256) * 0x100_0000_0000 + ((v / 0x1_0000_0000_0000) % 256)
        * 0x1_0000_0000_0000 + ((v / 0x100_0000_0000_0000) % 256) * 0x100_0000_0000_0000 == v)
        by (bit_vector);
}

/// Reads a 32-bit fixed-width value at `pos`, per `spec_read_fixed32`.
pub fn read_fixed32(data: &[u8], pos: usize) -> (r: Result<(u32, usize), WireError>)
    ensures
        match r {
            Ok(p) => spec_read_fixed32(data@, pos as int) == Ok::<(u32, int), WireError>((
                p.0,
                (p.1 as int),
            )) && pos < p.1 <= data@.len(),
            Err(e) => spec_read_fixed32(data@, pos as int) == Err::<(u32, int), WireError>(e),
        },
{
    if pos < data.len() && data.len() - pos >= 4 {
        let v = (data[pos] as u32) + (data[pos + 1] as u32) * 0x100 + (data[pos + 2] as u32)
            * 0x10000 + (data[pos + 3] as u32) * 0x1000000;
        Ok((v, pos + 4))
    } else {
        Err(WireError::TruncatedInput)
    }
}

/// Reads a 64-bit fixed-width value at `pos`, per `spec_read_fixed64`.
pub fn read_fixed64(data: &[u8], pos: usize) -> (r: Result<(u64, usize), WireError>)
    ensures
        match r {
            Ok(p) => spec_read_fixed64(data@, pos as int) == Ok::<(u64, int), WireError>((
                p.0,
                (p.1 as int),
            )) && pos < p.1 <= data@.len(),
            Err(e) => spec_read_fixed64(data@, pos as int) == Err::<(u64, int), WireError>(e),
        },
{
    if pos < data.len() && data.len() - pos >= 8 {
        let v = (data[pos] as u64) + (data[pos + 1] as u64) * 0x100 + (data[pos + 2] as u64)
            * 0x10000 + (data[pos + 3] as u64) * 0x1000000 + (data[pos + 4] as u64) * 0x1_0000_0000
            + (data[pos + 5] as u64) * 0x100_0000_0000 + (data[pos + 6] as u64) * 0x1_0000_0000_0000
            + (data[pos + 7] as u64) * 0x100_0000_0000_0000;
        Ok((v, pos + 8))
    } else {
        Err(WireError::TruncatedInput)
    }
}

/// Appends the four little-endian bytes of `v` to `out`.
pub fn write_fixed32(out: &mut Vec<u8>, v: u32)
    ensures
        final(out)@ == old(out)@ + le32(v as nat),
{
    out.push((v % 256) as u8);
    out.push(((v / 0x100) % 256) as u8);
    out.push(((v / 0x10000) % 256) as u8);
    out.push(((v / 0x1000000) % 256) as u8);
    assert(final(out)@ =~= old(out)@ + le32(v as nat));
}

/// Appends the eight little-endian bytes of `v` to `out`.
pub fn write_fixed64(out: &mut Vec<u8>, v: u64)
    ensures
        final(out)@ == old(out)@ + le64(v as nat),
{
    out.push((v % 256) as u8);
    out.push(((v / 0x100) % 256) as u8);
    out.push(((v / 0x10000) % 256) as u8);
    out.push(((v / 0x1000000) % 256) as u8);
    out.push(((v / 0x1_0000_0000) % 256) as u8);
    out.push(((v / 0x100_0000_0000) % 256) as u8);
    out.push(((v / 0x1_0000_0000_0000) % 256) as u8);
    out.push(((v / 0x100_0000_0000_0000) % 256) as u8);
    assert(final(out)@ =~= old(out)@ + le64(v as nat));
}

/// The byte length of one present string field's encoding.
pub fn string_size(field_number: u32, s: &str) -> (r: u32)
    requires
        1 <= field_number <= FIELD_NUMBER_MAX,
        string_field(field_number as nat, s@).len() <= 0xFFFF_FFFF,
    ensures
        r == string_field(field_number as nat, s@).len(),
{
    let t = tag_size(field_number, WireType::LengthDelimited);
    let len = s.as_bytes().len();
    let lp = compute_raw_varint64_size(len as u64);
    proof {
        lemma_varint_len(make_tag(field_number as nat, WireType::LengthDelimited));
        lemma_varint_len(encode_utf8(s@).len());
    }
    t + lp + (len as u32)
}

} // verus!
