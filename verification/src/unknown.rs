//! The unknown-field store: data present in an encoded message that the
//! current schema does not recognize, preserved as opaque values keyed by
//! field number and wire category, and replayed verbatim on a later encode.

use vstd::prelude::*;
use vstd::slice::{slice_subrange, slice_to_vec};

use crate::wire::{
    le32, le64, length_delimited, make_tag, read_fixed32, read_fixed64, read_length_delimited,
    read_raw_varint64, read_tag_unpack, spec_read_fixed32, spec_read_fixed64,
    spec_read_len_delimited, spec_read_tag, spec_read_varint, varint, varint_len, write_fixed32,
    write_fixed64, write_raw_varint64, write_tag, append_bytes, compute_raw_varint64_size,
    tag_size, lemma_varint_len, lemma_varint_round_trip, lemma_tag_round_trip, lemma_le32_value,
    lemma_le64_value, WireError, WireType, FIELD_NUMBER_MAX,
};

verus! {

/// One unrecognized value, kept in the shape its wire category gave it.
/// A group keeps its raw bytes, from just after the opening tag through
/// and including the closing tag.
#[derive(Clone, PartialEq, Debug)]
pub enum UnknownValue {
    Varint(u64),
    Fixed32(u32),
    Fixed64(u64),
    LengthDelimited(Vec<u8>),
    Group(Vec<u8>),
}

/// The mathematical shape of an `UnknownValue`.
pub enum UnknownValueView {
    Varint(u64),
    Fixed32(u32),
    Fixed64(u64),
    LengthDelimited(Seq<u8>),
    Group(Seq<u8>),
}

impl View for UnknownValue {
    type V = UnknownValueView;

    open spec fn view(&self) -> UnknownValueView {
        match self {
            UnknownValue::Varint(n) => UnknownValueView::Varint(*n),
            UnknownValue::Fixed32(v) => UnknownValueView::Fixed32(*v),
            UnknownValue::Fixed64(v) => UnknownValueView::Fixed64(*v),
            UnknownValue::LengthDelimited(b) => UnknownValueView::LengthDelimited(b@),
            UnknownValue::Group(b) => UnknownValueView::Group(b@),
        }
    }
}

/// One unrecognized field: the originating field number and its value.
#[derive(Clone, PartialEq, Debug)]
pub struct UnknownField {
    pub number: u32,
    pub value: UnknownValue,
}

/// The mathematical shape of an `UnknownField`.
pub struct UnknownFieldView {
    pub number: u32,
    pub value: UnknownValueView,
}

impl View for UnknownField {
    type V = UnknownFieldView;

    open spec fn view(&self) -> UnknownFieldView {
        UnknownFieldView { number: self.number, value: self.value@ }
    }
}

/// The ordered store of unrecognized fields attached to a message
/// instance. Order of arrival is preserved so that a later encode can
/// replay the data verbatim.
#[derive(Clone, PartialEq, Debug)]
pub struct UnknownFields {
    pub fields: Vec<UnknownField>,
}

impl View for UnknownFields {
    type V = Seq<UnknownFieldView>;

    open spec fn view(&self) -> Seq<UnknownFieldView> {
        self.fields@.map_values(|f: UnknownField| f@)
    }
}

/// The wire category an unknown value travels under.
pub open spec fn unknown_wire_type(v: UnknownValueView) -> WireType {
    match v {
        UnknownValueView::Varint(_) => WireType::Varint,
        UnknownValueView::Fixed32(_) => WireType::Fixed32,
        UnknownValueView::Fixed64(_) => WireType::Fixed64,
        UnknownValueView::LengthDelimited(_) => WireType::LengthDelimited,
        UnknownValueView::Group(_) => WireType::StartGroup,
    }
}

/// The bytes one unknown field contributes to an encoded message: its
/// tag, then its value in the framing its wire category calls for. A
/// group's stored bytes already end with the closing tag.
pub open spec fn unknown_field_bytes(f: UnknownFieldView) -> Seq<u8> {
    varint(make_tag(f.number as nat, unknown_wire_type(f.value))) + match f.value {
        UnknownValueView::Varint(n) => varint(n as nat),
        UnknownValueView::Fixed32(v) => le32(v as nat),
        UnknownValueView::Fixed64(v) => le64(v as nat),
        UnknownValueView::LengthDelimited(b) => length_delimited(b),
        UnknownValueView::Group(b) => b,
    }
}

/// The bytes a whole unknown-field store contributes, in arrival order.
pub open spec fn unknown_fields_bytes(fs: Seq<UnknownFieldView>) -> Seq<u8>
    decreases fs.len(),
{
    if fs.len() == 0 {
        Seq::empty()
    } else {
        unknown_field_bytes(fs[0]) + unknown_fields_bytes(fs.drop_first())
    }
}

/// Splitting a store splits its bytes at the same point.
pub proof fn lemma_unknown_fields_bytes_split(fs: Seq<UnknownFieldView>, i: int)
    requires
        0 <= i <= fs.len(),
    ensures
        unknown_fields_bytes(fs) == unknown_fields_bytes(fs.take(i)) + unknown_fields_bytes(
            fs.skip(i),
        ),
    decreases i,
{
    if i == 0 {
        assert(fs.take(0) =~= Seq::<UnknownFieldView>::empty());
        assert(fs.skip(0) =~= fs);
        assert(unknown_fields_bytes(fs) =~= unknown_fields_bytes(fs.take(0))
            + unknown_fields_bytes(fs.skip(0)));
    } else {
        lemma_unknown_fields_bytes_split(fs.drop_first(), i - 1);
        assert(fs.drop_first().take(i - 1) =~= fs.take(i).drop_first());
        assert(fs.drop_first().skip(i - 1) =~= fs.skip(i));
        assert(fs.take(i)[0] == fs[0]);
        assert(unknown_fields_bytes(fs) =~= unknown_fields_bytes(fs.take(i))
            + unknown_fields_bytes(fs.skip(i)));
    }
}

/// Every stored field number fits what a tag can carry.
pub open spec fn unknown_fields_wf(fs: Seq<UnknownFieldView>) -> bool {
    forall|i: int| 0 <= i < fs.len() ==> 1 <= (#[trigger] fs[i].number) <= FIELD_NUMBER_MAX
}

/// Where a group that starts at `pos` (just after its opening tag) ends:
/// the position after the closing tag. Tags are read until a close-group
/// tag appears at the current nesting level; nested groups are skipped
/// whole. The two bound guards can never be taken, since every parse step
/// advances; they only keep the recursion visibly finite.
pub open spec fn spec_skip_group(data: Seq<u8>, pos: int) -> Result<int, WireError>
    decreases data.len() - pos, 0int,
{
    if !(0 <= pos <= data.len()) {
        Err(WireError::TruncatedInput)
    } else {
        match spec_read_tag(data, pos) {
            Ok((num, wt, p1)) => if wt == WireType::EndGroup {
                Ok(p1)
            } else if !(pos < p1 <= data.len()) {
                Err(WireError::TruncatedInput)
            } else {
                match spec_skip_field(data, p1, wt) {
                    Ok(p2) => if !(p1 < p2 <= data.len()) {
                        Err(WireError::TruncatedInput)
                    } else {
                        spec_skip_group(data, p2)
                    },
                    Err(e) => Err(e),
                }
            },
            Err(e) => Err(e),
        }
    }
}

/// Where the value of a field with wire type `wt` that starts at `pos`
/// ends. A close-group tag is not a value and cannot stand here.
pub open spec fn spec_skip_field(data: Seq<u8>, pos: int, wt: WireType) -> Result<int, WireError>
    decreases data.len() - pos, 1int,
{
    if !(0 <= pos <= data.len()) {
        Err(WireError::TruncatedInput)
    } else {
        match wt {
            WireType::Varint => match spec_read_varint(data, pos) {
                Ok((_, end)) => Ok(end),
                Err(e) => Err(e),
            },
            WireType::Fixed64 => if pos + 8 <= data.len() {
                Ok(pos + 8)
            } else {
                Err(WireError::TruncatedInput)
            },
            WireType::LengthDelimited => match spec_read_len_delimited(data, pos) {
                Ok((_, end)) => Ok(end),
                Err(e) => Err(e),
            },
            WireType::StartGroup => spec_skip_group(data, pos),
            WireType::EndGroup => Err(WireError::InvalidTag),
            WireType::Fixed32 => if pos + 4 <= data.len() {
                Ok(pos + 4)
            } else {
                Err(WireError::TruncatedInput)
            },
        }
    }
}

fn skip_group_exec(data: &[u8], pos: usize) -> (r: Result<usize, WireError>)
    ensures
        match r {
            Ok(end) => spec_skip_group(data@, pos as int) == Ok::<int, WireError>(end as int)
                && pos < end <= data@.len(),
            Err(e) => spec_skip_group(data@, pos as int) == Err::<int, WireError>(e),
        },
    decreases data@.len() - pos, 0int,
{
    match read_tag_unpack(data, pos) {
        Ok((_num, wt, p1)) => {
            if wt == WireType::EndGroup {
                Ok(p1)
            } else {
                match skip_field_exec(data, p1, wt) {
                    Ok(p2) => skip_group_exec(data, p2),
                    Err(e) => Err(e),
                }
            }
        },
        Err(e) => Err(e),
    }
}

fn skip_field_exec(data: &[u8], pos: usize, wt: WireType) -> (r: Result<usize, WireError>)
    ensures
        match r {
            Ok(end) => spec_skip_field(data@, pos as int, wt) == Ok::<int, WireError>(end as int)
                && pos < end <= data@.len(),
            Err(e) => spec_skip_field(data@, pos as int, wt) == Err::<int, WireError>(e),
        },
    decreases data@.len() - pos, 1int,
{
    if pos > data.len() {
        return Err(WireError::TruncatedInput);
    }
    match wt {
        WireType::Varint => match read_raw_varint64(data, pos) {
            Ok((_, end)) => Ok(end),
            Err(e) => Err(e),
        },
        WireType::Fixed64 => {
            if pos <= data.len() && data.len() - pos >= 8 {
                Ok(pos + 8)
            } else {
                Err(WireError::TruncatedInput)
            }
        },
        WireType::LengthDelimited => match read_length_delimited(data, pos) {
            Ok((_, end)) => Ok(end),
            Err(e) => Err(e),
        },
        WireType::StartGroup => skip_group_exec(data, pos),
        WireType::EndGroup => Err(WireError::InvalidTag),
        WireType::Fixed32 => {
            if pos <= data.len() && data.len() - pos >= 4 {
                Ok(pos + 4)
            } else {
                Err(WireError::TruncatedInput)
            }
        },
    }
}

/// What capturing one unrecognized value of wire type `wt` at `pos`
/// yields: the stored value and the position just past it. A group keeps
/// its raw bytes through the closing tag; a stray close-group tag is
/// invalid.
pub open spec fn spec_read_unknown(data: Seq<u8>, pos: int, wt: WireType) -> Result<
    (UnknownValueView, int),
    WireError,
> {
    match wt {
        WireType::Varint => match spec_read_varint(data, pos) {
            Ok((v, end)) => Ok((UnknownValueView::Varint(v as u64), end)),
            Err(e) => Err(e),
        },
        WireType::Fixed64 => match spec_read_fixed64(data, pos) {
            Ok((v, end)) => Ok((UnknownValueView::Fixed64(v), end)),
            Err(e) => Err(e),
        },
        WireType::LengthDelimited => match spec_read_len_delimited(data, pos) {
            Ok((b, end)) => Ok((UnknownValueView::LengthDelimited(b), end)),
            Err(e) => Err(e),
        },
        WireType::StartGroup => match spec_skip_group(data, pos) {
            Ok(end) => Ok((UnknownValueView::Group(data.subrange(pos, end)), end)),
            Err(e) => Err(e),
        },
        WireType::EndGroup => Err(WireError::InvalidTag),
        WireType::Fixed32 => match spec_read_fixed32(data, pos) {
            Ok((v, end)) => Ok((UnknownValueView::Fixed32(v), end)),
            Err(e) => Err(e),
        },
    }
}

/// Captures one unrecognized field into the store, per
/// `spec_read_unknown`, and says where its bytes ended.
pub fn read_unknown_or_skip_group(
    field_number: u32,
    wire_type: WireType,
    data: &[u8],
    pos: usize,
    unknown_fields: &mut UnknownFields,
) -> (r: Result<usize, WireError>)
    ensures
        match r {
            Ok(end) => spec_read_unknown(data@, pos as int, wire_type) matches Ok(p) && p.1
                == end as int && final(unknown_fields)@ == old(unknown_fields)@.push(
                UnknownFieldView { number: field_number, value: p.0 },
            ) && pos < end <= data@.len(),
            Err(e) => spec_read_unknown(data@, pos as int, wire_type) == Err::<
                (UnknownValueView, int),
                WireError,
            >(e) && final(unknown_fields)@ == old(unknown_fields)@,
        },
{
    match wire_type {
        WireType::Varint => match read_raw_varint64(data, pos) {
            Ok((v, end)) => {
                unknown_fields.add_value(field_number, UnknownValue::Varint(v));
                Ok(end)
            },
            Err(e) => Err(e),
        },
        WireType::Fixed64 => match read_fixed64(data, pos) {
            Ok((v, end)) => {
                unknown_fields.add_value(field_number, UnknownValue::Fixed64(v));
                Ok(end)
            },
            Err(e) => Err(e),
        },
        WireType::LengthDelimited => match read_length_delimited(data, pos) {
            Ok((b, end)) => {
                unknown_fields.add_value(field_number, UnknownValue::LengthDelimited(b));
                Ok(end)
            },
            Err(e) => Err(e),
        },
        WireType::StartGroup => match skip_group_exec(data, pos) {
            Ok(end) => {
                let raw = slice_to_vec(slice_subrange(data, pos, end));
                unknown_fields.add_value(field_number, UnknownValue::Group(raw));
                Ok(end)
            },
            Err(e) => Err(e),
        },
        WireType::EndGroup => Err(WireError::InvalidTag),
        WireType::Fixed32 => match read_fixed32(data, pos) {
            Ok((v, end)) => {
                unknown_fields.add_value(field_number, UnknownValue::Fixed32(v));
                Ok(end)
            },
            Err(e) => Err(e),
        },
    }
}

/// Appends the bytes of every stored unknown field, in arrival order.
pub fn write_unknown_fields(out: &mut Vec<u8>, ufs: &UnknownFields)
    requires
        unknown_fields_wf(ufs@),
    ensures
        final(out)@ == old(out)@ + unknown_fields_bytes(ufs@),
{
    let n = ufs.fields.len();
    let mut i: usize = 0;
    while i < n
        invariant
            unknown_fields_wf(ufs@),
            n == ufs@.len(),
            i <= n,
            out@ == old(out)@ + unknown_fields_bytes(ufs@.take(i as int)),
        decreases n - i,
    {
        let ghost pre = out@;
        let f = &ufs.fields[i];
        assert(f@ == ufs@[i as int]);
        assert(1 <= ufs@[i as int].number <= FIELD_NUMBER_MAX);
        match &f.value {
            UnknownValue::Varint(v) => {
                write_tag(out, f.number, WireType::Varint);
                write_raw_varint64(out, *v);
            },
            UnknownValue::Fixed32(v) => {
                write_tag(out, f.number, WireType::Fixed32);
                write_fixed32(out, *v);
            },
            UnknownValue::Fixed64(v) => {
                write_tag(out, f.number, WireType::Fixed64);
                write_fixed64(out, *v);
            },
            UnknownValue::LengthDelimited(b) => {
                write_tag(out, f.number, WireType::LengthDelimited);
                write_raw_varint64(out, b.len() as u64);
                append_bytes(out, b.as_slice());
            },
            UnknownValue::Group(b) => {
                write_tag(out, f.number, WireType::StartGroup);
                append_bytes(out, b.as_slice());
            },
        }
        assert(out@ =~= pre + unknown_field_bytes(ufs@[i as int]));
        proof {
            assert(ufs@.take(i + 1) =~= ufs@.take(i as int).push(ufs@[i as int]));
            lemma_unknown_fields_bytes_push(ufs@.take(i as int), ufs@[i as int]);
            assert(out@ =~= old(out)@ + unknown_fields_bytes(ufs@.take(i + 1)));
        }
        i = i + 1;
    }
    assert(ufs@.take(n as int) =~= ufs@);
}

/// The byte length one unknown field contributes.
fn unknown_field_size(f: &UnknownField) -> (r: u64)
    requires
        1 <= f.number <= FIELD_NUMBER_MAX,
        unknown_field_bytes(f@).len() <= 0xFFFF_FFFF,
    ensures
        r == unknown_field_bytes(f@).len(),
{
    proof {
        lemma_varint_len(make_tag(f.number as nat, unknown_wire_type(f@.value)));
    }
    match &f.value {
        UnknownValue::Varint(v) => {
            proof {
                lemma_varint_len(*v as nat);
            }
            tag_size(f.number, WireType::Varint) as u64 + compute_raw_varint64_size(*v) as u64
        },
        UnknownValue::Fixed32(_) => tag_size(f.number, WireType::Fixed32) as u64 + 4,
        UnknownValue::Fixed64(_) => tag_size(f.number, WireType::Fixed64) as u64 + 8,
        UnknownValue::LengthDelimited(b) => {
            proof {
                lemma_varint_len(b@.len());
            }
            tag_size(f.number, WireType::LengthDelimited) as u64 + compute_raw_varint64_size(
                b.len() as u64,
            ) as u64 + b.len() as u64
        },
        UnknownValue::Group(b) => tag_size(f.number, WireType::StartGroup) as u64 + b.len() as u64,
    }
}

/// The byte length a whole store contributes to an encoded message.
pub fn unknown_fields_size(ufs: &UnknownFields) -> (r: u32)
    requires
        unknown_fields_wf(ufs@),
        unknown_fields_bytes(ufs@).len() <= 0xFFFF_FFFF,
    ensures
        r == unknown_fields_bytes(ufs@).len(),
{
    let n = ufs.fields.len();
    let mut i: usize = 0;
    let mut acc: u64 = 0;
    while i < n
        invariant
            unknown_fields_wf(ufs@),
            unknown_fields_bytes(ufs@).len() <= 0xFFFF_FFFF,
            n == ufs@.len(),
            i <= n,
            acc == unknown_fields_bytes(ufs@.take(i as int)).len(),
        decreases n - i,
    {
        let f = &ufs.fields[i];
        assert(f@ == ufs@[i as int]);
        assert(1 <= ufs@[i as int].number <= FIELD_NUMBER_MAX);
        proof {
            assert(ufs@.take(i + 1) =~= ufs@.take(i as int).push(ufs@[i as int]));
            lemma_unknown_fields_bytes_push(ufs@.take(i as int), ufs@[i as int]);
            lemma_unknown_fields_bytes_split(ufs@, i + 1);
            assert(unknown_fields_bytes(ufs@.take(i + 1)).len() <= unknown_fields_bytes(
                ufs@,
            ).len());
        }
        let s = unknown_field_size(f);
        acc = acc + s;
        i = i + 1;
    }
    assert(ufs@.take(n as int) =~= ufs@);
    acc as u32
}

/// Whether a stored unknown value decodes back to itself when replayed:
/// groups end at the first close-group tag, which their raw bytes alone
/// do not pin down, so they are left out; a length-delimited payload must
/// fit what a length prefix can carry.
pub open spec fn unknown_value_replayable(v: UnknownValueView) -> bool {
    match v {
        UnknownValueView::LengthDelimited(b) => b.len() < 0x1_0000_0000_0000_0000,
        UnknownValueView::Group(_) => false,
        _ => true,
    }
}

/// Whether every value in a store decodes back to itself when replayed.
pub open spec fn unknowns_replayable(fs: Seq<UnknownFieldView>) -> bool {
    forall|i: int| 0 <= i < fs.len() ==> unknown_value_replayable((#[trigger] fs[i]).value)
}

/// Reading where one replayable unknown field was written gives its tag
/// and its value back.
pub proof fn lemma_unknown_field_round_trip(f: UnknownFieldView, data: Seq<u8>, pos: int)
    requires
        1 <= f.number <= FIELD_NUMBER_MAX,
        unknown_value_replayable(f.value),
        0 <= pos,
        pos + unknown_field_bytes(f).len() <= data.len(),
        data.subrange(pos, pos + unknown_field_bytes(f).len()) == unknown_field_bytes(f),
    ensures
        ({
            let wt = unknown_wire_type(f.value);
            let taglen = varint_len(make_tag(f.number as nat, wt)) as int;
            let end = pos + unknown_field_bytes(f).len();
            &&& spec_read_tag(data, pos) == Ok::<(nat, WireType, int), WireError>((
                f.number as nat,
                wt,
                pos + taglen,
            ))
            &&& spec_read_unknown(data, pos + taglen, wt) == Ok::<
                (UnknownValueView, int),
                WireError,
            >((f.value, end))
            &&& pos < pos + taglen < end
        }),
{
    let wt = unknown_wire_type(f.value);
    let tag = make_tag(f.number as nat, wt);
    let fb = unknown_field_bytes(f);
    let taglen = varint_len(tag) as int;
    let end = pos + fb.len();
    lemma_varint_len(tag);
    assert(data.subrange(pos, pos + taglen) =~= varint(tag)) by {
        assert(forall|k: int|
            0 <= k < taglen ==> #[trigger] data.subrange(pos, pos + taglen)[k] == data.subrange(
                pos,
                end,
            )[k]);
    }
    lemma_tag_round_trip(f.number as nat, wt, data, pos);
    let p1 = pos + taglen;
    match f.value {
        UnknownValueView::Varint(n) => {
            lemma_varint_len(n as nat);
            assert(data.subrange(p1, p1 + varint_len(n as nat)) =~= varint(n as nat)) by {
                assert(forall|k: int|
                    0 <= k < varint_len(n as nat) ==> #[trigger] data.subrange(
                        p1,
                        p1 + varint_len(n as nat),
                    )[k] == data.subrange(pos, end)[taglen + k]);
            }
            lemma_varint_round_trip(n as nat, data, p1);
        },
        UnknownValueView::Fixed32(v) => {
            assert(forall|k: int| 0 <= k < 4 ==> data[p1 + k] == le32(v as nat)[k]) by {
                assert(forall|k: int|
                    0 <= k < 4 ==> #[trigger] data[p1 + k] == data.subrange(pos, end)[taglen + k]);
            }
            lemma_le32_value(v);
        },
        UnknownValueView::Fixed64(v) => {
            assert(forall|k: int| 0 <= k < 8 ==> data[p1 + k] == le64(v as nat)[k]) by {
                assert(forall|k: int|
                    0 <= k < 8 ==> #[trigger] data[p1 + k] == data.subrange(pos, end)[taglen + k]);
            }
            lemma_le64_value(v);
        },
        UnknownValueView::LengthDelimited(b) => {
            let llen = varint_len(b.len()) as int;
            lemma_varint_len(b.len());
            assert(data.subrange(p1, p1 + llen) =~= varint(b.len())) by {
                assert(forall|k: int|
                    0 <= k < llen ==> #[trigger] data.subrange(p1, p1 + llen)[k] == data.subrange(
                        pos,
                        end,
                    )[taglen + k]);
            }
            lemma_varint_round_trip(b.len(), data, p1);
            assert(data.subrange(p1 + llen, end) =~= b) by {
                assert(forall|k: int|
                    0 <= k < b.len() ==> #[trigger] data.subrange(p1 + llen, end)[k]
                        == data.subrange(pos, end)[taglen + llen + k]);
            }
        },
        UnknownValueView::Group(_) => {
            assert(false);
        },
    }
}

/// A one-field store contributes exactly that field's bytes.
pub proof fn lemma_unknown_fields_bytes_one(f: UnknownFieldView)
    ensures
        unknown_fields_bytes(seq![f]) == unknown_field_bytes(f),
{
    assert(seq![f].drop_first() =~= Seq::<UnknownFieldView>::empty());
    assert(unknown_fields_bytes(Seq::<UnknownFieldView>::empty()) == Seq::<u8>::empty());
    assert(unknown_fields_bytes(seq![f]) =~= unknown_field_bytes(f));
}

/// Appending a field to a store appends its bytes.
pub proof fn lemma_unknown_fields_bytes_push(fs: Seq<UnknownFieldView>, f: UnknownFieldView)
    ensures
        unknown_fields_bytes(fs.push(f)) == unknown_fields_bytes(fs) + unknown_field_bytes(f),
{
    lemma_unknown_fields_bytes_split(fs.push(f), fs.len() as int);
    assert(fs.push(f).take(fs.len() as int) =~= fs);
    assert(fs.push(f).skip(fs.len() as int) =~= seq![f]);
    lemma_unknown_fields_bytes_one(f);
}

impl UnknownFields {
    /// A store with nothing in it.
    pub fn new() -> (r: UnknownFields)
        ensures
            r@ == Seq::<UnknownFieldView>::empty(),
    {
        let r = UnknownFields { fields: Vec::new() };
        proof {
            assert(r@ =~= Seq::<UnknownFieldView>::empty());
        }
        r
    }

    /// Empties the store.
    pub fn clear(&mut self)
        ensures
            final(self)@ == Seq::<UnknownFieldView>::empty(),
    {
        self.fields.clear();
        proof {
            assert(self@ =~= Seq::<UnknownFieldView>::empty());
        }
    }

    /// How many unknown fields are stored.
    pub fn len(&self) -> (r: usize)
        ensures
            r == self@.len(),
    {
        self.fields.len()
    }

    /// Appends one unknown value under its originating field number.
    pub fn add_value(&mut self, number: u32, value: UnknownValue)
        ensures
            final(self)@ == old(self)@.push(UnknownFieldView { number, value: value@ }),
    {
        let ghost v = value@;
        self.fields.push(UnknownField { number, value });
        proof {
            assert(self@ =~= old(self)@.push(UnknownFieldView { number, value: v }));
        }
    }
}

} // verus!
