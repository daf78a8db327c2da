//! The `SourceContext` message: one string field `file_name` (number 1),
//! an unknown-field store, and a cached-size cell, together with the four
//! wire operations every generated message exposes and its reflection
//! and schema descriptors.

use vstd::prelude::*;
use vstd::utf8::{encode_utf8, encode_utf8_decode_utf8, encode_utf8_valid_utf8};

use crate::descriptor::{
    DescriptorProto, FieldDescriptorProto, FieldKind, FieldLabel, FileDescriptorProto,
};
use crate::reflect::{FieldAccessor, FileDescriptor, MessageDescriptor};
use crate::text::str_eq;
use crate::unknown::{
    lemma_unknown_field_round_trip, read_unknown_or_skip_group, spec_read_unknown,
    unknown_field_bytes, unknown_fields_bytes, unknown_fields_size, unknown_fields_wf,
    unknown_wire_type, unknowns_replayable, write_unknown_fields, UnknownFieldView, UnknownFields,
};
use crate::wire::{
    lemma_tag_round_trip, lemma_varint_len, lemma_varint_round_trip, make_tag, read_string,
    read_tag_unpack, spec_read_string, spec_read_tag, string_field, string_size, varint,
    varint_len, write_string, WireError, WireType,
};

verus! {

/// Information about the source of a schema element, like the file in
/// which it is defined.
#[derive(Clone, PartialEq, Debug)]
pub struct SourceContext {
    /// The path-qualified name of the schema file that contained the
    /// associated element.
    pub file_name: String,
    /// Data this schema does not recognize, preserved for a later encode.
    pub unknown_fields: UnknownFields,
    /// The byte length the last size-computation pass produced. Valid
    /// only immediately after such a pass.
    pub cached_size: u32,
}

/// The mathematical shape of a `SourceContext`: its field values and its
/// unknown-field store. The cached-size cell is transient and carries no
/// meaning of its own, so it stands outside the view.
#[verifier::ext_equal]
pub struct SourceContextView {
    pub file_name: Seq<char>,
    pub unknown_fields: Seq<UnknownFieldView>,
}

impl View for SourceContext {
    type V = SourceContextView;

    open spec fn view(&self) -> SourceContextView {
        SourceContextView { file_name: self.file_name@, unknown_fields: self.unknown_fields@ }
    }
}

/// The shape of a freshly constructed instance: every field at its
/// default and nothing unknown stored.
pub open spec fn source_context_default() -> SourceContextView {
    SourceContextView { file_name: Seq::empty(), unknown_fields: Seq::empty() }
}

/// Every stored unknown field could have come off the wire.
pub open spec fn source_context_wf(m: SourceContextView) -> bool {
    unknown_fields_wf(m.unknown_fields)
}

/// The encoded bytes of an instance: the string field if it is not at
/// its default (a field at its default is omitted entirely), then the
/// stored unknown fields verbatim.
pub open spec fn source_context_encoding(m: SourceContextView) -> Seq<u8> {
    (if m.file_name.len() == 0 {
        Seq::<u8>::empty()
    } else {
        string_field(1, m.file_name)
    }) + unknown_fields_bytes(m.unknown_fields)
}

/// What merging the bytes of `data` from `pos` into `m` yields: tags are
/// read until the input is exhausted; field 1 must arrive
/// length-delimited and overwrites `file_name`; every other field is
/// captured into the unknown-field store. The three bound guards can
/// never be taken, since every parse step advances; they only keep the
/// recursion visibly finite.
pub open spec fn spec_merge_from(m: SourceContextView, data: Seq<u8>, pos: int) -> Result<
    SourceContextView,
    WireError,
>
    decreases data.len() - pos,
{
    if !(0 <= pos <= data.len()) {
        Err(WireError::TruncatedInput)
    } else if pos == data.len() {
        Ok(m)
    } else {
        match spec_read_tag(data, pos) {
            Ok((num, wt, p1)) => if !(pos < p1 <= data.len()) {
                Err(WireError::TruncatedInput)
            } else if num == 1 {
                if wt != WireType::LengthDelimited {
                    Err(WireError::WireTypeMismatch)
                } else {
                    match spec_read_string(data, p1) {
                        Ok((s, p2)) => if !(p1 < p2 <= data.len()) {
                            Err(WireError::TruncatedInput)
                        } else {
                            spec_merge_from(SourceContextView { file_name: s, ..m }, data, p2)
                        },
                        Err(e) => Err(e),
                    }
                }
            } else {
                match spec_read_unknown(data, p1, wt) {
                    Ok((v, p2)) => if !(p1 < p2 <= data.len()) {
                        Err(WireError::TruncatedInput)
                    } else {
                        spec_merge_from(
                            SourceContextView {
                                unknown_fields: m.unknown_fields.push(
                                    UnknownFieldView { number: num as u32, value: v },
                                ),
                                ..m
                            },
                            data,
                            p2,
                        )
                    },
                    Err(e) => Err(e),
                }
            },
            Err(e) => Err(e),
        }
    }
}

impl SourceContext {
    /// An instance with every field at its default and an empty
    /// unknown-field store.
    pub fn new() -> (r: SourceContext)
        ensures
            r@ == source_context_default(),
            r.cached_size == 0,
    {
        let r = SourceContext {
            file_name: String::new(),
            unknown_fields: UnknownFields::new(),
            cached_size: 0,
        };
        proof {
            assert(r@ =~= source_context_default());
        }
        r
    }

    /// Every instance is complete: this message has no required fields.
    pub fn is_initialized(&self) -> (r: bool)
        ensures
            r == true,
    {
        true
    }

    /// Merges the encoded bytes of `data` into this instance, per
    /// `spec_merge_from`. On an error the instance may be partially
    /// populated and must not be reused without clearing.
    pub fn merge_from(&mut self, data: &[u8]) -> (r: Result<(), WireError>)
        ensures
            match spec_merge_from(old(self)@, data@, 0) {
                Ok(mm) => r is Ok && final(self)@ == mm && final(self).cached_size == old(
                    self,
                ).cached_size,
                Err(e) => r == Err::<(), WireError>(e),
            },
    {
        let mut pos: usize = 0;
        while pos < data.len()
            invariant
                pos <= data@.len(),
                self.cached_size == old(self).cached_size,
                spec_merge_from(old(self)@, data@, 0) == spec_merge_from(
                    self@,
                    data@,
                    pos as int,
                ),
            decreases data@.len() - pos,
        {
            let ghost cur = self@;
            match read_tag_unpack(data, pos) {
                Ok((num, wt, p1)) => {
                    if num == 1 {
                        if !(wt == WireType::LengthDelimited) {
                            return Err(WireError::WireTypeMismatch);
                        }
                        match read_string(data, p1) {
                            Ok((s, p2)) => {
                                self.file_name = s;
                                assert(self@ =~= (SourceContextView {
                                    file_name: s@,
                                    ..cur
                                }));
                                pos = p2;
                            },
                            Err(e) => return Err(e),
                        }
                    } else {
                        match read_unknown_or_skip_group(
                            num,
                            wt,
                            data,
                            p1,
                            &mut self.unknown_fields,
                        ) {
                            Ok(p2) => {
                                assert(spec_read_unknown(data@, p1 as int, wt) matches Ok(p)
                                    ==> self@ =~= (SourceContextView {
                                    unknown_fields: cur.unknown_fields.push(
                                        UnknownFieldView { number: num, value: p.0 },
                                    ),
                                    ..cur
                                }));
                                pos = p2;
                            },
                            Err(e) => return Err(e),
                        }
                    }
                },
                Err(e) => return Err(e),
            }
        }
        Ok(())
    }

    /// The byte length `write_to_with_cached_sizes` will emit for the
    /// instance as it now stands, stored into the cached-size cell. The
    /// traversal is free of other side effects.
    pub fn compute_size(&mut self) -> (r: u32)
        requires
            source_context_wf(old(self)@),
            source_context_encoding(old(self)@).len() <= 0xFFFF_FFFF,
        ensures
            r == source_context_encoding(old(self)@).len(),
            final(self)@ == old(self)@,
            final(self).cached_size == r,
    {
        let mut my_size: u32 = 0;
        if !self.file_name.as_str().is_empty() {
            proof {
                assert(source_context_encoding(self@).len() == string_field(
                    1,
                    self@.file_name,
                ).len() + unknown_fields_bytes(self@.unknown_fields).len());
            }
            my_size = string_size(1, self.file_name.as_str());
        }
        my_size = my_size + unknown_fields_size(&self.unknown_fields);
        self.cached_size = my_size;
        my_size
    }

    /// Appends the instance's encoding to `out`: the string field when it
    /// is not at its default, then the stored unknown fields verbatim.
    /// Exactly the bytes the last size pass counted are emitted.
    pub fn write_to_with_cached_sizes(&self, out: &mut Vec<u8>)
        requires
            source_context_wf(self@),
        ensures
            final(out)@ == old(out)@ + source_context_encoding(self@),
    {
        if !self.file_name.as_str().is_empty() {
            write_string(out, 1, self.file_name.as_str());
        }
        write_unknown_fields(out, &self.unknown_fields);
        assert(final(out)@ =~= old(out)@ + source_context_encoding(self@));
    }

    /// The value the last size-computation pass stored.
    pub fn get_cached_size(&self) -> (r: u32)
        ensures
            r == self.cached_size,
    {
        self.cached_size
    }

    /// The unknown-field store, read-only.
    pub fn get_unknown_fields<'a>(&'a self) -> (r: &'a UnknownFields)
        ensures
            r == &self.unknown_fields,
    {
        &self.unknown_fields
    }

    /// The unknown-field store, for mutation.
    pub fn mut_unknown_fields<'a>(&'a mut self) -> (r: &'a mut UnknownFields)
        ensures
            *r == old(self).unknown_fields,
            final(self).unknown_fields == *final(r),
            final(self).file_name == old(self).file_name,
            final(self).cached_size == old(self).cached_size,
    {
        &mut self.unknown_fields
    }

    /// Resets every field to its default and empties the unknown-field
    /// store, leaving the instance as a fresh construction would.
    pub fn clear(&mut self)
        ensures
            final(self)@ == source_context_default(),
            final(self).cached_size == old(self).cached_size,
    {
        self.file_name = String::new();
        self.unknown_fields.clear();
        proof {
            assert(self@ =~= source_context_default());
        }
    }

    /// The value bound to `name` through the reflection table: this
    /// message's one string field, or nothing.
    pub fn reflect_get_str<'a>(&'a self, name: &str) -> (r: Option<&'a String>)
        ensures
            match r {
                Some(s) => name@ == "file_name"@ && s@ == self@.file_name,
                None => name@ != "file_name"@,
            },
    {
        if str_eq(name, "file_name") {
            Some(&self.file_name)
        } else {
            None
        }
    }

    /// Stores `value` into the field bound to `name` through the
    /// reflection table, and says whether any field carries that name.
    pub fn reflect_set_str(&mut self, name: &str, value: String) -> (r: bool)
        ensures
            r == (name@ == "file_name"@),
            r ==> final(self)@ == (SourceContextView { file_name: value@, ..old(self)@ }),
            !r ==> *final(self) == *old(self),
            final(self).cached_size == old(self).cached_size,
    {
        if str_eq(name, "file_name") {
            self.file_name = value;
            assert(self@ =~= (SourceContextView { file_name: value@, ..old(self)@ }));
            true
        } else {
            false
        }
    }

    /// Whether a reflection descriptor describes this message type: the
    /// message name, one string accessor bound to `file_name` under
    /// field number 1, and the originating schema file.
    pub open spec fn describes(r: MessageDescriptor) -> bool {
        &&& r.name@ == "SourceContext"@
        &&& r.fields@.len() == 1
        &&& r.fields@[0].name@ == "file_name"@
        &&& r.fields@[0].number == 1
        &&& r.fields@[0].label == FieldLabel::Singular
        &&& r.fields@[0].kind == FieldKind::Str
        &&& describes_file(r.file_proto)
    }

    /// The reflection descriptor of this message type.
    pub fn descriptor(&self) -> (r: MessageDescriptor)
        ensures
            Self::describes(r),
    {
        Self::descriptor_static()
    }

    /// Builds the reflection descriptor of this message type. Every call
    /// returns an equal value, so a caller may memoize the first for the
    /// process lifetime.
    pub fn descriptor_static() -> (r: MessageDescriptor)
        ensures
            Self::describes(r),
    {
        let mut fields: Vec<FieldAccessor> = Vec::new();
        fields.push(
            FieldAccessor {
                name: String::from_str("file_name"),
                number: 1,
                label: FieldLabel::Singular,
                kind: FieldKind::Str,
            },
        );
        MessageDescriptor::new(String::from_str("SourceContext"), fields, file_descriptor_proto())
    }

    /// An instance with every field at its default, as `new` builds.
    pub fn default_instance() -> (r: SourceContext)
        ensures
            r@ == source_context_default(),
            r.cached_size == 0,
    {
        SourceContext::new()
    }
}

impl Default for SourceContext {
    /// An instance with every field at its default and an empty
    /// unknown-field store.
    fn default() -> (r: SourceContext)
        ensures
            r@ == source_context_default(),
            r.cached_size == 0,
    {
        SourceContext::new()
    }
}

/// Whether schema-file data describes the file this message came from:
/// its path, its package, and its one message with its one field.
pub open spec fn describes_file(r: FileDescriptorProto) -> bool {
    &&& r.name@ == "google/protobuf/source_context.proto"@
    &&& r.package@ == "google.protobuf"@
    &&& r.message_type@.len() == 1
    &&& r.message_type@[0].name@ == "SourceContext"@
    &&& r.message_type@[0].field@.len() == 1
    &&& r.message_type@[0].field@[0].name@ == "file_name"@
    &&& r.message_type@[0].field@[0].number == 1
    &&& r.message_type@[0].field@[0].label == FieldLabel::Singular
    &&& r.message_type@[0].field@[0].kind == FieldKind::Str
}

/// The schema data of the file this message came from.
pub fn file_descriptor_proto() -> (r: FileDescriptorProto)
    ensures
        describes_file(r),
{
    let mut field: Vec<FieldDescriptorProto> = Vec::new();
    field.push(
        FieldDescriptorProto {
            name: String::from_str("file_name"),
            number: 1,
            label: FieldLabel::Singular,
            kind: FieldKind::Str,
        },
    );
    let mut message_type: Vec<DescriptorProto> = Vec::new();
    message_type.push(DescriptorProto { name: String::from_str("SourceContext"), field });
    FileDescriptorProto {
        name: String::from_str("google/protobuf/source_context.proto"),
        package: String::from_str("google.protobuf"),
        message_type,
    }
}

/// The reflection descriptor of the whole schema file: its schema data
/// and the one message descriptor.
pub fn file_descriptor() -> (r: FileDescriptor)
    ensures
        describes_file(r.proto),
        r.messages@.len() == 1,
        SourceContext::describes(r.messages@[0]),
{
    let mut messages: Vec<MessageDescriptor> = Vec::new();
    messages.push(SourceContext::descriptor_static());
    FileDescriptor::new(file_descriptor_proto(), messages)
}

/// The size of an instance as the field-by-field sum of §-style formulas:
/// tag plus length prefix plus payload for the string field when present,
/// plus the stored unknown bytes.
pub open spec fn source_context_size(m: SourceContextView) -> nat {
    (if m.file_name.len() == 0 {
        0
    } else {
        varint_len(make_tag(1, WireType::LengthDelimited)) + varint_len(
            encode_utf8(m.file_name).len(),
        ) + encode_utf8(m.file_name).len()
    }) + unknown_fields_bytes(m.unknown_fields).len()
}

/// The field-by-field size sum equals the length of the encoding, so a
/// size pass and the write pass that follows it always agree.
pub proof fn lemma_size_write_consistency(m: SourceContextView)
    ensures
        source_context_size(m) == source_context_encoding(m).len(),
{
    lemma_varint_len(make_tag(1, WireType::LengthDelimited));
    lemma_varint_len(encode_utf8(m.file_name).len());
}

/// A field at its default contributes zero bytes to the encoding: with
/// `file_name` empty, only the stored unknown fields are emitted.
pub proof fn lemma_default_omission(m: SourceContextView)
    requires
        m.file_name.len() == 0,
    ensures
        source_context_encoding(m) == unknown_fields_bytes(m.unknown_fields),
{
    assert(source_context_encoding(m) =~= unknown_fields_bytes(m.unknown_fields));
}

/// A cleared instance encodes to nothing, exactly as a fresh one does.
pub proof fn lemma_clear_encodes_empty()
    ensures
        source_context_encoding(source_context_default()) == Seq::<u8>::empty(),
{
    assert(source_context_encoding(source_context_default()) =~= Seq::<u8>::empty());
}

proof fn lemma_merge_unknowns(
    m: SourceContextView,
    fs: Seq<UnknownFieldView>,
    data: Seq<u8>,
    pos: int,
)
    requires
        unknown_fields_wf(fs),
        unknowns_replayable(fs),
        forall|i: int| 0 <= i < fs.len() ==> (#[trigger] fs[i]).number != 1,
        0 <= pos <= data.len(),
        data.subrange(pos, data.len() as int) == unknown_fields_bytes(fs),
    ensures
        spec_merge_from(m, data, pos) == Ok::<SourceContextView, WireError>(
            SourceContextView { unknown_fields: m.unknown_fields + fs, ..m },
        ),
    decreases fs.len(),
{
    if fs.len() == 0 {
        assert(pos == data.len());
        assert(SourceContextView { unknown_fields: m.unknown_fields + fs, ..m } =~= m);
    } else {
        let f = fs[0];
        let fb = unknown_field_bytes(f);
        let rest = fs.drop_first();
        assert(unknown_fields_bytes(fs) == fb + unknown_fields_bytes(rest));
        assert(pos + fb.len() <= data.len());
        assert(data.subrange(pos, pos + fb.len()) =~= fb) by {
            assert(forall|k: int|
                0 <= k < fb.len() ==> #[trigger] data.subrange(pos, pos + fb.len())[k]
                    == data.subrange(pos, data.len() as int)[k]);
        }
        lemma_unknown_field_round_trip(f, data, pos);
        let wt = unknown_wire_type(f.value);
        let taglen = varint_len(make_tag(f.number as nat, wt)) as int;
        let end = pos + fb.len();
        let m1 = SourceContextView {
            unknown_fields: m.unknown_fields.push(f),
            ..m
        };
        assert(data.subrange(end, data.len() as int) =~= unknown_fields_bytes(rest)) by {
            assert(forall|k: int|
                0 <= k < data.len() - end ==> #[trigger] data.subrange(end, data.len() as int)[k]
                    == data.subrange(pos, data.len() as int)[fb.len() + k]);
        }
        lemma_merge_unknowns(m1, rest, data, end);
        assert(UnknownFieldView { number: f.number, value: f.value } == f);
        assert(m.unknown_fields.push(f) + rest =~= m.unknown_fields + fs);
        assert(spec_merge_from(m, data, pos) == Ok::<SourceContextView, WireError>(
            SourceContextView { unknown_fields: m.unknown_fields + fs, ..m },
        ));
    }
}

/// Decoding the encoding of any instance into a fresh one recovers the
/// instance: the round trip is exact, field by field. Unknown fields must
/// not collide with the declared field number and groups are excluded,
/// since their raw bytes alone do not pin down their end.
pub proof fn lemma_unknown_preservation(m: SourceContextView)
    requires
        source_context_wf(m),
        unknowns_replayable(m.unknown_fields),
        forall|i: int|
            0 <= i < m.unknown_fields.len() ==> (#[trigger] m.unknown_fields[i]).number != 1,
        encode_utf8(m.file_name).len() < 0x1_0000_0000_0000_0000,
    ensures
        spec_merge_from(source_context_default(), source_context_encoding(m), 0) == Ok::<
            SourceContextView,
            WireError,
        >(m),
{
    let data = source_context_encoding(m);
    let fs = m.unknown_fields;
    if m.file_name.len() == 0 {
        assert(data =~= unknown_fields_bytes(fs));
        assert(data.subrange(0, data.len() as int) =~= data);
        lemma_merge_unknowns(source_context_default(), fs, data, 0);
        assert(SourceContextView {
            unknown_fields: source_context_default().unknown_fields + fs,
            ..source_context_default()
        } =~= m);
    } else {
        let b = encode_utf8(m.file_name);
        let sf = string_field(1, m.file_name);
        let tag = make_tag(1, WireType::LengthDelimited);
        lemma_varint_len(tag);
        let taglen = varint_len(tag) as int;
        let llen = varint_len(b.len()) as int;
        lemma_varint_len(b.len());
        assert(data =~= varint(tag) + varint(b.len()) + b + unknown_fields_bytes(fs));
        assert(data.subrange(0, taglen) =~= varint(tag));
        lemma_tag_round_trip(1, WireType::LengthDelimited, data, 0);
        assert(data.subrange(taglen, taglen + llen) =~= varint(b.len()));
        lemma_varint_round_trip(b.len(), data, taglen);
        let p2 = taglen + llen + b.len();
        assert(data.subrange(taglen + llen, p2 as int) =~= b);
        encode_utf8_valid_utf8(m.file_name);
        encode_utf8_decode_utf8(m.file_name);
        let m1 = SourceContextView { file_name: m.file_name, ..source_context_default() };
        assert(data.subrange(p2 as int, data.len() as int) =~= unknown_fields_bytes(fs));
        lemma_merge_unknowns(m1, fs, data, p2 as int);
        assert(SourceContextView { unknown_fields: m1.unknown_fields + fs, ..m1 } =~= m);
    }
}

/// Decoding the encoding of an instance that came from a fresh
/// construction — its unknown-field store still empty — recovers it
/// exactly.
pub proof fn lemma_round_trip(m: SourceContextView)
    requires
        m.unknown_fields.len() == 0,
        encode_utf8(m.file_name).len() < 0x1_0000_0000_0000_0000,
    ensures
        spec_merge_from(source_context_default(), source_context_encoding(m), 0) == Ok::<
            SourceContextView,
            WireError,
        >(m),
{
    lemma_unknown_preservation(m);
}

} // verus!
