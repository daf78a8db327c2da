//! The `MyMessage` message: the simplest possible schema, a message with
//! zero fields. It still carries an unknown-field store and a cached-size
//! cell, exposes all four wire operations, and has a reflection
//! descriptor with an empty accessor table.

use vstd::prelude::*;

use crate::descriptor::{DescriptorProto, FileDescriptorProto};
use crate::reflect::{FieldAccessor, FileDescriptor, MessageDescriptor};
use crate::unknown::{
    lemma_unknown_field_round_trip, read_unknown_or_skip_group, spec_read_unknown,
    unknown_field_bytes, unknown_fields_bytes, unknown_fields_size, unknown_fields_wf,
    unknowns_replayable, write_unknown_fields, UnknownFieldView, UnknownFields,
};
use crate::wire::{read_tag_unpack, spec_read_tag, WireError};

verus! {

/// A message with no fields of its own: only the unknown-field store and
/// the cached-size cell every generated message carries.
#[derive(Clone, PartialEq, Debug)]
pub struct MyMessage {
    /// Data this schema does not recognize, preserved for a later encode.
    pub unknown_fields: UnknownFields,
    /// The byte length the last size-computation pass produced. Valid
    /// only immediately after such a pass.
    pub cached_size: u32,
}

impl View for MyMessage {
    type V = Seq<UnknownFieldView>;

    open spec fn view(&self) -> Seq<UnknownFieldView> {
        self.unknown_fields@
    }
}

/// The encoded bytes of an instance: with no declared fields, only the
/// stored unknown fields.
pub open spec fn my_message_encoding(m: Seq<UnknownFieldView>) -> Seq<u8> {
    unknown_fields_bytes(m)
}

/// What merging the bytes of `data` from `pos` into `m` yields: with no
/// declared fields, every field read is captured into the unknown-field
/// store. The bound guards can never be taken, since every parse step
/// advances; they only keep the recursion visibly finite.
pub open spec fn spec_merge_from(m: Seq<UnknownFieldView>, data: Seq<u8>, pos: int) -> Result<
    Seq<UnknownFieldView>,
    WireError,
>
    decreases data.len() - pos,
{
    if !(0 <= pos <= data.len()) {
        Err(WireError::TruncatedInput)
    } else if pos == data.len() {
        Ok(m)
    } else {
        match spec_read_tag(data, pos) {
            Ok((num, wt, p1)) => if !(pos < p1 <= data.len()) {
                Err(WireError::TruncatedInput)
            } else {
                match spec_read_unknown(data, p1, wt) {
                    Ok((v, p2)) => if !(p1 < p2 <= data.len()) {
                        Err(WireError::TruncatedInput)
                    } else {
                        spec_merge_from(
                            m.push(UnknownFieldView { number: num as u32, value: v }),
                            data,
                            p2,
                        )
                    },
                    Err(e) => Err(e),
                }
            },
            Err(e) => Err(e),
        }
    }
}

impl MyMessage {
    /// An instance with an empty unknown-field store.
    pub fn new() -> (r: MyMessage)
        ensures
            r@ == Seq::<UnknownFieldView>::empty(),
            r.cached_size == 0,
    {
        MyMessage { unknown_fields: UnknownFields::new(), cached_size: 0 }
    }

    /// Every instance is complete: this message has no required fields.
    pub fn is_initialized(&self) -> (r: bool)
        ensures
            r == true,
    {
        true
    }

    /// Merges the encoded bytes of `data` into this instance, per
    /// `spec_merge_from`. On an error the instance may be partially
    /// populated and must not be reused without clearing.
    pub fn merge_from(&mut self, data: &[u8]) -> (r: Result<(), WireError>)
        ensures
            match spec_merge_from(old(self)@, data@, 0) {
                Ok(mm) => r is Ok && final(self)@ == mm && final(self).cached_size == old(
                    self,
                ).cached_size,
                Err(e) => r == Err::<(), WireError>(e),
            },
    {
        let mut pos: usize = 0;
        while pos < data.len()
            invariant
                pos <= data@.len(),
                self.cached_size == old(self).cached_size,
                spec_merge_from(old(self)@, data@, 0) == spec_merge_from(
                    self@,
                    data@,
                    pos as int,
                ),
            decreases data@.len() - pos,
        {
            match read_tag_unpack(data, pos) {
                Ok((num, wt, p1)) => {
                    match read_unknown_or_skip_group(num, wt, data, p1, &mut self.unknown_fields) {
                        Ok(p2) => {
                            pos = p2;
                        },
                        Err(e) => return Err(e),
                    }
                },
                Err(e) => return Err(e),
            }
        }
        Ok(())
    }

    /// The byte length `write_to_with_cached_sizes` will emit for the
    /// instance as it now stands, stored into the cached-size cell. The
    /// traversal is free of other side effects.
    pub fn compute_size(&mut self) -> (r: u32)
        requires
            unknown_fields_wf(old(self)@),
            my_message_encoding(old(self)@).len() <= 0xFFFF_FFFF,
        ensures
            r == my_message_encoding(old(self)@).len(),
            final(self)@ == old(self)@,
            final(self).cached_size == r,
    {
        let my_size = unknown_fields_size(&self.unknown_fields);
        self.cached_size = my_size;
        my_size
    }

    /// Appends the instance's encoding to `out`: with no declared
    /// fields, only the stored unknown fields. Exactly the bytes the
    /// last size pass counted are emitted.
    pub fn write_to_with_cached_sizes(&self, out: &mut Vec<u8>)
        requires
            unknown_fields_wf(self@),
        ensures
            final(out)@ == old(out)@ + my_message_encoding(self@),
    {
        write_unknown_fields(out, &self.unknown_fields);
    }

    /// The value the last size-computation pass stored.
    pub fn get_cached_size(&self) -> (r: u32)
        ensures
            r == self.cached_size,
    {
        self.cached_size
    }

    /// The unknown-field store, read-only.
    pub fn get_unknown_fields<'a>(&'a self) -> (r: &'a UnknownFields)
        ensures
            r == &self.unknown_fields,
    {
        &self.unknown_fields
    }

    /// The unknown-field store, for mutation.
    pub fn mut_unknown_fields<'a>(&'a mut self) -> (r: &'a mut UnknownFields)
        ensures
            *r == old(self).unknown_fields,
            final(self).unknown_fields == *final(r),
            final(self).cached_size == old(self).cached_size,
    {
        &mut self.unknown_fields
    }

    /// Empties the unknown-field store, leaving the instance as a fresh
    /// construction would.
    pub fn clear(&mut self)
        ensures
            final(self)@ == Seq::<UnknownFieldView>::empty(),
            final(self).cached_size == old(self).cached_size,
    {
        self.unknown_fields.clear();
    }

    /// Whether a reflection descriptor describes this message type: the
    /// message name, an empty accessor table, and the originating schema
    /// file.
    pub open spec fn describes(r: MessageDescriptor) -> bool {
        &&& r.name@ == "MyMessage"@
        &&& r.fields@.len() == 0
        &&& describes_file(r.file_proto)
    }

    /// The reflection descriptor of this message type.
    pub fn descriptor(&self) -> (r: MessageDescriptor)
        ensures
            Self::describes(r),
    {
        Self::descriptor_static()
    }

    /// Builds the reflection descriptor of this message type. Every call
    /// returns an equal value, so a caller may memoize the first for the
    /// process lifetime.
    pub fn descriptor_static() -> (r: MessageDescriptor)
        ensures
            Self::describes(r),
    {
        let fields: Vec<FieldAccessor> = Vec::new();
        MessageDescriptor::new(String::from_str("MyMessage"), fields, file_descriptor_proto())
    }

    /// An instance with every field at its default, as `new` builds.
    pub fn default_instance() -> (r: MyMessage)
        ensures
            r@ == Seq::<UnknownFieldView>::empty(),
            r.cached_size == 0,
    {
        MyMessage::new()
    }
}

impl Default for MyMessage {
    /// An instance with an empty unknown-field store.
    fn default() -> (r: MyMessage)
        ensures
            r@ == Seq::<UnknownFieldView>::empty(),
            r.cached_size == 0,
    {
        MyMessage::new()
    }
}

/// Whether schema-file data describes the file this message came from:
/// its path and its one message with no fields.
pub open spec fn describes_file(r: FileDescriptorProto) -> bool {
    &&& r.name@ == "doctest_pb.proto"@
    &&& r.package@ == ""@
    &&& r.message_type@.len() == 1
    &&& r.message_type@[0].name@ == "MyMessage"@
    &&& r.message_type@[0].field@.len() == 0
}

/// The schema data of the file this message came from.
pub fn file_descriptor_proto() -> (r: FileDescriptorProto)
    ensures
        describes_file(r),
{
    let mut message_type: Vec<DescriptorProto> = Vec::new();
    message_type.push(DescriptorProto { name: String::from_str("MyMessage"), field: Vec::new() });
    FileDescriptorProto {
        name: String::from_str("doctest_pb.proto"),
        package: String::from_str(""),
        message_type,
    }
}

/// The reflection descriptor of the whole schema file: its schema data
/// and the one message descriptor.
pub fn file_descriptor() -> (r: FileDescriptor)
    ensures
        describes_file(r.proto),
        r.messages@.len() == 1,
        MyMessage::describes(r.messages@[0]),
{
    let mut messages: Vec<MessageDescriptor> = Vec::new();
    messages.push(MyMessage::descriptor_static());
    FileDescriptor::new(file_descriptor_proto(), messages)
}

/// A cleared instance encodes to nothing, exactly as a fresh one does.
pub proof fn lemma_clear_encodes_empty()
    ensures
        my_message_encoding(Seq::<UnknownFieldView>::empty()) == Seq::<u8>::empty(),
{
}

/// Decoding the encoding of any instance into a fresh one recovers the
/// instance. Groups are excluded, since their raw bytes alone do not pin
/// down their end.
pub proof fn lemma_unknown_preservation(m: Seq<UnknownFieldView>)
    requires
        unknown_fields_wf(m),
        unknowns_replayable(m),
    ensures
        spec_merge_from(Seq::<UnknownFieldView>::empty(), my_message_encoding(m), 0) == Ok::<
            Seq<UnknownFieldView>,
            WireError,
        >(m),
{
    let data = my_message_encoding(m);
    assert(data.subrange(0, data.len() as int) =~= data);
    lemma_merge_unknowns(Seq::<UnknownFieldView>::empty(), m, data, 0);
    assert(Seq::<UnknownFieldView>::empty() + m =~= m);
}

/// Decoding the encoding of a fresh instance — nothing stored — leaves a
/// fresh instance: the round trip on the zero-field message is exact.
pub proof fn lemma_round_trip(m: Seq<UnknownFieldView>)
    requires
        m.len() == 0,
    ensures
        spec_merge_from(Seq::<UnknownFieldView>::empty(), my_message_encoding(m), 0) == Ok::<
            Seq<UnknownFieldView>,
            WireError,
        >(m),
{
    assert(unknown_fields_wf(m));
    assert(unknowns_replayable(m));
    lemma_unknown_preservation(m);
}

proof fn lemma_merge_unknowns(
    m: Seq<UnknownFieldView>,
    fs: Seq<UnknownFieldView>,
    data: Seq<u8>,
    pos: int,
)
    requires
        unknown_fields_wf(fs),
        unknowns_replayable(fs),
        0 <= pos <= data.len(),
        data.subrange(pos, data.len() as int) == unknown_fields_bytes(fs),
    ensures
        spec_merge_from(m, data, pos) == Ok::<Seq<UnknownFieldView>, WireError>(m + fs),
    decreases fs.len(),
{
    if fs.len() == 0 {
        assert(pos == data.len());
        assert(m + fs =~= m);
    } else {
        let f = fs[0];
        let fb = unknown_field_bytes(f);
        let rest = fs.drop_first();
        assert(unknown_fields_bytes(fs) == fb + unknown_fields_bytes(rest));
        assert(pos + fb.len() <= data.len());
        assert(data.subrange(pos, pos + fb.len()) =~= fb) by {
            assert(forall|k: int|
                0 <= k < fb.len() ==> #[trigger] data.subrange(pos, pos + fb.len())[k]
                    == data.subrange(pos, data.len() as int)[k]);
        }
        lemma_unknown_field_round_trip(f, data, pos);
        let end = pos + fb.len();
        assert(data.subrange(end, data.len() as int) =~= unknown_fields_bytes(rest)) by {
            assert(forall|k: int|
                0 <= k < data.len() - end ==> #[trigger] data.subrange(end, data.len() as int)[k]
                    == data.subrange(pos, data.len() as int)[fb.len() + k]);
        }
        lemma_merge_unknowns(m.push(f), rest, data, end);
        assert(UnknownFieldView { number: f.number, value: f.value } == f);
        assert(m.push(f) + rest =~= m + fs);
    }
}

} // verus!
