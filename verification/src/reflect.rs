//! The reflection layer: name-indexed field-accessor tables built once per
//! message type, each carrying a back-reference to the originating
//! descriptor so that a field's name, number, label and kind can be read
//! without compile-time knowledge of the message's shape.

use vstd::prelude::*;

use crate::descriptor::{FieldKind, FieldLabel, FileDescriptorProto};
use crate::text::str_eq;

verus! {

/// One field-accessor binding: the field's name and the descriptor facts
/// a caller needs to drive the matching typed accessor on the message.
#[derive(Clone, PartialEq, Debug)]
pub struct FieldAccessor {
    pub name: String,
    pub number: u32,
    pub label: FieldLabel,
    pub kind: FieldKind,
}

/// The first index in `fields` whose accessor is bound to `name`.
pub open spec fn find_field(fields: Seq<FieldAccessor>, name: Seq<char>) -> Option<int>
    decreases fields.len(),
{
    if fields.len() == 0 {
        None
    } else if fields[0].name@ == name {
        Some(0)
    } else {
        match find_field(fields.drop_first(), name) {
            Some(i) => Some(i + 1),
            None => None,
        }
    }
}

/// The reflection descriptor of one message type: its name, its ordered
/// accessor bindings, and the schema file it came from. Built once per
/// message type and read-only thereafter.
#[derive(Clone, PartialEq, Debug)]
pub struct MessageDescriptor {
    pub name: String,
    pub fields: Vec<FieldAccessor>,
    pub file_proto: FileDescriptorProto,
}

impl MessageDescriptor {
    /// Binds a message name, its accessor table and its originating
    /// schema file into one descriptor.
    pub fn new(name: String, fields: Vec<FieldAccessor>, file_proto: FileDescriptorProto) -> (r:
        MessageDescriptor)
        ensures
            r.name == name,
            r.fields == fields,
            r.file_proto == file_proto,
    {
        MessageDescriptor { name, fields, file_proto }
    }

    /// The first accessor bound to `name`, if any field carries it.
    pub fn field_by_name<'a>(&'a self, name: &str) -> (r: Option<&'a FieldAccessor>)
        ensures
            match r {
                Some(f) => {
                    &&& find_field(self.fields@, name@) matches Some(i)
                    &&& find_field(self.fields@, name@) matches Some(i) ==> *f == self.fields@[i]
                },
                None => find_field(self.fields@, name@) is None,
            },
    {
        let n = self.fields.len();
        let mut i: usize = 0;
        while i < n
            invariant
                n == self.fields@.len(),
                i <= n,
                forall|j: int| 0 <= j < i ==> self.fields@[j].name@ != name@,
            decreases n - i,
        {
            if str_eq(self.fields[i].name.as_str(), name) {
                proof {
                    lemma_find_field_at(self.fields@, name@, i as int);
                }
                return Some(&self.fields[i]);
            }
            i = i + 1;
        }
        proof {
            lemma_find_field_none(self.fields@, name@);
        }
        None
    }
}

proof fn lemma_find_field_at(fields: Seq<FieldAccessor>, name: Seq<char>, i: int)
    requires
        0 <= i < fields.len(),
        fields[i].name@ == name,
        forall|j: int| 0 <= j < i ==> fields[j].name@ != name,
    ensures
        find_field(fields, name) == Some(i),
    decreases i,
{
    if i > 0 {
        lemma_find_field_at(fields.drop_first(), name, i - 1);
    }
}

proof fn lemma_find_field_none(fields: Seq<FieldAccessor>, name: Seq<char>)
    requires
        forall|j: int| 0 <= j < fields.len() ==> fields[j].name@ != name,
    ensures
        find_field(fields, name) is None,
    decreases fields.len(),
{
    if fields.len() > 0 {
        lemma_find_field_none(fields.drop_first(), name);
    }
}

/// The reflection descriptor of one schema file: the file's schema data
/// and the reflection descriptors of its messages, in declaration order.
#[derive(Clone, PartialEq, Debug)]
pub struct FileDescriptor {
    pub proto: FileDescriptorProto,
    pub messages: Vec<MessageDescriptor>,
}

impl FileDescriptor {
    /// Binds a schema file's data and its message descriptors together.
    pub fn new(proto: FileDescriptorProto, messages: Vec<MessageDescriptor>) -> (r: FileDescriptor)
        ensures
            r.proto == proto,
            r.messages == messages,
    {
        FileDescriptor { proto, messages }
    }
}

} // verus!
