//! The schema model: message and field descriptors as plain data, together
//! with the source-location records that carry documentation comments.
//! Descriptors are produced by an external schema compiler and treated as
//! read-only here.

use vstd::prelude::*;

use crate::wire::WireType;

verus! {

/// How often a field may occur: exactly one value, an ordered list, or a
/// keyed mapping.
#[derive(Clone, Copy, PartialEq, Eq, Structural, Debug)]
pub enum FieldLabel {
    Singular,
    Repeated,
    Mapping,
}

/// The subtypes a scalar field can have. Each determines a wire category.
#[derive(Clone, Copy, PartialEq, Eq, Structural, Debug)]
pub enum ScalarKind {
    Int32,
    Int64,
    Uint32,
    Uint64,
    Bool,
    Fixed32,
    Fixed64,
}

/// What a field holds: a scalar, a string, raw bytes, an embedded message
/// or an enumeration, the latter two referred to by type name.
#[derive(Clone, PartialEq, Debug)]
pub enum FieldKind {
    Scalar(ScalarKind),
    Str,
    Bytes,
    Message(String),
    Enumeration(String),
}

/// The wire category a field of kind `k` travels under.
pub open spec fn wire_category(k: FieldKind) -> WireType {
    match k {
        FieldKind::Scalar(s) => match s {
            ScalarKind::Fixed32 => WireType::Fixed32,
            ScalarKind::Fixed64 => WireType::Fixed64,
            _ => WireType::Varint,
        },
        FieldKind::Str => WireType::LengthDelimited,
        FieldKind::Bytes => WireType::LengthDelimited,
        FieldKind::Message(_) => WireType::LengthDelimited,
        FieldKind::Enumeration(_) => WireType::Varint,
    }
}

/// One field of a message: its number (stable, unique within the
/// message), its name, how often it occurs, and what it holds.
#[derive(Clone, PartialEq, Debug)]
pub struct FieldDescriptorProto {
    pub name: String,
    pub number: u32,
    pub label: FieldLabel,
    pub kind: FieldKind,
}

/// One message: its name and its fields in declaration order.
#[derive(Clone, PartialEq, Debug)]
pub struct DescriptorProto {
    pub name: String,
    pub field: Vec<FieldDescriptorProto>,
}

/// One schema file: its path, its package, and its messages in
/// declaration order.
#[derive(Clone, PartialEq, Debug)]
pub struct FileDescriptorProto {
    pub name: String,
    pub package: String,
    pub message_type: Vec<DescriptorProto>,
}

/// One source location: the integer path that names a schema element and
/// the comment text that stood before it, if any.
#[derive(Clone, PartialEq, Debug)]
pub struct Location {
    pub path: Vec<i32>,
    pub leading_comments: String,
}

/// The flat collection of source locations for a schema file, the sole
/// channel through which documentation text reaches generated output.
#[derive(Clone, PartialEq, Debug)]
pub struct SourceCodeInfo {
    pub location: Vec<Location>,
}

} // verus!
