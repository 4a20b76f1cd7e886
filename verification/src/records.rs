//! The structured output of the walker: one record per top-level function
//! or struct declaration, and the error raised on a construct the walker
//! does not understand.

use crate::kinds::PointerKind;
use vstd::prelude::*;

verus! {

/// A construct the walker does not recognize. Encountering one is treated
/// as fatal by the caller: the walker favors failing loudly over silently
/// misclassifying or skipping content.
#[derive(Clone, Copy, Debug, PartialEq, Eq, Structural)]
pub enum WalkError {
    /// A binding pattern beyond a plain name or a name with a type.
    UnsupportedPattern,
    /// A function parameter that is not a typed pattern (a receiver).
    UnsupportedArgument,
    /// A top-level item that is neither a function nor a struct.
    UnsupportedItem,
    /// A struct field without a name.
    UnsupportedField,
}

impl WalkError {
    /// A short description of the unsupported construct.
    pub fn message(&self) -> (r: String)
        ensures
            r@ == spec_error_message(*self),
    {
        match self {
            WalkError::UnsupportedPattern => "Unsupported pattern".to_owned(),
            WalkError::UnsupportedArgument => "Unsupported argument kind".to_owned(),
            WalkError::UnsupportedItem => "Unsupported item kind".to_owned(),
            WalkError::UnsupportedField => "Unsupported field".to_owned(),
        }
    }
}

/// The description `WalkError::message` returns.
pub open spec fn spec_error_message(e: WalkError) -> Seq<char> {
    match e {
        WalkError::UnsupportedPattern => "Unsupported pattern"@,
        WalkError::UnsupportedArgument => "Unsupported argument kind"@,
        WalkError::UnsupportedItem => "Unsupported item kind"@,
        WalkError::UnsupportedField => "Unsupported field"@,
    }
}

/// Mathematical model of one named, classified binding.
pub struct NamedKindV {
    pub name: Seq<char>,
    pub kind: PointerKind,
}

/// Mathematical model of a function record.
pub struct FnRecordV {
    pub name: Seq<char>,
    pub return_kind: PointerKind,
    pub args: Seq<NamedKindV>,
    pub variables: Seq<NamedKindV>,
}

/// Mathematical model of a struct record.
pub struct StructRecordV {
    pub name: Seq<char>,
    pub fields: Seq<NamedKindV>,
}

/// Mathematical model of one declaration record.
pub enum RecordV {
    Function(FnRecordV),
    Struct(StructRecordV),
}

/// One binding (parameter, local variable, or field) with the kind its
/// type annotation classified to.
#[derive(Debug, PartialEq)]
pub struct NamedKind {
    pub name: String,
    pub kind: PointerKind,
}

/// The record built for one top-level function: its name, the kind of its
/// return type, its parameters in declaration order, and every local
/// variable discovered in its body.
#[derive(Debug, PartialEq)]
pub struct FnRecord {
    pub name: String,
    pub return_kind: PointerKind,
    pub args: Vec<NamedKind>,
    pub variables: Vec<NamedKind>,
}

/// The record built for one top-level struct: its name and its fields in
/// declaration order.
#[derive(Debug, PartialEq)]
pub struct StructRecord {
    pub name: String,
    pub fields: Vec<NamedKind>,
}

/// One declaration record.
#[derive(Debug, PartialEq)]
pub enum Record {
    Function(FnRecord),
    Struct(StructRecord),
}

impl View for NamedKind {
    type V = NamedKindV;

    open spec fn view(&self) -> NamedKindV {
        NamedKindV { name: self.name@, kind: self.kind }
    }
}

impl View for FnRecord {
    type V = FnRecordV;

    open spec fn view(&self) -> FnRecordV {
        FnRecordV {
            name: self.name@,
            return_kind: self.return_kind,
            args: self.args@.map_values(|a: NamedKind| a@),
            variables: self.variables@.map_values(|v: NamedKind| v@),
        }
    }
}

impl View for StructRecord {
    type V = StructRecordV;

    open spec fn view(&self) -> StructRecordV {
        StructRecordV { name: self.name@, fields: self.fields@.map_values(|f: NamedKind| f@) }
    }
}

impl View for Record {
    type V = RecordV;

    open spec fn view(&self) -> RecordV {
        match self {
            Record::Function(f) => RecordV::Function(f@),
            Record::Struct(s) => RecordV::Struct(s@),
        }
    }
}

/// The model of a whole record list.
pub open spec fn records_view(rs: Seq<Record>) -> Seq<RecordV> {
    rs.map_values(|r: Record| r@)
}

} // verus!
