//! The closed set of pointer/ownership classifications.

use vstd::prelude::*;

verus! {

/// The classification assigned to one type annotation.
///
/// Exactly one kind is assigned per annotation: `Inferred` when no
/// annotation is present at all, `NonePointerKind` when an annotation is
/// present but matches none of the recognized pointer shapes, and one of
/// the six pointer shapes otherwise.
#[derive(Clone, Copy, Debug, PartialEq, Eq, Structural)]
pub enum PointerKind {
    /// No annotation present (e.g. a function without a declared return type).
    Inferred,
    /// An annotation present, but matching no recognized pointer shape.
    NonePointerKind,
    /// An optional, uniquely owned heap allocation.
    Move,
    /// An optional mutable borrowed reference.
    Mut,
    /// An optional immutable borrowed reference.
    Const,
    /// A raw mutable, non-owning pointer (the catch-all raw-pointer shape).
    RawMut,
    /// A raw pointer carrying an explicit owning marker.
    RawMov,
    /// A raw non-owning, read-only pointer.
    RawConst,
}

/// The display name of a kind, as it appears in the machine-readable output.
pub open spec fn spec_kind_name(k: PointerKind) -> Seq<char> {
    match k {
        PointerKind::Inferred => "Inferred"@,
        PointerKind::NonePointerKind => "NonePointerKind"@,
        PointerKind::Move => "Move"@,
        PointerKind::Mut => "Mut"@,
        PointerKind::Const => "Const"@,
        PointerKind::RawMut => "RawMut"@,
        PointerKind::RawMov => "RawMov"@,
        PointerKind::RawConst => "RawConst"@,
    }
}

impl PointerKind {
    /// The name of this kind as a fresh string.
    pub fn name(&self) -> (r: String)
        ensures
            r@ == spec_kind_name(*self),
    {
        match self {
            PointerKind::Inferred => "Inferred".to_owned(),
            PointerKind::NonePointerKind => "NonePointerKind".to_owned(),
            PointerKind::Move => "Move".to_owned(),
            PointerKind::Mut => "Mut".to_owned(),
            PointerKind::Const => "Const".to_owned(),
            PointerKind::RawMut => "RawMut".to_owned(),
            PointerKind::RawMov => "RawMov".to_owned(),
            PointerKind::RawConst => "RawConst".to_owned(),
        }
    }
}

} // verus!
