use pointer_kinds::PointerKind;
use pointer_kinds::classify::classify_annotation;

#[test]
fn classify_optional_owned_handle() {
    assert_eq!(classify_annotation("Option<Box<i32>>"), PointerKind::Move);
}

#[test]
fn classify_optional_mutable_reference() {
    assert_eq!(classify_annotation("Option<&mut i32>"), PointerKind::Mut);
}

#[test]
fn classify_optional_immutable_reference() {
    assert_eq!(classify_annotation("Option<&i32>"), PointerKind::Const);
}

#[test]
fn classify_raw_const_pointer() {
    assert_eq!(classify_annotation("*const i32"), PointerKind::RawConst);
}

#[test]
fn classify_raw_owning_pointer() {
    assert_eq!(classify_annotation("*mut /* owning */ i32"), PointerKind::RawMov);
}

#[test]
fn classify_raw_mut_pointer() {
    assert_eq!(classify_annotation("*mut i32"), PointerKind::RawMut);
}

#[test]
fn classify_plain_value_type() {
    assert_eq!(classify_annotation("i32"), PointerKind::NonePointerKind);
    assert_eq!(classify_annotation("Vec<u8>"), PointerKind::NonePointerKind);
    assert_eq!(classify_annotation(""), PointerKind::NonePointerKind);
}

#[test]
fn classify_priority_owning_marker_over_raw_mut() {
    // The owning-marked text also begins with `*mut `, yet the more
    // specific shape must win.
    let text = "*mut /* owning */ i32";
    assert!(text.starts_with("*mut "));
    assert_eq!(classify_annotation(text), PointerKind::RawMov);
}

#[test]
fn classify_priority_mut_over_const() {
    // The mutable-reference text also begins with `Option<&` and ends
    // with `>`, yet the more specific shape must win.
    assert_eq!(classify_annotation("Option<&mut u8>"), PointerKind::Mut);
}

#[test]
fn classify_empty_wrapped_type() {
    assert_eq!(classify_annotation("Option<Box<>>"), PointerKind::Move);
}

#[test]
fn classify_unclosed_wrapper_is_plain() {
    assert_eq!(classify_annotation("Option<Box<u8>"), PointerKind::NonePointerKind);
}

#[test]
fn classify_newline_breaks_anchored_shape() {
    // An anchored shape may not span lines; the catch-all raw-mut shape
    // has no such bound.
    assert_eq!(classify_annotation("*const a\nb"), PointerKind::NonePointerKind);
    assert_eq!(classify_annotation("*mut a\nb"), PointerKind::RawMut);
}

#[test]
fn kind_names() {
    assert_eq!(PointerKind::Inferred.name(), "Inferred");
    assert_eq!(PointerKind::NonePointerKind.name(), "NonePointerKind");
    assert_eq!(PointerKind::Move.name(), "Move");
    assert_eq!(PointerKind::Mut.name(), "Mut");
    assert_eq!(PointerKind::Const.name(), "Const");
    assert_eq!(PointerKind::RawMut.name(), "RawMut");
    assert_eq!(PointerKind::RawMov.name(), "RawMov");
    assert_eq!(PointerKind::RawConst.name(), "RawConst");
}
