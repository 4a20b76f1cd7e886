//! The pointer-kind classifier: an ordered table of six textual shape rules,
//! tested first-match-wins against the literal text of a type annotation.
//!
//! Ordering is significant because the shapes overlap textually: the
//! owning-marked raw-pointer shape must be tested before the generic raw
//! mutable pointer shape, and the optional mutable reference shape before
//! the optional immutable one, or the more specific annotation would be
//! swallowed by the more general pattern.

use crate::kinds::PointerKind;
use vstd::prelude::*;

verus! {

/// `s` begins with `p`.
pub open spec fn prefix_match(s: Seq<char>, p: Seq<char>) -> bool {
    &&& s.len() >= p.len()
    &&& s.subrange(0, p.len() as int) == p
}

/// `s` is exactly `p`, then a stretch of characters containing no line
/// break, then `q`.
pub open spec fn anchored_match(s: Seq<char>, p: Seq<char>, q: Seq<char>) -> bool {
    &&& s.len() >= p.len() + q.len()
    &&& s.subrange(0, p.len() as int) == p
    &&& s.subrange(s.len() - q.len(), s.len() as int) == q
    &&& forall|i: int| p.len() <= i < s.len() - q.len() ==> s[i] != '\n'
}

/// Shape of an optional, uniquely owned heap allocation: `Option<Box<T>>`.
pub open spec fn matches_move(s: Seq<char>) -> bool {
    anchored_match(s, "Option<Box<"@, ">>"@)
}

/// Shape of an optional mutable borrowed reference: `Option<&mut T>`.
pub open spec fn matches_mut(s: Seq<char>) -> bool {
    anchored_match(s, "Option<&mut"@, ">"@)
}

/// Shape of an optional immutable borrowed reference: `Option<&T>`.
pub open spec fn matches_const(s: Seq<char>) -> bool {
    anchored_match(s, "Option<&"@, ">"@)
}

/// Shape of a raw read-only pointer: `*const T`.
pub open spec fn matches_raw_const(s: Seq<char>) -> bool {
    anchored_match(s, "*const "@, ""@)
}

/// Shape of a raw pointer carrying the explicit owning marker.
pub open spec fn matches_raw_mov(s: Seq<char>) -> bool {
    anchored_match(s, "*mut /* owning */"@, ""@)
}

/// Shape of a raw mutable pointer, the catch-all raw-pointer shape: any
/// annotation beginning `*mut `.
pub open spec fn matches_raw_mut(s: Seq<char>) -> bool {
    prefix_match(s, "*mut "@)
}

/// The kind assigned to an annotation's literal text: the kind of the first
/// shape in the priority order that matches, or `NonePointerKind` when none
/// does. Classification is total: every text yields exactly one kind.
pub open spec fn spec_classify(s: Seq<char>) -> PointerKind {
    if matches_move(s) {
        PointerKind::Move
    } else if matches_mut(s) {
        PointerKind::Mut
    } else if matches_const(s) {
        PointerKind::Const
    } else if matches_raw_const(s) {
        PointerKind::RawConst
    } else if matches_raw_mov(s) {
        PointerKind::RawMov
    } else if matches_raw_mut(s) {
        PointerKind::RawMut
    } else {
        PointerKind::NonePointerKind
    }
}

/// Tests whether `s` begins with `p`.
fn prefixed(s: &str, p: &str) -> (r: bool)
    ensures
        r == prefix_match(s@, p@),
{
    let n = s.unicode_len();
    let pl = p.unicode_len();
    if n < pl {
        return false;
    }
    let mut i: usize = 0;
    while i < pl
        invariant
            i <= pl,
            n == s@.len(),
            pl == p@.len(),
            n >= pl,
            forall|j: int| 0 <= j < i ==> s@[j] == p@[j],
        decreases pl - i,
    {
        if s.get_char(i) != p.get_char(i) {
            assert(s@.subrange(0, pl as int)[i as int] == s@[i as int]);
            return false;
        }
        i = i + 1;
    }
    assert(s@.subrange(0, pl as int) =~= p@);
    true
}

/// Tests whether `s` is `p`, then a newline-free stretch, then `q`.
fn anchored(s: &str, p: &str, q: &str) -> (r: bool)
    ensures
        r == anchored_match(s@, p@, q@),
{
    let n = s.unicode_len();
    let pl = p.unicode_len();
    let ql = q.unicode_len();
    if n < pl {
        return false;
    }
    if n - pl < ql {
        return false;
    }
    let mut i: usize = 0;
    while i < pl
        invariant
            i <= pl,
            n == s@.len(),
            pl == p@.len(),
            ql == q@.len(),
            n >= pl + ql,
            forall|j: int| 0 <= j < i ==> s@[j] == p@[j],
        decreases pl - i,
    {
        if s.get_char(i) != p.get_char(i) {
            assert(s@.subrange(0, pl as int)[i as int] == s@[i as int]);
            return false;
        }
        i = i + 1;
    }
    assert(s@.subrange(0, pl as int) =~= p@);
    let mut j: usize = 0;
    while j < ql
        invariant
            j <= ql,
            n == s@.len(),
            pl == p@.len(),
            ql == q@.len(),
            n >= pl + ql,
            s@.subrange(0, pl as int) == p@,
            forall|k: int| 0 <= k < j ==> s@[n - ql + k] == q@[k],
        decreases ql - j,
    {
        if s.get_char(n - ql + j) != q.get_char(j) {
            assert(s@.subrange(n - ql, n as int)[j as int] == s@[n - ql + j]);
            return false;
        }
        j = j + 1;
    }
    assert(s@.subrange(n - ql, n as int) =~= q@);
    let mut m: usize = pl;
    while m < n - ql
        invariant
            pl <= m <= n - ql,
            n == s@.len(),
            pl == p@.len(),
            ql == q@.len(),
            n >= pl + ql,
            s@.subrange(0, pl as int) == p@,
            s@.subrange(n - ql, n as int) == q@,
            forall|k: int| pl <= k < m ==> s@[k] != '\n',
        decreases n - ql - m,
    {
        if s.get_char(m) == '\n' {
            return false;
        }
        m = m + 1;
    }
    true
}

/// Classifies the literal text of one type annotation into a pointer kind,
/// testing the six shapes in their fixed priority order.
pub fn classify_annotation(s: &str) -> (k: PointerKind)
    ensures
        k == spec_classify(s@),
{
    if anchored(s, "Option<Box<", ">>") {
        PointerKind::Move
    } else if anchored(s, "Option<&mut", ">") {
        PointerKind::Mut
    } else if anchored(s, "Option<&", ">") {
        PointerKind::Const
    } else if anchored(s, "*const ", "") {
        PointerKind::RawConst
    } else if anchored(s, "*mut /* owning */", "") {
        PointerKind::RawMov
    } else if prefixed(s, "*mut ") {
        PointerKind::RawMut
    } else {
        PointerKind::NonePointerKind
    }
}

/// Classification is total and exclusive: every annotation text yields
/// exactly one kind, and never `Inferred`, which is reserved for the
/// absence of an annotation.
pub proof fn lemma_classify_never_inferred(s: Seq<char>)
    ensures
        spec_classify(s) != PointerKind::Inferred,
{
}

/// Pattern priority: an annotation that matches the owning-marked
/// raw-pointer shape — which always also matches the generic raw mutable
/// pointer shape — classifies as the owning-marked kind, never the generic
/// one.
pub proof fn lemma_owning_marker_wins(s: Seq<char>)
    requires
        matches_raw_mov(s),
    ensures
        matches_raw_mut(s),
        spec_classify(s) == PointerKind::RawMov,
{
    reveal_strlit("Option<Box<");
    reveal_strlit("Option<&mut");
    reveal_strlit("Option<&");
    reveal_strlit("*const ");
    reveal_strlit("*mut /* owning */");
    reveal_strlit("*mut ");
    reveal_strlit(">");
    reveal_strlit(">>");
    reveal_strlit("");
    assert(s.subrange(0, 17)[0] == s[0]);
    assert(s.subrange(0, 17)[1] == s[1]);
    assert(s[0] == '*' && s[1] == 'm');
    assert(matches_raw_mut(s)) by {
        assert forall|j: int| 0 <= j < 5 implies s.subrange(0, 5)[j] == "*mut "@[j] by {
            assert(s.subrange(0, 5)[j] == s[j]);
            assert(s.subrange(0, 17)[j] == s[j]);
        }
        assert(s.subrange(0, 5) =~= "*mut "@);
    }
    assert(!matches_move(s)) by {
        if matches_move(s) {
            assert(s.subrange(0, 11)[0] == s[0]);
        }
    }
    assert(!matches_mut(s)) by {
        if matches_mut(s) {
            assert(s.subrange(0, 11)[0] == s[0]);
        }
    }
    assert(!matches_const(s)) by {
        if matches_const(s) {
            assert(s.subrange(0, 8)[0] == s[0]);
        }
    }
    assert(!matches_raw_const(s)) by {
        if matches_raw_const(s) {
            assert(s.subrange(0, 7)[1] == s[1]);
        }
    }
}

/// Pattern priority: an annotation that matches the optional mutable
/// reference shape — which always also matches the optional immutable
/// reference shape — classifies as the mutable kind, never the immutable
/// one.
pub proof fn lemma_mut_before_const(s: Seq<char>)
    requires
        matches_mut(s),
    ensures
        matches_const(s),
        spec_classify(s) == PointerKind::Mut,
{
    reveal_strlit("Option<Box<");
    reveal_strlit("Option<&mut");
    reveal_strlit("Option<&");
    reveal_strlit(">");
    reveal_strlit(">>");
    assert(matches_const(s)) by {
        assert forall|j: int| 0 <= j < 8 implies s.subrange(0, 8)[j] == "Option<&"@[j] by {
            assert(s.subrange(0, 8)[j] == s[j]);
            assert(s.subrange(0, 11)[j] == s[j]);
        }
        assert(s.subrange(0, 8) =~= "Option<&"@);
        assert(s.subrange(s.len() - 1, s.len() as int) == ">"@);
        assert forall|i: int| 8 <= i < s.len() - 1 implies s[i] != '\n' by {
            if i < 11 {
                assert(s.subrange(0, 11)[i] == s[i]);
                assert(s[i] == "Option<&mut"@[i]);
            }
        }
    }
    assert(!matches_move(s)) by {
        if matches_move(s) {
            assert(s.subrange(0, 11)[7] == s[7]);
            assert("Option<Box<"@[7] == s[7]);
            assert("Option<&mut"@[7] == s[7]);
        }
    }
}

} // verus!
