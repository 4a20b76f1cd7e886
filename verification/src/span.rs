//! Span text recovery: a table of line-start offsets, and the slicing of a
//! source-position span back to the literal text it covers.
//!
//! Lines are 1-indexed; columns count characters (Unicode scalar values)
//! from the start of their line. The offset table is built once per file and
//! reused for every span lookup within that file.

use vstd::prelude::*;

verus! {

/// A source-position span: where a syntax node starts and ends.
#[derive(Clone, Copy, Debug, PartialEq, Eq, Structural)]
pub struct SrcSpan {
    /// 1-indexed line on which the node starts.
    pub start_line: usize,
    /// Characters from the start of `start_line` to the node's first character.
    pub start_col: usize,
    /// 1-indexed line on which the node ends.
    pub end_line: usize,
    /// Characters from the start of `end_line` to one past the node's last character.
    pub end_col: usize,
}

/// The character offsets at which a new line begins strictly after offset 0,
/// considering only the first `upto` characters of `s`: one entry, `i + 1`,
/// for every newline character at index `i < upto`, in increasing order.
pub open spec fn newline_starts(s: Seq<char>, upto: int) -> Seq<int>
    decreases upto,
{
    if upto <= 0 {
        Seq::empty()
    } else if s[upto - 1] == '\n' {
        newline_starts(s, upto - 1).push(upto)
    } else {
        newline_starts(s, upto - 1)
    }
}

/// The character offset at which each line of `s` begins: line 1 begins at
/// offset 0, and every further line begins right after a newline character.
pub open spec fn line_starts(s: Seq<char>) -> Seq<int> {
    seq![0int] + newline_starts(s, s.len() as int)
}

/// A runtime offset table agrees, entry for entry, with `line_starts`.
pub open spec fn is_offset_table(t: Seq<usize>, src: Seq<char>) -> bool {
    t.map_values(|x: usize| x as int) == line_starts(src)
}

/// The character offset of the first character a span covers.
pub open spec fn span_start_offset(src: Seq<char>, sp: SrcSpan) -> int {
    line_starts(src)[sp.start_line - 1] + sp.start_col
}

/// The character offset one past the last character a span covers.
pub open spec fn span_end_offset(src: Seq<char>, sp: SrcSpan) -> int {
    line_starts(src)[sp.end_line - 1] + sp.end_col
}

/// A span lies within its source text: its lines exist and the offsets it
/// resolves to form a well-ordered range inside the text. A span handed to
/// the walker must always originate from the same source text, so a violation
/// is a programming error of the caller, not a reported failure mode.
pub open spec fn span_valid(src: Seq<char>, sp: SrcSpan) -> bool {
    &&& 1 <= sp.start_line <= line_starts(src).len()
    &&& 1 <= sp.end_line <= line_starts(src).len()
    &&& span_start_offset(src, sp) <= span_end_offset(src, sp)
    &&& span_end_offset(src, sp) <= src.len()
}

/// The exact substring of the source text that a valid span covers.
pub open spec fn spec_span_text(src: Seq<char>, sp: SrcSpan) -> Seq<char> {
    src.subrange(span_start_offset(src, sp), span_end_offset(src, sp))
}

/// Every entry of `newline_starts(s, upto)` lies in `[1, upto]`.
proof fn lemma_newline_starts_bounds(s: Seq<char>, upto: int)
    requires
        upto >= 0,
    ensures
        forall|j: int|
            0 <= j < newline_starts(s, upto).len() ==> 1 <= #[trigger] newline_starts(s, upto)[j]
                <= upto,
    decreases upto,
{
    if upto > 0 {
        lemma_newline_starts_bounds(s, upto - 1);
        assert forall|j: int| 0 <= j < newline_starts(s, upto).len() implies 1 <= #[trigger] newline_starts(
            s,
            upto,
        )[j] <= upto by {
            if s[upto - 1] == '\n' && j == newline_starts(s, upto - 1).len() {
                assert(newline_starts(s, upto)[j] == upto);
            } else {
                assert(newline_starts(s, upto)[j] == newline_starts(s, upto - 1)[j]);
            }
        }
    }
}

/// Every line of a text begins at an offset within the text.
pub proof fn lemma_line_starts_bounds(s: Seq<char>)
    ensures
        line_starts(s).len() >= 1,
        line_starts(s)[0] == 0,
        forall|j: int|
            0 <= j < line_starts(s).len() ==> 0 <= #[trigger] line_starts(s)[j] <= s.len(),
{
    lemma_newline_starts_bounds(s, s.len() as int);
}

/// Builds the line-start offset table of a source text: offset 0 for line 1,
/// then one entry right after each newline character, in order.
pub fn lines_offsets(s: &String) -> (r: Vec<usize>)
    ensures
        is_offset_table(r@, s@),
{
    let text = s.as_str();
    let n = text.unicode_len();
    let mut lines: Vec<usize> = Vec::new();
    lines.push(0);
    assert(lines@.map_values(|x: usize| x as int) =~= seq![0int] + newline_starts(s@, 0));
    let mut i: usize = 0;
    while i < n
        invariant
            i <= n,
            n == s@.len(),
            text@ == s@,
            lines@.map_values(|x: usize| x as int) == seq![0int] + newline_starts(s@, i as int),
        decreases n - i,
    {
        let ghost prev = lines@;
        let ch = text.get_char(i);
        if ch == '\n' {
            lines.push(i + 1);
            assert(lines@.map_values(|x: usize| x as int) =~= prev.map_values(
                |x: usize| x as int,
            ).push((i + 1) as int));
        }
        i = i + 1;
        assert(lines@.map_values(|x: usize| x as int) =~= seq![0int] + newline_starts(
            s@,
            i as int,
        ));
    }
    lines
}

/// Recovers the literal source text a span covers, using a precomputed
/// offset table for the same source text.
pub fn span_to_str(span: &SrcSpan, src: &str, table: &Vec<usize>) -> (r: String)
    requires
        is_offset_table(table@, src@),
        span_valid(src@, *span),
    ensures
        r@ == spec_span_text(src@, *span),
{
    // Establishes that the text's character count fits in a machine word,
    // so the offset additions below cannot overflow.
    let _n: usize = src.unicode_len();
    proof {
        lemma_line_starts_bounds(src@);
        assert(table@.map_values(|x: usize| x as int).len() == line_starts(src@).len());
        assert(table@.map_values(|x: usize| x as int)[span.start_line - 1] == line_starts(
            src@,
        )[span.start_line - 1]);
        assert(table@.map_values(|x: usize| x as int)[span.end_line - 1] == line_starts(
            src@,
        )[span.end_line - 1]);
    }
    let start_offset = table[span.start_line - 1] + span.start_col;
    let end_offset = table[span.end_line - 1] + span.end_col;
    src.substring_char(start_offset, end_offset).to_owned()
}

/// Tests whether a span lies within the source text the table was built for.
pub fn check_span(span: &SrcSpan, src: &str, table: &Vec<usize>) -> (r: bool)
    requires
        is_offset_table(table@, src@),
    ensures
        r == span_valid(src@, *span),
{
    let n = src.unicode_len();
    proof {
        lemma_line_starts_bounds(src@);
        assert(table@.map_values(|x: usize| x as int).len() == line_starts(src@).len());
    }
    if !(1 <= span.start_line && span.start_line <= table.len() && 1 <= span.end_line
        && span.end_line <= table.len()) {
        return false;
    }
    let a0 = table[span.start_line - 1];
    let b0 = table[span.end_line - 1];
    proof {
        assert(table@.map_values(|x: usize| x as int)[span.start_line - 1] == line_starts(
            src@,
        )[span.start_line - 1]);
        assert(table@.map_values(|x: usize| x as int)[span.end_line - 1] == line_starts(
            src@,
        )[span.end_line - 1]);
    }
    if span.start_col > n - a0 {
        return false;
    }
    if span.end_col > n - b0 {
        return false;
    }
    a0 + span.start_col <= b0 + span.end_col
}

} // verus!
