//! 1-based compiler spans and the 0-based editor ranges derived from them.
use vstd::prelude::*;

verus! {

/// A span as reported by the compiler tools: 1-based, inclusive on both ends.
#[derive(Debug, Clone, Copy, PartialEq, Eq, Structural)]
pub struct ErrorPosition {
    pub start_line: u32,
    pub end_line: u32,
    pub start_column: u32,
    pub end_column: u32,
}

/// A 0-based editor position.
#[derive(Debug, Clone, Copy, PartialEq, Eq, Structural)]
pub struct EditorPosition {
    pub line: u32,
    pub character: u32,
}

/// A 0-based, half-open editor range.
#[derive(Debug, Clone, Copy, PartialEq, Eq, Structural)]
pub struct EditorRange {
    pub start: EditorPosition,
    pub end: EditorPosition,
}

/// Subtracting one, stopping at zero.
pub open spec fn dec_sat(x: u32) -> u32 {
    if x == 0 { 0 } else { (x - 1) as u32 }
}

/// The editor range of a compiler span: every coordinate lowered by one, saturating at zero.
pub open spec fn editor_range_of(p: ErrorPosition) -> EditorRange {
    EditorRange {
        start: EditorPosition { line: dec_sat(p.start_line), character: dec_sat(p.start_column) },
        end: EditorPosition { line: dec_sat(p.end_line), character: dec_sat(p.end_column) },
    }
}

/// Line-granular overlap of two ranges; columns play no part.
pub open spec fn lines_overlap(a: EditorRange, b: EditorRange) -> bool {
    a.start.line <= b.end.line && b.start.line <= a.end.line
}

/// The range that an insertion at the start of a line occupies.
pub open spec fn line_start_range(line: u32) -> EditorRange {
    EditorRange {
        start: EditorPosition { line: line, character: 0 },
        end: EditorPosition { line: line, character: 0 },
    }
}

fn dec(x: u32) -> (r: u32)
    ensures
        r == dec_sat(x),
{
    if x == 0 {
        0
    } else {
        x - 1
    }
}

/// Converts a 1-based inclusive compiler span into a 0-based editor range.
pub fn to_editor_range(p: &ErrorPosition) -> (r: EditorRange)
    ensures
        r == editor_range_of(*p),
{
    EditorRange {
        start: EditorPosition { line: dec(p.start_line), character: dec(p.start_column) },
        end: EditorPosition { line: dec(p.end_line), character: dec(p.end_column) },
    }
}

/// Whether two ranges share a line.
pub fn ranges_overlap(range1: &EditorRange, range2: &EditorRange) -> (r: bool)
    ensures
        r == lines_overlap(*range1, *range2),
{
    range1.start.line <= range2.end.line && range2.start.line <= range1.end.line
}

/// The empty range at the start of `line`.
pub fn line_start(line: u32) -> (r: EditorRange)
    ensures
        r == line_start_range(line),
{
    EditorRange {
        start: EditorPosition { line, character: 0 },
        end: EditorPosition { line, character: 0 },
    }
}

/// A span `{1,1,1,1}` becomes the empty range at the origin, and a line or column
/// of zero stays at zero instead of wrapping.
pub proof fn lemma_origin_and_saturation(p: ErrorPosition)
    ensures
        p == (ErrorPosition { start_line: 1, end_line: 1, start_column: 1, end_column: 1 })
            ==> editor_range_of(p) == line_start_range(0),
        p.start_line == 0 ==> editor_range_of(p).start.line == 0,
        p.start_column == 0 ==> editor_range_of(p).start.character == 0,
        p.end_line == 0 ==> editor_range_of(p).end.line == 0,
        p.end_column == 0 ==> editor_range_of(p).end.character == 0,
{
}

} // verus!
