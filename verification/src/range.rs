//! The positional range encoding and its rendering.
//!
//! A range is a sequence of two, three or four zero-indexed integers; its
//! length alone decides its shape. Rendering adds one to every component, so
//! the output is 1-indexed as editors display positions. A sequence of zero
//! or one integers renders as a fixed placeholder; a longer sequence is a
//! contract violation of the index format and aborts the run.

use vstd::prelude::*;

use crate::error::ToolError;
use crate::text::append_int;
use crate::text::dec_str;

verus! {

/// The tagged reading of a range sequence, one case per admitted length.
#[derive(Clone, Copy, Debug, PartialEq, Eq, Structural)]
pub enum RangeShape {
    /// Zero or one integers: no usable position.
    Empty,
    /// Two integers: a single point, `[line, character]`.
    Point { line: i32, character: i32 },
    /// Three integers: a span within one line,
    /// `[line, start_character, end_character]`.
    SameLine { line: i32, start_character: i32, end_character: i32 },
    /// Four integers: a span across lines,
    /// `[start_line, start_character, end_line, end_character]`.
    MultiLine { start_line: i32, start_character: i32, end_line: i32, end_character: i32 },
}

/// The one length-based classification of a range sequence; `None` for the
/// lengths the index format does not define.
pub open spec fn spec_classify(r: Seq<i32>) -> Option<RangeShape> {
    if r.len() <= 1 {
        Some(RangeShape::Empty)
    } else if r.len() == 2 {
        Some(RangeShape::Point { line: r[0], character: r[1] })
    } else if r.len() == 3 {
        Some(
            RangeShape::SameLine { line: r[0], start_character: r[1], end_character: r[2] },
        )
    } else if r.len() == 4 {
        Some(
            RangeShape::MultiLine {
                start_line: r[0],
                start_character: r[1],
                end_line: r[2],
                end_character: r[3],
            },
        )
    } else {
        None
    }
}

/// The placeholder rendered for a range that carries no position.
pub open spec fn empty_range_str() -> Seq<char> {
    seq!['\u{2205}']
}

/// The rendering of one classified range, every component shifted to
/// 1-indexed display form.
pub open spec fn shape_str(shape: RangeShape) -> Seq<char> {
    match shape {
        RangeShape::Empty => empty_range_str(),
        RangeShape::Point { line, character } => dec_str(line + 1) + seq![':'] + dec_str(
            character + 1,
        ),
        RangeShape::SameLine { line, start_character, end_character } => dec_str(line + 1)
            + seq![':'] + dec_str(start_character + 1) + seq!['-'] + dec_str(end_character + 1),
        RangeShape::MultiLine { start_line, start_character, end_line, end_character } => dec_str(
            start_line + 1,
        ) + seq![':'] + dec_str(start_character + 1) + seq![','] + dec_str(end_line + 1)
            + seq![':'] + dec_str(end_character + 1),
    }
}

/// The rendering of a well-formed range sequence.
pub open spec fn range_str(r: Seq<i32>) -> Seq<char>
    recommends
        spec_classify(r) is Some,
{
    shape_str(spec_classify(r).unwrap())
}

/// A range of zero or one integers renders as the fixed placeholder,
/// whatever the integers are.
pub proof fn lemma_empty_rendering(r: Seq<i32>)
    requires
        r.len() <= 1,
    ensures
        range_str(r) == empty_range_str(),
{
}

/// A two-integer range `[line, character]` renders as `"{line+1}:{character+1}"`.
pub proof fn lemma_point_rendering(r: Seq<i32>)
    requires
        r.len() == 2,
    ensures
        range_str(r) == dec_str(r[0] + 1) + seq![':'] + dec_str(r[1] + 1),
{
}

/// A three-integer range `[line, start, end]` renders as
/// `"{line+1}:{start+1}-{end+1}"`.
pub proof fn lemma_same_line_rendering(r: Seq<i32>)
    requires
        r.len() == 3,
    ensures
        range_str(r) == dec_str(r[0] + 1) + seq![':'] + dec_str(r[1] + 1) + seq!['-'] + dec_str(
            r[2] + 1,
        ),
{
}

/// A four-integer range `[start_line, start, end_line, end]` renders as
/// `"{start_line+1}:{start+1},{end_line+1}:{end+1}"`.
pub proof fn lemma_multi_line_rendering(r: Seq<i32>)
    requires
        r.len() == 4,
    ensures
        range_str(r) == dec_str(r[0] + 1) + seq![':'] + dec_str(r[1] + 1) + seq![','] + dec_str(
            r[2] + 1,
        ) + seq![':'] + dec_str(r[3] + 1),
{
}

/// Classifies a range sequence by its length; every length above four is the
/// fatal `MalformedRange`, never silently skipped.
pub fn classify_range(r: &Vec<i32>) -> (res: Result<RangeShape, ToolError>)
    ensures
        (match res {
            Ok(shape) => spec_classify(r@) == Some(shape),
            Err(e) => spec_classify(r@) is None && e == ToolError::MalformedRange,
        }),
{
    let n = r.len();
    if n <= 1 {
        Ok(RangeShape::Empty)
    } else if n == 2 {
        Ok(RangeShape::Point { line: r[0], character: r[1] })
    } else if n == 3 {
        Ok(RangeShape::SameLine { line: r[0], start_character: r[1], end_character: r[2] })
    } else if n == 4 {
        Ok(
            RangeShape::MultiLine {
                start_line: r[0],
                start_character: r[1],
                end_line: r[2],
                end_character: r[3],
            },
        )
    } else {
        Err(ToolError::MalformedRange)
    }
}

/// Renders one classified range as display text.
pub fn format_shape(shape: &RangeShape) -> (out: String)
    ensures
        out@ == shape_str(*shape),
{
    let mut out = String::new();
    match *shape {
        RangeShape::Empty => {
            proof {
                reveal_strlit("\u{2205}");
            }
            out.append("\u{2205}");
            proof {
                assert(out@ =~= shape_str(*shape));
            }
        },
        RangeShape::Point { line, character } => {
            proof {
                reveal_strlit(":");
            }
            append_int(&mut out, line as i64 + 1);
            out.append(":");
            append_int(&mut out, character as i64 + 1);
            proof {
                assert(out@ =~= shape_str(*shape));
            }
        },
        RangeShape::SameLine { line, start_character, end_character } => {
            proof {
                reveal_strlit(":");
                reveal_strlit("-");
            }
            append_int(&mut out, line as i64 + 1);
            out.append(":");
            append_int(&mut out, start_character as i64 + 1);
            out.append("-");
            append_int(&mut out, end_character as i64 + 1);
            proof {
                assert(out@ =~= shape_str(*shape));
            }
        },
        RangeShape::MultiLine { start_line, start_character, end_line, end_character } => {
            proof {
                reveal_strlit(":");
                reveal_strlit(",");
            }
            append_int(&mut out, start_line as i64 + 1);
            out.append(":");
            append_int(&mut out, start_character as i64 + 1);
            out.append(",");
            append_int(&mut out, end_line as i64 + 1);
            out.append(":");
            append_int(&mut out, end_character as i64 + 1);
            proof {
                assert(out@ =~= shape_str(*shape));
            }
        },
    }
    out
}

/// Classifies and renders a range sequence in one step.
pub fn format_range(r: &Vec<i32>) -> (res: Result<String, ToolError>)
    ensures
        (match res {
            Ok(out) => spec_classify(r@) is Some && out@ == range_str(r@),
            Err(e) => spec_classify(r@) is None && e == ToolError::MalformedRange,
        }),
{
    let shape = classify_range(r)?;
    Ok(format_shape(&shape))
}

} // verus!
