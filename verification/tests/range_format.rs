use scip_scan::error::ToolError;
use scip_scan::range::classify_range;
use scip_scan::range::format_range;
use scip_scan::range::RangeShape;

#[test]
fn point_is_one_indexed() {
    assert_eq!(format_range(&vec![10, 5]).unwrap(), "11:6");
}

#[test]
fn point_at_origin() {
    assert_eq!(format_range(&vec![0, 0]).unwrap(), "1:1");
}

#[test]
fn same_line_span() {
    assert_eq!(format_range(&vec![10, 5, 12]).unwrap(), "11:6-13");
}

#[test]
fn multi_line_span() {
    assert_eq!(format_range(&vec![10, 5, 15, 20]).unwrap(), "11:6,16:21");
}

#[test]
fn empty_range_placeholder() {
    assert_eq!(format_range(&Vec::new()).unwrap(), "\u{2205}");
}

#[test]
fn one_integer_is_still_the_placeholder() {
    assert_eq!(format_range(&vec![42]).unwrap(), "\u{2205}");
    assert_eq!(format_range(&vec![-7]).unwrap(), "\u{2205}");
}

#[test]
fn oversized_range_is_malformed() {
    assert_eq!(format_range(&vec![1, 2, 3, 4, 5]), Err(ToolError::MalformedRange));
    assert_eq!(format_range(&vec![0; 9]), Err(ToolError::MalformedRange));
}

#[test]
fn negative_components_keep_their_sign() {
    assert_eq!(format_range(&vec![-2, -3]).unwrap(), "-1:-2");
}

#[test]
fn largest_components_do_not_overflow() {
    assert_eq!(
        format_range(&vec![2147483647, 2147483646]).unwrap(),
        "2147483648:2147483647"
    );
}

#[test]
fn classification_is_by_length_alone() {
    assert_eq!(classify_range(&vec![]).unwrap(), RangeShape::Empty);
    assert_eq!(classify_range(&vec![9]).unwrap(), RangeShape::Empty);
    assert_eq!(
        classify_range(&vec![1, 2]).unwrap(),
        RangeShape::Point { line: 1, character: 2 }
    );
    assert_eq!(
        classify_range(&vec![1, 2, 3]).unwrap(),
        RangeShape::SameLine { line: 1, start_character: 2, end_character: 3 }
    );
    assert_eq!(
        classify_range(&vec![1, 2, 3, 4]).unwrap(),
        RangeShape::MultiLine {
            start_line: 1,
            start_character: 2,
            end_line: 3,
            end_character: 4
        }
    );
    assert_eq!(classify_range(&vec![1, 2, 3, 4, 5]), Err(ToolError::MalformedRange));
}

#[test]
fn error_messages_name_each_condition() {
    assert_eq!(
        ToolError::MissingInput.message(),
        "expected the path of an index file as the first argument"
    );
    assert_eq!(
        ToolError::IoError.message(),
        "the index file could not be opened or read"
    );
    assert_eq!(ToolError::DecodeError.message(), "the file is not a valid SCIP index");
    assert_eq!(
        ToolError::MalformedRange.message(),
        "the index holds a range of more than four integers"
    );
}
