//! The query pipeline over a decoded index: select one document by path,
//! keep the occurrences whose symbol ends with one of the configured
//! patterns, and render one output line per kept occurrence, in the order
//! the document lists them.

use vstd::prelude::*;

use crate::error::ToolError;
use crate::index::Document;
use crate::index::DocumentView;
use crate::index::Index;
use crate::index::IndexView;
use crate::index::Occurrence;
use crate::index::OccurrenceView;
use crate::range::format_range;
use crate::range::range_str;
use crate::range::spec_classify;
use crate::text::is_suffix_of;
use crate::text::str_ends_with;
use crate::text::str_eq;

verus! {

/// What one run searches for: the path of the document to scan, and the
/// suffix patterns that make a symbol relevant. Both are plain configured
/// values; neither is interpreted further.
pub struct QueryConfig {
    pub target_path: String,
    pub patterns: Vec<String>,
}

/// A symbol is relevant exactly when it ends with at least one pattern.
pub open spec fn spec_matches(symbol: Seq<char>, patterns: Seq<Seq<char>>) -> bool {
    exists|i: int| 0 <= i < patterns.len() && is_suffix_of(patterns[i], symbol)
}

/// Tests a symbol against every pattern by exact suffix comparison.
pub fn symbol_matches(symbol: &str, patterns: &Vec<String>) -> (r: bool)
    ensures
        r == spec_matches(symbol@, patterns.deep_view()),
{
    let n = patterns.len();
    let mut i: usize = 0;
    while i < n
        invariant
            n == patterns@.len(),
            i <= n,
            forall|j: int| 0 <= j < i ==> !is_suffix_of(patterns.deep_view()[j], symbol@),
        decreases n - i,
    {
        if str_ends_with(symbol, patterns[i].as_str()) {
            proof {
                assert(patterns.deep_view()[i as int] == patterns@[i as int]@);
            }
            return true;
        }
        i += 1;
    }
    false
}

/// Against a set of one pattern, matching is exactly the suffix test on
/// that pattern.
pub proof fn lemma_single_pattern(symbol: Seq<char>, p: Seq<char>)
    ensures
        spec_matches(symbol, seq![p]) <==> is_suffix_of(p, symbol),
{
    if is_suffix_of(p, symbol) {
        assert(seq![p][0] == p);
    }
}

/// The document at position `i` carries the target path.
pub open spec fn path_matches(docs: Seq<DocumentView>, target: Seq<char>, i: int) -> bool {
    docs[i].relative_path == target
}

/// Position `i` holds the first document with the target path.
pub open spec fn is_first_match(docs: Seq<DocumentView>, target: Seq<char>, i: int) -> bool {
    &&& 0 <= i < docs.len()
    &&& path_matches(docs, target, i)
    &&& forall|j: int| 0 <= j < i ==> !path_matches(docs, target, j)
}

/// At most one position can hold the first document with the target path.
pub proof fn lemma_first_match_unique(docs: Seq<DocumentView>, target: Seq<char>, i: int, j: int)
    requires
        is_first_match(docs, target, i),
        is_first_match(docs, target, j),
    ensures
        i == j,
{
    if i < j {
        assert(!path_matches(docs, target, i));
    }
    if j < i {
        assert(!path_matches(docs, target, j));
    }
}

/// Selects the first document whose path equals `target`, byte for byte;
/// `None` when the index holds no such document, which is a valid empty
/// result, not an error.
pub fn find_document<'a>(index: &'a Index, target: &str) -> (res: Option<&'a Document>)
    ensures
        (match res {
            Some(doc) => exists|i: int|
                #[trigger] is_first_match(index@.documents, target@, i) && doc@
                    == index@.documents[i],
            None => forall|i: int|
                0 <= i < index@.documents.len() ==> !path_matches(index@.documents, target@, i),
        }),
{
    let n = index.documents.len();
    let mut i: usize = 0;
    while i < n
        invariant
            n == index.documents@.len(),
            i <= n,
            forall|j: int| 0 <= j < i ==> !path_matches(index@.documents, target@, j),
        decreases n - i,
    {
        if str_eq(index.documents[i].relative_path.as_str(), target) {
            proof {
                assert(index@.documents[i as int] == index.documents@[i as int]@);
                assert(is_first_match(index@.documents, target@, i as int));
            }
            return Some(&index.documents[i]);
        }
        proof {
            assert(index@.documents[i as int] == index.documents@[i as int]@);
        }
        i += 1;
    }
    None
}

/// One output line: the rendered range, a separator, the symbol itself.
pub open spec fn spec_occ_line(o: OccurrenceView) -> Seq<char>
    recommends
        spec_classify(o.range) is Some,
{
    range_str(o.range) + seq![' ', '|', ' '] + o.symbol
}

/// Renders one occurrence as an output line, or fails on a range whose
/// length the index format does not define.
pub fn occurrence_line(o: &Occurrence) -> (res: Result<String, ToolError>)
    ensures
        (match res {
            Ok(line) => spec_classify(o@.range) is Some && line@ == spec_occ_line(o@),
            Err(e) => spec_classify(o@.range) is None && e == ToolError::MalformedRange,
        }),
{
    let mut line = format_range(&o.range)?;
    proof {
        reveal_strlit(" | ");
    }
    line.append(" | ");
    line.append(o.symbol.as_str());
    proof {
        assert(line@ =~= spec_occ_line(o@));
    }
    Ok(line)
}

/// The output lines for a sequence of occurrences: one line per occurrence
/// whose symbol matches, in the occurrences' own order.
pub open spec fn spec_report(occs: Seq<OccurrenceView>, patterns: Seq<Seq<char>>) -> Seq<
    Seq<char>,
>
    decreases occs.len(),
{
    if occs.len() == 0 {
        Seq::empty()
    } else {
        let rest = spec_report(occs.drop_last(), patterns);
        if spec_matches(occs.last().symbol, patterns) {
            rest.push(spec_occ_line(occs.last()))
        } else {
            rest
        }
    }
}

/// Some matching occurrence carries a range the format does not define.
pub open spec fn spec_has_malformed(occs: Seq<OccurrenceView>, patterns: Seq<Seq<char>>) -> bool {
    exists|i: int|
        0 <= i < occs.len() && #[trigger] spec_matches(occs[i].symbol, patterns) && spec_classify(
            occs[i].range,
        ) is None
}

/// Renders every matching occurrence of one document, in document order;
/// aborts on the first matching occurrence whose range is malformed.
pub fn matching_lines(doc: &Document, patterns: &Vec<String>) -> (res: Result<
    Vec<String>,
    ToolError,
>)
    ensures
        (match res {
            Ok(lines) => !spec_has_malformed(doc@.occurrences, patterns.deep_view())
                && lines.deep_view() == spec_report(doc@.occurrences, patterns.deep_view()),
            Err(e) => e == ToolError::MalformedRange && spec_has_malformed(
                doc@.occurrences,
                patterns.deep_view(),
            ),
        }),
{
    let ghost occs = doc@.occurrences;
    let ghost pats = patterns.deep_view();
    let mut lines: Vec<String> = Vec::new();
    let n = doc.occurrences.len();
    let mut i: usize = 0;
    proof {
        assert(lines.deep_view() =~= spec_report(occs.take(0), pats));
    }
    while i < n
        invariant
            n == doc.occurrences@.len(),
            occs == doc@.occurrences,
            pats == patterns.deep_view(),
            occs.len() == n,
            i <= n,
            lines.deep_view() == spec_report(occs.take(i as int), pats),
            forall|j: int|
                0 <= j < i ==> !(#[trigger] spec_matches(occs[j].symbol, pats) && spec_classify(
                    occs[j].range,
                ) is None),
        decreases n - i,
    {
        let o = &doc.occurrences[i];
        proof {
            assert(o@ == occs[i as int]);
        }
        if symbol_matches(o.symbol.as_str(), patterns) {
            match occurrence_line(o) {
                Ok(line) => {
                    let ghost prev = lines.deep_view();
                    lines.push(line);
                    proof {
                        assert(lines.deep_view() =~= prev.push(line@));
                    }
                },
                Err(e) => {
                    proof {
                        assert(spec_matches(occs[i as int].symbol, pats) && spec_classify(
                            occs[i as int].range,
                        ) is None);
                    }
                    return Err(e);
                },
            }
        }
        proof {
            assert(occs.take(i + 1).drop_last() =~= occs.take(i as int));
            assert(occs.take(i + 1).last() == occs[i as int]);
        }
        i += 1;
    }
    proof {
        assert(occs.take(n as int) =~= occs);
    }
    Ok(lines)
}

/// The output of a whole run on a decoded index: the report of the first
/// document at the target path, or no lines when no document matches.
pub open spec fn spec_query_report(
    ix: IndexView,
    target: Seq<char>,
    patterns: Seq<Seq<char>>,
) -> Seq<Seq<char>> {
    if exists|i: int| #[trigger] is_first_match(ix.documents, target, i) {
        let i = choose|i: int| #[trigger] is_first_match(ix.documents, target, i);
        spec_report(ix.documents[i].occurrences, patterns)
    } else {
        Seq::empty()
    }
}

/// A run must abort: the selected document has a matching occurrence with a
/// malformed range.
pub open spec fn spec_query_malformed(
    ix: IndexView,
    target: Seq<char>,
    patterns: Seq<Seq<char>>,
) -> bool {
    exists|i: int|
        #[trigger] is_first_match(ix.documents, target, i) && spec_has_malformed(
            ix.documents[i].occurrences,
            patterns,
        )
}

/// Runs the whole pipeline on a decoded index: locate the configured
/// document, keep the occurrences whose symbol matches, render one line per
/// kept occurrence in document order.
pub fn run_query(index: &Index, config: &QueryConfig) -> (res: Result<Vec<String>, ToolError>)
    ensures
        (match res {
            Ok(lines) => !spec_query_malformed(
                index@,
                config.target_path@,
                config.patterns.deep_view(),
            ) && lines.deep_view() == spec_query_report(
                index@,
                config.target_path@,
                config.patterns.deep_view(),
            ),
            Err(e) => e == ToolError::MalformedRange && spec_query_malformed(
                index@,
                config.target_path@,
                config.patterns.deep_view(),
            ),
        }),
{
    let ghost docs = index@.documents;
    let ghost target = config.target_path@;
    let ghost pats = config.patterns.deep_view();
    match find_document(index, config.target_path.as_str()) {
        None => {
            let lines: Vec<String> = Vec::new();
            proof {
                if exists|i: int| #[trigger] is_first_match(docs, target, i) {
                    let i = choose|i: int| #[trigger] is_first_match(docs, target, i);
                    assert(path_matches(docs, target, i));
                    assert(false);
                }
                assert(lines.deep_view() =~= Seq::<Seq<char>>::empty());
            }
            Ok(lines)
        },
        Some(doc) => {
            proof {
                let i = choose|i: int|
                    #[trigger] is_first_match(docs, target, i) && doc@ == docs[i];
                let j = choose|j: int| #[trigger] is_first_match(docs, target, j);
                lemma_first_match_unique(docs, target, i, j);
                assert(doc@.occurrences == docs[j].occurrences);
            }
            matching_lines(doc, &config.patterns)
        },
    }
}

} // verus!
