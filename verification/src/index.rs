//! The decoded shape of a SCIP index: the root `Index`, its `Document`s and
//! their `Occurrence`s, together with the decoder that produces it from the
//! raw bytes of an index file.

use vstd::prelude::*;

use crate::error::ToolError;

verus! {

/// One reference to a symbol at a position within a document.
///
/// `range` is the index format's compact positional encoding: a sequence of
/// two, three or four zero-indexed integers whose length alone tells its
/// shape (see `crate::range`).
#[derive(Clone, Debug, PartialEq)]
pub struct Occurrence {
    pub symbol: String,
    pub range: Vec<i32>,
}

/// One indexed source file: its path relative to the project root, and its
/// occurrences in the order the index producer emitted them.
#[derive(Clone, Debug, PartialEq)]
pub struct Document {
    pub relative_path: String,
    pub occurrences: Vec<Occurrence>,
}

/// The root of a decoded index: an ordered sequence of documents. Immutable
/// once decoded; this tool only reads it.
#[derive(Clone, Debug, PartialEq)]
pub struct Index {
    pub documents: Vec<Document>,
}

/// The mathematical value of an `Occurrence`.
pub ghost struct OccurrenceView {
    pub symbol: Seq<char>,
    pub range: Seq<i32>,
}

/// The mathematical value of a `Document`.
pub ghost struct DocumentView {
    pub relative_path: Seq<char>,
    pub occurrences: Seq<OccurrenceView>,
}

/// The mathematical value of an `Index`.
pub ghost struct IndexView {
    pub documents: Seq<DocumentView>,
}

impl View for Occurrence {
    type V = OccurrenceView;

    open spec fn view(&self) -> OccurrenceView {
        OccurrenceView { symbol: self.symbol@, range: self.range@ }
    }
}

impl View for Document {
    type V = DocumentView;

    open spec fn view(&self) -> DocumentView {
        DocumentView {
            relative_path: self.relative_path@,
            occurrences: self.occurrences@.map_values(|o: Occurrence| o@),
        }
    }
}

impl View for Index {
    type V = IndexView;

    open spec fn view(&self) -> IndexView {
        IndexView { documents: self.documents@.map_values(|d: Document| d@) }
    }
}

/// The error the protobuf runtime reports for bytes that are not a valid
/// message; this tool only tells success from failure, so the type stays
/// opaque.
#[verifier::external_type_specification]
#[verifier::external_body]
pub struct ExProtobufError(protobuf::Error);

/// What a byte sequence decodes to under the SCIP index format: `None` when
/// the bytes are not a well-formed index, otherwise the decoded value.
pub uninterp spec fn spec_decoded_index(bytes: Seq<u8>) -> Option<IndexView>;

/// Relies on `scip::types::Index::parse_from_bytes` (a `protobuf::Message`
/// method) to decode the raw bytes of an index file. Whether the bytes
/// decode, and what they decode to, is a function of the bytes alone.
#[verifier::external_body]
fn parse_index_bytes(bytes: &[u8]) -> (res: Result<Index, protobuf::Error>)
    ensures
        (match res {
            Ok(ix) => spec_decoded_index(bytes@) == Some(ix@),
            Err(_) => spec_decoded_index(bytes@) is None,
        }),
{
    let raw = <scip::types::Index as protobuf::Message>::parse_from_bytes(bytes)?;
    Ok(Index {
        documents: raw.documents.into_iter().map(|d| Document {
            relative_path: d.relative_path,
            occurrences: d.occurrences.into_iter().map(|o| Occurrence {
                symbol: o.symbol,
                range: o.range,
            }).collect(),
        }).collect(),
    })
}

/// Decodes the full contents of an index file, or reports that the bytes
/// are not a well-formed index.
pub fn decode_index(bytes: &[u8]) -> (res: Result<Index, ToolError>)
    ensures
        (match res {
            Ok(ix) => spec_decoded_index(bytes@) == Some(ix@),
            Err(e) => e == ToolError::DecodeError && spec_decoded_index(bytes@) is None,
        }),
{
    match parse_index_bytes(bytes) {
        Ok(ix) => Ok(ix),
        Err(_) => Err(ToolError::DecodeError),
    }
}

/// Decoding is deterministic and side-effect-free: equal byte sequences
/// always decode to equal results, across runs and across repeated calls.
pub proof fn lemma_decode_deterministic(bytes1: Seq<u8>, bytes2: Seq<u8>)
    requires
        bytes1 == bytes2,
    ensures
        spec_decoded_index(bytes1) == spec_decoded_index(bytes2),
{
}

} // verus!
