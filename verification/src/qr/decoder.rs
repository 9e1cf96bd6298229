//! QR codes out of images: what is made of each grid that the grid detector
//! found.

use vstd::prelude::*;
use vstd::string::StringExecFns;
use vstd::utf8::{decode_utf8, encode_utf8, encode_utf8_decode_utf8, encode_utf8_valid_utf8, valid_utf8};
use crate::utils::error::RqrError;

verus! {

/// What the grid detector made of one grid that it found in an image.
///
/// The detector is run by the caller: whether it returns at all depends on
/// the pixels it is given, so this library takes what it found and answers
/// for everything that follows.
#[derive(Debug)]
pub enum GridOutcome {
    /// The grid could be read.
    Decoded {
        /// The bytes the grid carries.
        payload: Vec<u8>,
        /// The detector's account of the grid: its version, error
        /// correction level and mask.
        metadata: String,
    },
    /// The grid could not be read.
    Failed {
        /// The detector's account of what went wrong.
        reason: String,
    },
}

impl GridOutcome {
    /// The bytes the grid carries, where it could be read.
    pub open spec fn payload_view(&self) -> Option<Seq<u8>> {
        match self {
            GridOutcome::Decoded { payload, .. } => Some(payload@),
            GridOutcome::Failed { .. } => None,
        }
    }

    /// The line that goes to the diagnostic stream for the grid.
    pub open spec fn diagnostic(&self) -> Seq<char> {
        match self {
            GridOutcome::Decoded { metadata, .. } => "QR Code metadata: "@ + metadata@,
            GridOutcome::Failed { reason } => "Failed to decode QR code: "@ + reason@,
        }
    }
}

/// For each grid, in the order of detection, the bytes it carries, or
/// `None` where it could not be read.
pub open spec fn payloads(found: Seq<GridOutcome>) -> Seq<Option<Seq<u8>>> {
    Seq::new(found.len(), |i: int| found[i].payload_view())
}

/// The lines for the diagnostic stream, one for each grid in the order of
/// detection.
pub open spec fn diagnostic_lines(found: Seq<GridOutcome>) -> Seq<Seq<char>> {
    Seq::new(found.len(), |i: int| found[i].diagnostic())
}

/// Calls `std::str::from_utf8`.
///
/// Trusted: the bytes are handed back as text exactly when they are valid
/// UTF-8, and the text is then what they decode to.
#[verifier::external_body]
fn utf8_text(bytes: &[u8]) -> (text: Option<&str>)
    ensures
        text is Some <==> valid_utf8(bytes@),
        text matches Some(s) ==> s@ == decode_utf8(bytes@),
{
    std::str::from_utf8(bytes).ok()
}

/// The lower-case hexadecimal digit for a value below 16.
pub open spec fn hex_digit(nibble: int) -> char {
    seq!['0', '1', '2', '3', '4', '5', '6', '7', '8', '9', 'a', 'b', 'c', 'd', 'e', 'f'][nibble]
}

/// The bytes in hexadecimal: two lower-case digits for each, the high half
/// first.
pub open spec fn hex_text(bytes: Seq<u8>) -> Seq<char> {
    Seq::new(
        2 * bytes.len(),
        |i: int|
            if i % 2 == 0 {
                hex_digit(bytes[i / 2] as int / 16)
            } else {
                hex_digit(bytes[i / 2] as int % 16)
            },
    )
}

/// Calls `hex::encode`.
///
/// Trusted: each byte becomes two lower-case hexadecimal digits, the high
/// half first.
#[verifier::external_body]
fn hex_string(bytes: &[u8]) -> (text: String)
    ensures
        text@ == hex_text(bytes@),
{
    hex::encode(bytes)
}

/// The text that stands for a payload: the payload itself where it is valid
/// UTF-8, and else its bytes in hexadecimal behind the words "Binary data: ".
pub open spec fn payload_text(bytes: Seq<u8>) -> Seq<char> {
    if valid_utf8(bytes) {
        decode_utf8(bytes)
    } else {
        "Binary data: "@ + hex_text(bytes)
    }
}

/// The text of a grid's outcome, where the grid could be read.
pub open spec fn text_of_outcome(outcome: Option<Seq<u8>>) -> Option<Seq<char>> {
    match outcome {
        Some(bytes) => Some(payload_text(bytes)),
        None => None,
    }
}

/// `text_of_outcome` as a function value.
pub open spec fn outcome_reader() -> spec_fn(Option<Seq<u8>>) -> Option<Seq<char>> {
    |outcome: Option<Seq<u8>>| text_of_outcome(outcome)
}

/// The texts of the grids that could be read, in the order of detection.
pub open spec fn collected_texts(outcomes: Seq<Option<Seq<u8>>>) -> Seq<Seq<char>> {
    outcomes.filter_map(outcome_reader())
}

/// What decoding yields for the outcomes of detection: the collected texts,
/// or the message of the error where no grid was found or none could be read.
pub open spec fn decoding_of(outcomes: Seq<Option<Seq<u8>>>) -> Result<Seq<Seq<char>>, Seq<char>> {
    if outcomes.len() == 0 {
        Err("No QR codes found in image"@)
    } else if collected_texts(outcomes).len() == 0 {
        Err("Found QR codes but failed to decode any"@)
    } else {
        Ok(collected_texts(outcomes))
    }
}

/// The grids that could be read, in the order of detection.
pub open spec fn readable(outcomes: Seq<Option<Seq<u8>>>) -> Seq<Option<Seq<u8>>> {
    outcomes.filter(|outcome: Option<Seq<u8>>| outcome is Some)
}

/// Decoding yields one text for each grid that could be read, in the order
/// of detection, and none for the others: with no grid at all the error says
/// that none was found; with grids of which none could be read it says that
/// none could be decoded; and with `k` readable grids among them the result
/// holds exactly `k` texts, the text of each readable grid in its place.
pub proof fn lemma_decoding_by_cases(outcomes: Seq<Option<Seq<u8>>>)
    ensures
        outcomes.len() == 0 ==> decoding_of(outcomes) == Err::<Seq<Seq<char>>, Seq<char>>(
            "No QR codes found in image"@,
        ),
        outcomes.len() > 0 && readable(outcomes).len() == 0 ==> decoding_of(outcomes) == Err::<
            Seq<Seq<char>>,
            Seq<char>,
        >("Found QR codes but failed to decode any"@),
        readable(outcomes).len() > 0 ==> decoding_of(outcomes) == Ok::<Seq<Seq<char>>, Seq<char>>(
            collected_texts(outcomes),
        ),
        collected_texts(outcomes).len() == readable(outcomes).len(),
        readable(outcomes).len() <= outcomes.len(),
        forall|k: int|
            0 <= k < readable(outcomes).len() ==> (#[trigger] readable(outcomes)[k]) is Some
                && collected_texts(outcomes)[k] == payload_text(readable(outcomes)[k]->Some_0),
        (forall|i: int| 0 <= i < outcomes.len() ==> outcomes[i] is None) ==> readable(
            outcomes,
        ).len() == 0,
        (exists|i: int| 0 <= i < outcomes.len() && outcomes[i] is Some) ==> readable(outcomes).len()
            > 0,
    decreases outcomes.len(),
{
    reveal(Seq::filter);
    if outcomes.len() > 0 {
        let earlier = outcomes.drop_last();
        lemma_decoding_by_cases(earlier);
        assert forall|i: int| 0 <= i < earlier.len() implies earlier[i] == outcomes[i] by {}
    }
}

/// Where detection finds a single grid and that grid carries the UTF-8
/// bytes of a text, decoding yields that text and nothing else.
pub proof fn lemma_text_reads_back(text: Seq<char>)
    ensures
        payload_text(encode_utf8(text)) == text,
        decoding_of(seq![Some(encode_utf8(text))]) == Ok::<Seq<Seq<char>>, Seq<char>>(seq![text]),
{
    encode_utf8_valid_utf8(text);
    encode_utf8_decode_utf8(text);
    Seq::lemma_filter_map_singleton(Some(encode_utf8(text)), outcome_reader());
}

/// Whether `res` holds the texts `expected`, or is a decoding error with the
/// message `expected`.
pub open spec fn is_decoding(
    res: Result<Vec<String>, RqrError>,
    expected: Result<Seq<Seq<char>>, Seq<char>>,
) -> bool {
    match (res, expected) {
        (Ok(texts), Ok(wanted)) => texts.deep_view() == wanted,
        (Err(RqrError::DecodingError(message)), Err(wanted)) => message@ == wanted,
        _ => false,
    }
}

/// Turns a payload into text: as it is where it is valid UTF-8, in
/// hexadecimal where it is not.
pub fn read_payload(bytes: &Vec<u8>) -> (text: String)
    ensures
        text@ == payload_text(bytes@),
{
    match utf8_text(bytes.as_slice()) {
        Some(text) => text.to_owned(),
        None => {
            let digits = hex_string(bytes.as_slice());
            String::from_str("Binary data: ").concat(digits.as_str())
        },
    }
}

/// Reads the QR codes that the grid detector found in an image.
#[derive(Debug, Default)]
pub struct QrDecoder;

impl QrDecoder {
    /// Makes a decoder.
    pub fn new() -> (decoder: QrDecoder)
        ensures
            decoder == QrDecoder,
    {
        QrDecoder
    }

    /// Decodes an image from what the grid detector found in it.
    ///
    /// Returns the text of each grid that could be read, in the order of
    /// detection. Grids that could not be read are passed over. Fails with a
    /// decoding error where no grid was found, and with another where none
    /// of the grids found could be read.
    pub fn decode_from_image(&self, found: &Vec<GridOutcome>) -> (res: Result<
        Vec<String>,
        RqrError,
    >)
        ensures
            is_decoding(res, decoding_of(payloads(found@))),
            res matches Ok(texts) ==> 0 < texts.len() <= found.len(),
    {
        proof {
            lemma_decoding_by_cases(payloads(found@));
        }
        if found.len() == 0 {
            return Err(RqrError::DecodingError("No QR codes found in image".to_owned()));
        }
        let ghost outcomes = payloads(found@);
        let mut texts: Vec<String> = Vec::new();
        let mut i: usize = 0;
        while i < found.len()
            invariant
                i <= found.len(),
                outcomes == payloads(found@),
                texts.deep_view() =~= outcomes.take(i as int).filter_map(outcome_reader()),
            decreases found.len() - i,
        {
            proof {
                outcomes.lemma_filter_map_take_succ(outcome_reader(), i as int);
            }
            match &found[i] {
                GridOutcome::Decoded { payload, .. } => {
                    let text = read_payload(payload);
                    texts.push(text);
                },
                GridOutcome::Failed { .. } => {},
            }
            i += 1;
        }
        assert(outcomes.take(found.len() as int) =~= outcomes);
        if texts.len() == 0 {
            Err(RqrError::DecodingError("Found QR codes but failed to decode any".to_owned()))
        } else {
            Ok(texts)
        }
    }

    /// The lines for the diagnostic stream: for each grid, in the order of
    /// detection, the detector's account of it, or of why it could not be
    /// read.
    pub fn diagnostics(&self, found: &Vec<GridOutcome>) -> (lines: Vec<String>)
        ensures
            lines.deep_view() == diagnostic_lines(found@),
    {
        let mut lines: Vec<String> = Vec::new();
        let mut i: usize = 0;
        while i < found.len()
            invariant
                i <= found.len(),
                lines.len() == i,
                forall|k: int| 0 <= k < i ==> (#[trigger] lines[k])@ == found[k].diagnostic(),
            decreases found.len() - i,
        {
            let line = match &found[i] {
                GridOutcome::Decoded { metadata, .. } => String::from_str(
                    "QR Code metadata: ",
                ).concat(metadata.as_str()),
                GridOutcome::Failed { reason } => String::from_str(
                    "Failed to decode QR code: ",
                ).concat(reason.as_str()),
            };
            lines.push(line);
            i += 1;
        }
        assert(lines.deep_view() =~= diagnostic_lines(found@));
        lines
    }
}

} // verus!
