//! The decode command without its input and output: where the image comes
//! from, and what to say about what it holds.

use vstd::prelude::*;
use vstd::string::StringExecFns;
use crate::utils::format::{decimal, decimal_string};

verus! {

/// Where the image to decode comes from.
#[derive(Clone, Copy, Debug, PartialEq, Eq, Structural)]
pub enum InputSource {
    /// A file on disk.
    File,
    /// An address to fetch the image from.
    Url,
}

/// Whether the input names an address on the web: it begins with `http://`
/// or with `https://`.
pub open spec fn names_url(input: Seq<char>) -> bool {
    "http://"@.is_prefix_of(input) || "https://"@.is_prefix_of(input)
}

/// Whether `text` begins with `prefix`.
fn starts_with(text: &str, prefix: &str) -> (yes: bool)
    ensures
        yes == prefix@.is_prefix_of(text@),
{
    let wanted: usize = prefix.unicode_len();
    if text.unicode_len() < wanted {
        return false;
    }
    let mut i: usize = 0;
    while i < wanted
        invariant
            i <= wanted,
            wanted == prefix@.len(),
            wanted <= text@.len(),
            prefix@.subrange(0, i as int) =~= text@.subrange(0, i as int),
        decreases wanted - i,
    {
        if text.get_char(i) != prefix.get_char(i) {
            return false;
        }
        i += 1;
    }
    true
}

impl InputSource {
    /// Tells an address on the web from a file path by how the input begins.
    pub fn detect(input: &str) -> (source: InputSource)
        ensures
            source == if names_url(input@) {
                InputSource::Url
            } else {
                InputSource::File
            },
    {
        if starts_with(input, "http://") || starts_with(input, "https://") {
            InputSource::Url
        } else {
            InputSource::File
        }
    }
}

/// What the decode command says before it loads the image: where it
/// decodes from, and which kind of input it takes that for.
pub open spec fn announcement(input: Seq<char>) -> Seq<Seq<char>> {
    seq![
        "Decoding QR code from: "@ + input,
        if names_url(input) {
            "Detected URL input, fetching from web..."@
        } else {
            "Detected file input, reading from disk..."@
        },
    ]
}

/// The lines to print before the image is loaded.
pub fn announce(input: &str) -> (lines: Vec<String>)
    ensures
        lines.deep_view() == announcement(input@),
{
    let mut lines: Vec<String> = Vec::new();
    lines.push(String::from_str("Decoding QR code from: ").concat(input));
    match InputSource::detect(input) {
        InputSource::Url => lines.push(String::from_str("Detected URL input, fetching from web...")),
        InputSource::File => lines.push(
            String::from_str("Detected file input, reading from disk..."),
        ),
    }
    lines
}

/// What the decode command says of the contents it found: a single content
/// under one heading, several as numbered blocks under a count. Each entry
/// is printed as a line of its own.
pub open spec fn report_lines(results: Seq<Seq<char>>) -> Seq<Seq<char>> {
    if results.len() == 1 {
        seq!["\nDecoded content:"@, results[0]]
    } else {
        Seq::new(
            1 + 2 * results.len(),
            |i: int|
                if i == 0 {
                    "\nFound "@ + decimal(results.len()) + " QR codes:"@
                } else if i % 2 == 1 {
                    "\nQR Code #"@ + decimal(((i + 1) / 2) as nat) + ":"@
                } else {
                    results[i / 2 - 1]
                },
        )
    }
}

/// The lines to print for the decoded contents.
pub fn report(results: &Vec<String>) -> (lines: Vec<String>)
    ensures
        lines.deep_view() == report_lines(results.deep_view()),
{
    let mut lines: Vec<String> = Vec::new();
    let count: usize = results.len();
    if count == 1 {
        lines.push(String::from_str("\nDecoded content:"));
        lines.push(results[0].clone());
        return lines;
    }
    let ghost wanted = report_lines(results.deep_view());
    lines.push(
        String::from_str("\nFound ").concat(decimal_string(count as u64).as_str()).concat(
            " QR codes:",
        ),
    );
    let mut i: usize = 0;
    while i < count
        invariant
            i <= count,
            count == results.len(),
            count != 1,
            wanted == report_lines(results.deep_view()),
            lines.len() == 1 + 2 * i,
            forall|k: int| 0 <= k < lines.len() ==> (#[trigger] lines[k])@ == wanted[k],
        decreases count - i,
    {
        let number = decimal_string((i + 1) as u64);
        lines.push(String::from_str("\nQR Code #").concat(number.as_str()).concat(":"));
        lines.push(results[i].clone());
        i += 1;
    }
    lines
}

} // verus!
