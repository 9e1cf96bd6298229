//! Where a rendered symbol goes, settled by the destination's extension.

use vstd::prelude::*;
use vstd::string::StringExecFns;
use crate::utils::error::RqrError;

verus! {

/// Where a rendered symbol goes.
#[derive(Clone, Copy, Debug, PartialEq, Eq, Structural)]
pub enum OutputFormat {
    /// A PNG image file.
    Png,
    /// Text on the terminal.
    Terminal,
}

/// The format that a file extension stands for, or the message of the
/// error that refuses it.
pub open spec fn format_of_extension(extension: Option<Seq<char>>) -> Result<
    OutputFormat,
    Seq<char>,
> {
    match extension {
        Some(ext) => if ext == "png"@ {
            Ok(OutputFormat::Png)
        } else {
            Err("Unsupported format: "@ + ext)
        },
        None => Err("Cannot determine format from file path"@),
    }
}

/// Whether `res` is the format `expected`, or an unsupported-format error
/// with the message `expected`.
pub open spec fn is_format_result(
    res: Result<OutputFormat, RqrError>,
    expected: Result<OutputFormat, Seq<char>>,
) -> bool {
    match (res, expected) {
        (Ok(format), Ok(wanted)) => format == wanted,
        (Err(RqrError::UnsupportedFormat(message)), Err(wanted)) => message@ == wanted,
        _ => false,
    }
}

/// Where `wanted` stands last in `text`, or -1 where it does not stand in it.
pub open spec fn last_position(text: Seq<char>, wanted: char) -> int
    decreases text.len(),
{
    if text.len() == 0 {
        -1
    } else if text.last() == wanted {
        text.len() - 1
    } else {
        last_position(text.drop_last(), wanted)
    }
}

/// What stands behind the last `/` of a path: the whole path where it holds
/// none.
pub open spec fn file_name_of(path: Seq<char>) -> Seq<char> {
    path.subrange(last_position(path, '/') + 1, path.len() as int)
}

/// The extension of a file name: what stands behind its last dot, unless
/// that dot is the first character or there is none.
pub open spec fn extension_of_name(name: Seq<char>) -> Option<Seq<char>> {
    if last_position(name, '.') <= 0 {
        None
    } else {
        Some(name.subrange(last_position(name, '.') + 1, name.len() as int))
    }
}

/// Whether every platform reads the path alike and finds its file name
/// behind its last `/`: the path holds no `\` and no `:`, does not begin
/// with `//`, does not end in the parent directory `..`, and, where it
/// holds a `/`, does not end in one or in the directory `.` itself.
pub open spec fn is_portable_path(path: Seq<char>) -> bool {
    &&& !path.contains('\\')
    &&& !path.contains(':')
    &&& !(path.len() >= 2 && path[0] == '/' && path[1] == '/')
    &&& file_name_of(path) != seq!['.', '.']
    &&& path.contains('/') ==> file_name_of(path).len() > 0 && file_name_of(path) != seq!['.']
}

/// What holds of a path's extension on every platform. Where there is one,
/// it holds no dot and stands in the path right behind a dot. And where
/// every platform reads the path alike, its extension is that of its file
/// name.
pub open spec fn possible_extension(path: Seq<char>, extension: Option<Seq<char>>) -> bool {
    &&& extension matches Some(ext) ==> {
        &&& !ext.contains('.')
        &&& exists|dot: int|
            0 <= dot && dot + 1 + ext.len() <= path.len() && path[dot] == '.' && #[trigger] path.subrange(
                dot + 1,
                dot + 1 + ext.len(),
            ) == ext
    }
    &&& is_portable_path(path) ==> extension == extension_of_name(file_name_of(path))
}

/// In a text made of a head, a character and a tail without that
/// character, the character stands last where the head ends.
pub proof fn lemma_last_position(head: Seq<char>, wanted: char, tail: Seq<char>)
    requires
        !tail.contains(wanted),
    ensures
        last_position(head + seq![wanted] + tail, wanted) == head.len(),
        (head + seq![wanted] + tail).subrange(
            head.len() as int + 1,
            (head + seq![wanted] + tail).len() as int,
        ) == tail,
    decreases tail.len(),
{
    let text = head + seq![wanted] + tail;
    if tail.len() == 0 {
        assert(text.last() == wanted);
    } else {
        let shorter = tail.drop_last();
        assert(tail.contains(tail[tail.len() - 1]));
        assert forall|i: int| 0 <= i < shorter.len() implies shorter[i] != wanted by {
            assert(tail.contains(tail[i]));
        }
        assert(!shorter.contains(wanted));
        lemma_last_position(head, wanted, shorter);
        assert(text.drop_last() =~= head + seq![wanted] + shorter);
        assert(text.last() == tail.last());
    }
    assert(text.subrange(head.len() as int + 1, text.len() as int) =~= tail);
}

/// A name made of a stem, a dot and an extension without a dot has that
/// extension, whatever the stem holds, as long as it holds something.
pub proof fn lemma_extension_of_dotted_name(stem: Seq<char>, ext: Seq<char>)
    requires
        stem.len() > 0,
        !ext.contains('.'),
    ensures
        extension_of_name(stem + seq!['.'] + ext) == Some(ext),
{
    lemma_last_position(stem, '.', ext);
}

/// A path made of a directory, a `/` and a name without a `/` has that name
/// for its file name, whatever the directory holds.
pub proof fn lemma_file_name_of_path(directory: Seq<char>, name: Seq<char>)
    requires
        !name.contains('/'),
    ensures
        file_name_of(directory + seq!['/'] + name) == name,
{
    lemma_last_position(directory, '/', name);
}

/// A text without a `/` is its own file name.
pub proof fn lemma_file_name_of_name(name: Seq<char>)
    requires
        !name.contains('/'),
    ensures
        last_position(name, '/') == -1,
        file_name_of(name) == name,
    decreases name.len(),
{
    if name.len() > 0 {
        let shorter = name.drop_last();
        assert(name.contains(name[name.len() - 1]));
        assert forall|i: int| 0 <= i < shorter.len() implies shorter[i] != '/' by {
            assert(name.contains(name[i]));
        }
        lemma_file_name_of_name(shorter);
    }
    assert(name.subrange(0, name.len() as int) =~= name);
}

/// A path without a dot has no extension, so no format can be determined
/// for it; and a path is only taken for an image file where it holds
/// `.png`.
pub proof fn lemma_extension_needs_a_dot(path: Seq<char>, extension: Option<Seq<char>>)
    requires
        possible_extension(path, extension),
    ensures
        !path.contains('.') ==> format_of_extension(extension) == Err::<OutputFormat, Seq<char>>(
            "Cannot determine format from file path"@,
        ),
        format_of_extension(extension) is Ok ==> exists|dot: int|
            0 <= dot && dot + 4 <= path.len() && #[trigger] path.subrange(dot, dot + 4) == ".png"@,
{
    if extension is Some {
        let ext = extension->Some_0;
        let dot = choose|dot: int|
            0 <= dot && dot + 1 + ext.len() <= path.len() && path[dot] == '.' && #[trigger] path.subrange(
                dot + 1,
                dot + 1 + ext.len(),
            ) == ext;
        assert(path.contains('.'));
        if format_of_extension(extension) is Ok {
            reveal_strlit("png");
            reveal_strlit(".png");
            assert(path.subrange(dot, dot + 4) =~= seq!['.'] + path.subrange(dot + 1, dot + 4));
            assert(path.subrange(dot, dot + 4) =~= ".png"@);
        }
    }
}

/// Calls `std::path::Path::extension` on the path and hands the extension
/// out as text.
///
/// Trusted: an extension is the part of the path's last component behind
/// its last dot, and there is none where that dot is the component's first
/// character. Which part of a path is its last component depends on the
/// platform. Where a path holds no `\` and no `:` and does not begin with
/// `//`, every platform takes `/` for its only separator and finds no
/// prefix in it, so its last component is what stands behind its last `/`,
/// unless that is empty, `.` or `..`.
#[verifier::external_body]
fn path_extension(path: &str) -> (extension: Option<&str>)
    ensures
        possible_extension(
            path@,
            match extension {
                Some(ext) => Some(ext@),
                None => None,
            },
        ),
{
    std::path::Path::new(path).extension().and_then(|ext| ext.to_str())
}

/// Whether `text` is exactly "png".
fn is_png(text: &str) -> (yes: bool)
    ensures
        yes == (text@ == "png"@),
{
    proof {
        reveal_strlit("png");
    }
    if text.unicode_len() != 3 {
        return false;
    }
    let yes = text.get_char(0) == 'p' && text.get_char(1) == 'n' && text.get_char(2) == 'g';
    assert(yes ==> text@ =~= "png"@);
    yes
}

impl OutputFormat {
    /// The format for a file extension: "png" is an image file, any
    /// other extension is refused by name, and so is a missing one.
    pub fn from_extension(extension: Option<&str>) -> (res: Result<OutputFormat, RqrError>)
        ensures
            is_format_result(
                res,
                format_of_extension(
                    match extension {
                        Some(ext) => Some(ext@),
                        None => None,
                    },
                ),
            ),
    {
        match extension {
            Some(ext) => {
                if is_png(ext) {
                    Ok(OutputFormat::Png)
                } else {
                    Err(
                        RqrError::UnsupportedFormat(
                            String::from_str("Unsupported format: ").concat(ext),
                        ),
                    )
                }
            },
            None => Err(
                RqrError::UnsupportedFormat("Cannot determine format from file path".to_owned()),
            ),
        }
    }

    /// The format for a destination path, by its extension. For a path that
    /// every platform reads alike the outcome is that for the extension of
    /// its file name; for other paths it is that for the extension the
    /// platform finds.
    pub fn from_path(path: &str) -> (res: Result<OutputFormat, RqrError>)
        ensures
            exists|extension: Option<Seq<char>>| #[trigger]
                possible_extension(path@, extension) && is_format_result(
                    res,
                    format_of_extension(extension),
                ),
    {
        OutputFormat::from_extension(path_extension(path))
    }
}

} // verus!
