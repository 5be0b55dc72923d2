//! Payload formats: which one a file extension names, and the rule that one
//! archive holds tiles of one format only.

use crate::text::same_text;
use vstd::prelude::*;
use vstd::string::*;

verus! {

/// The payload format of a tile.
#[derive(Clone, Copy, Debug, PartialEq, Eq, Structural)]
pub enum Format {
    PNG,
    JPG,
    WEBP,
    PBF,
}

/// The lowercase form of a text, as `str::to_lowercase` of std gives it.
pub uninterp spec fn lowercase(text: Seq<char>) -> Seq<char>;

/// Lowercases a text.
///
/// Calls `str::to_lowercase`, whose result follows the Unicode tables: it is a
/// function of the text alone, and is only named here.
#[verifier::external_body]
fn to_lowercase(text: &str) -> (lowered: String)
    ensures
        lowered@ == lowercase(text@),
{
    text.to_lowercase()
}

/// The format that a lowercased extension names.
pub open spec fn format_named(lowered: Seq<char>) -> Option<Format> {
    if lowered == "jpg"@ || lowered == "jpeg"@ {
        Some(Format::JPG)
    } else if lowered == "webp"@ {
        Some(Format::WEBP)
    } else if lowered == "pbf"@ {
        Some(Format::PBF)
    } else if lowered == "png"@ {
        Some(Format::PNG)
    } else {
        None
    }
}

/// The format of a file with the given extension, in whatever case it is
/// written.
pub open spec fn format_of_extension(extension: Seq<char>) -> Option<Format> {
    format_named(lowercase(extension))
}

/// The text under which a format is entered in the archive's metadata.
pub open spec fn format_text(format: Format) -> Seq<char> {
    match format {
        Format::PNG => "png"@,
        Format::JPG => "jpg"@,
        Format::WEBP => "webp"@,
        Format::PBF => "pbf"@,
    }
}

/// The format's own text names the format.
pub proof fn lemma_format_text_names_format(format: Format)
    ensures
        format_named(format_text(format)) == Some(format),
{
    reveal_strlit("jpg");
    reveal_strlit("jpeg");
    reveal_strlit("webp");
    reveal_strlit("pbf");
    reveal_strlit("png");
    assert("jpg"@.len() == 3 && "jpg"@[0] == 'j');
    assert("jpeg"@.len() == 4 && "jpeg"@[0] == 'j');
    assert("webp"@.len() == 4 && "webp"@[0] == 'w');
    assert("pbf"@.len() == 3 && "pbf"@[0] == 'p' && "pbf"@[1] == 'b');
    assert("png"@.len() == 3 && "png"@[0] == 'p' && "png"@[1] == 'n');
}

impl Format {
    /// The format that a lowercased extension names: `jpg` or `jpeg`,
    /// `webp`, `pbf`, `png`. Any other text names none.
    pub fn named(lowered: &str) -> (format: Option<Format>)
        ensures
            format == format_named(lowered@),
    {
        if same_text(lowered, "jpg") || same_text(lowered, "jpeg") {
            Some(Format::JPG)
        } else if same_text(lowered, "webp") {
            Some(Format::WEBP)
        } else if same_text(lowered, "pbf") {
            Some(Format::PBF)
        } else if same_text(lowered, "png") {
            Some(Format::PNG)
        } else {
            None
        }
    }

    /// The format of a file with the given extension, whatever its case.
    pub fn of_extension(extension: &str) -> (format: Option<Format>)
        ensures
            format == format_of_extension(extension@),
    {
        let lowered = to_lowercase(extension);
        Format::named(lowered.as_str())
    }

    /// The text under which the format is entered in the metadata.
    pub fn text(&self) -> (text: &'static str)
        ensures
            text@ == format_text(*self),
    {
        match self {
            Format::PNG => "png",
            Format::JPG => "jpg",
            Format::WEBP => "webp",
            Format::PBF => "pbf",
        }
    }
}

/// The format of the run: unset until the first tile is taken, fixed from
/// then on.
#[derive(Clone, Copy, Debug)]
pub struct FormatGuard {
    pub selected: Option<Format>,
}

impl FormatGuard {
    /// Whether a tile of `format` may join the run.
    pub open spec fn allows(self, format: Format) -> bool {
        self.selected is None || self.selected == Some(format)
    }

    /// The guard after a tile of `format` was offered: an unset guard is
    /// fixed to it, a fixed guard stays as it is.
    pub open spec fn offered(self, format: Format) -> FormatGuard {
        if self.selected is None {
            FormatGuard { selected: Some(format) }
        } else {
            self
        }
    }

    /// A guard with no format fixed yet.
    pub fn new() -> (guard: FormatGuard)
        ensures
            guard.selected is None,
    {
        FormatGuard { selected: None }
    }

    /// Offers a tile of `format` to the run and says whether it may join.
    ///
    /// The first tile fixes the format. Every later tile must have exactly
    /// that format; one that has not is refused and the guard stays.
    pub fn check(&mut self, format: Format) -> (allowed: bool)
        ensures
            allowed == old(self).allows(format),
            *final(self) == old(self).offered(format),
    {
        match self.selected {
            None => {
                self.selected = Some(format);
                true
            },
            Some(fixed) => fixed == format,
        }
    }
}

} // verus!
