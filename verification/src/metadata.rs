//! The metadata of an archive: its display name, the format of its tiles and
//! the zoom levels it covers.

use crate::args::{file_stem, stem_of, Args};
use crate::decimal::{decimal, render};
use crate::format::{format_text, Format};
use crate::zoom::{Span, ZoomRange};
use vstd::prelude::*;
use vstd::string::*;

verus! {

/// One row of the metadata table.
#[derive(Debug, PartialEq, Eq)]
pub struct MetadataRow {
    pub name: String,
    pub value: String,
}

impl DeepView for MetadataRow {
    type V = (Seq<char>, Seq<char>);

    open spec fn deep_view(&self) -> (Seq<char>, Seq<char>) {
        (self.name@, self.value@)
    }
}

/// The display name of an archive: the name asked for, else the stem of the
/// target file's name, else `noname`.
pub open spec fn resolved_name(explicit: Option<Seq<char>>, stem: Option<Seq<char>>) -> Seq<char> {
    match explicit {
        Some(name) => name,
        None => match stem {
            Some(stem) => stem,
            None => "noname"@,
        },
    }
}

/// The rows of the metadata table, in the order in which they are entered:
/// `name` and `format` always, `minzoom` and `maxzoom` once a tile was
/// stored.
pub open spec fn metadata_rows(name: Seq<char>, format: Format, span: Span) -> Seq<
    (Seq<char>, Seq<char>),
> {
    let always = seq![("name"@, name), ("format"@, format_text(format))];
    match span {
        None => always,
        Some((low, high)) => always + seq![
            ("minzoom"@, decimal(low as nat)),
            ("maxzoom"@, decimal(high as nat)),
        ],
    }
}

/// No two rows of the metadata table have the same name, so the table's
/// uniqueness rule holds of them.
pub proof fn lemma_metadata_names_differ(name: Seq<char>, format: Format, span: Span, i: int, j: int)
    requires
        0 <= i < j < metadata_rows(name, format, span).len(),
    ensures
        metadata_rows(name, format, span)[i].0 != metadata_rows(name, format, span)[j].0,
{
    reveal_strlit("name");
    reveal_strlit("format");
    reveal_strlit("minzoom");
    reveal_strlit("maxzoom");
    assert("name"@.len() == 4);
    assert("format"@.len() == 6);
    assert("minzoom"@[1] == 'i');
    assert("maxzoom"@[1] == 'a');
}

/// The display name of an archive, from the name asked for and the stem of
/// the target file's name.
pub fn resolve_name(explicit: Option<String>, stem: Option<String>) -> (name: String)
    ensures
        name@ == resolved_name(explicit.deep_view(), stem.deep_view()),
{
    match explicit {
        Some(name) => name,
        None => match stem {
            Some(stem) => stem,
            None => String::from_str("noname"),
        },
    }
}

/// The display name of the archive of a run.
///
/// The name asked for wins. Without one the stem of the target file's name
/// is taken, and `noname` where the target has no stem.
pub fn archive_name(args: &Args) -> (name: String)
    ensures
        name@ == resolved_name(args.name.deep_view(), stem_of(args.target_file)),
{
    match &args.name {
        Some(asked) => asked.clone(),
        None => resolve_name(None, file_stem(&args.target_file)),
    }
}

/// The rows to enter in the metadata table of an archive called `name`,
/// whose tiles have the given format and cover the given zoom levels.
pub fn metadata(name: String, format: Format, zooms: &ZoomRange) -> (rows: Vec<MetadataRow>)
    ensures
        rows.deep_view() == metadata_rows(name@, format, zooms@),
{
    let mut rows: Vec<MetadataRow> = Vec::new();
    rows.push(MetadataRow { name: String::from_str("name"), value: name });
    rows.push(
        MetadataRow { name: String::from_str("format"), value: String::from_str(format.text()) },
    );
    if let Some(low) = zooms.min() {
        rows.push(MetadataRow { name: String::from_str("minzoom"), value: render(low as u32) });
    }
    if let Some(high) = zooms.max() {
        rows.push(MetadataRow { name: String::from_str("maxzoom"), value: render(high as u32) });
    }
    assert(rows.deep_view() =~= metadata_rows(name@, format, zooms@));
    rows
}

} // verus!
