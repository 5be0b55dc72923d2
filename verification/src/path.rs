//! Reading a tile's place from the path of a file: `zoom/column/row.extension`
//! below the root of the source tree.

use crate::decimal::{
    decimal, is_digit, lemma_decimal_denotes, lemma_numeral_of_decimal, numeral,
    parse_unsigned,
};
use vstd::prelude::*;
use vstd::string::*;

verus! {

/// One entry met while walking the source tree.
#[derive(Debug, PartialEq, Eq)]
pub struct Entry {
    /// The components of the entry's path, outermost first.
    pub components: Vec<String>,
    /// How many components of the path lie below the root of the walk.
    pub depth: usize,
    /// Whether the entry is a directory.
    pub is_dir: bool,
}

/// An entry as contracts see it.
pub struct EntryView {
    pub components: Seq<Seq<char>>,
    pub depth: nat,
    pub is_dir: bool,
}

impl View for Entry {
    type V = EntryView;

    open spec fn view(&self) -> EntryView {
        EntryView {
            components: self.components.deep_view(),
            depth: self.depth as nat,
            is_dir: self.is_dir,
        }
    }
}

/// What a tile's path says: extension, zoom, column and row.
pub type TilePath = (Seq<char>, u8, u32, u32);

/// Whether the first `.` of `name` is at `at`.
pub open spec fn first_dot_at(name: Seq<char>, at: int) -> bool {
    &&& 0 <= at < name.len()
    &&& name[at] == '.'
    &&& forall|j: int| 0 <= j < at ==> name[j] != '.'
}

/// A file name cut at its first `.`: what stands before it and what stands
/// after it. A name without `.` has no such parts.
pub open spec fn stem_and_extension(name: Seq<char>) -> Option<(Seq<char>, Seq<char>)> {
    if exists|at: int| first_dot_at(name, at) {
        let at = choose|at: int| first_dot_at(name, at);
        Some((name.subrange(0, at), name.subrange(at + 1, name.len() as int)))
    } else {
        None
    }
}

/// What three path segments, innermost first, say of a tile.
pub open spec fn tile_of_segments(
    file: Seq<char>,
    column: Seq<char>,
    zoom: Seq<char>,
) -> Option<TilePath> {
    match stem_and_extension(file) {
        None => None,
        Some((stem, extension)) => match (
            numeral(stem, u32::MAX as nat),
            numeral(column, u32::MAX as nat),
            numeral(zoom, u8::MAX as nat),
        ) {
            (Some(y), Some(x), Some(z)) => Some((extension, z as u8, x as u32, y as u32)),
            _ => None,
        },
    }
}

/// What an entry's path says of a tile: the entry lies exactly three levels
/// below the root of the walk, and the last three components of its path
/// read as zoom, column and `row.extension`.
pub open spec fn tile_path(entry: EntryView) -> Option<TilePath> {
    let n = entry.components.len() as int;
    if entry.depth == 3 && n >= 3 {
        tile_of_segments(entry.components[n - 1], entry.components[n - 2], entry.components[n - 3])
    } else {
        None
    }
}

pub proof fn lemma_first_dot_unique(name: Seq<char>, a: int, b: int)
    requires
        first_dot_at(name, a),
        first_dot_at(name, b),
    ensures
        a == b,
{
}

/// A name whose first `.` is at `at` is cut there.
pub proof fn lemma_cut_at_first_dot(name: Seq<char>, at: int)
    requires
        first_dot_at(name, at),
    ensures
        stem_and_extension(name) == Some(
            (name.subrange(0, at), name.subrange(at + 1, name.len() as int)),
        ),
{
    let chosen = choose|i: int| first_dot_at(name, i);
    lemma_first_dot_unique(name, at, chosen);
}

/// The file name `row.extension`.
pub open spec fn file_name(row: u32, extension: Seq<char>) -> Seq<char> {
    decimal(row as nat) + seq!['.'] + extension
}

/// A path that was written from a tile's place reads back as that place:
/// for every zoom, column, row and extension, and whatever leads up to the
/// root of the walk, the path `zoom/column/row.extension` of depth three
/// says exactly that extension, zoom, column and row.
pub proof fn lemma_written_path_reads_back(
    root: Seq<Seq<char>>,
    zoom: u8,
    column: u32,
    row: u32,
    extension: Seq<char>,
)
    ensures
        tile_path(
            EntryView {
                components: root + seq![
                    decimal(zoom as nat),
                    decimal(column as nat),
                    file_name(row, extension),
                ],
                depth: 3,
                is_dir: false,
            },
        ) == Some((extension, zoom, column, row)),
{
    let tail = seq![decimal(zoom as nat), decimal(column as nat), file_name(row, extension)];
    let components = root + tail;
    let n = components.len() as int;
    assert(components[n - 1] == tail[2]);
    assert(components[n - 2] == tail[1]);
    assert(components[n - 3] == tail[0]);
    let name = file_name(row, extension);
    let digits = decimal(row as nat);
    lemma_decimal_denotes(row as nat);
    let at = digits.len() as int;
    assert forall|j: int| 0 <= j < at implies name[j] != '.' by {
        assert(name[j] == digits[j]);
        assert(is_digit(digits[j]));
    }
    assert(name[at] == '.');
    lemma_cut_at_first_dot(name, at);
    assert(name.subrange(0, at) =~= digits);
    assert(name.subrange(at + 1, name.len() as int) =~= extension);
    lemma_numeral_of_decimal(row as nat, u32::MAX as nat);
    lemma_numeral_of_decimal(column as nat, u32::MAX as nat);
    lemma_numeral_of_decimal(zoom as nat, u8::MAX as nat);
}

/// Cuts a file name at its first `.`.
pub fn split_file_name(name: &str) -> (parts: Option<(&str, &str)>)
    ensures
        match parts {
            Some((stem, extension)) => stem_and_extension(name@) == Some((stem@, extension@)),
            None => stem_and_extension(name@) is None,
        },
{
    let n = name.unicode_len();
    let mut at: usize = 0;
    while at < n
        invariant
            at <= n,
            n == name@.len(),
            forall|j: int| 0 <= j < at ==> name@[j] != '.',
        decreases n - at,
    {
        if name.get_char(at) == '.' {
            proof {
                lemma_cut_at_first_dot(name@, at as int);
            }
            return Some((name.substring_char(0, at), name.substring_char(at + 1, n)));
        }
        at = at + 1;
    }
    assert(forall|i: int| !first_dot_at(name@, i));
    None
}

/// Reads extension, zoom, column and row from the path of an entry.
///
/// Succeeds exactly on an entry exactly three levels below the root of the
/// walk whose file name has a `.` and whose row, column and zoom are
/// numerals that fit their types; the extension is all that follows the
/// first `.` of the file name.
pub fn parse_path(entry: &Entry) -> (parsed: Result<(String, u8, u32, u32), ()>)
    ensures
        match parsed {
            Ok((extension, zoom, column, row)) => tile_path(entry@) == Some(
                (extension@, zoom, column, row),
            ),
            Err(_) => tile_path(entry@) is None,
        },
{
    let len = entry.components.len();
    if entry.depth != 3 || len < 3 {
        return Err(());
    }
    let file = entry.components[len - 1].as_str();
    let column_text = entry.components[len - 2].as_str();
    let zoom_text = entry.components[len - 3].as_str();
    let (stem, extension) = match split_file_name(file) {
        Some(parts) => parts,
        None => {
            return Err(());
        },
    };
    let row = match parse_unsigned(stem, u32::MAX) {
        Some(v) => v,
        None => {
            return Err(());
        },
    };
    let column = match parse_unsigned(column_text, u32::MAX) {
        Some(v) => v,
        None => {
            return Err(());
        },
    };
    let zoom = match parse_unsigned(zoom_text, 255) {
        Some(v) => v as u8,
        None => {
            return Err(());
        },
    };
    Ok((String::from_str(extension), zoom, column, row))
}

} // verus!
