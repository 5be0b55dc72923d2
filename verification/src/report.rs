//! What a run says: why it failed, what it skipped, what it stored.

use crate::decimal::{decimal, render};
use crate::ingest::{Decision, Tile};
use crate::path::file_name;
use vstd::prelude::*;
use vstd::string::*;

verus! {

/// Why a run ended before the archive was complete.
#[derive(Debug, PartialEq, Eq)]
pub enum Failure {
    /// The target file is there already; it is never written over.
    TargetExists,
    /// The archive could not be created; the text says why.
    CreateOutput(String),
    /// The archive could not be set up for loading; the text says why.
    ConfigureOutput(String),
    /// The tables of the archive could not be created.
    InitializeSchema(String),
    /// The source tree could not be walked.
    WalkDirectory(String),
    /// A tile's file could not be read.
    ReadFile(String),
    /// A tile has another format than the tiles before it.
    FormatMismatch(Tile),
    /// A tile's row cannot be renumbered for storage.
    RowOffGrid(Tile),
    /// A tile could not be stored under the given row.
    InsertTile(Tile, u32, String),
    /// The walk met no tile.
    NoUsableTiles,
    /// The metadata could not be entered.
    InsertMetadata(String),
}

/// How a tile is called in messages: `zoom/column/row.extension`.
pub open spec fn tile_label(zoom: u8, column: u32, row: u32, extension: Seq<char>) -> Seq<char> {
    decimal(zoom as nat) + seq!['/'] + decimal(column as nat) + seq!['/'] + file_name(
        row,
        extension,
    )
}

/// The one line that tells of a failure.
pub open spec fn failure_text(failure: Failure) -> Seq<char> {
    match failure {
        Failure::TargetExists => "Target file exists"@,
        Failure::CreateOutput(why) => "Error creating output: "@ + why@,
        Failure::ConfigureOutput(why) => why@,
        Failure::InitializeSchema(why) => "Error initializing schema: "@ + why@,
        Failure::WalkDirectory(why) => "Error walking directory: "@ + why@,
        Failure::ReadFile(why) => "Error reading file: "@ + why@,
        Failure::FormatMismatch(tile) => "File format mismatch: "@ + tile_label(
            tile.zoom,
            tile.column,
            tile.row,
            tile.extension@,
        ),
        Failure::RowOffGrid(tile) => "Tile row off the grid: "@ + tile_label(
            tile.zoom,
            tile.column,
            tile.row,
            tile.extension@,
        ),
        Failure::InsertTile(tile, stored, why) => "Error inserting tile "@ + tile_label(
            tile.zoom,
            tile.column,
            stored,
            tile.extension@,
        ) + ": "@ + why@,
        Failure::NoUsableTiles => "no usable tiles found"@,
        Failure::InsertMetadata(why) => "Error inserting metadata: "@ + why@,
    }
}

/// The warning that goes with a decision to skip the entry at `path`.
pub open spec fn warning_text(decision: Decision, path: Seq<char>) -> Option<Seq<char>> {
    match decision {
        Decision::Unexpected => Some("Unexpected file, skipping: "@ + path),
        Decision::Unsupported => Some("Unsupported extension, skipping: "@ + path),
        _ => None,
    }
}

/// Writes the name of a tile for a message.
pub fn label(zoom: u8, column: u32, row: u32, extension: &str) -> (text: String)
    ensures
        text@ == tile_label(zoom, column, row, extension@),
{
    proof {
        reveal_strlit("/");
        reveal_strlit(".");
        assert("/"@ =~= seq!['/']);
        assert("."@ =~= seq!['.']);
    }
    let mut text = render(zoom as u32);
    text.append("/");
    text.append(render(column).as_str());
    text.append("/");
    text.append(render(row).as_str());
    text.append(".");
    text.append(extension);
    assert(text@ =~= tile_label(zoom, column, row, extension@));
    text
}

/// A text after a fixed opening.
fn prefixed(opening: &str, rest: &str) -> (text: String)
    ensures
        text@ == opening@ + rest@,
{
    let mut text = String::from_str(opening);
    text.append(rest);
    text
}

impl Failure {
    /// The one line that tells of the failure.
    pub fn message(&self) -> (text: String)
        ensures
            text@ == failure_text(*self),
    {
        match self {
            Failure::TargetExists => String::from_str("Target file exists"),
            Failure::CreateOutput(why) => prefixed("Error creating output: ", why.as_str()),
            Failure::ConfigureOutput(why) => why.clone(),
            Failure::InitializeSchema(why) => prefixed("Error initializing schema: ", why.as_str()),
            Failure::WalkDirectory(why) => prefixed("Error walking directory: ", why.as_str()),
            Failure::ReadFile(why) => prefixed("Error reading file: ", why.as_str()),
            Failure::FormatMismatch(tile) => prefixed(
                "File format mismatch: ",
                label(tile.zoom, tile.column, tile.row, tile.extension.as_str()).as_str(),
            ),
            Failure::RowOffGrid(tile) => prefixed(
                "Tile row off the grid: ",
                label(tile.zoom, tile.column, tile.row, tile.extension.as_str()).as_str(),
            ),
            Failure::InsertTile(tile, stored, why) => {
                let mut text = prefixed(
                    "Error inserting tile ",
                    label(tile.zoom, tile.column, *stored, tile.extension.as_str()).as_str(),
                );
                text.append(": ");
                text.append(why.as_str());
                text
            },
            Failure::NoUsableTiles => String::from_str("no usable tiles found"),
            Failure::InsertMetadata(why) => prefixed("Error inserting metadata: ", why.as_str()),
        }
    }
}

impl Decision {
    /// The warning that goes with a decision to skip the entry at `path`;
    /// `None` for every other decision.
    pub fn warning(&self, path: &str) -> (text: Option<String>)
        ensures
            text.deep_view() == warning_text(*self, path@),
    {
        match self {
            Decision::Unexpected => Some(prefixed("Unexpected file, skipping: ", path)),
            Decision::Unsupported => Some(prefixed("Unsupported extension, skipping: ", path)),
            _ => None,
        }
    }

    /// What ends the run, for a decision that ends it; `None` for every
    /// other decision.
    pub fn failure(self) -> (failure: Option<Failure>)
        ensures
            failure == match self {
                Decision::Mismatch(tile) => Some(Failure::FormatMismatch(tile)),
                Decision::OffGrid(tile) => Some(Failure::RowOffGrid(tile)),
                _ => None,
            },
    {
        match self {
            Decision::Mismatch(tile) => Some(Failure::FormatMismatch(tile)),
            Decision::OffGrid(tile) => Some(Failure::RowOffGrid(tile)),
            _ => None,
        }
    }
}

impl Tile {
    /// The line that reports the tile as it is taken up: `Adding` and the
    /// tile's name, with the row as the source tree numbers it.
    pub fn progress(&self) -> (text: String)
        ensures
            text@ == "Adding "@ + tile_label(self.zoom, self.column, self.row, self.extension@),
    {
        prefixed(
            "Adding ",
            label(self.zoom, self.column, self.row, self.extension.as_str()).as_str(),
        )
    }
}

} // verus!
