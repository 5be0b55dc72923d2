//! The decisions of a packing run, entry by entry.
//!
//! A run walks the source tree and hands each entry to [`Ingestion::visit`],
//! which says what is to be done with it. A tile that is to be stored is read
//! and written by the caller, who reports it with [`Ingestion::stored`]. When
//! the walk is over, [`Ingestion::finish`] gives the metadata to enter, or
//! says that nothing usable was found.

use crate::args::{stem_of, Args, Scheme};
use crate::format::{format_of_extension, Format, FormatGuard};
use crate::metadata::{archive_name, metadata, metadata_rows, resolved_name, MetadataRow};
use crate::path::{parse_path, tile_path, Entry, EntryView};
use crate::report::Failure;
use crate::scheme::{stored_row, translatable, try_translate_row};
use crate::zoom::{span_of, widened, widened_by, Span, ZoomRange};
use vstd::prelude::*;
use vstd::string::*;

verus! {

/// A tile as it was found in the source tree.
#[derive(Debug, PartialEq, Eq)]
pub struct Tile {
    pub zoom: u8,
    pub column: u32,
    /// The row as the source tree numbers it.
    pub row: u32,
    /// The extension of the file, as it is written.
    pub extension: String,
    pub format: Format,
}

/// A tile as contracts see it.
pub struct TileView {
    pub zoom: u8,
    pub column: u32,
    pub row: u32,
    pub extension: Seq<char>,
    pub format: Format,
}

impl View for Tile {
    type V = TileView;

    open spec fn view(&self) -> TileView {
        TileView {
            zoom: self.zoom,
            column: self.column,
            row: self.row,
            extension: self.extension@,
            format: self.format,
        }
    }
}

/// What is to be done with one entry of the source tree.
#[derive(Debug, PartialEq, Eq)]
pub enum Decision {
    /// A directory: nothing to do.
    Directory,
    /// No tile path: the entry is skipped with a warning.
    Unexpected,
    /// A tile path whose extension names no format: skipped with a warning.
    Unsupported,
    /// A tile of another format than the run's: the run ends in failure.
    Mismatch(Tile),
    /// A tile whose row cannot be renumbered: the run ends in failure.
    OffGrid(Tile),
    /// A tile to store, with the row under which the archive stores it.
    Store(Tile, u32),
}

/// A decision as contracts see it.
pub enum DecisionView {
    Directory,
    Unexpected,
    Unsupported,
    Mismatch(TileView),
    OffGrid(TileView),
    Store(TileView, u32),
}

impl View for Decision {
    type V = DecisionView;

    open spec fn view(&self) -> DecisionView {
        match self {
            Decision::Directory => DecisionView::Directory,
            Decision::Unexpected => DecisionView::Unexpected,
            Decision::Unsupported => DecisionView::Unsupported,
            Decision::Mismatch(tile) => DecisionView::Mismatch(tile@),
            Decision::OffGrid(tile) => DecisionView::OffGrid(tile@),
            Decision::Store(tile, stored) => DecisionView::Store(tile@, *stored),
        }
    }
}

impl DecisionView {
    /// Whether the decision ends the run.
    pub open spec fn is_fatal(self) -> bool {
        self is Mismatch || self is OffGrid
    }
}

/// The state of a run as contracts see it.
pub struct IngestionView {
    pub scheme: Scheme,
    /// The format of the run, once a tile has fixed it.
    pub selected: Option<Format>,
    /// The zoom levels of the tiles stored so far.
    pub span: Span,
}

/// The state in which a run starts.
pub open spec fn fresh(scheme: Scheme) -> IngestionView {
    IngestionView { scheme, selected: None, span: None }
}

/// The tile that an entry holds: a file whose path is a tile path and whose
/// extension names a format.
pub open spec fn tile_of(entry: EntryView) -> Option<TileView> {
    if entry.is_dir {
        None
    } else {
        match tile_path(entry) {
            None => None,
            Some((extension, zoom, column, row)) => match format_of_extension(extension) {
                None => None,
                Some(format) => Some(TileView { zoom, column, row, extension, format }),
            },
        }
    }
}

/// What is to be done with `entry` in a run that is in `state`.
pub open spec fn decide(state: IngestionView, entry: EntryView) -> DecisionView {
    if entry.is_dir {
        DecisionView::Directory
    } else if tile_path(entry) is None {
        DecisionView::Unexpected
    } else {
        match tile_of(entry) {
            None => DecisionView::Unsupported,
            Some(tile) => if !(FormatGuard { selected: state.selected }).allows(tile.format) {
                DecisionView::Mismatch(tile)
            } else if !translatable(state.scheme, tile.zoom, tile.row) {
                DecisionView::OffGrid(tile)
            } else {
                DecisionView::Store(tile, stored_row(state.scheme, tile.zoom, tile.row) as u32)
            },
        }
    }
}

/// The state of a run after `entry` was visited: the first tile met fixes the
/// format of the run, and nothing else changes.
pub open spec fn visited(state: IngestionView, entry: EntryView) -> IngestionView {
    match tile_of(entry) {
        None => state,
        Some(tile) => IngestionView {
            selected: (FormatGuard { selected: state.selected }).offered(tile.format).selected,
            ..state
        },
    }
}

/// The state of a run after a tile at `zoom` was stored.
pub open spec fn recorded(state: IngestionView, zoom: u8) -> IngestionView {
    IngestionView { span: widened(state.span, zoom), ..state }
}

/// The state of a run after `entry` was dealt with, where the run goes on:
/// visited, and recorded where the entry was a tile to store.
pub open spec fn advanced(state: IngestionView, entry: EntryView) -> IngestionView {
    match decide(state, entry) {
        DecisionView::Store(tile, _) => recorded(visited(state, entry), tile.zoom),
        _ => visited(state, entry),
    }
}

/// The state in which a run over `entries` ends, in the order of the walk and
/// with every tile stored as decided; `None` where a decision ended the run
/// before the walk was over.
pub open spec fn run(state: IngestionView, entries: Seq<EntryView>) -> Option<IngestionView>
    decreases entries.len(),
{
    if entries.len() == 0 {
        Some(state)
    } else if decide(state, entries[0]).is_fatal() {
        None
    } else {
        run(advanced(state, entries[0]), entries.drop_first())
    }
}

/// The zoom levels of the tiles that a run over `entries` stores, in the
/// order of the walk, up to the end of the walk or of the run.
pub open spec fn stored_zooms(state: IngestionView, entries: Seq<EntryView>) -> Seq<u8>
    decreases entries.len(),
{
    if entries.len() == 0 || decide(state, entries[0]).is_fatal() {
        Seq::empty()
    } else {
        let rest = stored_zooms(advanced(state, entries[0]), entries.drop_first());
        match decide(state, entries[0]) {
            DecisionView::Store(tile, _) => seq![tile.zoom] + rest,
            _ => rest,
        }
    }
}

/// While a run goes on, the row convention stays and a fixed format stays
/// fixed.
pub proof fn lemma_advanced_keeps(state: IngestionView, entry: EntryView)
    ensures
        advanced(state, entry).scheme == state.scheme,
        state.selected is Some ==> advanced(state, entry).selected == state.selected,
        !decide(state, entry).is_fatal() ==> (tile_of(entry) matches Some(tile) ==> advanced(
            state,
            entry,
        ).selected == Some(tile.format)),
{
}

/// Once the format of a run is fixed, a tile of another format anywhere in
/// the rest of the walk ends the run.
pub proof fn lemma_fixed_format_ends_run(state: IngestionView, entries: Seq<EntryView>, at: int)
    requires
        0 <= at < entries.len(),
        state.selected matches Some(fixed) && tile_of(entries[at]) matches Some(tile)
            && tile.format != fixed,
    ensures
        run(state, entries) is None,
    decreases entries.len(),
{
    if at > 0 && !decide(state, entries[0]).is_fatal() {
        lemma_advanced_keeps(state, entries[0]);
        assert(entries.drop_first()[at - 1] == entries[at]);
        lemma_fixed_format_ends_run(advanced(state, entries[0]), entries.drop_first(), at - 1);
    }
}

/// No run takes tiles of two formats: a walk that meets two tiles whose
/// extensions name different formats ends the run before it is over,
/// whichever of the two comes first, whatever else the walk meets and
/// whatever state the run was in.
pub proof fn lemma_two_formats_end_run(
    state: IngestionView,
    entries: Seq<EntryView>,
    one: int,
    other: int,
)
    requires
        0 <= one < entries.len(),
        0 <= other < entries.len(),
        tile_of(entries[one]) matches Some(a) && tile_of(entries[other]) matches Some(b)
            && a.format != b.format,
    ensures
        run(state, entries) is None,
    decreases entries.len(),
{
    if !decide(state, entries[0]).is_fatal() {
        let next = advanced(state, entries[0]);
        let rest = entries.drop_first();
        lemma_advanced_keeps(state, entries[0]);
        if one == 0 {
            assert(rest[other - 1] == entries[other]);
            lemma_fixed_format_ends_run(next, rest, other - 1);
        } else if other == 0 {
            assert(rest[one - 1] == entries[one]);
            lemma_fixed_format_ends_run(next, rest, one - 1);
        } else {
            assert(rest[one - 1] == entries[one]);
            assert(rest[other - 1] == entries[other]);
            lemma_two_formats_end_run(next, rest, one - 1, other - 1);
        }
    }
}

/// A walk that meets no tile leaves the run as it was and stores nothing: a
/// run that starts on such a walk ends with no format fixed.
pub proof fn lemma_walk_without_tiles(state: IngestionView, entries: Seq<EntryView>)
    requires
        forall|i: int| 0 <= i < entries.len() ==> tile_of(#[trigger] entries[i]) is None,
    ensures
        run(state, entries) == Some(state),
        stored_zooms(state, entries) == Seq::<u8>::empty(),
    decreases entries.len(),
{
    if entries.len() > 0 {
        assert(tile_of(entries[0]) is None);
        let rest = entries.drop_first();
        assert forall|i: int| 0 <= i < rest.len() implies tile_of(#[trigger] rest[i]) is None by {
            assert(rest[i] == entries[i + 1]);
        }
        lemma_walk_without_tiles(state, rest);
    }
}

/// A run that reaches the end of the walk has widened its span by the zoom
/// levels of the tiles it stored, and by nothing else.
pub proof fn lemma_run_span(state: IngestionView, entries: Seq<EntryView>)
    requires
        run(state, entries) is Some,
    ensures
        run(state, entries)->0.scheme == state.scheme,
        run(state, entries)->0.span == widened_by(state.span, stored_zooms(state, entries)),
    decreases entries.len(),
{
    if entries.len() > 0 {
        let next = advanced(state, entries[0]);
        let rest = entries.drop_first();
        lemma_run_span(next, rest);
        match decide(state, entries[0]) {
            DecisionView::Store(tile, _) => {
                let zooms = stored_zooms(state, entries);
                assert(zooms[0] == tile.zoom);
                assert(zooms.drop_first() =~= stored_zooms(next, rest));
            },
            _ => {},
        }
    }
}

/// A run that starts fresh and reaches the end of the walk has fixed a format
/// exactly if the walk met a tile, and covers exactly the zoom levels of the
/// tiles it stored.
pub proof fn lemma_fresh_run(scheme: Scheme, entries: Seq<EntryView>)
    requires
        run(fresh(scheme), entries) is Some,
    ensures
        run(fresh(scheme), entries)->0.span == span_of(stored_zooms(fresh(scheme), entries)),
        run(fresh(scheme), entries)->0.selected is Some <==> exists|i: int|
            0 <= i < entries.len() && tile_of(#[trigger] entries[i]) is Some,
{
    lemma_run_span(fresh(scheme), entries);
    lemma_run_fixes_format(fresh(scheme), entries);
}

/// A run that reaches the end of the walk has a format fixed exactly if it
/// had one before or the walk met a tile.
pub proof fn lemma_run_fixes_format(state: IngestionView, entries: Seq<EntryView>)
    requires
        run(state, entries) is Some,
    ensures
        run(state, entries)->0.selected is Some <==> state.selected is Some || exists|i: int|
            0 <= i < entries.len() && tile_of(#[trigger] entries[i]) is Some,
    decreases entries.len(),
{
    if entries.len() > 0 {
        let next = advanced(state, entries[0]);
        let rest = entries.drop_first();
        lemma_run_fixes_format(next, rest);
        lemma_advanced_keeps(state, entries[0]);
        if exists|i: int| 0 <= i < rest.len() && tile_of(#[trigger] rest[i]) is Some {
            let i = choose|i: int| 0 <= i < rest.len() && tile_of(#[trigger] rest[i]) is Some;
            assert(rest[i] == entries[i + 1]);
        }
        if exists|i: int| 0 <= i < entries.len() && tile_of(#[trigger] entries[i]) is Some {
            let i = choose|i: int| 0 <= i < entries.len() && tile_of(#[trigger] entries[i]) is Some;
            if i > 0 {
                assert(rest[i - 1] == entries[i]);
            }
        }
    }
}

/// The state of a run: the row convention of the source tree, the format of
/// the tiles taken so far and the zoom levels stored at.
#[derive(Debug)]
pub struct Ingestion {
    scheme: Scheme,
    guard: FormatGuard,
    zooms: ZoomRange,
}

impl View for Ingestion {
    type V = IngestionView;

    closed spec fn view(&self) -> IngestionView {
        IngestionView { scheme: self.scheme, selected: self.guard.selected, span: self.zooms@ }
    }
}

impl Ingestion {
    /// The state in which a run over a tree of the given row convention
    /// starts.
    pub fn new(scheme: Scheme) -> (state: Ingestion)
        ensures
            state@ == fresh(scheme),
    {
        Ingestion { scheme, guard: FormatGuard::new(), zooms: ZoomRange::new() }
    }

    /// The format of the run, once a tile has fixed it.
    pub fn format(&self) -> (format: Option<Format>)
        ensures
            format == self@.selected,
    {
        self.guard.selected
    }

    /// The zoom levels of the tiles stored so far.
    pub fn zooms(&self) -> (zooms: ZoomRange)
        ensures
            zooms@ == self@.span,
    {
        self.zooms
    }

    /// Decides what is to be done with one entry of the walk.
    ///
    /// Directories are passed over. A file whose path is no tile path, or
    /// whose extension names no format, is to be skipped. The first tile
    /// fixes the format of the run; a tile of another format ends the run,
    /// and so does one whose row cannot be renumbered. Every other tile is
    /// to be stored, under the row that the archive's convention gives it.
    pub fn visit(&mut self, entry: &Entry) -> (decision: Decision)
        ensures
            decision@ == decide(old(self)@, entry@),
            final(self)@ == visited(old(self)@, entry@),
    {
        if entry.is_dir {
            return Decision::Directory;
        }
        let (extension, zoom, column, row) = match parse_path(entry) {
            Ok(parsed) => parsed,
            Err(_) => {
                return Decision::Unexpected;
            },
        };
        let format = match Format::of_extension(extension.as_str()) {
            Some(format) => format,
            None => {
                return Decision::Unsupported;
            },
        };
        let tile = Tile { zoom, column, row, extension, format };
        assert(tile_of(entry@) == Some(tile@));
        if !self.guard.check(format) {
            return Decision::Mismatch(tile);
        }
        match try_translate_row(self.scheme, zoom, row) {
            Some(stored) => Decision::Store(tile, stored),
            None => Decision::OffGrid(tile),
        }
    }

    /// Takes note that a tile at `zoom` was stored.
    pub fn stored(&mut self, zoom: u8)
        ensures
            final(self)@ == recorded(old(self)@, zoom),
    {
        self.zooms.record(zoom);
    }

    /// Starts a run, unless the target is there already: an archive is never
    /// written over nor added to.
    pub fn begin(scheme: Scheme, target_exists: bool) -> (start: Result<Ingestion, Failure>)
        ensures
            match start {
                Ok(state) => !target_exists && state@ == fresh(scheme),
                Err(failure) => target_exists && failure is TargetExists,
            },
    {
        if target_exists {
            Err(Failure::TargetExists)
        } else {
            Ok(Ingestion::new(scheme))
        }
    }

    /// What the end of the walk comes to: with no format fixed, no usable
    /// tile was found and the run has failed; otherwise the metadata rows of
    /// the archive, under the given display name.
    pub fn conclude(&self, name: String) -> (ending: Result<Vec<MetadataRow>, Failure>)
        ensures
            match ending {
                Ok(rows) => self@.selected matches Some(format) && rows.deep_view()
                    == metadata_rows(name@, format, self@.span),
                Err(failure) => self@.selected is None && failure is NoUsableTiles,
            },
    {
        match self.guard.selected {
            None => Err(Failure::NoUsableTiles),
            Some(format) => Ok(metadata(name, format, &self.zooms)),
        }
    }

    /// What the end of the walk comes to, with the display name that the
    /// settings of the run give the archive: the name asked for, else the
    /// stem of the target file's name, else `noname`.
    pub fn finish(&self, args: &Args) -> (ending: Result<Vec<MetadataRow>, Failure>)
        ensures
            match ending {
                Ok(rows) => self@.selected matches Some(format) && rows.deep_view()
                    == metadata_rows(
                    resolved_name(args.name.deep_view(), stem_of(args.target_file)),
                    format,
                    self@.span,
                ),
                Err(failure) => self@.selected is None && failure is NoUsableTiles,
            },
    {
        match self.guard.selected {
            None => Err(Failure::NoUsableTiles),
            Some(_) => self.conclude(archive_name(args)),
        }
    }
}

} // verus!
