use std::path::PathBuf;
use tilepack::args::{Args, Scheme};
use tilepack::format::Format;
use tilepack::ingest::{Decision, Ingestion, Tile};
use tilepack::metadata::{archive_name, metadata, resolve_name, MetadataRow};
use tilepack::path::Entry;
use tilepack::report::{label, Failure};
use tilepack::zoom::ZoomRange;

fn file(path: &str) -> Entry {
    let components: Vec<String> = path.split('/').map(|p| p.to_string()).collect();
    let depth = components.len() - 1;
    Entry { components, depth, is_dir: false }
}

fn dir(path: &str) -> Entry {
    let components: Vec<String> = path.split('/').map(|p| p.to_string()).collect();
    let depth = components.len() - 1;
    Entry { components, depth, is_dir: true }
}

fn args(target: &str, name: Option<&str>, scheme: Scheme) -> Args {
    Args {
        source_dir: PathBuf::from("tiles"),
        target_file: PathBuf::from(target),
        name: name.map(|n| n.to_string()),
        scheme,
        verbose: false,
    }
}

fn row(name: &str, value: &str) -> MetadataRow {
    MetadataRow { name: name.to_string(), value: value.to_string() }
}

fn tile(zoom: u8, column: u32, row: u32, extension: &str, format: Format) -> Tile {
    Tile { zoom, column, row, extension: extension.to_string(), format }
}

/// Walks the entries as a caller would, storing every tile as decided.
fn walk(run: &mut Ingestion, paths: &[&str]) -> Result<Vec<(u8, u32, u32)>, Failure> {
    let mut stored = Vec::new();
    for path in paths {
        match run.visit(&file(path)) {
            Decision::Store(tile, row) => {
                stored.push((tile.zoom, tile.column, row));
                run.stored(tile.zoom);
            }
            decision => {
                if let Some(failure) = decision.failure() {
                    return Err(failure);
                }
            }
        }
    }
    Ok(stored)
}

#[test]
fn begin_refuses_a_target_that_exists() {
    assert_eq!(Ingestion::begin(Scheme::XYZ, true).err(), Some(Failure::TargetExists));
    assert_eq!(Ingestion::begin(Scheme::TMS, true).err(), Some(Failure::TargetExists));
}

#[test]
fn begin_starts_fresh() {
    let run = Ingestion::begin(Scheme::XYZ, false).unwrap();
    assert_eq!(run.format(), None);
    assert_eq!(run.zooms().min(), None);
    assert_eq!(run.zooms().max(), None);
}

#[test]
fn directories_are_passed_over() {
    let mut run = Ingestion::new(Scheme::XYZ);
    assert_eq!(run.visit(&dir("t")), Decision::Directory);
    assert_eq!(run.visit(&dir("t/3")), Decision::Directory);
    assert_eq!(run.visit(&dir("t/3/1")), Decision::Directory);
    assert_eq!(run.visit(&dir("t/3/1/2.png")), Decision::Directory);
    assert_eq!(run.format(), None);
}

#[test]
fn files_that_are_no_tiles_are_skipped() {
    let mut run = Ingestion::new(Scheme::XYZ);
    assert_eq!(run.visit(&file("t/readme.txt")), Decision::Unexpected);
    assert_eq!(run.visit(&file("t/3/1/2")), Decision::Unexpected);
    assert_eq!(run.visit(&file("t/3/one/2.png")), Decision::Unexpected);
    assert_eq!(run.visit(&file("t/a/3/1/2.png")), Decision::Unexpected);
    assert_eq!(run.visit(&file("t/300/1/2.png")), Decision::Unexpected);
    assert_eq!(run.format(), None);
}

#[test]
fn files_of_no_known_format_are_skipped() {
    let mut run = Ingestion::new(Scheme::XYZ);
    assert_eq!(run.visit(&file("t/3/1/2.gif")), Decision::Unsupported);
    assert_eq!(run.visit(&file("t/3/1/2.png.bak")), Decision::Unsupported);
    assert_eq!(run.visit(&file("t/3/1/2.")), Decision::Unsupported);
    assert_eq!(run.format(), None);
}

#[test]
fn a_tile_is_stored_under_the_mirrored_row() {
    let mut run = Ingestion::new(Scheme::XYZ);
    assert_eq!(
        run.visit(&file("t/3/1/2.png")),
        Decision::Store(tile(3, 1, 2, "png", Format::PNG), 5)
    );
    assert_eq!(run.format(), Some(Format::PNG));
    assert_eq!(run.zooms().min(), None);
    run.stored(3);
    assert_eq!(run.zooms().min(), Some(3));
    assert_eq!(run.zooms().max(), Some(3));
}

#[test]
fn a_tile_counted_from_the_bottom_is_stored_as_it_is() {
    let mut run = Ingestion::new(Scheme::TMS);
    assert_eq!(
        run.visit(&file("t/3/1/2.PBF")),
        Decision::Store(tile(3, 1, 2, "PBF", Format::PBF), 2)
    );
    assert_eq!(
        run.visit(&file("t/3/100/200.pbf")),
        Decision::Store(tile(3, 100, 200, "pbf", Format::PBF), 200)
    );
    assert_eq!(run.format(), Some(Format::PBF));
}

#[test]
fn a_row_off_the_grid_ends_the_run() {
    let mut run = Ingestion::new(Scheme::XYZ);
    let decision = run.visit(&file("t/3/1/8.png"));
    assert_eq!(decision, Decision::OffGrid(tile(3, 1, 8, "png", Format::PNG)));
    assert_eq!(decision.failure(), Some(Failure::RowOffGrid(tile(3, 1, 8, "png", Format::PNG))));
    let mut run = Ingestion::new(Scheme::XYZ);
    assert_eq!(
        run.visit(&file("t/40/0/0.png")),
        Decision::OffGrid(tile(40, 0, 0, "png", Format::PNG))
    );
}

#[test]
fn a_second_format_ends_the_run() {
    let mut run = Ingestion::new(Scheme::XYZ);
    assert!(matches!(run.visit(&file("t/3/1/2.png")), Decision::Store(_, 5)));
    run.stored(3);
    let decision = run.visit(&file("t/3/1/3.jpg"));
    assert_eq!(decision, Decision::Mismatch(tile(3, 1, 3, "jpg", Format::JPG)));
    assert_eq!(
        decision.failure(),
        Some(Failure::FormatMismatch(tile(3, 1, 3, "jpg", Format::JPG)))
    );
    assert_eq!(run.format(), Some(Format::PNG));
}

#[test]
fn two_formats_end_the_run_whichever_comes_first() {
    let names = ["t/1/0/0.png", "t/1/0/1.jpg", "t/1/1/0.webp", "t/1/1/1.pbf"];
    for first in names {
        for second in names {
            if first == second {
                continue;
            }
            let mut run = Ingestion::new(Scheme::TMS);
            let outcome = walk(&mut run, &["t/notes.txt", first, "t/1/0/9.gif", second]);
            assert!(matches!(outcome, Err(Failure::FormatMismatch(_))));
        }
    }
}

#[test]
fn jpg_and_jpeg_are_one_format() {
    let mut run = Ingestion::new(Scheme::TMS);
    let outcome = walk(&mut run, &["t/1/0/0.jpg", "t/1/0/1.jpeg", "t/1/1/0.JPG"]);
    assert_eq!(outcome, Ok(vec![(1, 0, 0), (1, 0, 1), (1, 1, 0)]));
    assert_eq!(run.format(), Some(Format::JPG));
}

#[test]
fn an_empty_walk_finds_no_usable_tiles() {
    let mut run = Ingestion::new(Scheme::XYZ);
    assert_eq!(walk(&mut run, &[]), Ok(vec![]));
    assert_eq!(run.finish(&args("out.mbtiles", None, Scheme::XYZ)), Err(Failure::NoUsableTiles));
    assert_eq!(run.conclude("x".to_string()), Err(Failure::NoUsableTiles));
}

#[test]
fn a_walk_of_skipped_entries_finds_no_usable_tiles() {
    let mut run = Ingestion::new(Scheme::XYZ);
    assert_eq!(run.visit(&dir("t")), Decision::Directory);
    assert_eq!(run.visit(&dir("t/3")), Decision::Directory);
    let outcome = walk(&mut run, &["t/readme.md", "t/3/1/2.gif", "t/3/1/x.png", "t/3/2.png"]);
    assert_eq!(outcome, Ok(vec![]));
    assert_eq!(run.format(), None);
    assert_eq!(run.zooms().min(), None);
    assert_eq!(run.finish(&args("out.mbtiles", Some("n"), Scheme::XYZ)), Err(Failure::NoUsableTiles));
}

#[test]
fn zooms_two_five_seven() {
    let mut run = Ingestion::new(Scheme::XYZ);
    let outcome = walk(&mut run, &["t/5/3/4.png", "t/2/1/1.png", "t/7/100/27.png", "t/5/0/0.png"]);
    assert_eq!(outcome, Ok(vec![(5, 3, 27), (2, 1, 2), (7, 100, 100), (5, 0, 31)]));
    let rows = run.finish(&args("out/world.mbtiles", None, Scheme::XYZ)).unwrap();
    assert!(rows.contains(&row("minzoom", "2")));
    assert!(rows.contains(&row("maxzoom", "7")));
    assert_eq!(
        rows,
        vec![row("name", "world"), row("format", "png"), row("minzoom", "2"), row("maxzoom", "7")]
    );
}

#[test]
fn metadata_without_tiles_stored_has_no_zooms() {
    let mut run = Ingestion::new(Scheme::XYZ);
    assert!(matches!(run.visit(&file("t/3/1/2.webp")), Decision::Store(_, 5)));
    let rows = run.conclude("early".to_string()).unwrap();
    assert_eq!(rows, vec![row("name", "early"), row("format", "webp")]);
}

#[test]
fn metadata_rows_in_order() {
    let mut zooms = ZoomRange::new();
    assert_eq!(
        metadata("a".to_string(), Format::JPG, &zooms),
        vec![row("name", "a"), row("format", "jpg")]
    );
    zooms.record(0);
    zooms.record(255);
    assert_eq!(
        metadata("".to_string(), Format::PBF, &zooms),
        vec![row("name", ""), row("format", "pbf"), row("minzoom", "0"), row("maxzoom", "255")]
    );
}

#[test]
fn name_asked_for_wins() {
    assert_eq!(resolve_name(Some("a".to_string()), Some("b".to_string())), "a");
    assert_eq!(resolve_name(Some("a".to_string()), None), "a");
    assert_eq!(resolve_name(Some("".to_string()), Some("b".to_string())), "");
}

#[test]
fn stem_wins_over_noname() {
    assert_eq!(resolve_name(None, Some("b".to_string())), "b");
    assert_eq!(resolve_name(None, None), "noname");
}

#[test]
fn archive_name_from_the_settings() {
    assert_eq!(archive_name(&args("out/world.mbtiles", Some("Earth"), Scheme::XYZ)), "Earth");
    assert_eq!(archive_name(&args("out/world.mbtiles", None, Scheme::XYZ)), "world");
    assert_eq!(archive_name(&args("world.tar.gz", None, Scheme::XYZ)), "world.tar");
    assert_eq!(archive_name(&args("world", None, Scheme::XYZ)), "world");
    assert_eq!(archive_name(&args(".hidden", None, Scheme::XYZ)), ".hidden");
    assert_eq!(archive_name(&args("", None, Scheme::XYZ)), "noname");
    assert_eq!(archive_name(&args("..", None, Scheme::XYZ)), "noname");
    assert_eq!(archive_name(&args("/", None, Scheme::XYZ)), "noname");
    assert_eq!(archive_name(&args("..", Some("up"), Scheme::XYZ)), "up");
}

#[test]
fn label_names_a_tile() {
    assert_eq!(label(3, 1, 2, "png"), "3/1/2.png");
    assert_eq!(label(0, 0, 0, ""), "0/0/0.");
    assert_eq!(label(255, 4294967295, 4294967295, "JPEG"), "255/4294967295/4294967295.JPEG");
}

#[test]
fn failure_messages() {
    let t = tile(3, 1, 2, "PNG", Format::PNG);
    assert_eq!(Failure::TargetExists.message(), "Target file exists");
    assert_eq!(Failure::CreateOutput("denied".to_string()).message(), "Error creating output: denied");
    assert_eq!(Failure::ConfigureOutput("locked".to_string()).message(), "locked");
    assert_eq!(
        Failure::InitializeSchema("table exists".to_string()).message(),
        "Error initializing schema: table exists"
    );
    assert_eq!(Failure::WalkDirectory("gone".to_string()).message(), "Error walking directory: gone");
    assert_eq!(Failure::ReadFile("short".to_string()).message(), "Error reading file: short");
    assert_eq!(Failure::FormatMismatch(tile(3, 1, 2, "jpg", Format::JPG)).message(), "File format mismatch: 3/1/2.jpg");
    assert_eq!(Failure::RowOffGrid(tile(3, 1, 9, "png", Format::PNG)).message(), "Tile row off the grid: 3/1/9.png");
    assert_eq!(
        Failure::InsertTile(t, 5, "UNIQUE constraint failed".to_string()).message(),
        "Error inserting tile 3/1/5.PNG: UNIQUE constraint failed"
    );
    assert_eq!(Failure::NoUsableTiles.message(), "no usable tiles found");
    assert_eq!(Failure::InsertMetadata("full".to_string()).message(), "Error inserting metadata: full");
}

#[test]
fn warnings_for_skipped_entries() {
    assert_eq!(
        Decision::Unexpected.warning("t/readme.md"),
        Some("Unexpected file, skipping: t/readme.md".to_string())
    );
    assert_eq!(
        Decision::Unsupported.warning("t/3/1/2.gif"),
        Some("Unsupported extension, skipping: t/3/1/2.gif".to_string())
    );
    assert_eq!(Decision::Directory.warning("t"), None);
    assert_eq!(Decision::Store(tile(3, 1, 2, "png", Format::PNG), 5).warning("t/3/1/2.png"), None);
    assert_eq!(Decision::Mismatch(tile(3, 1, 2, "png", Format::PNG)).warning("t/3/1/2.png"), None);
}

#[test]
fn only_fatal_decisions_are_failures() {
    assert_eq!(Decision::Directory.failure(), None);
    assert_eq!(Decision::Unexpected.failure(), None);
    assert_eq!(Decision::Unsupported.failure(), None);
    assert_eq!(Decision::Store(tile(3, 1, 2, "png", Format::PNG), 5).failure(), None);
}

#[test]
fn progress_line_shows_the_row_of_the_source() {
    assert_eq!(tile(3, 1, 2, "png", Format::PNG).progress(), "Adding 3/1/2.png");
}
