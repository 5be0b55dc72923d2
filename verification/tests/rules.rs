use tilepack::args::Scheme;
use tilepack::format::{Format, FormatGuard};
use tilepack::scheme::{grid_rows, translate_row, try_translate_row, DEEPEST_ZOOM};
use tilepack::zoom::ZoomRange;

#[test]
fn extension_names_format() {
    assert_eq!(Format::of_extension("png"), Some(Format::PNG));
    assert_eq!(Format::of_extension("jpg"), Some(Format::JPG));
    assert_eq!(Format::of_extension("jpeg"), Some(Format::JPG));
    assert_eq!(Format::of_extension("webp"), Some(Format::WEBP));
    assert_eq!(Format::of_extension("pbf"), Some(Format::PBF));
}

#[test]
fn extension_in_any_case() {
    assert_eq!(Format::of_extension("PNG"), Some(Format::PNG));
    assert_eq!(Format::of_extension("JpEg"), Some(Format::JPG));
    assert_eq!(Format::of_extension("WebP"), Some(Format::WEBP));
    assert_eq!(Format::of_extension("PBF"), Some(Format::PBF));
    assert_eq!(Format::of_extension("Jpg"), Some(Format::JPG));
}

#[test]
fn extension_that_names_no_format() {
    assert_eq!(Format::of_extension(""), None);
    assert_eq!(Format::of_extension("gif"), None);
    assert_eq!(Format::of_extension("png "), None);
    assert_eq!(Format::of_extension(".png"), None);
    assert_eq!(Format::of_extension("png.bak"), None);
    assert_eq!(Format::of_extension("tar.gz"), None);
    assert_eq!(Format::of_extension("mvt"), None);
    assert_eq!(Format::of_extension("jpe"), None);
}

#[test]
fn named_takes_lowercase_only() {
    assert_eq!(Format::named("png"), Some(Format::PNG));
    assert_eq!(Format::named("jpg"), Some(Format::JPG));
    assert_eq!(Format::named("jpeg"), Some(Format::JPG));
    assert_eq!(Format::named("webp"), Some(Format::WEBP));
    assert_eq!(Format::named("pbf"), Some(Format::PBF));
    assert_eq!(Format::named("PNG"), None);
    assert_eq!(Format::named("Jpeg"), None);
    assert_eq!(Format::named(""), None);
}

#[test]
fn format_text_of_each_format() {
    assert_eq!(Format::PNG.text(), "png");
    assert_eq!(Format::JPG.text(), "jpg");
    assert_eq!(Format::WEBP.text(), "webp");
    assert_eq!(Format::PBF.text(), "pbf");
}

#[test]
fn format_text_names_the_format() {
    for format in [Format::PNG, Format::JPG, Format::WEBP, Format::PBF] {
        assert_eq!(Format::named(format.text()), Some(format));
    }
}

#[test]
fn guard_is_fixed_by_the_first_tile() {
    let mut guard = FormatGuard::new();
    assert_eq!(guard.selected, None);
    assert!(guard.check(Format::WEBP));
    assert_eq!(guard.selected, Some(Format::WEBP));
    assert!(guard.check(Format::WEBP));
    assert_eq!(guard.selected, Some(Format::WEBP));
}

#[test]
fn guard_refuses_another_format_and_stays() {
    let mut guard = FormatGuard::new();
    assert!(guard.check(Format::PNG));
    assert!(!guard.check(Format::JPG));
    assert_eq!(guard.selected, Some(Format::PNG));
    assert!(!guard.check(Format::PBF));
    assert!(guard.check(Format::PNG));
    assert_eq!(guard.selected, Some(Format::PNG));
}

#[test]
fn guard_refuses_whichever_comes_second() {
    let formats = [Format::PNG, Format::JPG, Format::WEBP, Format::PBF];
    for first in formats {
        for second in formats {
            let mut guard = FormatGuard::new();
            assert!(guard.check(first));
            assert_eq!(guard.check(second), first == second);
            assert_eq!(guard.selected, Some(first));
        }
    }
}

#[test]
fn grid_rows_are_powers_of_two() {
    assert_eq!(grid_rows(0), 1);
    assert_eq!(grid_rows(1), 2);
    assert_eq!(grid_rows(10), 1024);
    assert_eq!(grid_rows(30), 1073741824);
    assert_eq!(grid_rows(DEEPEST_ZOOM), 2147483648);
}

#[test]
fn rows_from_the_top_are_mirrored() {
    assert_eq!(translate_row(Scheme::XYZ, 0, 0), 0);
    assert_eq!(translate_row(Scheme::XYZ, 1, 0), 1);
    assert_eq!(translate_row(Scheme::XYZ, 1, 1), 0);
    assert_eq!(translate_row(Scheme::XYZ, 3, 2), 5);
    assert_eq!(translate_row(Scheme::XYZ, 10, 0), 1023);
    assert_eq!(translate_row(Scheme::XYZ, 30, 1073741823), 0);
    assert_eq!(translate_row(Scheme::XYZ, 31, 0), 2147483647);
}

#[test]
fn rows_from_the_bottom_stay() {
    assert_eq!(translate_row(Scheme::TMS, 0, 0), 0);
    assert_eq!(translate_row(Scheme::TMS, 3, 2), 2);
    assert_eq!(translate_row(Scheme::TMS, 3, 4000000000), 4000000000);
    assert_eq!(translate_row(Scheme::TMS, 255, 4294967295), 4294967295);
}

#[test]
fn mirroring_twice_gives_the_row_back() {
    for zoom in [0u8, 1, 2, 7, 16, 30, 31] {
        let rows = grid_rows(zoom);
        for row in [0, rows / 3, rows / 2, rows - 1] {
            let stored = translate_row(Scheme::XYZ, zoom, row);
            assert!(stored < rows);
            assert_eq!(translate_row(Scheme::XYZ, zoom, stored), row);
        }
    }
}

#[test]
fn rows_off_the_grid_are_not_mirrored() {
    assert_eq!(try_translate_row(Scheme::XYZ, 0, 1), None);
    assert_eq!(try_translate_row(Scheme::XYZ, 3, 8), None);
    assert_eq!(try_translate_row(Scheme::XYZ, 3, 7), Some(0));
    assert_eq!(try_translate_row(Scheme::XYZ, 31, 2147483648), None);
    assert_eq!(try_translate_row(Scheme::XYZ, 31, 2147483647), Some(0));
    assert_eq!(try_translate_row(Scheme::XYZ, 32, 0), None);
    assert_eq!(try_translate_row(Scheme::XYZ, 255, 0), None);
    assert_eq!(try_translate_row(Scheme::TMS, 3, 8), Some(8));
    assert_eq!(try_translate_row(Scheme::TMS, 200, 4294967295), Some(4294967295));
}

#[test]
fn zoom_range_starts_empty() {
    let range = ZoomRange::new();
    assert_eq!(range.min(), None);
    assert_eq!(range.max(), None);
}

#[test]
fn zoom_range_of_one_tile() {
    let mut range = ZoomRange::new();
    range.record(4);
    assert_eq!(range.min(), Some(4));
    assert_eq!(range.max(), Some(4));
}

#[test]
fn zoom_range_keeps_least_and_greatest() {
    for order in [[2u8, 5, 7], [7, 5, 2], [5, 2, 7], [5, 7, 2]] {
        let mut range = ZoomRange::new();
        for zoom in order {
            range.record(zoom);
        }
        assert_eq!(range.min(), Some(2));
        assert_eq!(range.max(), Some(7));
    }
}

#[test]
fn zoom_range_at_the_ends_of_the_type() {
    let mut range = ZoomRange::new();
    range.record(255);
    range.record(0);
    range.record(3);
    assert_eq!(range.min(), Some(0));
    assert_eq!(range.max(), Some(255));
}
