use icon_pie::error::{Error, ValidationError};
use icon_pie::plan::{size_ok, validate, Entry};
use icon_pie::{FitType, IconType, ResamplingFilter, Size};

fn entry(w: u32, h: u32, pos: usize, path: &str) -> Entry {
    Entry {
        size: Size { w, h },
        pos,
        path: String::from(path),
        filter: ResamplingFilter::Nearest,
        fit: FitType::Exact,
    }
}

#[test]
fn distinct_sizes_validate_in_first_seen_order() {
    let entries = vec![
        entry(16, 16, 2, "a.png"),
        entry(32, 32, 3, "a.png"),
        entry(64, 64, 6, "b.png"),
    ];
    let plan = validate(&entries, IconType::Ico).unwrap();
    assert_eq!(plan.entries.len(), 3);
    assert_eq!(plan.entries[0].size, Size { w: 16, h: 16 });
    assert_eq!(plan.entries[1].size, Size { w: 32, h: 32 });
    assert_eq!(plan.entries[2].size, Size { w: 64, h: 64 });
}

#[test]
fn duplicate_names_both_positions_either_order() {
    let first = vec![entry(48, 48, 2, "a.png"), entry(48, 48, 5, "b.png")];
    assert_eq!(
        validate(&first, IconType::PngSequence).unwrap_err(),
        Error::Validation(ValidationError::DuplicateSize(Size { w: 48, h: 48 }, 2, 5))
    );
    let swapped = vec![entry(48, 48, 2, "b.png"), entry(48, 48, 5, "a.png")];
    assert_eq!(
        validate(&swapped, IconType::PngSequence).unwrap_err(),
        Error::Validation(ValidationError::DuplicateSize(Size { w: 48, h: 48 }, 2, 5))
    );
}

#[test]
fn duplicates_are_found_before_size_violations() {
    // the oversized size sits first, but the uniqueness pass runs first
    let entries = vec![
        entry(999, 999, 2, "a.png"),
        entry(16, 16, 3, "a.png"),
        entry(16, 16, 4, "a.png"),
    ];
    assert_eq!(
        validate(&entries, IconType::Ico).unwrap_err(),
        Error::Validation(ValidationError::DuplicateSize(Size { w: 16, h: 16 }, 3, 4))
    );
}

#[test]
fn ico_accepts_squares_up_to_256() {
    assert!(size_ok(IconType::Ico, Size { w: 1, h: 1 }));
    assert!(size_ok(IconType::Ico, Size { w: 256, h: 256 }));
    assert!(!size_ok(IconType::Ico, Size { w: 257, h: 257 }));
    assert!(!size_ok(IconType::Ico, Size { w: 16, h: 32 }));
    assert!(!size_ok(IconType::Ico, Size { w: 0, h: 0 }));
}

#[test]
fn ico_rejects_non_square_and_oversized() {
    let wide = vec![entry(100, 200, 2, "a.png")];
    assert_eq!(
        validate(&wide, IconType::Ico).unwrap_err(),
        Error::Validation(ValidationError::UnsupportedSizeForContainer(
            Size { w: 100, h: 200 },
            IconType::Ico
        ))
    );
    let big = vec![entry(300, 300, 2, "a.png")];
    assert_eq!(
        validate(&big, IconType::Ico).unwrap_err(),
        Error::Validation(ValidationError::UnsupportedSizeForContainer(
            Size { w: 300, h: 300 },
            IconType::Ico
        ))
    );
}

#[test]
fn icns_accepts_only_the_fixed_set() {
    for n in [16u32, 32, 64, 128, 256, 512, 1024] {
        assert!(size_ok(IconType::Icns, Size { w: n, h: n }));
    }
    assert!(!size_ok(IconType::Icns, Size { w: 100, h: 100 }));
    assert!(!size_ok(IconType::Icns, Size { w: 48, h: 48 }));
    assert!(!size_ok(IconType::Icns, Size { w: 16, h: 32 }));
    let bad = vec![entry(100, 100, 2, "a.png")];
    assert_eq!(
        validate(&bad, IconType::Icns).unwrap_err(),
        Error::Validation(ValidationError::UnsupportedSizeForContainer(
            Size { w: 100, h: 100 },
            IconType::Icns
        ))
    );
    let good = vec![entry(512, 512, 2, "a.png")];
    assert!(validate(&good, IconType::Icns).is_ok());
}

#[test]
fn png_sequence_accepts_any_positive_size() {
    assert!(size_ok(IconType::PngSequence, Size { w: 123, h: 7 }));
    assert!(size_ok(IconType::PngSequence, Size { w: 1, h: 1 }));
    assert!(!size_ok(IconType::PngSequence, Size { w: 0, h: 5 }));
    assert!(!size_ok(IconType::PngSequence, Size { w: 5, h: 0 }));
    let tall = vec![entry(123, 7, 2, "a.png")];
    assert!(validate(&tall, IconType::PngSequence).is_ok());
    let flat = vec![entry(0, 5, 2, "a.png")];
    assert!(validate(&flat, IconType::PngSequence).is_err());
}

#[test]
fn first_violation_in_input_order_is_reported() {
    let entries = vec![entry(16, 16, 2, "a.png"), entry(300, 300, 3, "a.png"), entry(400, 400, 4, "a.png")];
    assert_eq!(
        validate(&entries, IconType::Ico).unwrap_err(),
        Error::Validation(ValidationError::UnsupportedSizeForContainer(
            Size { w: 300, h: 300 },
            IconType::Ico
        ))
    );
}
