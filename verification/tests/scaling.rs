use icon_pie::error::{Error, ValidationError};
use icon_pie::eval::{center_pad, fit_dimensions, icon, scale_entry, unique_paths, Pixmap, SourceImage, SourceKind};
use icon_pie::plan::{validate, Entry};
use icon_pie::{FitType, IconType, ResamplingFilter, Size};

fn solid(width: u32, height: u32, rgba: [u8; 4]) -> Pixmap {
    let mut data = Vec::new();
    for _ in 0..(width * height) {
        data.extend_from_slice(&rgba);
    }
    Pixmap { width, height, data }
}

fn entry(w: u32, h: u32, path: &str, filter: ResamplingFilter, fit: FitType) -> Entry {
    Entry { size: Size { w, h }, pos: 0, path: String::from(path), filter, fit }
}

#[test]
fn fit_dimensions_exact_values() {
    assert_eq!(fit_dimensions(2, 1, 4, 4), (4, 2));
    assert_eq!(fit_dimensions(1, 2, 4, 4), (2, 4));
    assert_eq!(fit_dimensions(3, 3, 6, 6), (6, 6));
    // a very flat source still gets at least one pixel of height
    assert_eq!(fit_dimensions(1000, 1, 5, 5), (5, 1));
    assert_eq!(fit_dimensions(1, 1000, 5, 5), (1, 5));
}

#[test]
fn exact_fit_upscale_matches_requested_size() {
    let src = SourceImage {
        path: String::from("red.png"),
        kind: SourceKind::Raster,
        pixels: solid(2, 2, [255, 0, 0, 255]),
    };
    let e = entry(4, 4, "red.png", ResamplingFilter::Nearest, FitType::Exact);
    let p = scale_entry(&src, &e).unwrap();
    assert_eq!((p.width, p.height), (4, 4));
    assert_eq!(p.data.len(), 64);
    // nearest upscaling of a solid image keeps every pixel
    assert!(p.data.chunks(4).all(|px| px == [255, 0, 0, 255]));
}

#[test]
fn exact_fit_pads_non_square_sources() {
    let src = SourceImage {
        path: String::from("wide.png"),
        kind: SourceKind::Raster,
        pixels: solid(2, 1, [255, 255, 255, 255]),
    };
    let e = entry(4, 4, "wide.png", ResamplingFilter::Nearest, FitType::Exact);
    let p = scale_entry(&src, &e).unwrap();
    assert_eq!((p.width, p.height), (4, 4));
    // the 4x2 resampled band sits centred: rows 0 and 3 transparent
    for x in 0..4usize {
        assert_eq!(p.data[4 * x + 3], 0);
        assert_eq!(p.data[4 * (3 * 4 + x) + 3], 0);
        assert_eq!(p.data[4 * (4 + x) + 3], 255);
        assert_eq!(p.data[4 * (2 * 4 + x) + 3], 255);
    }
}

#[test]
fn proportional_fit_stays_inside_the_box() {
    let src = SourceImage {
        path: String::from("wide.png"),
        kind: SourceKind::Raster,
        pixels: solid(2, 1, [9, 9, 9, 255]),
    };
    let e = entry(4, 4, "wide.png", ResamplingFilter::Nearest, FitType::Proportional);
    let p = scale_entry(&src, &e).unwrap();
    assert_eq!((p.width, p.height), (4, 2));
}

#[test]
fn nearest_downsize_of_raster_is_refused() {
    let src = SourceImage {
        path: String::from("big.png"),
        kind: SourceKind::Raster,
        pixels: solid(4, 4, [1, 2, 3, 255]),
    };
    let e = entry(2, 2, "big.png", ResamplingFilter::Nearest, FitType::Exact);
    assert_eq!(
        scale_entry(&src, &e).unwrap_err(),
        Error::Validation(ValidationError::IllegalDownsizeWithoutInterpolation(
            Size { w: 2, h: 2 },
            Size { w: 4, h: 4 },
            String::from("big.png")
        ))
    );
}

#[test]
fn interpolated_downsize_is_allowed() {
    let src = SourceImage {
        path: String::from("big.png"),
        kind: SourceKind::Raster,
        pixels: solid(4, 4, [1, 2, 3, 255]),
    };
    for filter in [ResamplingFilter::Linear, ResamplingFilter::Cubic] {
        let e = entry(2, 2, "big.png", filter, FitType::Exact);
        let p = scale_entry(&src, &e).unwrap();
        assert_eq!((p.width, p.height), (2, 2));
    }
}

#[test]
fn vector_sources_downsize_freely() {
    let src = SourceImage {
        path: String::from("art.svg"),
        kind: SourceKind::Vector,
        pixels: solid(8, 8, [0, 0, 0, 255]),
    };
    let e = entry(2, 2, "art.svg", ResamplingFilter::Nearest, FitType::Exact);
    assert!(scale_entry(&src, &e).is_ok());
}

#[test]
fn center_pad_places_the_image_centred() {
    let img = solid(1, 1, [200, 10, 20, 255]);
    let p = center_pad(&img, 3, 3);
    assert_eq!((p.width, p.height), (3, 3));
    for i in 0..9usize {
        if i == 4 {
            assert_eq!(&p.data[16..20], [200, 10, 20, 255]);
        } else {
            assert_eq!(p.data[4 * i + 3], 0);
        }
    }
}

#[test]
fn unique_paths_keeps_first_seen_order() {
    let entries = vec![
        entry(16, 16, "a.png", ResamplingFilter::Linear, FitType::Exact),
        entry(32, 32, "b.png", ResamplingFilter::Linear, FitType::Exact),
        entry(64, 64, "a.png", ResamplingFilter::Linear, FitType::Exact),
    ];
    let plan = validate(&entries, IconType::Ico).unwrap();
    assert_eq!(unique_paths(&plan), vec![String::from("a.png"), String::from("b.png")]);
}

#[test]
fn icon_scales_every_binding_in_plan_order() {
    let entries = vec![
        entry(16, 16, "a.png", ResamplingFilter::Linear, FitType::Exact),
        entry(32, 32, "a.png", ResamplingFilter::Linear, FitType::Exact),
    ];
    let plan = validate(&entries, IconType::Ico).unwrap();
    let sources = vec![SourceImage {
        path: String::from("a.png"),
        kind: SourceKind::Raster,
        pixels: solid(8, 8, [5, 6, 7, 255]),
    }];
    let out = icon(&plan, &sources).unwrap();
    assert_eq!(out.len(), 2);
    assert_eq!(out[0].0, Size { w: 16, h: 16 });
    assert_eq!((out[0].1.width, out[0].1.height), (16, 16));
    assert_eq!(out[1].0, Size { w: 32, h: 32 });
}

#[test]
fn icon_reports_a_missing_source() {
    let entries = vec![entry(16, 16, "gone.png", ResamplingFilter::Linear, FitType::Exact)];
    let plan = validate(&entries, IconType::Ico).unwrap();
    let sources: Vec<SourceImage> = vec![];
    assert_eq!(
        icon(&plan, &sources).unwrap_err(),
        Error::Source(String::from("gone.png"))
    );
}
