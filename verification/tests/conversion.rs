use vectortracer::{
    BinaryImageConverter, BinaryImageConverterParams, ConverterError, Options, PathData,
    PathSimplifyMode, RawImageData, StepError,
};
use visioncortex::clusters::Cluster;
use visioncortex::PointF64;

/// A picture from rows of text: `#` is a dark pixel, anything else a light one.
fn picture(rows: &[&str]) -> RawImageData {
    let height = rows.len();
    let width = if height == 0 { 0 } else { rows[0].len() };
    let mut data = Vec::new();
    for row in rows {
        for c in row.chars() {
            let v = if c == '#' { 0 } else { 255 };
            data.push(v);
            data.push(255 - v);
            data.push(255 - v);
            data.push(255);
        }
    }
    RawImageData { data, width, height }
}

fn params(mode: &str, filter: usize) -> BinaryImageConverterParams {
    BinaryImageConverterParams { mode: mode.to_string(), filterSpeckle: filter }
}

fn plain() -> Options {
    Options { invert: None, pathFill: None, backgroundColor: None, attributes: None, scale: None }
}

fn converter(rows: &[&str], mode: &str, filter: usize) -> BinaryImageConverter {
    BinaryImageConverter::new(picture(rows), params(mode, filter), plain()).unwrap()
}

fn fit(cluster: &Cluster, mode: PathSimplifyMode) -> PathData {
    let mode = match mode {
        PathSimplifyMode::Pixel => visioncortex::PathSimplifyMode::None,
        PathSimplifyMode::Polygon => visioncortex::PathSimplifyMode::Polygon,
        PathSimplifyMode::Spline => visioncortex::PathSimplifyMode::Spline,
    };
    let path =
        cluster.to_compound_path(mode, 60.0_f64.to_radians(), 4.0, 10, 45.0_f64.to_radians());
    let (d, offset) = path.to_svg_string(true, PointF64::default(), Some(8));
    PathData { d, x: format!("{}", offset.x), y: format!("{}", offset.y) }
}

/// One step as a host takes it: fit the outline that is asked for, then tick.
fn step(converter: &mut BinaryImageConverter) -> Result<bool, StepError> {
    let outline = converter.pending().map(|cluster| fit(cluster, converter.mode()));
    converter.tick(outline)
}

/// The pixel count of the cluster that wants an outline, if one does.
fn wanted(converter: &BinaryImageConverter) -> Option<usize> {
    converter.pending().map(|cluster| cluster.size())
}

fn count(text: &str, part: &str) -> usize {
    text.matches(part).count()
}

const EMPTY: &str = "<svg xmlns=\"http://www.w3.org/2000/svg\" style=\"background:white;\" >\
                     <g transform=\"scale(1)\"></g></svg>";

#[test]
fn unknown_mode_makes_no_converter() {
    let made = BinaryImageConverter::new(picture(&["##", "##"]), params("curve", 4), plain());
    assert_eq!(made.err(), Some(ConverterError::UnknownMode));
}

#[test]
fn unknown_mode_is_seen_before_the_picture() {
    let image = RawImageData { data: vec![], width: 65536, height: 65536 };
    let made = BinaryImageConverter::new(image, params("", 4), plain());
    assert_eq!(made.err(), Some(ConverterError::UnknownMode));
}

#[test]
fn short_buffer_makes_no_converter() {
    let mut image = picture(&["##", "##"]);
    image.data.pop();
    let made = BinaryImageConverter::new(image, params("none", 4), plain());
    assert_eq!(made.err(), Some(ConverterError::DataTooShort));
}

#[test]
fn long_buffer_is_taken() {
    let mut image = picture(&["##", "##"]);
    image.data.extend_from_slice(&[1, 2, 3]);
    let made = BinaryImageConverter::new(image, params("none", 4), plain());
    assert!(made.is_ok());
}

#[test]
fn huge_picture_makes_no_converter() {
    let image = RawImageData { data: vec![], width: 65536, height: 65536 };
    let made = BinaryImageConverter::new(image, params("none", 4), plain());
    assert_eq!(made.err(), Some(ConverterError::ImageTooLarge));
    let image = RawImageData { data: vec![], width: usize::MAX, height: 2 };
    let made = BinaryImageConverter::new(image, params("none", 4), plain());
    assert_eq!(made.err(), Some(ConverterError::ImageTooLarge));
    let image = RawImageData { data: vec![0; 16], width: 1, height: 2147483649 };
    let made = BinaryImageConverter::new(image, params("none", 4), plain());
    assert_eq!(made.err(), Some(ConverterError::ImageTooLarge));
}

#[test]
fn picture_with_a_side_past_i32_makes_no_converter() {
    let image = RawImageData { data: vec![], width: 1, height: 2147483649 };
    let made = BinaryImageConverter::new(image, params("none", 4), plain());
    assert_eq!(made.err(), Some(ConverterError::ImageTooLarge));
    let image = RawImageData { data: vec![], width: 2147483648, height: 1 };
    let made = BinaryImageConverter::new(image, params("none", 4), plain());
    assert_eq!(made.err(), Some(ConverterError::ImageTooLarge));
    let image = RawImageData { data: vec![], width: 0, height: 2147483648 };
    let made = BinaryImageConverter::new(image, params("none", 4), plain());
    assert_eq!(made.err(), Some(ConverterError::ImageTooLarge));
    let image = RawImageData { data: vec![], width: 2147483648, height: 0 };
    let made = BinaryImageConverter::new(image, params("none", 4), plain());
    assert_eq!(made.err(), Some(ConverterError::ImageTooLarge));
}

#[test]
fn side_of_exactly_i32_max_is_not_too_large() {
    let image = RawImageData { data: vec![], width: 2147483647, height: 0 };
    let made = BinaryImageConverter::new(image, params("none", 4), plain());
    assert!(made.is_ok());
    let image = RawImageData { data: vec![], width: 0, height: 2147483647 };
    let made = BinaryImageConverter::new(image, params("none", 4), plain());
    assert!(made.is_ok());
    let image = RawImageData { data: vec![], width: 2147483647, height: 2 };
    let made = BinaryImageConverter::new(image, params("none", 4), plain());
    assert_eq!(made.err(), Some(ConverterError::DataTooShort));
    let image = RawImageData { data: vec![], width: 2147483647, height: 3 };
    let made = BinaryImageConverter::new(image, params("none", 4), plain());
    assert_eq!(made.err(), Some(ConverterError::ImageTooLarge));
}

#[test]
fn picture_without_pixels_is_taken() {
    let image = RawImageData { data: vec![], width: 0, height: 7 };
    let mut c = BinaryImageConverter::new(image, params("spline", 4), plain()).unwrap();
    c.init();
    assert_eq!(c.clusters().unwrap().len(), 0);
    assert_eq!(c.tick(None), Ok(true));
}

#[test]
fn stepping_needs_init() {
    let mut c = converter(&["##", "##"], "none", 4);
    assert!(c.clusters().is_none());
    assert_eq!(wanted(&c), None);
    assert_eq!(c.progress(), 0);
    assert_eq!(c.tick(None), Err(StepError::NotInitialized));
    assert_eq!(c.progress(), 0);
    assert_eq!(c.getResult(), EMPTY);
}

#[test]
fn mode_is_kept() {
    assert_eq!(converter(&["#"], "none", 4).mode(), PathSimplifyMode::Pixel);
    assert_eq!(converter(&["#"], "polygon", 4).mode(), PathSimplifyMode::Polygon);
    assert_eq!(converter(&["#"], "spline", 4).mode(), PathSimplifyMode::Spline);
}

#[test]
fn picture_without_foreground_is_done_at_once() {
    let mut c = converter(&["....", "....", "...."], "spline", 4);
    c.init();
    assert_eq!(c.clusters().unwrap().len(), 0);
    assert_eq!(wanted(&c), None);
    assert_eq!(c.progress(), 100);
    assert_eq!(step(&mut c), Ok(true));
    assert_eq!(step(&mut c), Ok(true));
    assert_eq!(c.progress(), 100);
    assert_eq!(c.getResult(), EMPTY);
}

#[test]
fn full_square_is_one_path() {
    let rows = ["##########"; 10];
    let mut c = converter(&rows, "none", 4);
    c.init();
    assert_eq!(c.clusters().unwrap().len(), 1);
    assert_eq!(c.clusters().unwrap().get_cluster(0).size(), 100);
    assert_eq!(wanted(&c), Some(100));
    assert_eq!(c.progress(), 0);
    assert_eq!(step(&mut c), Ok(true));
    assert_eq!(c.progress(), 100);
    assert_eq!(wanted(&c), None);
    let text = c.getResult();
    assert_eq!(count(&text, "<path"), 1);
    assert_eq!(
        text,
        "<svg xmlns=\"http://www.w3.org/2000/svg\" style=\"background:white;\" >\
         <g transform=\"scale(1)\">\
         <path d=\"M0,0 L10,0 L10,10 L0,10 Z \" transform=\"translate(0,0)\" \
         style=\"fill:#000000\"/>\
         </g></svg>"
    );
}

#[test]
fn done_is_final() {
    let rows = ["##########"; 10];
    let mut c = converter(&rows, "none", 4);
    c.init();
    assert_eq!(step(&mut c), Ok(true));
    let text = c.getResult();
    for _ in 0..5 {
        assert_eq!(c.tick(None), Ok(true));
        let late = PathData { d: "M0,0 Z ".into(), x: "1".into(), y: "2".into() };
        assert_eq!(c.tick(Some(late)), Ok(true));
        assert_eq!(c.progress(), 100);
        assert_eq!(wanted(&c), None);
        assert_eq!(c.getResult(), text);
    }
}

#[test]
fn steps_answer_false_until_the_last_cluster() {
    let mut c = converter(&["##.##.##", "##.##.##"], "none", 1);
    c.init();
    assert_eq!(c.clusters().unwrap().len(), 3);
    assert_eq!(step(&mut c), Ok(false));
    assert_eq!(step(&mut c), Ok(false));
    assert_eq!(step(&mut c), Ok(true));
    assert_eq!(step(&mut c), Ok(true));
    assert_eq!(count(&c.getResult(), "<path"), 3);
}

#[test]
fn progress_is_the_share_taken_rounded_down() {
    let mut c = converter(&["##.##.##", "##.##.##"], "none", 1);
    c.init();
    assert_eq!(c.progress(), 0);
    step(&mut c).unwrap();
    assert_eq!(c.progress(), 33);
    step(&mut c).unwrap();
    assert_eq!(c.progress(), 66);
    step(&mut c).unwrap();
    assert_eq!(c.progress(), 100);
}

#[test]
fn progress_of_seven_clusters() {
    let mut c = converter(&["#.#.#.#.#.#.#"], "none", 0);
    c.init();
    assert_eq!(c.clusters().unwrap().len(), 7);
    let mut seen = Vec::new();
    loop {
        seen.push(c.progress());
        if step(&mut c).unwrap() {
            break;
        }
    }
    seen.push(c.progress());
    assert_eq!(seen, vec![0, 14, 28, 42, 57, 71, 85, 100]);
}

#[test]
fn speckles_are_left_out() {
    let rows = ["##...", "##.#.", "....."];
    let mut c = converter(&rows, "none", 4);
    c.init();
    assert_eq!(c.clusters().unwrap().len(), 2);
    assert_eq!(c.clusters().unwrap().get_cluster(0).size(), 4);
    assert_eq!(c.clusters().unwrap().get_cluster(1).size(), 1);
    assert_eq!(wanted(&c), Some(4));
    assert_eq!(step(&mut c), Ok(false));
    assert_eq!(count(&c.getResult(), "<path"), 1);
    assert_eq!(wanted(&c), None);
    assert_eq!(step(&mut c), Ok(true));
    assert_eq!(count(&c.getResult(), "<path"), 1);
    assert_eq!(
        c.getResult(),
        "<svg xmlns=\"http://www.w3.org/2000/svg\" style=\"background:white;\" >\
         <g transform=\"scale(1)\">\
         <path d=\"M0,0 L2,0 L2,2 L0,2 Z \" transform=\"translate(0,0)\" \
         style=\"fill:#000000\"/>\
         </g></svg>"
    );
}

#[test]
fn cluster_of_exactly_the_threshold_is_drawn() {
    let rows = ["##...", "##.#.", "....."];
    let mut at = converter(&rows, "none", 4);
    at.init();
    while !step(&mut at).unwrap() {}
    assert_eq!(count(&at.getResult(), "<path"), 1);
    let mut above = converter(&rows, "none", 5);
    above.init();
    while !step(&mut above).unwrap() {}
    assert_eq!(count(&above.getResult(), "<path"), 0);
    assert_eq!(above.getResult(), EMPTY);
}

#[test]
fn higher_threshold_never_draws_more() {
    let rows = ["#.##.###.####", "..........#..", "#.#.#.#......"];
    let mut counts = Vec::new();
    for filter in 0..8 {
        let mut c = converter(&rows, "none", filter);
        c.init();
        while !step(&mut c).unwrap() {}
        counts.push(count(&c.getResult(), "<path"));
    }
    assert_eq!(counts, vec![8, 8, 3, 2, 1, 1, 0, 0]);
}

#[test]
fn drawn_cluster_needs_its_outline() {
    let mut c = converter(&["##", "##"], "none", 4);
    c.init();
    assert_eq!(wanted(&c), Some(4));
    assert_eq!(c.tick(None), Err(StepError::OutlineMissing));
    assert_eq!(wanted(&c), Some(4));
    assert_eq!(c.progress(), 0);
    assert_eq!(c.getResult(), EMPTY);
    assert_eq!(step(&mut c), Ok(true));
    assert_eq!(count(&c.getResult(), "<path"), 1);
}

#[test]
fn outline_for_a_speckle_is_dropped() {
    let mut c = converter(&["#.", ".."], "none", 4);
    c.init();
    assert_eq!(wanted(&c), None);
    let outline = PathData { d: "M0,0 L1,0 L1,1 L0,1 Z ".into(), x: "0".into(), y: "0".into() };
    assert_eq!(c.tick(Some(outline)), Ok(true));
    assert_eq!(c.getResult(), EMPTY);
}

#[test]
fn outline_is_written_as_it_comes() {
    let mut c = converter(&["##", "##"], "none", 4);
    c.init();
    let outline = PathData { d: "M1,2 L3,4 Z ".into(), x: "5".into(), y: "-6.25".into() };
    assert_eq!(c.tick(Some(outline)), Ok(true));
    assert_eq!(
        c.getResult(),
        "<svg xmlns=\"http://www.w3.org/2000/svg\" style=\"background:white;\" >\
         <g transform=\"scale(1)\">\
         <path d=\"M1,2 L3,4 Z \" transform=\"translate(5,-6.25)\" style=\"fill:#000000\"/>\
         </g></svg>"
    );
}

#[test]
fn paths_follow_the_clusters() {
    let rows = ["##.....", "##..###", "....###", "....###"];
    let mut c = converter(&rows, "none", 4);
    c.init();
    assert_eq!(c.clusters().unwrap().len(), 2);
    let first = fit(c.clusters().unwrap().get_cluster(0), PathSimplifyMode::Pixel);
    let second = fit(c.clusters().unwrap().get_cluster(1), PathSimplifyMode::Pixel);
    while !step(&mut c).unwrap() {}
    let text = c.getResult();
    let expected = format!(
        "<svg xmlns=\"http://www.w3.org/2000/svg\" style=\"background:white;\" >\
         <g transform=\"scale(1)\">\
         <path d=\"{}\" transform=\"translate({},{})\" style=\"fill:#000000\"/>\
         <path d=\"{}\" transform=\"translate({},{})\" style=\"fill:#000000\"/>\
         </g></svg>",
        first.d, first.x, first.y, second.d, second.x, second.y
    );
    assert_eq!(text, expected);
    assert!(text.contains("translate(0,0)"));
    assert!(text.contains("translate(4,1)"));
}

#[test]
fn inverted_picture_takes_the_light_pixels() {
    let rows = ["#...", "#...", "#..."];
    let mut dark = converter(&rows, "none", 0);
    dark.init();
    assert_eq!(dark.clusters().unwrap().len(), 1);
    assert_eq!(dark.clusters().unwrap().get_cluster(0).size(), 3);
    let mut options = plain();
    options.invert = Some(true);
    let mut light = BinaryImageConverter::new(picture(&rows), params("none", 0), options).unwrap();
    light.init();
    assert_eq!(light.clusters().unwrap().len(), 1);
    assert_eq!(light.clusters().unwrap().get_cluster(0).size(), 9);
    let mut options = plain();
    options.invert = Some(false);
    let mut same = BinaryImageConverter::new(picture(&rows), params("none", 0), options).unwrap();
    same.init();
    assert_eq!(same.clusters().unwrap().get_cluster(0).size(), 3);
}

#[test]
fn only_the_red_channel_counts() {
    let data = vec![
        127, 255, 255, 0, //
        128, 0, 0, 255, //
        129, 0, 0, 255, //
        0, 255, 255, 255,
    ];
    let image = RawImageData { data: data.clone(), width: 4, height: 1 };
    let mut c = BinaryImageConverter::new(image, params("none", 0), plain()).unwrap();
    c.init();
    let clusters = c.clusters().unwrap();
    assert_eq!(clusters.len(), 2);
    assert_eq!((clusters.get_cluster(0).points[0].x, clusters.get_cluster(0).size()), (0, 1));
    assert_eq!((clusters.get_cluster(1).points[0].x, clusters.get_cluster(1).size()), (3, 1));
    let mut options = plain();
    options.invert = Some(true);
    let image = RawImageData { data, width: 4, height: 1 };
    let mut c = BinaryImageConverter::new(image, params("none", 0), options).unwrap();
    c.init();
    let clusters = c.clusters().unwrap();
    assert_eq!(clusters.len(), 1);
    assert_eq!((clusters.get_cluster(0).points[0].x, clusters.get_cluster(0).size()), (2, 1));
}

#[test]
fn pixels_are_read_row_by_row() {
    let rows = ["..#", "...", "#.."];
    let mut c = converter(&rows, "none", 0);
    c.init();
    let clusters = c.clusters().unwrap();
    assert_eq!(clusters.len(), 2);
    let a = clusters.get_cluster(0).points[0];
    let b = clusters.get_cluster(1).points[0];
    assert_eq!((a.x, a.y), (2, 0));
    assert_eq!((b.x, b.y), (0, 2));
}

#[test]
fn the_cluster_at_hand_is_handed_out() {
    let rows = ["#....", "..###", "..###"];
    let mut c = converter(&rows, "none", 1);
    c.init();
    let first = c.pending().unwrap();
    assert_eq!(first.size(), 1);
    assert_eq!((first.points[0].x, first.points[0].y), (0, 0));
    assert_eq!(step(&mut c), Ok(false));
    let second = c.pending().unwrap();
    assert_eq!(second.size(), 6);
    assert_eq!((second.points[0].x, second.points[0].y), (2, 1));
    assert_eq!(step(&mut c), Ok(true));
    assert!(c.pending().is_none());
}

#[test]
fn corners_do_not_connect() {
    let mut c = converter(&["#.", ".#"], "none", 0);
    c.init();
    assert_eq!(c.clusters().unwrap().len(), 2);
}

#[test]
fn options_reach_the_document() {
    let options = Options {
        invert: None,
        pathFill: Some("#abc".to_string()),
        backgroundColor: Some("black".to_string()),
        attributes: Some("viewBox=\"0 0 2 2\"".to_string()),
        scale: Some("3".to_string()),
    };
    let mut c =
        BinaryImageConverter::new(picture(&["##", "##"]), params("none", 4), options).unwrap();
    c.init();
    assert_eq!(step(&mut c), Ok(true));
    assert_eq!(
        c.getResult(),
        "<svg xmlns=\"http://www.w3.org/2000/svg\" style=\"background:black;\" \
         viewBox=\"0 0 2 2\"><g transform=\"scale(3)\">\
         <path d=\"M0,0 L2,0 L2,2 L0,2 Z \" transform=\"translate(0,0)\" style=\"fill:#abc\"/>\
         </g></svg>"
    );
}

#[test]
fn result_can_be_read_midway() {
    let mut c = converter(&["##.##", "##.##"], "none", 4);
    c.init();
    assert_eq!(c.getResult(), EMPTY);
    assert_eq!(step(&mut c), Ok(false));
    let midway = c.getResult();
    assert_eq!(count(&midway, "<path"), 1);
    assert_eq!(midway, c.getResult());
    assert_eq!(step(&mut c), Ok(true));
    assert_eq!(count(&c.getResult(), "<path"), 2);
    assert!(c.getResult().starts_with(&midway[..midway.len() - "</g></svg>".len()]));
}

#[test]
fn same_picture_same_document() {
    let rows = ["####....", "####.##.", ".....##.", "#......#"];
    let mut texts = Vec::new();
    for _ in 0..3 {
        let mut c = converter(&rows, "spline", 2);
        c.init();
        while !step(&mut c).unwrap() {}
        texts.push(c.getResult());
    }
    assert_eq!(texts[0], texts[1]);
    assert_eq!(texts[1], texts[2]);
    assert_eq!(count(&texts[0], "<path"), 2);
}

#[test]
fn init_again_starts_over_and_keeps_the_document() {
    let mut c = converter(&["##.##", "##.##"], "none", 4);
    c.init();
    assert_eq!(step(&mut c), Ok(false));
    assert_eq!(c.progress(), 50);
    let midway = c.getResult();
    c.init();
    assert_eq!(c.progress(), 0);
    assert_eq!(wanted(&c), Some(4));
    assert_eq!(c.getResult(), midway);
}

#[test]
fn polygon_and_spline_outlines_are_drawn() {
    let rows = ["######", "######", "######", "######", "######", "######"];
    for mode in ["polygon", "spline"] {
        let mut c = converter(&rows, mode, 4);
        c.init();
        assert_eq!(step(&mut c), Ok(true));
        let text = c.getResult();
        assert_eq!(count(&text, "<path d=\"M"), 1);
        assert!(text.ends_with("style=\"fill:#000000\"/></g></svg>"));
    }
}
