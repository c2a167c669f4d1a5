use vectortracer::image::foreground;
use vectortracer::{
    path_simplify_mode, BinaryImageConverterParams, Color, ConversionState, PathSimplifyMode,
    UnknownMode,
};

#[test]
fn mode_names_are_read() {
    assert_eq!(path_simplify_mode("polygon"), Ok(PathSimplifyMode::Polygon));
    assert_eq!(path_simplify_mode("spline"), Ok(PathSimplifyMode::Spline));
    assert_eq!(path_simplify_mode("none"), Ok(PathSimplifyMode::Pixel));
}

#[test]
fn other_mode_names_are_refused() {
    assert_eq!(path_simplify_mode(""), Err(UnknownMode));
    assert_eq!(path_simplify_mode("pixel"), Err(UnknownMode));
    assert_eq!(path_simplify_mode("Spline"), Err(UnknownMode));
    assert_eq!(path_simplify_mode("spline "), Err(UnknownMode));
    assert_eq!(path_simplify_mode(" none"), Err(UnknownMode));
    assert_eq!(path_simplify_mode("polygons"), Err(UnknownMode));
    assert_eq!(path_simplify_mode("splin"), Err(UnknownMode));
    assert_eq!(path_simplify_mode("splin\u{e9}"), Err(UnknownMode));
}

#[test]
fn dark_red_is_foreground() {
    assert!(foreground(0, false));
    assert!(foreground(127, false));
    assert!(!foreground(128, false));
    assert!(!foreground(129, false));
    assert!(!foreground(255, false));
}

#[test]
fn inverted_light_red_is_foreground() {
    assert!(!foreground(0, true));
    assert!(!foreground(127, true));
    assert!(!foreground(128, true));
    assert!(foreground(129, true));
    assert!(foreground(255, true));
}

#[test]
fn black_is_black() {
    assert_eq!(Color::black(), Color { r: 0, g: 0, b: 0, a: 255 });
    assert_eq!(Color::black().to_hex_string(), "#000000");
}

#[test]
fn hex_has_two_upper_case_digits_per_channel() {
    assert_eq!(Color { r: 255, g: 10, b: 171, a: 0 }.to_hex_string(), "#FF0AAB");
    assert_eq!(Color { r: 1, g: 35, b: 69, a: 255 }.to_hex_string(), "#012345");
    assert_eq!(Color { r: 103, g: 137, b: 205, a: 7 }.to_hex_string(), "#6789CD");
    assert_eq!(Color { r: 239, g: 16, b: 9, a: 7 }.to_hex_string(), "#EF1009");
}

#[test]
fn state_counts_up_to_the_total() {
    let mut state = ConversionState::new(3);
    assert_eq!((state.counter(), state.total(), state.done()), (0, 3, false));
    assert!(!state.advance());
    assert_eq!((state.counter(), state.done()), (1, false));
    assert!(!state.advance());
    assert_eq!((state.counter(), state.done()), (2, false));
    assert!(state.advance());
    assert_eq!((state.counter(), state.total(), state.done()), (3, 3, true));
}

#[test]
fn state_stays_when_done() {
    let mut state = ConversionState::new(1);
    assert!(state.advance());
    for _ in 0..4 {
        assert!(state.advance());
        assert_eq!((state.counter(), state.total(), state.done()), (1, 1, true));
        assert_eq!(state.progress(), 100);
    }
}

#[test]
fn state_without_clusters_is_done() {
    let mut state = ConversionState::new(0);
    assert!(state.done());
    assert_eq!(state.progress(), 100);
    assert!(state.advance());
    assert_eq!((state.counter(), state.total()), (0, 0));
}

#[test]
fn state_progress_is_rounded_down() {
    let mut state = ConversionState::new(3);
    assert_eq!(state.progress(), 0);
    state.advance();
    assert_eq!(state.progress(), 33);
    state.advance();
    assert_eq!(state.progress(), 66);
    state.advance();
    assert_eq!(state.progress(), 100);
    let mut state = ConversionState::new(200);
    state.advance();
    assert_eq!(state.progress(), 0);
    state.advance();
    assert_eq!(state.progress(), 1);
    for _ in 0..197 {
        state.advance();
    }
    assert_eq!(state.progress(), 99);
    state.advance();
    assert_eq!(state.progress(), 100);
}

#[test]
fn state_progress_of_a_huge_total() {
    let mut state = ConversionState::new(usize::MAX);
    assert_eq!(state.progress(), 0);
    state.advance();
    assert_eq!(state.progress(), 0);
    assert!(!state.done());
}

#[test]
fn cluster_below_the_threshold_is_a_speckle() {
    let params = BinaryImageConverterParams { mode: "spline".to_string(), filterSpeckle: 4 };
    assert!(!params.retains(0));
    assert!(!params.retains(3));
    assert!(params.retains(4));
    assert!(params.retains(5));
    assert!(params.retains(usize::MAX));
}

#[test]
fn threshold_of_zero_keeps_every_cluster() {
    let params = BinaryImageConverterParams { mode: "none".to_string(), filterSpeckle: 0 };
    assert!(params.retains(0));
    assert!(params.retains(1));
    let params = BinaryImageConverterParams { mode: "none".to_string(), filterSpeckle: usize::MAX };
    assert!(!params.retains(usize::MAX - 1));
    assert!(params.retains(usize::MAX));
}
