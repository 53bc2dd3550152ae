use always_on_top::fit::{
    clamp_to_screen, fit_size, locked_height, AspectRatio, FitSize, Fraction, MIN_DIMENSION,
};

fn whole(n: u128) -> Fraction {
    Fraction { num: n, den: 1 }
}

#[test]
fn locked_height_divides_width_by_ratio() {
    assert_eq!(locked_height(300, AspectRatio { width: 2, height: 1 }), Some(150));
    assert_eq!(locked_height(300, AspectRatio { width: 1, height: 2 }), Some(600));
    assert_eq!(locked_height(1920, AspectRatio { width: 16, height: 9 }), Some(1080));
}

#[test]
fn locked_height_rounds_to_nearest() {
    // 100 / (3 / 1) = 33.33
    assert_eq!(locked_height(100, AspectRatio { width: 3, height: 1 }), Some(33));
    // 200 / 3 = 66.67
    assert_eq!(locked_height(200, AspectRatio { width: 3, height: 1 }), Some(67));
    // 3 / 2 = 1.5, a half goes up
    assert_eq!(locked_height(3, AspectRatio { width: 2, height: 1 }), Some(2));
    // 5 / 2 = 2.5
    assert_eq!(locked_height(5, AspectRatio { width: 2, height: 1 }), Some(3));
}

#[test]
fn locked_height_is_at_least_one() {
    assert_eq!(locked_height(0, AspectRatio { width: 2, height: 1 }), Some(1));
    assert_eq!(locked_height(1, AspectRatio { width: 1000, height: 1 }), Some(1));
}

#[test]
fn locked_height_needs_a_positive_ratio() {
    assert_eq!(locked_height(300, AspectRatio { width: 0, height: 1 }), None);
    assert_eq!(locked_height(300, AspectRatio { width: 2, height: 0 }), None);
}

#[test]
fn locked_height_of_extreme_values() {
    let h = locked_height(u32::MAX, AspectRatio { width: 1, height: u32::MAX });
    assert_eq!(h, Some((u32::MAX as u64) * (u32::MAX as u64)));
}

#[test]
fn fit_wide_image_in_wide_window_keeps_width() {
    // window 800 x 600, image 2 : 1
    let f = fit_size(800, 600, 1000, 500, MIN_DIMENSION).unwrap();
    assert_eq!(f.width, whole(800));
    assert_eq!(f.height, Fraction { num: 800 * 500, den: 1000 });
}

#[test]
fn fit_tall_image_in_wide_window_keeps_height() {
    // window 800 x 600, image 1 : 2: the height from the width would be 1600
    let f = fit_size(800, 600, 500, 1000, MIN_DIMENSION).unwrap();
    assert_eq!(f.width, Fraction { num: 600 * 500, den: 1000 });
    assert_eq!(f.height, whole(600));
}

#[test]
fn fit_in_tall_window_anchors_on_height() {
    // window 600 x 800, image 1 : 2
    let f = fit_size(600, 800, 500, 1000, MIN_DIMENSION).unwrap();
    assert_eq!(f.width, Fraction { num: 800 * 500, den: 1000 });
    assert_eq!(f.height, whole(800));
    // window 600 x 800, image 2 : 1: the width from the height would be 1600
    let g = fit_size(600, 800, 1000, 500, MIN_DIMENSION).unwrap();
    assert_eq!(g.width, whole(600));
    assert_eq!(g.height, Fraction { num: 600 * 500, den: 1000 });
}

#[test]
fn fit_of_square_window_favours_width() {
    let f = fit_size(400, 400, 100, 100, MIN_DIMENSION).unwrap();
    assert_eq!(f, FitSize { width: whole(400), height: Fraction { num: 40000, den: 100 } });
}

#[test]
fn fit_raises_small_dimensions_to_the_floor() {
    let f = fit_size(10, 10, 1, 1, MIN_DIMENSION).unwrap();
    assert_eq!(f, FitSize { width: whole(50), height: whole(50) });
    // window 400 x 300, image 100 : 1: the height would be 4
    let g = fit_size(400, 300, 100, 1, MIN_DIMENSION).unwrap();
    assert_eq!(g.width, whole(400));
    assert_eq!(g.height, whole(50));
    assert_eq!(MIN_DIMENSION, 50);
}

#[test]
fn fit_keeps_a_dimension_that_equals_the_floor() {
    // window 100 x 80, image 2 : 1: the height is exactly 50
    let f = fit_size(100, 80, 2, 1, MIN_DIMENSION).unwrap();
    assert_eq!(f.width, whole(100));
    assert_eq!(f.height, Fraction { num: 100, den: 2 });
}

#[test]
fn fit_without_positive_image_size_is_none() {
    assert_eq!(fit_size(800, 600, 0, 500, MIN_DIMENSION), None);
    assert_eq!(fit_size(800, 600, 500, 0, MIN_DIMENSION), None);
    assert_eq!(fit_size(800, 600, 0, 0, MIN_DIMENSION), None);
}

#[test]
fn fit_preserves_the_ratio_and_stays_in_the_window() {
    let cases: [(u32, u32, u32, u32); 5] =
        [(800, 600, 1000, 500), (800, 600, 3, 7), (1, 900, 16, 9), (1234, 1234, 4, 3), (7, 5, 5, 7)];
    for (cw, ch, iw, ih) in cases {
        let f = fit_size(cw, ch, iw, ih, 0).unwrap();
        let (wn, wd) = (f.width.num, f.width.den);
        let (hn, hd) = (f.height.num, f.height.den);
        assert_eq!(wn * hd * ih as u128, hn * wd * iw as u128);
        assert!(wn <= cw as u128 * wd);
        assert!(hn <= ch as u128 * hd);
        assert!(f.width == whole(cw as u128) || f.height == whole(ch as u128));
    }
}

#[test]
fn fit_of_extreme_values_does_not_overflow() {
    let f = fit_size(u32::MAX, u32::MAX, u32::MAX, 1, u32::MAX).unwrap();
    assert_eq!(f.width, whole(u32::MAX as u128));
    assert_eq!(f.height, whole(u32::MAX as u128));
}

#[test]
fn small_image_is_not_clamped() {
    let f = clamp_to_screen(900, 450, Some((1000, 500))).unwrap();
    assert_eq!(f, FitSize { width: whole(900), height: whole(450) });
    let g = clamp_to_screen(100, 100, Some((1920, 1080))).unwrap();
    assert_eq!(g, FitSize { width: whole(100), height: whole(100) });
}

#[test]
fn wide_image_is_clamped_by_the_screen_width() {
    // 0.9 * 1000 = 900 wide, and 900 / 2000 * 500 = 225 high
    let f = clamp_to_screen(2000, 500, Some((1000, 1000))).unwrap();
    assert_eq!(f.width, Fraction { num: 9000, den: 10 });
    assert_eq!(f.height, Fraction { num: 9 * 1000 * 500, den: 10 * 2000 });
}

#[test]
fn tall_image_is_clamped_by_the_screen_height() {
    // 0.9 * 1000 = 900 high, and 900 / 3000 * 600 = 180 wide
    let f = clamp_to_screen(600, 3000, Some((1000, 1000))).unwrap();
    assert_eq!(f.width, Fraction { num: 9 * 1000 * 600, den: 10 * 3000 });
    assert_eq!(f.height, Fraction { num: 9000, den: 10 });
}

#[test]
fn clamping_without_a_screen_keeps_the_size() {
    let f = clamp_to_screen(5000, 4000, None).unwrap();
    assert_eq!(f, FitSize { width: whole(5000), height: whole(4000) });
}

#[test]
fn clamping_needs_a_positive_size() {
    assert_eq!(clamp_to_screen(0, 10, Some((100, 100))), None);
    assert_eq!(clamp_to_screen(10, 0, Some((100, 100))), None);
    assert_eq!(clamp_to_screen(0, 0, None), None);
}

#[test]
fn clamping_extreme_values_does_not_overflow() {
    let f = clamp_to_screen(u32::MAX, u32::MAX, Some((u32::MAX, u32::MAX - 1))).unwrap();
    let m = u32::MAX as u128;
    assert_eq!(f.width, Fraction { num: 9 * (m - 1) * m, den: 10 * m });
    assert_eq!(f.height, Fraction { num: 9 * (m - 1), den: 10 });
}
