use fractal::animation::{frames_in_plan, plan, viewport_at, Span, Tween, Viewport};
use fractal::input::{split_center, split_span, Field, PointFields};
use num::complex::Complex64;

fn fraction(tween: Tween) -> f64 {
    tween.index as f64 / tween.last as f64
}

fn blend(start: f64, end: f64, tween: Tween) -> f64 {
    start + fraction(tween) * (end - start)
}

fn blend_point(start: Complex64, end: Complex64, tween: Tween) -> Complex64 {
    start + fraction(tween) * (end - start)
}

fn number(text: &str, field: Field) -> f64 {
    text[field.start..field.end].parse::<f64>().unwrap()
}

fn point(text: &str, fields: PointFields) -> Complex64 {
    Complex64::new(number(text, fields.re), number(text, fields.im))
}

fn domain_of(text: &str) -> Span<f64> {
    match split_span(text.as_bytes()) {
        Span::Fixed(only) => Span::Fixed(number(text, only)),
        Span::Range { start, end } => {
            Span::Range { start: number(text, start), end: number(text, end) }
        }
    }
}

fn center_of(text: &str) -> Span<Complex64> {
    match split_center(text.as_bytes()).unwrap() {
        Span::Fixed(only) => Span::Fixed(point(text, only)),
        Span::Range { start, end } => {
            Span::Range { start: point(text, start), end: point(text, end) }
        }
    }
}

#[test]
fn a_domain_range_over_three_frames() {
    let domain = domain_of("1:2");
    let center = center_of("0,0:0,0");
    let frames = plan(&domain, &center, 3, blend, blend_point);
    let domains: Vec<f64> = frames.iter().map(|frame| frame.domain).collect();
    assert_eq!(domains, vec![1.0, 1.5, 2.0]);
    for frame in &frames {
        assert_eq!(frame.center, Complex64::new(0.0, 0.0));
    }
}

#[test]
fn the_fractions_of_three_frames() {
    let domain: Span<f64> = Span::Range { start: 0.0, end: 1.0 };
    let center: Span<f64> = Span::Fixed(0.0);
    let frames = plan(&domain, &center, 3, |_s: f64, _e: f64, tween: Tween| fraction(tween), blend);
    let fractions: Vec<f64> = frames.iter().map(|frame| frame.domain).collect();
    assert_eq!(fractions, vec![0.0, 0.5, 1.0]);
}

#[test]
fn a_plan_without_a_range_has_one_frame() {
    let domain = domain_of("3");
    let center = center_of("0,0");
    for frame_count in [0u32, 1, 100] {
        assert_eq!(frames_in_plan(&domain, &center, frame_count), 1);
        let frames = plan(&domain, &center, frame_count, blend, blend_point);
        assert_eq!(frames, vec![Viewport { domain: 3.0, center: Complex64::new(0.0, 0.0) }]);
    }
}

#[test]
fn a_range_of_either_setting_makes_an_animation() {
    let fixed: Span<u8> = Span::Fixed(1);
    let range: Span<u8> = Span::Range { start: 1, end: 2 };
    assert!(!fixed.is_range());
    assert!(range.is_range());
    assert_eq!(frames_in_plan(&fixed, &fixed, 100), 1);
    assert_eq!(frames_in_plan(&range, &fixed, 100), 100);
    assert_eq!(frames_in_plan(&fixed, &range, 100), 100);
    assert_eq!(frames_in_plan(&range, &range, 100), 100);
    assert_eq!(frames_in_plan(&range, &range, 0), 0);
}

#[test]
fn a_fixed_setting_holds_while_the_other_runs() {
    let domain: Span<f64> = Span::Fixed(3.0);
    let center: Span<Complex64> =
        Span::Range { start: Complex64::new(-1.0, 0.0), end: Complex64::new(1.0, 2.0) };
    let frames = plan(&domain, &center, 5, blend, blend_point);
    assert_eq!(frames.len(), 5);
    for frame in &frames {
        assert_eq!(frame.domain, 3.0);
    }
    assert_eq!(frames[0].center, Complex64::new(-1.0, 0.0));
    assert_eq!(frames[1].center, Complex64::new(-0.5, 0.5));
    assert_eq!(frames[2].center, Complex64::new(0.0, 1.0));
    assert_eq!(frames[3].center, Complex64::new(0.5, 1.5));
    assert_eq!(frames[4].center, Complex64::new(1.0, 2.0));
}

#[test]
fn each_frame_is_told_its_index_and_the_last_index() {
    let domain: Span<Tween> =
        Span::Range { start: Tween { index: 0, last: 0 }, end: Tween { index: 0, last: 0 } };
    let center: Span<u8> = Span::Fixed(0);
    let keep = |_start: Tween, _end: Tween, tween: Tween| tween;
    let frames = plan(&domain, &center, 4, keep, |start: u8, _end: u8, _tween: Tween| start);
    let tweens: Vec<Tween> = frames.iter().map(|frame| frame.domain).collect();
    assert_eq!(
        tweens,
        vec![
            Tween { index: 0, last: 3 },
            Tween { index: 1, last: 3 },
            Tween { index: 2, last: 3 },
            Tween { index: 3, last: 3 },
        ]
    );
}

#[test]
fn a_plan_can_be_read_frame_by_frame_in_any_order() {
    let domain: Span<f64> = Span::Range { start: 4.0, end: 2.0 };
    let center: Span<Complex64> = Span::Fixed(Complex64::new(0.25, 0.5));
    let all = plan(&domain, &center, 5, blend, blend_point);
    for index in [4u32, 0, 2, 2, 1, 3] {
        let frame = viewport_at(&domain, &center, 5, index, &blend, &blend_point);
        assert_eq!(frame, all[index as usize]);
    }
    assert_eq!(all[0].domain, 4.0);
    assert_eq!(all[1].domain, 3.5);
    assert_eq!(all[4].domain, 2.0);
}

#[test]
fn an_animation_of_no_frames_is_empty() {
    let domain: Span<f64> = Span::Range { start: 1.0, end: 2.0 };
    let center: Span<Complex64> = Span::Fixed(Complex64::new(0.0, 0.0));
    assert!(plan(&domain, &center, 0, blend, blend_point).is_empty());
}

#[test]
fn an_animation_of_one_frame_has_no_defined_fraction() {
    let domain: Span<f64> = Span::Range { start: 1.0, end: 2.0 };
    let center: Span<Complex64> = Span::Fixed(Complex64::new(0.0, 0.0));
    let frames = plan(&domain, &center, 1, blend, blend_point);
    assert_eq!(frames.len(), 1);
    assert!(frames[0].domain.is_nan());
    assert_eq!(frames[0].center, Complex64::new(0.0, 0.0));
}

#[test]
fn a_span_holds_its_value_or_blends_its_ends() {
    let fixed: Span<f64> = Span::Fixed(3.0);
    let range: Span<f64> = Span::Range { start: 1.0, end: 3.0 };
    let half = Tween { index: 1, last: 2 };
    assert_eq!(fixed.at(half, &blend), 3.0);
    assert_eq!(range.at(half, &blend), 2.0);
    assert_eq!(range.at(Tween { index: 0, last: 2 }, &blend), 1.0);
    assert_eq!(range.at(Tween { index: 2, last: 2 }, &blend), 3.0);
}
