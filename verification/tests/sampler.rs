use ion::anim::{
    AnimParam, Basis, Cont, Interpolation, Key, Lerp, Sampler, Tangent, Time, Weight,
};

/// Seconds to ticks: ten thousand ticks to the second.
fn secs(s: f64) -> Time {
    (s * 10_000.).round() as Time
}

/// A scalar value.
#[derive(Copy, Clone, Debug, PartialEq)]
struct Scalar(f32);

/// The number that a weight describes.
fn coefficient(w: Weight) -> f32 {
    let x = (w.at.num as f64 / w.at.den as f64) as f32;
    match w.basis {
        Basis::Identity => x,
        Basis::Cosine => (1. - f32::cos(x * std::f32::consts::PI)) * 0.5,
        Basis::Bernstein(0) => (1. - x) * (1. - x) * (1. - x),
        Basis::Bernstein(1) => 3. * (1. - x) * (1. - x) * x,
        Basis::Bernstein(2) => 3. * (1. - x) * x * x,
        Basis::Bernstein(3) => x * x * x,
        Basis::CatmullRom(0) => (-x * x * x + 2. * x * x - x) * 0.5,
        Basis::CatmullRom(1) => (3. * x * x * x - 5. * x * x + 2.) * 0.5,
        Basis::CatmullRom(2) => (-3. * x * x * x + 4. * x * x + x) * 0.5,
        Basis::CatmullRom(3) => (x * x * x - x * x) * 0.5,
        _ => unreachable!(),
    }
}

impl Lerp for Scalar {
    fn lerp_spec(a: Self, b: Self, w: Weight) -> Self {
        Self::lerp(a, b, w)
    }

    fn sum_spec(a: Self, b: Self) -> Self {
        Self::sum(a, b)
    }

    fn scaled_spec(a: Self, w: Weight) -> Self {
        Self::scaled(a, w)
    }

    fn lerp(a: Self, b: Self, w: Weight) -> Self {
        let t = coefficient(w);
        Scalar(a.0 * (1. - t) + b.0 * t)
    }

    fn sum(a: Self, b: Self) -> Self {
        Scalar(a.0 + b.0)
    }

    fn scaled(a: Self, w: Weight) -> Self {
        Scalar(a.0 * coefficient(w))
    }
}

fn hold_curve() -> AnimParam<Scalar> {
    AnimParam::new(vec![
        Key::new(secs(0.), Scalar(10.), Interpolation::Hold),
        Key::new(secs(24.), Scalar(100.), Interpolation::Hold),
        Key::new(secs(45.), Scalar(-3.34), Interpolation::Hold),
    ])
}

#[test]
fn test_sampler_hold() {
    let mut sampler = Sampler::new();
    let p = AnimParam::new(vec![
        Key::new(secs(0.), Scalar(10.), Interpolation::Hold),
        Key::new(secs(24.), Scalar(100.), Interpolation::Hold),
        Key::new(secs(45.), Scalar(-3.34), Interpolation::Hold),
    ]);

    assert_eq!(sampler.sample(secs(0.), &p, true), Some(Scalar(10.)));
    assert_eq!(sampler.sample(secs(2.), &p, true), Some(Scalar(10.)));
    assert_eq!(sampler.sample(secs(23.), &p, true), Some(Scalar(10.)));
    assert_eq!(sampler.sample(secs(44.), &p, true), Some(Scalar(100.)));
    assert_eq!(sampler.sample(secs(44.), &p, false), Some(Scalar(100.)));
    assert_eq!(sampler.sample(secs(45.), &p, true), None);
    assert_eq!(sampler.sample(secs(45347.), &p, false), None);
    assert_eq!(sampler.sample(secs(45347.), &p, true), None);
}

#[test]
fn test_sampler_linear() {
    let mut sampler = Sampler::new();
    let p = AnimParam::new(vec![
        Key::new(secs(0.), Scalar(10.), Interpolation::Linear),
        Key::new(secs(10.), Scalar(20.), Interpolation::Linear),
    ]);

    assert_eq!(sampler.sample(secs(0.), &p, true), Some(Scalar(10.)));
    assert_eq!(sampler.sample(secs(10.), &p, true), None);
    assert_eq!(sampler.sample(secs(5.), &p, true), Some(Scalar(15.)));
}

#[test]
fn test_sampler_hold_boundaries() {
    let mut sampler = Sampler::new();
    let p = hold_curve();

    for &random in &[true, false] {
        assert_eq!(sampler.sample(secs(0.), &p, random), Some(Scalar(10.)));
        assert_eq!(sampler.sample(secs(23.), &p, random), Some(Scalar(10.)));
        assert_eq!(sampler.sample(secs(24.), &p, random), Some(Scalar(100.)));
        assert_eq!(sampler.sample(secs(44.), &p, random), Some(Scalar(100.)));
        assert_eq!(sampler.sample(secs(45.), &p, random), None);
        assert_eq!(sampler.sample(secs(938445.), &p, random), None);
        assert_eq!(sampler.sample(secs(-1.), &p, random), None);
    }
}

#[test]
fn test_sampler_too_few_keys() {
    let mut sampler = Sampler::new();
    let none: AnimParam<Scalar> = AnimParam::new(Vec::new());
    let one = AnimParam::new(vec![Key::new(secs(1.), Scalar(5.), Interpolation::Linear)]);

    for &random in &[true, false] {
        for &t in &[secs(-3.), secs(0.), secs(1.), secs(2.), Time::MAX] {
            assert_eq!(sampler.sample(t, &none, random), None);
            assert_eq!(sampler.sample(t, &one, random), None);
        }
    }
}

#[test]
fn test_sampler_linear_continuous() {
    let mut sampler = Sampler::new();
    let p = AnimParam::new(vec![
        Key::new(0, Scalar(0.), Interpolation::Linear),
        Key::new(8, Scalar(16.), Interpolation::Linear),
        Key::new(12, Scalar(0.), Interpolation::Hold),
        Key::new(20, Scalar(1.), Interpolation::Hold),
    ]);

    assert_eq!(sampler.sample(0, &p, false), Some(Scalar(0.)));
    assert_eq!(sampler.sample(2, &p, false), Some(Scalar(4.)));
    assert_eq!(sampler.sample(4, &p, false), Some(Scalar(8.)));
    assert_eq!(sampler.sample(8, &p, false), Some(Scalar(16.)));
    assert_eq!(sampler.sample(9, &p, false), Some(Scalar(12.)));
    assert_eq!(sampler.sample(10, &p, false), Some(Scalar(8.)));
    assert_eq!(sampler.sample(12, &p, false), Some(Scalar(0.)));
    assert_eq!(sampler.sample(19, &p, false), Some(Scalar(0.)));
    assert_eq!(sampler.sample(20, &p, false), None);
    // the cursor stayed where the last segment was found: going back works
    assert_eq!(sampler.sample(6, &p, false), Some(Scalar(12.)));
    assert_eq!(sampler.sample(-1, &p, false), None);
    assert_eq!(sampler.sample(19, &p, false), Some(Scalar(0.)));
}

#[test]
fn test_sampler_continuous_matches_random() {
    let p = AnimParam::new(vec![
        Key::new(-40, Scalar(1.), Interpolation::Linear),
        Key::new(-10, Scalar(3.), Interpolation::Hold),
        Key::new(-10, Scalar(7.), Interpolation::Cosine),
        Key::new(25, Scalar(-2.), Interpolation::Linear),
        Key::new(26, Scalar(0.), Interpolation::CatmullRom),
        Key::new(90, Scalar(9.), Interpolation::Hold),
    ]);
    let mut continuous = Sampler::new();

    for t in -60..120 {
        let mut random = Sampler::new();
        let expected = random.sample(t, &p, true);
        assert_eq!(continuous.sample(t, &p, false), expected);
        assert_eq!(expected.is_some(), -40 <= t && t < 90);
    }
}

#[test]
fn test_sampler_jump_at_shared_time() {
    let mut sampler = Sampler::new();
    let p = AnimParam::new(vec![
        Key::new(secs(0.), Scalar(1.), Interpolation::Linear),
        Key::new(secs(9.), Scalar(2.), Interpolation::Hold),
        Key::new(secs(9.), Scalar(30.), Interpolation::Linear),
        Key::new(secs(12.), Scalar(40.), Interpolation::Hold),
    ]);

    for &random in &[true, false] {
        assert_eq!(sampler.sample(secs(4.5), &p, random), Some(Scalar(1.5)));
        assert_eq!(sampler.sample(secs(9.), &p, random), Some(Scalar(30.)));
        assert_eq!(sampler.sample(secs(10.5), &p, random), Some(Scalar(35.)));
    }
}

#[test]
fn test_sampler_on_a_shorter_curve() {
    let mut sampler = Sampler::new();
    let long = AnimParam::new(
        (0..10).map(|k| Key::new(k as Time, Scalar(k as f32), Interpolation::Hold)).collect(),
    );
    let short = AnimParam::new(vec![
        Key::new(0, Scalar(-1.), Interpolation::Hold),
        Key::new(100, Scalar(-2.), Interpolation::Hold),
    ]);

    assert_eq!(sampler.sample(8, &long, false), Some(Scalar(8.)));
    assert_eq!(sampler.sample(8, &short, false), Some(Scalar(-1.)));
    assert_eq!(sampler.sample(8, &long, false), Some(Scalar(8.)));
}

#[test]
fn test_sampler_cosine() {
    let mut sampler = Sampler::new();
    let p = AnimParam::new(vec![
        Key::new(secs(0.), Scalar(10.), Interpolation::Cosine),
        Key::new(secs(10.), Scalar(20.), Interpolation::Cosine),
    ]);

    assert_eq!(sampler.sample(secs(0.), &p, true), Some(Scalar(10.)));
    let Scalar(middle) = sampler.sample(secs(5.), &p, true).unwrap();
    assert!((middle - 15.).abs() < 1e-4);
    let Scalar(early) = sampler.sample(secs(2.5), &p, true).unwrap();
    let expected = 10. + 10. * (1. - f32::cos(std::f32::consts::PI * 0.25)) * 0.5;
    assert!((early - expected).abs() < 1e-4);
    assert!(early < 12.5);
    assert_eq!(sampler.sample(secs(10.), &p, true), None);
}

#[test]
fn test_sampler_bezier() {
    let mut sampler = Sampler::new();
    let p = AnimParam::new(vec![
        Key::new(
            0,
            Scalar(0.),
            Interpolation::Bezier(Tangent::new(1, Scalar(8.)), Tangent::new(-1, Scalar(-64.))),
        ),
        Key::new(
            4,
            Scalar(8.),
            Interpolation::Bezier(Tangent::new(5, Scalar(32.)), Tangent::new(3, Scalar(16.))),
        ),
        Key::new(8, Scalar(24.), Interpolation::Hold),
    ]);

    // control points 0, 8, 16, 8 with weights 1/8, 3/8, 3/8, 1/8
    assert_eq!(sampler.sample(2, &p, true), Some(Scalar(10.)));
    assert_eq!(sampler.sample(0, &p, true), Some(Scalar(0.)));
    // weights 27/64, 27/64, 9/64, 1/64
    assert_eq!(sampler.sample(1, &p, true), Some(Scalar(5.75)));
    // the next key is no Bezier key: control points 8, 32, 24, 24
    assert_eq!(sampler.sample(6, &p, true), Some(Scalar(25.)));
    assert_eq!(sampler.sample(4, &p, false), Some(Scalar(8.)));
}

#[test]
fn test_sampler_catmull_rom() {
    let mut sampler = Sampler::new();
    let p = AnimParam::new(vec![
        Key::new(0, Scalar(0.), Interpolation::CatmullRom),
        Key::new(4, Scalar(16.), Interpolation::CatmullRom),
        Key::new(8, Scalar(48.), Interpolation::CatmullRom),
        Key::new(12, Scalar(16.), Interpolation::Hold),
    ]);

    // points 0, 16, 48, 16 with weights -1/16, 9/16, 9/16, -1/16
    assert_eq!(sampler.sample(6, &p, true), Some(Scalar(35.)));
    // the curve starts here: points 0, 0, 16, 48
    assert_eq!(sampler.sample(2, &p, true), Some(Scalar(6.)));
    // the curve ends here: points 16, 48, 16, 16
    assert_eq!(sampler.sample(10, &p, true), Some(Scalar(34.)));
    // at a key's time the spline passes through the key
    assert_eq!(sampler.sample(4, &p, false), Some(Scalar(16.)));
    assert_eq!(sampler.sample(8, &p, false), Some(Scalar(48.)));
    assert_eq!(sampler.sample(12, &p, false), None);
}

#[test]
fn test_evaluate_segment() {
    let cps = vec![
        Key::new(0, Scalar(0.), Interpolation::Linear),
        Key::new(8, Scalar(16.), Interpolation::Hold),
        Key::new(12, Scalar(0.), Interpolation::Hold),
    ];

    assert_eq!(Sampler::evaluate(&cps, 0, 0), Scalar(0.));
    assert_eq!(Sampler::evaluate(&cps, 0, 6), Scalar(12.));
    assert_eq!(Sampler::evaluate(&cps, 1, 8), Scalar(16.));
    assert_eq!(Sampler::evaluate(&cps, 1, 11), Scalar(16.));
}

#[test]
fn test_cont_at() {
    let mut signal = Cont::new(
        AnimParam::new(vec![
            Key::new(secs(0.), Scalar(10.), Interpolation::Linear),
            Key::new(secs(10.), Scalar(20.), Interpolation::Hold),
            Key::new(secs(20.), Scalar(0.), Interpolation::Hold),
        ]),
        Scalar(-1.),
    );

    assert_eq!(signal.at(secs(-0.5)), Scalar(-1.));
    assert_eq!(signal.at(secs(0.)), Scalar(10.));
    assert_eq!(signal.at(secs(5.)), Scalar(15.));
    assert_eq!(signal.at(secs(10.)), Scalar(20.));
    assert_eq!(signal.at(secs(19.9)), Scalar(20.));
    assert_eq!(signal.at(secs(20.)), Scalar(-1.));
    assert_eq!(signal.at(secs(2.5)), Scalar(12.5));
}

#[test]
fn test_cont_without_keys() {
    let mut signal: Cont<Scalar> = Cont::new(AnimParam::new(Vec::new()), Scalar(7.));

    assert_eq!(signal.at(0), Scalar(7.));
    assert_eq!(signal.at(secs(3.)), Scalar(7.));
}
