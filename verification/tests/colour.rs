use rl_visibility::colour::Rgb24;
use rl_visibility::render::LightBlend;

fn outside(colour: Rgb24) -> gridbugs::rgb_int::Rgb24 {
    gridbugs::rgb_int::Rgb24::new(colour.r, colour.g, colour.b)
}

fn inside(colour: gridbugs::rgb_int::Rgb24) -> Rgb24 {
    Rgb24::new(colour.r, colour.g, colour.b)
}

fn samples() -> Vec<Rgb24> {
    let steps = [0u8, 1, 2, 9, 10, 63, 127, 128, 200, 254, 255];
    let mut all = Vec::new();
    for (i, r) in steps.iter().enumerate() {
        let g = steps[(i * 3 + 1) % steps.len()];
        let b = steps[(i * 7 + 5) % steps.len()];
        all.push(Rgb24::new(*r, g, b));
    }
    all
}

#[test]
fn saturating_add_stops_at_full() {
    let a = Rgb24::new(255, 0, 200);
    let b = Rgb24::new(0, 255, 200);
    assert_eq!(a.saturating_add(b), Rgb24::new(255, 255, 255));
    assert_eq!(Rgb24::new(1, 2, 3).saturating_add(Rgb24::new(4, 5, 6)), Rgb24::new(5, 7, 9));
}

#[test]
fn scalar_mul_div_rounds_down_and_stops_at_full() {
    assert_eq!(Rgb24::new(1, 2, 3).saturating_scalar_mul_div(1500, 1000), Rgb24::new(1, 3, 4));
    assert_eq!(Rgb24::new(1, 2, 3).saturating_scalar_mul_div(1500, 1), Rgb24::new(255, 255, 255));
    assert_eq!(
        Rgb24::new(255, 255, 255).saturating_scalar_mul_div(u32::MAX, u32::MAX),
        Rgb24::new(255, 255, 255)
    );
}

#[test]
fn normalised_mul_reads_channels_as_fractions() {
    assert_eq!(
        Rgb24::new(255, 255, 255).normalised_mul(Rgb24::new(1, 2, 3)),
        Rgb24::new(1, 2, 3)
    );
    assert_eq!(
        Rgb24::new(255, 127, 0).normalised_mul(Rgb24::new(10, 20, 30)),
        Rgb24::new(10, 9, 0)
    );
}

#[test]
fn normalised_scalar_mul_scales_every_channel() {
    assert_eq!(Rgb24::new(255, 128, 0).normalised_scalar_mul(128), Rgb24::new(128, 64, 0));
    assert_eq!(Rgb24::new(204, 204, 204).normalised_scalar_mul(128), Rgb24::new(102, 102, 102));
}

#[test]
fn grey_has_three_equal_channels() {
    assert_eq!(Rgb24::new_grey(37), Rgb24::new(37, 37, 37));
}

#[test]
fn colour_arithmetic_agrees_with_rgb_int() {
    for a in samples() {
        for b in samples() {
            assert_eq!(a.saturating_add(b), inside(outside(a).saturating_add(outside(b))));
            assert_eq!(a.normalised_mul(b), inside(outside(a).normalised_mul(outside(b))));
            assert_eq!(
                a.normalised_scalar_mul(b.g),
                inside(outside(a).normalised_scalar_mul(b.g))
            );
            let numerator = b.r as u32 * 1000 + 1;
            let denominator = b.b as u32 * 7 + 1;
            assert_eq!(
                a.saturating_scalar_mul_div(numerator, denominator),
                inside(outside(a).saturating_scalar_mul_div(numerator, denominator))
            );
        }
    }
}

#[test]
fn tint_multiplies_by_the_light_and_adds_a_tenth_of_it() {
    let blend = LightBlend { light_colour: Rgb24::new(255, 127, 0) };
    assert_eq!(blend.tint(Rgb24::new(10, 20, 30)), Rgb24::new(35, 21, 0));
    let white = LightBlend { light_colour: Rgb24::new(255, 255, 255) };
    assert_eq!(white.tint(Rgb24::new(250, 0, 100)), Rgb24::new(255, 25, 125));
}

#[test]
fn tint_agrees_with_rgb_int() {
    for light in samples() {
        for base in samples() {
            let expected = outside(base)
                .normalised_mul(outside(light))
                .saturating_add(outside(light).saturating_scalar_mul_div(1, 10));
            assert_eq!(LightBlend { light_colour: light }.tint(base), inside(expected));
        }
    }
}
