use cgl::{Color, Image};

#[test]
fn default_black() {
    assert_eq!(Color::default(), Color::rgb(0, 0, 0));
}

#[test]
fn set_colors() {
    let mut im: Image<Color> = Image::<Color>::with_dimensions(4, 4);
    im.set(0, 0, Color::white());
    assert_eq!(im.get(0, 0), Color::white());
}

#[test]
fn draw_line() {
    let mut im: Image<Color> = Image::<Color>::with_dimensions(4, 4);
    im.line(0, 0, 3, 0, Color::white());
    for x in 0..4 {
        assert_eq!(im.get(x, 0), Color::white());
        assert_eq!(im.get(x, 1), Color::black());
    }

    let mut im: Image<Color> = Image::<Color>::with_dimensions(4, 4);
    im.line(0, 0, 3, 3, Color::blue());
    for i in 0..4 {
        assert_eq!(im.get(i, i), Color::blue());
    }
    assert_eq!(im.get(3, 0), Color::black());
    assert_eq!(im.get(0, 3), Color::black());

    let mut im: Image<Color> = Image::<Color>::with_dimensions(4, 4);
    im.line(0, 0, 0, 3, Color::red());
    for y in 0..4 {
        assert_eq!(im.get(0, y), Color::red());
        assert_eq!(im.get(1, y), Color::black());
    }
}

#[test]
fn fx_rgb_clamps_and_rounds() {
    let c = Color::fx_rgb(-5, 65536, 32768);
    assert_eq!(c.r, 0);
    assert_eq!(c.g, 255);
    assert_eq!(c.b, 128);
    let d = Color::fx_rgb(70000, 0, 65536 / 255);
    assert_eq!(d.r, 255);
    assert_eq!(d.g, 0);
    assert_eq!(d.b, 1);
}

#[test]
fn color_mul_is_fixed_point() {
    let c = Color::rgb(255, 128, 0).mul(Color::rgb(255, 128, 255));
    assert_eq!(c.r, 254);
    assert_eq!(c.g, 64);
    assert_eq!(c.b, 0);
    let s = Color::rgb(250, 1, 0).add(Color::rgb(10, 1, 0));
    assert_eq!(s.r, 255);
    assert_eq!(s.g, 2);
}

#[test]
fn sample_clamp_blends_and_clamps() {
    let fx = 65536i64;
    let im: Image<Color> =
        Image::with_pixels(2, 1, &[Color::black(), Color::white()]);
    // the corners sample the corner texels, out-of-range points clamp
    assert_eq!(im.sample_clamp(0, 0), Color::black());
    assert_eq!(im.sample_clamp(-fx, fx / 2), Color::black());
    assert_eq!(im.sample_clamp(fx, 0), Color::white());
    assert_eq!(im.sample_clamp(2 * fx, 0), Color::white());
    // the midpoint blends the two texels
    let mid = im.sample_clamp(fx / 2, 0);
    assert_eq!(mid, Color::rgb(127, 127, 127));
}
