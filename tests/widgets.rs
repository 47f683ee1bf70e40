use conrod::color::{Color, Theme};
use conrod::geometry::Dimensions;
use conrod::rectangle::{Kind, LineStyle, Rectangle, State, Style};

fn dim() -> Dimensions {
    Dimensions { w: 30, h: 20 }
}

#[test]
fn rectangle_builders() {
    let red = Color { r: 255, g: 0, b: 0, a: 255 };
    assert_eq!(Rectangle::fill(dim()).style, Style::Fill(None));
    assert_eq!(Rectangle::fill_with(dim(), red).style, Style::Fill(Some(red)));
    assert_eq!(
        Rectangle::outline(dim()).style,
        Style::Outline(LineStyle { color: None, thickness: None })
    );
    let line = LineStyle { color: None, thickness: Some(2) };
    let r = Rectangle::outline_styled(dim(), line).color(red);
    assert_eq!(r.style, Style::Outline(LineStyle { color: Some(red), thickness: Some(2) }));
    assert_eq!(r.dim, dim());
    assert_eq!(Rectangle::fill(dim()).color(red).style(), Style::Fill(Some(red)));
}

#[test]
fn rectangle_update_follows_style_kind() {
    let r = Rectangle::outline(dim());
    let mut s = r.init_state();
    assert_eq!(s, State { kind: Kind::Fill });
    assert!(r.update(&mut s));
    assert_eq!(s.kind, Kind::Outline);
    assert!(!r.update(&mut s));
    assert!(Rectangle::fill(dim()).update(&mut s));
    assert_eq!(s.kind, Kind::Fill);
}

#[test]
fn plain_contrast_and_alpha() {
    let light = Color { r: 200, g: 200, b: 200, a: 9 };
    let dark = Color { r: 10, g: 20, b: 30, a: 255 };
    assert_eq!(light.plain_contrast(), Color { r: 0, g: 0, b: 0, a: 9 });
    assert_eq!(dark.plain_contrast(), Color { r: 255, g: 255, b: 255, a: 255 });
    assert_eq!(dark.alpha(128), Color { r: 10, g: 20, b: 30, a: 128 });
    assert_eq!(Color::transparent().a, 0);
    let _ = Theme { shape_color: dark, font_size_medium: 14 };
}
