use mandelbrot::{Iteration, Palette, Rgb};

#[test]
fn from_rgba_unpacks_channels() {
    assert_eq!(Rgb::from_rgba(0x11223344), Rgb::new(0x11, 0x22, 0x33));
    assert_eq!(Rgb::from_rgba(4294967040), Rgb::new(255, 255, 255));
    assert_eq!(Rgb::from_rgba(0xAB_0000_0000_00FF), Rgb::new(0, 0, 0));
}

#[test]
fn defaults() {
    assert_eq!(Rgb::default(), Rgb::new(0, 0, 0));
    assert_eq!(Palette::default(), Palette::Original);
    assert_eq!(Iteration::default(), Iteration::Infinite);
}

#[test]
fn iteration_into_option() {
    assert_eq!(Option::<u32>::from(Iteration::Finite(4)), Some(4));
    assert_eq!(Option::<u32>::from(Iteration::Infinite), None);
}

#[test]
fn original_palette_values() {
    assert_eq!(Palette::Original.get_color(0), Rgb::new(0, 0, 127));
    assert_eq!(Palette::Original.get_color(10), Rgb::new(80, 80, 87));
    assert_eq!(Palette::Original.get_color(100), Rgb::new(255, 245, 5));
    assert_eq!(Palette::Original.get_color(255), Rgb::new(0, 3, 127));
}

#[test]
fn gold_palette_wraps_like_byte_arithmetic() {
    assert_eq!(Palette::Gold.get_color(40), Rgb::new(231, 118, 11));
    assert_eq!(Palette::Gold.get_color(200), Rgb::new(255, 248, 161));
}

#[test]
fn table_palettes() {
    assert_eq!(Palette::ClassicVga.get_color(1), Rgb::new(0, 0, 170));
    assert_eq!(Palette::ClassicVga.get_color(255), Rgb::new(0, 0, 0));
    assert_eq!(Palette::Cga1.get_color(5), Rgb::new(85, 255, 255));
    assert_eq!(Palette::Cga2.get_color(0), Rgb::new(0, 0, 0));
}

#[test]
fn other_palettes() {
    assert_eq!(Palette::Fire.get_color(70), Rgb::new(255, 12, 0));
    assert_eq!(Palette::BlackAndWhite.get_color(10), Rgb::new(235, 235, 235));
    assert_eq!(Palette::ElectricBlue.get_color(40), Rgb::new(64, 64, 159));
    assert_eq!(Palette::Toon.get_color(6), Rgb::new(230, 120, 0));
    assert_eq!(Palette::PrimaryRgb.get_color(90), Rgb::new(0, 240, 15));
    assert_eq!(Palette::SecondaryCmy.get_color(10), Rgb::new(30, 225, 255));
    assert_eq!(Palette::Tertiary1.get_color(10), Rgb::new(240, 112, 30));
    assert_eq!(Palette::Tertiary2.get_color(255), Rgb::new(254, 0, 127));
    assert_eq!(Palette::Neon.get_color(130), Rgb::new(0, 8, 16));
}
