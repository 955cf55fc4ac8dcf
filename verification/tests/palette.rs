use jlr_mandelbrot::palette::{color, rgb_to_u32, u32_to_rgb};

#[test]
fn color_of_set_member_is_dark_blue() {
    assert_eq!(color(None), (0, 0, 102));
}

#[test]
fn color_of_immediate_escape_is_red() {
    assert_eq!(color(Some(0)), (255, 0, 0));
}

#[test]
fn color_along_the_three_legs() {
    assert_eq!(color(Some(15)), (127, 127, 0));
    assert_eq!(color(Some(30)), (0, 255, 0));
    assert_eq!(color(Some(45)), (0, 127, 127));
    assert_eq!(color(Some(60)), (0, 0, 255));
    assert_eq!(color(Some(75)), (127, 0, 127));
    assert_eq!(color(Some(90)), (255, 0, 0));
}

#[test]
fn color_repeats_with_period_ninety() {
    for i in [0usize, 1, 5, 29, 30, 59, 60, 89, 123] {
        assert_eq!(color(Some(i)), color(Some(i + 90)));
        assert_eq!(color(Some(i)), color(Some(i + 900)));
    }
}

#[test]
fn rgb_packs_into_24_bits() {
    assert_eq!(rgb_to_u32(255, 0, 0), 0xff0000);
    assert_eq!(rgb_to_u32(0, 255, 0), 0x00ff00);
    assert_eq!(rgb_to_u32(0, 0, 255), 0x0000ff);
    assert_eq!(rgb_to_u32(0, 0, 102), 102);
    assert_eq!(rgb_to_u32(0x12, 0x34, 0x56), 0x123456);
}

#[test]
fn rgb_packing_round_trips() {
    for rgb in [(0u8, 0u8, 0u8), (255, 255, 255), (0, 0, 102), (1, 2, 3), (200, 100, 50)] {
        let packed = rgb_to_u32(rgb.0, rgb.1, rgb.2);
        assert_eq!(u32_to_rgb(packed), rgb);
    }
}

#[test]
fn unpacking_ignores_bits_above_24() {
    assert_eq!(u32_to_rgb(0xff123456), (0x12, 0x34, 0x56));
}
