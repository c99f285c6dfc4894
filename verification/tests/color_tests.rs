use color_harmony::color::{
    digits2rgb, hex2rgb, hex_value, hsv2hex, hsv2rgb, is_hex, rgb2hex, rgb2hsv, Color, HUE_TURN,
    LEVEL_MAX,
};

fn color(hue: u32, sat: u32, val: u32) -> Color {
    Color { hue, sat, val }
}

#[test]
fn hex_digits_have_their_values() {
    assert_eq!(hex_value('0'), 0);
    assert_eq!(hex_value('9'), 9);
    assert_eq!(hex_value('a'), 10);
    assert_eq!(hex_value('f'), 15);
    assert_eq!(hex_value('A'), 10);
    assert_eq!(hex_value('F'), 15);
}

#[test]
fn other_characters_count_as_zero() {
    assert_eq!(hex_value('g'), 0);
    assert_eq!(hex_value('G'), 0);
    assert_eq!(hex_value(' '), 0);
    assert_eq!(hex_value('#'), 0);
    assert_eq!(hex_value('é'), 0);
    assert_eq!(hex_value('/'), 0);
    assert_eq!(hex_value(':'), 0);
    assert_eq!(hex_value('@'), 0);
    assert_eq!(hex_value('`'), 0);
}

#[test]
fn is_hex_takes_the_three_ranges_only() {
    for c in "0123456789abcdefABCDEF".chars() {
        assert!(is_hex(c), "{c}");
    }
    for c in "gGzZ /:@`[- é".chars() {
        assert!(!is_hex(c), "{c}");
    }
}

#[test]
fn hex2rgb_reads_six_digits() {
    assert_eq!(hex2rgb("ff8000"), (255, 128, 0));
    assert_eq!(hex2rgb("FF8000"), (255, 128, 0));
    assert_eq!(hex2rgb("123456"), (0x12, 0x34, 0x56));
    assert_eq!(hex2rgb("000000"), (0, 0, 0));
    assert_eq!(hex2rgb("ffffff"), (255, 255, 255));
    assert_eq!(hex2rgb("aBcDeF"), (0xab, 0xcd, 0xef));
}

#[test]
fn hex2rgb_pads_short_text_with_zero_digits() {
    assert_eq!(hex2rgb(""), (0, 0, 0));
    assert_eq!(hex2rgb("f"), (0xf0, 0, 0));
    assert_eq!(hex2rgb("ff"), (255, 0, 0));
    assert_eq!(hex2rgb("ff8"), (255, 0x80, 0));
    assert_eq!(hex2rgb("ff80a"), (255, 0x80, 0xa0));
}

#[test]
fn hex2rgb_ignores_what_follows_the_sixth_character() {
    assert_eq!(hex2rgb("ff8000aa"), (255, 128, 0));
    assert_eq!(hex2rgb("0102030405"), (1, 2, 3));
}

#[test]
fn hex2rgb_counts_characters_that_are_no_digits_as_zero() {
    assert_eq!(hex2rgb("zz12gg"), (0, 0x12, 0));
    assert_eq!(hex2rgb("#ff800"), (0x0f, 0xf8, 0x00));
    assert_eq!(hex2rgb("ééééff"), (0, 0, 255));
}

#[test]
fn digits2rgb_reads_as_hex2rgb_does() {
    for text in ["ff8000", "FF8000", "", "f", "ff80a", "zz12gg", "ff8000aa"] {
        let digits: Vec<char> = text.chars().collect();
        assert_eq!(digits2rgb(&digits), hex2rgb(text), "{text}");
    }
}

#[test]
fn rgb2hsv_of_the_primaries() {
    assert_eq!(rgb2hsv(255, 0, 0), color(0, 10_000, 10_000));
    assert_eq!(rgb2hsv(0, 255, 0), color(120_000, 10_000, 10_000));
    assert_eq!(rgb2hsv(0, 0, 255), color(240_000, 10_000, 10_000));
    assert_eq!(rgb2hsv(255, 255, 0), color(60_000, 10_000, 10_000));
    assert_eq!(rgb2hsv(0, 255, 255), color(180_000, 10_000, 10_000));
    assert_eq!(rgb2hsv(255, 0, 255), color(300_000, 10_000, 10_000));
}

#[test]
fn rgb2hsv_of_greys_has_no_hue_and_no_saturation() {
    assert_eq!(rgb2hsv(0, 0, 0), color(0, 0, 0));
    assert_eq!(rgb2hsv(255, 255, 255), color(0, 0, 10_000));
    assert_eq!(rgb2hsv(51, 51, 51), color(0, 0, 2000));
}

#[test]
fn rgb2hsv_rounds_to_the_nearest_unit() {
    assert_eq!(rgb2hsv(128, 64, 32), color(20_000, 7500, 5020));
    assert_eq!(rgb2hsv(255, 0, 128), color(329_882, 10_000, 10_000));
    assert_eq!(rgb2hsv(18, 52, 86), color(210_000, 7907, 3373));
    assert_eq!(rgb2hsv(255, 128, 0), color(30_118, 10_000, 10_000));
    assert_eq!(rgb2hsv(10, 200, 100), color(148_421, 9500, 7843));
}

#[test]
fn rgb2hsv_is_always_well_formed() {
    for r in (0..=255u8).step_by(15) {
        for g in (0..=255u8).step_by(15) {
            for b in (0..=255u8).step_by(15) {
                let c = rgb2hsv(r, g, b);
                assert!(c.hue < HUE_TURN);
                assert!(c.sat <= LEVEL_MAX);
                assert!(c.val <= LEVEL_MAX);
            }
        }
    }
}

#[test]
fn hsv2rgb_of_known_colours() {
    assert_eq!(hsv2rgb(&color(0, 10_000, 10_000)), (255, 0, 0));
    assert_eq!(hsv2rgb(&color(60_000, 10_000, 10_000)), (255, 255, 0));
    assert_eq!(hsv2rgb(&color(180_000, 5000, 5000)), (64, 128, 128));
    assert_eq!(hsv2rgb(&color(200_000, 5000, 6000)), (77, 128, 153));
    assert_eq!(hsv2rgb(&color(359_999, 10_000, 10_000)), (255, 0, 0));
    assert_eq!(hsv2rgb(&color(300_000, 2500, 7500)), (191, 143, 191));
    assert_eq!(hsv2rgb(&color(123_456, 0, 0)), (0, 0, 0));
    assert_eq!(hsv2rgb(&color(123_456, 0, 10_000)), (255, 255, 255));
}

#[test]
fn rgb_survives_the_way_through_hsv() {
    for r in (0..=255u8).step_by(3) {
        for g in (0..=255u8).step_by(3) {
            for b in (0..=255u8).step_by(3) {
                assert_eq!(hsv2rgb(&rgb2hsv(r, g, b)), (r, g, b));
            }
        }
    }
}

#[test]
fn rgb_survives_near_the_sector_borders() {
    for (r, g, b) in [
        (255u8, 254u8, 0u8),
        (255, 255, 1),
        (254, 255, 0),
        (0, 255, 254),
        (0, 254, 255),
        (1, 0, 255),
        (255, 0, 1),
        (255, 1, 0),
        (1, 1, 0),
        (2, 1, 1),
        (1, 2, 1),
        (1, 1, 2),
        (255, 0, 254),
        (254, 0, 255),
    ] {
        assert_eq!(hsv2rgb(&rgb2hsv(r, g, b)), (r, g, b));
    }
}

#[test]
fn rgb2hex_writes_six_lower_case_digits() {
    assert_eq!(rgb2hex(255, 128, 0), "ff8000");
    assert_eq!(rgb2hex(0, 0, 0), "000000");
    assert_eq!(rgb2hex(1, 2, 3), "010203");
    assert_eq!(rgb2hex(0xab, 0xcd, 0xef), "abcdef");
    assert_eq!(rgb2hex(9, 10, 159), "090a9f");
}

#[test]
fn hsv2hex_of_known_colours() {
    assert_eq!(hsv2hex(&color(0, 10_000, 10_000)), "ff0000");
    assert_eq!(hsv2hex(&color(180_000, 5000, 5000)), "408080");
    assert_eq!(hsv2hex(&color(200_000, 5000, 6000)), "4d8099");
    assert_eq!(color(300_000, 2500, 7500).get_hex(), "bf8fbf");
    assert_eq!(Color::neutral().get_hex(), "000000");
}

#[test]
fn hex_survives_the_way_through_hsv() {
    for text in ["ff8000", "123456", "000000", "ffffff", "0a0b0c", "fedcba", "808080", "7f0001"] {
        let (r, g, b) = hex2rgb(text);
        assert_eq!(hsv2hex(&rgb2hsv(r, g, b)), text);
        assert_eq!(Color::from_hex(text).get_hex(), text);
    }
}

#[test]
fn upper_case_hex_comes_back_in_lower_case_with_the_same_channels() {
    let back = Color::from_hex("FEDCBA").get_hex();
    assert_eq!(back, "fedcba");
    assert_eq!(hex2rgb(&back), hex2rgb("FEDCBA"));
}

#[test]
fn every_channel_pair_survives_the_way_through_hex() {
    for r in 0..=255u8 {
        let g = r.wrapping_mul(7).wrapping_add(3);
        let b = 255 - r;
        assert_eq!(hex2rgb(&rgb2hex(r, g, b)), (r, g, b));
    }
}

#[test]
fn new_wraps_the_hue_and_caps_the_levels() {
    assert_eq!(Color::new(370_000, 12_000, 5), color(10_000, 10_000, 5));
    assert_eq!(Color::new(360_000, 10_000, 10_001), color(0, 10_000, 10_000));
    assert_eq!(Color::new(359_999, 0, 0), color(359_999, 0, 0));
    assert_eq!(Color::new(u32::MAX, u32::MAX, u32::MAX), color(u32::MAX % 360_000, 10_000, 10_000));
}

#[test]
fn neutral_is_black() {
    assert_eq!(Color::neutral(), color(0, 0, 0));
    assert_eq!(Color::neutral().get_hsv_values(), (0, 0, 0));
}
