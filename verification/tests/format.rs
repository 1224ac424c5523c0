use concat::colour::{colour_of, hex_of, hex_rgba, hex_with_alpha, parse_colour, Color};
use concat::phrase::{when_phrase, when_phrase_at};
use concat::timecode::timecode_of_frames;
use concat::wave::{columns_for_pixels, Wave};

#[test]
fn colours_round_trip() {
    let lime = colour_of("#cbf53f");
    assert_eq!(hex_of(lime), "#cbf53f");
    assert_eq!(hex_with_alpha(lime), "#cbf53f");
    assert_eq!(hex_with_alpha(colour_of("")), "");
    assert_eq!(hex_with_alpha(colour_of("#000000cc")), "#000000cc");
}

#[test]
fn a_typed_colour_is_read_in_every_length_and_refused_otherwise() {
    let lime = Color::from_rgb_u8(0xcb, 0xf5, 0x3f);
    assert_eq!(parse_colour("#cbf53f"), Some(lime));
    assert_eq!(parse_colour("CBF53F"), Some(lime));
    assert_eq!(parse_colour("  #cbf53f  "), Some(lime));
    assert_eq!(
        parse_colour("#fff"),
        Some(Color::from_rgb_u8(255, 255, 255))
    );
    assert_eq!(
        parse_colour("#f008"),
        Some(Color::from_argb_u8(0x88, 255, 0, 0))
    );
    assert_eq!(
        parse_colour("#00000000"),
        Some(Color::from_argb_u8(0, 0, 0, 0))
    );
    for junk in [
        "", "#", "#12", "#12345", "#1234567", "#ggg", "red", "#cbf53f9",
    ] {
        assert_eq!(parse_colour(junk), None, "{junk:?}");
    }
    // A stroke at zero opacity keeps its colour spelled.
    assert_eq!(
        hex_rgba(Color::from_argb_u8(0, 0xcb, 0xf5, 0x3f)),
        "#cbf53f00"
    );
    assert_eq!(hex_rgba(lime), "#cbf53f");
}

#[test]
fn phrases_are_coarse() {
    let now = std::time::SystemTime::now()
        .duration_since(std::time::UNIX_EPOCH)
        .map(|elapsed| elapsed.as_millis() as u64)
        .unwrap_or(0);
    assert_eq!(when_phrase(now), "just now");
    assert_eq!(when_phrase(now - 86_400_000 - 1000), "yesterday");
    assert_eq!(when_phrase(now - 3 * 86_400_000), "3 days ago");
}

#[test]
fn a_stored_colour_reads_its_channels_and_anything_else_is_transparent() {
    assert_eq!(colour_of("#cbf53f"), Color::from_rgb_u8(0xcb, 0xf5, 0x3f));
    assert_eq!(colour_of("cbf53f"), Color::from_rgb_u8(0xcb, 0xf5, 0x3f));
    assert_eq!(colour_of("#CBF53F80"), Color::from_argb_u8(0x80, 0xcb, 0xf5, 0x3f));
    assert_eq!(colour_of("\u{3000}#cbf53f\t"), Color::from_rgb_u8(0xcb, 0xf5, 0x3f));
    // Only hexadecimal digits after one optional hash make a colour.
    for junk in [
        "", "#", "#fff", "#12345", "#1234567", "red", "#cbf53f9", "#gggggg", "#zz0102", "#+f+f+f",
        "é1234", "##cbf53f", "#cb f53f",
    ] {
        assert_eq!(colour_of(junk), Color::from_argb_u8(0, 0, 0, 0), "{junk:?}");
    }
}

#[test]
fn a_typed_colour_ignores_case_space_and_hashes() {
    assert_eq!(parse_colour("\n#Fa0\u{a0}"), Some(Color::from_rgb_u8(0xff, 0xaa, 0x00)));
    assert_eq!(parse_colour("fa0"), Some(Color::from_rgb_u8(0xff, 0xaa, 0x00)));
    assert_eq!(parse_colour("##fff"), None);
    assert_eq!(parse_colour("#fa0c"), Some(Color::from_argb_u8(0xcc, 0xff, 0xaa, 0x00)));
    assert_eq!(parse_colour("#+f+f+f"), None);
    assert_eq!(parse_colour("é1234"), None);
    assert_eq!(parse_colour("#cb f53f"), None);
}

#[test]
fn every_colour_is_read_back_from_its_spelling() {
    for &c in &[
        Color::from_rgb_u8(0, 0, 0),
        Color::from_rgb_u8(0xcb, 0xf5, 0x3f),
        Color::from_argb_u8(0, 0xcb, 0xf5, 0x3f),
        Color::from_argb_u8(0x7f, 1, 2, 3),
        Color::from_argb_u8(0xfe, 0xff, 0x10, 0x0a),
    ] {
        assert_eq!(colour_of(&hex_rgba(c)), c);
        assert_eq!(parse_colour(&hex_rgba(c)), Some(c));
        if c.alpha != 0 {
            assert_eq!(colour_of(&hex_with_alpha(c)), c);
        } else {
            assert_eq!(hex_with_alpha(c), "");
            assert_eq!(colour_of(&hex_with_alpha(c)), Color::from_argb_u8(0, 0, 0, 0));
        }
    }
    assert_eq!(hex_of(Color::from_argb_u8(0x10, 0x0a, 0xb0, 0x01)), "#0ab001");
    assert_eq!(hex_with_alpha(Color::from_argb_u8(0x10, 0x0a, 0xb0, 0x01)), "#0ab00110");
}

#[test]
fn a_long_form_reads_alike_both_ways() {
    for text in ["#cbf53f", "CBF53F80", " #00ff00 "] {
        assert_eq!(Some(colour_of(text)), parse_colour(text), "{text:?}");
    }
    for text in ["#fff", "#f008", "#gggggg", "##cbf53f", ""] {
        assert_eq!(colour_of(text), Color::from_argb_u8(0, 0, 0, 0), "{text:?}");
    }
}

#[test]
fn phrases_step_from_minutes_to_months() {
    let now = 100 * 86_400_000u64;
    assert_eq!(when_phrase_at(now, now), "just now");
    assert_eq!(when_phrase_at(now + 5_000, now), "just now");
    assert_eq!(when_phrase_at(now - 119_999, now), "just now");
    assert_eq!(when_phrase_at(now - 120_000, now), "2 minutes ago");
    assert_eq!(when_phrase_at(now - 59 * 60_000, now), "59 minutes ago");
    assert_eq!(when_phrase_at(now - 60 * 60_000, now), "today");
    assert_eq!(when_phrase_at(now - 86_400_000, now), "yesterday");
    assert_eq!(when_phrase_at(now - 2 * 86_400_000, now), "2 days ago");
    assert_eq!(when_phrase_at(now - 29 * 86_400_000, now), "29 days ago");
    assert_eq!(when_phrase_at(now - 30 * 86_400_000, now), "1 months ago");
    assert_eq!(when_phrase_at(0, now), "3 months ago");
    assert_eq!(when_phrase_at(0, u64::MAX), "7116799411 months ago");
}

#[test]
fn timecode_spells_hours_minutes_seconds_and_frames() {
    assert_eq!(timecode_of_frames(0, 30), "00:00:00:00");
    assert_eq!(timecode_of_frames(29, 30), "00:00:00:29");
    assert_eq!(timecode_of_frames(30, 30), "00:00:01:00");
    assert_eq!(timecode_of_frames(3 * 3600 * 25 + 4 * 60 * 25 + 5 * 25 + 6, 25), "03:04:05:06");
    assert_eq!(timecode_of_frames(100 * 3600, 1), "100:00:00:00");
    assert_eq!(timecode_of_frames(7, 1), "00:00:07:00");
    assert_eq!(timecode_of_frames(125, 120), "00:00:01:05");
}

#[test]
fn columns_round_up_to_a_step_of_sixty_four() {
    assert_eq!(columns_for_pixels(200), 256, "200 px rounds up to 256");
    assert_eq!(columns_for_pixels(1000), 1024);
    assert_eq!(columns_for_pixels(60_000), 2048, "held to the most worth drawing");
    assert_eq!(columns_for_pixels(2), 64, "never under a step");
    assert_eq!(columns_for_pixels(1), 64);
    assert_eq!(columns_for_pixels(0), 64);
    assert_eq!(columns_for_pixels(64), 64);
    assert_eq!(columns_for_pixels(65), 128);
    assert_eq!(columns_for_pixels(2048), 2048);
    assert_eq!(columns_for_pixels(usize::MAX), 2048);
}

#[test]
fn an_empty_wave_draws_nothing() {
    let wave = Wave::default();
    assert!(wave.body.is_empty() && wave.hot.is_empty());
    assert_eq!(wave.clone(), Wave { body: String::new(), hot: String::new() });
}

#[test]
fn a_spelled_colour_is_spelled_again_as_it_was() {
    for text in ["#cbf53f", "#000000", "#ffffff", "#0a1b2c3d", "#000000cc", "#ffffff01", "#123456fe"] {
        assert_eq!(hex_with_alpha(colour_of(text)), text, "{text:?}");
    }
    // An alpha of ff or 00 is not how the spelling comes out.
    assert_eq!(hex_with_alpha(colour_of("#123456ff")), "#123456");
    assert_eq!(hex_with_alpha(colour_of("#12345600")), "");
}

#[test]
fn a_timecode_counts_every_frame() {
    for (frames, rate) in [(0u64, 1u64), (1234567, 30), (90_000, 25), (59, 60), (u64::MAX, 24)] {
        let text = timecode_of_frames(frames, rate);
        let fields: Vec<u128> = text.split(':').map(|field| field.parse().unwrap()).collect();
        assert_eq!(fields.len(), 4);
        assert!(fields[1] < 60 && fields[2] < 60 && fields[3] < rate as u128);
        assert_eq!(((fields[0] * 60 + fields[1]) * 60 + fields[2]) * rate as u128 + fields[3], frames as u128);
    }
}
