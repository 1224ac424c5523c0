use concat::filters::{allowed, ALLOWED, ALLOWED_COUNT};

#[test]
fn the_list_is_sorted_and_free_of_repeats() {
    for pair in ALLOWED.windows(2) {
        assert!(pair[0] < pair[1], "`{}` before `{}`", pair[0], pair[1]);
    }
}

#[test]
fn the_frame_is_the_only_thing_a_filter_may_touch() {
    for name in ["hue", "eq", "lut3d", "split", "blend", "volume", "atempo"] {
        assert!(allowed(name), "{name}");
    }
    for name in [
        "movie",
        "amovie",
        "drawtext",
        "frei0r",
        "ladspa",
        "lv2",
        "sendcmd",
        "asendcmd",
        "zmq",
        "azmq",
        "vidstabdetect",
        "vidstabtransform",
        "signature",
        "metadata",
        "ametadata",
        "arnndn",
        "subtitles",
        "ass",
        "ocr",
        "sr",
        "dnn_processing",
        "",
        "Hue",
        "hue ",
    ] {
        assert!(!allowed(name), "{name}");
    }
}

#[test]
fn every_listed_filter_is_allowed_and_its_near_misses_are_not() {
    assert_eq!(ALLOWED.len(), ALLOWED_COUNT);
    for name in ALLOWED {
        assert!(allowed(name), "{name}");
        assert!(!allowed(&format!("{name}x")), "{name}x");
        assert!(!allowed(&name[..name.len() - 1]) || ALLOWED.contains(&&name[..name.len() - 1]));
        assert!(!allowed(&name.to_uppercase()), "{name}");
    }
}

#[test]
fn the_first_and_the_last_names_are_found() {
    assert!(allowed("acompressor"));
    assert!(allowed("zoompan"));
    assert!(!allowed("a"));
    assert!(!allowed("zzz"));
    assert!(!allowed("hué"));
}
