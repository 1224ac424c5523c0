//! The FFmpeg filters a package's chain may name.
//!
//! A chain runs inside the decoder's filtergraph with the process's own
//! rights, and FFmpeg has filters that reach past the frame: `movie` opens
//! any file, `drawtext` reads a text file and a font file, `frei0r`,
//! `ladspa` and `lv2` load plugins, `sendcmd` and `zmq` take commands,
//! `vidstabdetect` and `signature` write files, `arnndn` loads a model. A
//! package is a folder anyone can share, so its chain is held to this
//! list - filters that read the frame and write the frame - and one that
//! names anything else is refused at load, before it is ever run.
//!
//! The list is the union of what the built-ins use and the plain pixel
//! and sound filters an author is likely to reach for next. Adding one is
//! adding a line, in order: [`allowed_is_sorted`] proves the order that
//! [`allowed`]'s search relies on.

use vstd::prelude::*;
use vstd::string::StringSliceAdditionalSpecFns;

verus! {

/// How many filters a chain may use.
pub const ALLOWED_COUNT: usize = 163;

/// Every filter a chain may use, sound and picture together, in byte
/// order for [`allowed`]'s search.
pub const ALLOWED: [&'static str; 163] = [
    "acompressor",
    "acontrast",
    "acrusher",
    "adeclick",
    "adeclip",
    "adelay",
    "adenorm",
    "aecho",
    "aemphasis",
    "aexciter",
    "afade",
    "afftdn",
    "aformat",
    "afreqshift",
    "agate",
    "alimiter",
    "allpass",
    "anlmdn",
    "apad",
    "aphaser",
    "aphaseshift",
    "apulsator",
    "aresample",
    "asetrate",
    "asoftclip",
    "asubboost",
    "asubcut",
    "asupercut",
    "atempo",
    "atilt",
    "avgblur",
    "bandpass",
    "bandreject",
    "bass",
    "bilateral",
    "biquad",
    "blend",
    "boxblur",
    "bs2b",
    "bwdif",
    "cas",
    "chorus",
    "chromahold",
    "chromakey",
    "chromanr",
    "chromashift",
    "colorbalance",
    "colorchannelmixer",
    "colorcontrast",
    "colorcorrect",
    "colorhold",
    "colorize",
    "colorkey",
    "colorlevels",
    "colorspace",
    "colortemperature",
    "compand",
    "compensationdelay",
    "convolution",
    "crop",
    "crossfeed",
    "crystalizer",
    "curves",
    "dcshift",
    "dctdnoiz",
    "deband",
    "deblock",
    "deesser",
    "deflicker",
    "dilation",
    "drawbox",
    "drawgrid",
    "dynaudnorm",
    "earwax",
    "edgedetect",
    "eq",
    "equalizer",
    "erosion",
    "exposure",
    "extrastereo",
    "fade",
    "fftdnoiz",
    "fillborders",
    "firequalizer",
    "flanger",
    "format",
    "gblur",
    "geq",
    "gradfun",
    "haas",
    "hflip",
    "highpass",
    "highshelf",
    "histeq",
    "hqdn3d",
    "hqx",
    "hstack",
    "hsvhold",
    "hsvkey",
    "hue",
    "huesaturation",
    "lagfun",
    "lenscorrection",
    "limiter",
    "loudnorm",
    "lowpass",
    "lowshelf",
    "lumakey",
    "lut",
    "lut1d",
    "lut3d",
    "lutrgb",
    "lutyuv",
    "median",
    "monochrome",
    "negate",
    "nlmeans",
    "noise",
    "normalize",
    "overlay",
    "pad",
    "pan",
    "perspective",
    "photosensitivity",
    "pixelize",
    "prewitt",
    "pseudocolor",
    "rgbashift",
    "roberts",
    "rotate",
    "rubberband",
    "sab",
    "scale",
    "selectivecolor",
    "shear",
    "shuffleplanes",
    "smartblur",
    "sobel",
    "speechnorm",
    "split",
    "stereotools",
    "stereowiden",
    "superequalizer",
    "surround",
    "swapuv",
    "tblend",
    "tile",
    "tmix",
    "tonemap",
    "transpose",
    "treble",
    "tremolo",
    "unsharp",
    "vaguedenoiser",
    "vflip",
    "vibrance",
    "vibrato",
    "vignette",
    "virtualbass",
    "volume",
    "vstack",
    "xbr",
    "zoompan",
];

/// Strict lexicographic order on byte strings: `a` comes before `b` when it
/// is a proper prefix of `b`, or when the first byte where they differ is
/// smaller in `a`.
pub open spec fn byte_less(a: Seq<u8>, b: Seq<u8>) -> bool
    decreases a.len(),
{
    if a.len() == 0 {
        b.len() > 0
    } else if b.len() == 0 {
        false
    } else if a[0] != b[0] {
        a[0] < b[0]
    } else {
        byte_less(a.drop_first(), b.drop_first())
    }
}

/// The UTF-8 bytes of the `i`-th allowed name.
pub open spec fn allowed_bytes(i: int) -> Seq<u8> {
    ALLOWED@[i].spec_bytes()
}

/// The allowed names, as text.
pub open spec fn allowed_names() -> Seq<Seq<char>> {
    ALLOWED@.map_values(|name: &str| name@)
}

/// The `i`-th name comes before the next one.
pub open spec fn in_order_at(i: int) -> bool {
    byte_less(allowed_bytes(i), allowed_bytes(i + 1))
}

proof fn lemma_byte_less_irreflexive(a: Seq<u8>)
    ensures
        !byte_less(a, a),
    decreases a.len(),
{
    if a.len() > 0 {
        lemma_byte_less_irreflexive(a.drop_first());
    }
}

proof fn lemma_byte_less_transitive(a: Seq<u8>, b: Seq<u8>, c: Seq<u8>)
    requires
        byte_less(a, b),
        byte_less(b, c),
    ensures
        byte_less(a, c),
    decreases a.len(),
{
    if a.len() > 0 && b.len() > 0 && c.len() > 0 && a[0] == b[0] && b[0] == c[0] {
        lemma_byte_less_transitive(a.drop_first(), b.drop_first(), c.drop_first());
    }
}

proof fn lemma_byte_less_asymmetric(a: Seq<u8>, b: Seq<u8>)
    requires
        byte_less(a, b),
    ensures
        !byte_less(b, a),
        a != b,
{
    if byte_less(b, a) {
        lemma_byte_less_transitive(a, b, a);
        lemma_byte_less_irreflexive(a);
    }
    if a == b {
        lemma_byte_less_irreflexive(a);
    }
}

/// Two byte strings that agree on their first `i` bytes compare as what
/// follows those bytes compares.
proof fn lemma_byte_less_skip(a: Seq<u8>, b: Seq<u8>, i: int)
    requires
        0 <= i <= a.len(),
        i <= b.len(),
        a.take(i) == b.take(i),
    ensures
        byte_less(a, b) == byte_less(a.skip(i), b.skip(i)),
    decreases i,
{
    if i > 0 {
        assert(a[0] == a.take(i)[0]);
        assert(b[0] == b.take(i)[0]);
        assert(a.drop_first().take(i - 1) =~= a.take(i).drop_first());
        assert(b.drop_first().take(i - 1) =~= b.take(i).drop_first());
        lemma_byte_less_skip(a.drop_first(), b.drop_first(), i - 1);
        assert(a.drop_first().skip(i - 1) =~= a.skip(i));
        assert(b.drop_first().skip(i - 1) =~= b.skip(i));
    } else {
        assert(a.skip(0) =~= a);
        assert(b.skip(0) =~= b);
    }
}

/// Names 0 to 12 are each before the next: read out their characters
/// and compare.
proof fn lemma_in_order_0(i: int)
    requires
        0 <= i < 12,
    ensures
        in_order_at(i),
{
    broadcast use vstd::string::is_ascii_spec_bytes;

    reveal_strlit("acompressor");
    reveal_strlit("acontrast");
    reveal_strlit("acrusher");
    reveal_strlit("adeclick");
    reveal_strlit("adeclip");
    reveal_strlit("adelay");
    reveal_strlit("adenorm");
    reveal_strlit("aecho");
    reveal_strlit("aemphasis");
    reveal_strlit("aexciter");
    reveal_strlit("afade");
    reveal_strlit("afftdn");
    reveal_strlit("aformat");
    assert(vstd::string::is_ascii(ALLOWED@[0]));
    assert(vstd::string::is_ascii(ALLOWED@[1]));
    assert(vstd::string::is_ascii(ALLOWED@[2]));
    assert(vstd::string::is_ascii(ALLOWED@[3]));
    assert(vstd::string::is_ascii(ALLOWED@[4]));
    assert(vstd::string::is_ascii(ALLOWED@[5]));
    assert(vstd::string::is_ascii(ALLOWED@[6]));
    assert(vstd::string::is_ascii(ALLOWED@[7]));
    assert(vstd::string::is_ascii(ALLOWED@[8]));
    assert(vstd::string::is_ascii(ALLOWED@[9]));
    assert(vstd::string::is_ascii(ALLOWED@[10]));
    assert(vstd::string::is_ascii(ALLOWED@[11]));
    assert(vstd::string::is_ascii(ALLOWED@[12]));
    reveal_with_fuel(byte_less, 9);
    if i == 0 {
        assert(in_order_at(0));
    } else if i == 1 {
        assert(in_order_at(1));
    } else if i == 2 {
        assert(in_order_at(2));
    } else if i == 3 {
        assert(in_order_at(3));
    } else if i == 4 {
        assert(in_order_at(4));
    } else if i == 5 {
        assert(in_order_at(5));
    } else if i == 6 {
        assert(in_order_at(6));
    } else if i == 7 {
        assert(in_order_at(7));
    } else if i == 8 {
        assert(in_order_at(8));
    } else if i == 9 {
        assert(in_order_at(9));
    } else if i == 10 {
        assert(in_order_at(10));
    } else if i == 11 {
        assert(in_order_at(11));
    }
}

/// Names 12 to 24 are each before the next: read out their characters
/// and compare.
proof fn lemma_in_order_1(i: int)
    requires
        12 <= i < 24,
    ensures
        in_order_at(i),
{
    broadcast use vstd::string::is_ascii_spec_bytes;

    reveal_strlit("aformat");
    reveal_strlit("afreqshift");
    reveal_strlit("agate");
    reveal_strlit("alimiter");
    reveal_strlit("allpass");
    reveal_strlit("anlmdn");
    reveal_strlit("apad");
    reveal_strlit("aphaser");
    reveal_strlit("aphaseshift");
    reveal_strlit("apulsator");
    reveal_strlit("aresample");
    reveal_strlit("asetrate");
    reveal_strlit("asoftclip");
    assert(vstd::string::is_ascii(ALLOWED@[12]));
    assert(vstd::string::is_ascii(ALLOWED@[13]));
    assert(vstd::string::is_ascii(ALLOWED@[14]));
    assert(vstd::string::is_ascii(ALLOWED@[15]));
    assert(vstd::string::is_ascii(ALLOWED@[16]));
    assert(vstd::string::is_ascii(ALLOWED@[17]));
    assert(vstd::string::is_ascii(ALLOWED@[18]));
    assert(vstd::string::is_ascii(ALLOWED@[19]));
    assert(vstd::string::is_ascii(ALLOWED@[20]));
    assert(vstd::string::is_ascii(ALLOWED@[21]));
    assert(vstd::string::is_ascii(ALLOWED@[22]));
    assert(vstd::string::is_ascii(ALLOWED@[23]));
    assert(vstd::string::is_ascii(ALLOWED@[24]));
    reveal_with_fuel(byte_less, 9);
    if i == 12 {
        assert(in_order_at(12));
    } else if i == 13 {
        assert(in_order_at(13));
    } else if i == 14 {
        assert(in_order_at(14));
    } else if i == 15 {
        assert(in_order_at(15));
    } else if i == 16 {
        assert(in_order_at(16));
    } else if i == 17 {
        assert(in_order_at(17));
    } else if i == 18 {
        assert(in_order_at(18));
    } else if i == 19 {
        assert(in_order_at(19));
    } else if i == 20 {
        assert(in_order_at(20));
    } else if i == 21 {
        assert(in_order_at(21));
    } else if i == 22 {
        assert(in_order_at(22));
    } else if i == 23 {
        assert(in_order_at(23));
    }
}

/// Names 24 to 36 are each before the next: read out their characters
/// and compare.
proof fn lemma_in_order_2(i: int)
    requires
        24 <= i < 36,
    ensures
        in_order_at(i),
{
    broadcast use vstd::string::is_ascii_spec_bytes;

    reveal_strlit("asoftclip");
    reveal_strlit("asubboost");
    reveal_strlit("asubcut");
    reveal_strlit("asupercut");
    reveal_strlit("atempo");
    reveal_strlit("atilt");
    reveal_strlit("avgblur");
    reveal_strlit("bandpass");
    reveal_strlit("bandreject");
    reveal_strlit("bass");
    reveal_strlit("bilateral");
    reveal_strlit("biquad");
    reveal_strlit("blend");
    assert(vstd::string::is_ascii(ALLOWED@[24]));
    assert(vstd::string::is_ascii(ALLOWED@[25]));
    assert(vstd::string::is_ascii(ALLOWED@[26]));
    assert(vstd::string::is_ascii(ALLOWED@[27]));
    assert(vstd::string::is_ascii(ALLOWED@[28]));
    assert(vstd::string::is_ascii(ALLOWED@[29]));
    assert(vstd::string::is_ascii(ALLOWED@[30]));
    assert(vstd::string::is_ascii(ALLOWED@[31]));
    assert(vstd::string::is_ascii(ALLOWED@[32]));
    assert(vstd::string::is_ascii(ALLOWED@[33]));
    assert(vstd::string::is_ascii(ALLOWED@[34]));
    assert(vstd::string::is_ascii(ALLOWED@[35]));
    assert(vstd::string::is_ascii(ALLOWED@[36]));
    reveal_with_fuel(byte_less, 9);
    if i == 24 {
        assert(in_order_at(24));
    } else if i == 25 {
        assert(in_order_at(25));
    } else if i == 26 {
        assert(in_order_at(26));
    } else if i == 27 {
        assert(in_order_at(27));
    } else if i == 28 {
        assert(in_order_at(28));
    } else if i == 29 {
        assert(in_order_at(29));
    } else if i == 30 {
        assert(in_order_at(30));
    } else if i == 31 {
        assert(in_order_at(31));
    } else if i == 32 {
        assert(in_order_at(32));
    } else if i == 33 {
        assert(in_order_at(33));
    } else if i == 34 {
        assert(in_order_at(34));
    } else if i == 35 {
        assert(in_order_at(35));
    }
}

/// Names 36 to 48 are each before the next: read out their characters
/// and compare.
proof fn lemma_in_order_3(i: int)
    requires
        36 <= i < 48,
    ensures
        in_order_at(i),
{
    broadcast use vstd::string::is_ascii_spec_bytes;

    reveal_strlit("blend");
    reveal_strlit("boxblur");
    reveal_strlit("bs2b");
    reveal_strlit("bwdif");
    reveal_strlit("cas");
    reveal_strlit("chorus");
    reveal_strlit("chromahold");
    reveal_strlit("chromakey");
    reveal_strlit("chromanr");
    reveal_strlit("chromashift");
    reveal_strlit("colorbalance");
    reveal_strlit("colorchannelmixer");
    reveal_strlit("colorcontrast");
    assert(vstd::string::is_ascii(ALLOWED@[36]));
    assert(vstd::string::is_ascii(ALLOWED@[37]));
    assert(vstd::string::is_ascii(ALLOWED@[38]));
    assert(vstd::string::is_ascii(ALLOWED@[39]));
    assert(vstd::string::is_ascii(ALLOWED@[40]));
    assert(vstd::string::is_ascii(ALLOWED@[41]));
    assert(vstd::string::is_ascii(ALLOWED@[42]));
    assert(vstd::string::is_ascii(ALLOWED@[43]));
    assert(vstd::string::is_ascii(ALLOWED@[44]));
    assert(vstd::string::is_ascii(ALLOWED@[45]));
    assert(vstd::string::is_ascii(ALLOWED@[46]));
    assert(vstd::string::is_ascii(ALLOWED@[47]));
    assert(vstd::string::is_ascii(ALLOWED@[48]));
    reveal_with_fuel(byte_less, 9);
    if i == 36 {
        assert(in_order_at(36));
    } else if i == 37 {
        assert(in_order_at(37));
    } else if i == 38 {
        assert(in_order_at(38));
    } else if i == 39 {
        assert(in_order_at(39));
    } else if i == 40 {
        assert(in_order_at(40));
    } else if i == 41 {
        assert(in_order_at(41));
    } else if i == 42 {
        assert(in_order_at(42));
    } else if i == 43 {
        assert(in_order_at(43));
    } else if i == 44 {
        assert(in_order_at(44));
    } else if i == 45 {
        assert(in_order_at(45));
    } else if i == 46 {
        assert(in_order_at(46));
    } else if i == 47 {
        assert(in_order_at(47));
    }
}

/// Names 48 to 60 are each before the next: read out their characters
/// and compare.
proof fn lemma_in_order_4(i: int)
    requires
        48 <= i < 60,
    ensures
        in_order_at(i),
{
    broadcast use vstd::string::is_ascii_spec_bytes;

    reveal_strlit("colorcontrast");
    reveal_strlit("colorcorrect");
    reveal_strlit("colorhold");
    reveal_strlit("colorize");
    reveal_strlit("colorkey");
    reveal_strlit("colorlevels");
    reveal_strlit("colorspace");
    reveal_strlit("colortemperature");
    reveal_strlit("compand");
    reveal_strlit("compensationdelay");
    reveal_strlit("convolution");
    reveal_strlit("crop");
    reveal_strlit("crossfeed");
    assert(vstd::string::is_ascii(ALLOWED@[48]));
    assert(vstd::string::is_ascii(ALLOWED@[49]));
    assert(vstd::string::is_ascii(ALLOWED@[50]));
    assert(vstd::string::is_ascii(ALLOWED@[51]));
    assert(vstd::string::is_ascii(ALLOWED@[52]));
    assert(vstd::string::is_ascii(ALLOWED@[53]));
    assert(vstd::string::is_ascii(ALLOWED@[54]));
    assert(vstd::string::is_ascii(ALLOWED@[55]));
    assert(vstd::string::is_ascii(ALLOWED@[56]));
    assert(vstd::string::is_ascii(ALLOWED@[57]));
    assert(vstd::string::is_ascii(ALLOWED@[58]));
    assert(vstd::string::is_ascii(ALLOWED@[59]));
    assert(vstd::string::is_ascii(ALLOWED@[60]));
    reveal_with_fuel(byte_less, 9);
    if i == 48 {
        assert(in_order_at(48));
    } else if i == 49 {
        assert(in_order_at(49));
    } else if i == 50 {
        assert(in_order_at(50));
    } else if i == 51 {
        assert(in_order_at(51));
    } else if i == 52 {
        assert(in_order_at(52));
    } else if i == 53 {
        assert(in_order_at(53));
    } else if i == 54 {
        assert(in_order_at(54));
    } else if i == 55 {
        assert(in_order_at(55));
    } else if i == 56 {
        assert(in_order_at(56));
    } else if i == 57 {
        assert(in_order_at(57));
    } else if i == 58 {
        assert(in_order_at(58));
    } else if i == 59 {
        assert(in_order_at(59));
    }
}

/// Names 60 to 72 are each before the next: read out their characters
/// and compare.
proof fn lemma_in_order_5(i: int)
    requires
        60 <= i < 72,
    ensures
        in_order_at(i),
{
    broadcast use vstd::string::is_ascii_spec_bytes;

    reveal_strlit("crossfeed");
    reveal_strlit("crystalizer");
    reveal_strlit("curves");
    reveal_strlit("dcshift");
    reveal_strlit("dctdnoiz");
    reveal_strlit("deband");
    reveal_strlit("deblock");
    reveal_strlit("deesser");
    reveal_strlit("deflicker");
    reveal_strlit("dilation");
    reveal_strlit("drawbox");
    reveal_strlit("drawgrid");
    reveal_strlit("dynaudnorm");
    assert(vstd::string::is_ascii(ALLOWED@[60]));
    assert(vstd::string::is_ascii(ALLOWED@[61]));
    assert(vstd::string::is_ascii(ALLOWED@[62]));
    assert(vstd::string::is_ascii(ALLOWED@[63]));
    assert(vstd::string::is_ascii(ALLOWED@[64]));
    assert(vstd::string::is_ascii(ALLOWED@[65]));
    assert(vstd::string::is_ascii(ALLOWED@[66]));
    assert(vstd::string::is_ascii(ALLOWED@[67]));
    assert(vstd::string::is_ascii(ALLOWED@[68]));
    assert(vstd::string::is_ascii(ALLOWED@[69]));
    assert(vstd::string::is_ascii(ALLOWED@[70]));
    assert(vstd::string::is_ascii(ALLOWED@[71]));
    assert(vstd::string::is_ascii(ALLOWED@[72]));
    reveal_with_fuel(byte_less, 9);
    if i == 60 {
        assert(in_order_at(60));
    } else if i == 61 {
        assert(in_order_at(61));
    } else if i == 62 {
        assert(in_order_at(62));
    } else if i == 63 {
        assert(in_order_at(63));
    } else if i == 64 {
        assert(in_order_at(64));
    } else if i == 65 {
        assert(in_order_at(65));
    } else if i == 66 {
        assert(in_order_at(66));
    } else if i == 67 {
        assert(in_order_at(67));
    } else if i == 68 {
        assert(in_order_at(68));
    } else if i == 69 {
        assert(in_order_at(69));
    } else if i == 70 {
        assert(in_order_at(70));
    } else if i == 71 {
        assert(in_order_at(71));
    }
}

/// Names 72 to 84 are each before the next: read out their characters
/// and compare.
proof fn lemma_in_order_6(i: int)
    requires
        72 <= i < 84,
    ensures
        in_order_at(i),
{
    broadcast use vstd::string::is_ascii_spec_bytes;

    reveal_strlit("dynaudnorm");
    reveal_strlit("earwax");
    reveal_strlit("edgedetect");
    reveal_strlit("eq");
    reveal_strlit("equalizer");
    reveal_strlit("erosion");
    reveal_strlit("exposure");
    reveal_strlit("extrastereo");
    reveal_strlit("fade");
    reveal_strlit("fftdnoiz");
    reveal_strlit("fillborders");
    reveal_strlit("firequalizer");
    reveal_strlit("flanger");
    assert(vstd::string::is_ascii(ALLOWED@[72]));
    assert(vstd::string::is_ascii(ALLOWED@[73]));
    assert(vstd::string::is_ascii(ALLOWED@[74]));
    assert(vstd::string::is_ascii(ALLOWED@[75]));
    assert(vstd::string::is_ascii(ALLOWED@[76]));
    assert(vstd::string::is_ascii(ALLOWED@[77]));
    assert(vstd::string::is_ascii(ALLOWED@[78]));
    assert(vstd::string::is_ascii(ALLOWED@[79]));
    assert(vstd::string::is_ascii(ALLOWED@[80]));
    assert(vstd::string::is_ascii(ALLOWED@[81]));
    assert(vstd::string::is_ascii(ALLOWED@[82]));
    assert(vstd::string::is_ascii(ALLOWED@[83]));
    assert(vstd::string::is_ascii(ALLOWED@[84]));
    reveal_with_fuel(byte_less, 9);
    if i == 72 {
        assert(in_order_at(72));
    } else if i == 73 {
        assert(in_order_at(73));
    } else if i == 74 {
        assert(in_order_at(74));
    } else if i == 75 {
        assert(in_order_at(75));
    } else if i == 76 {
        assert(in_order_at(76));
    } else if i == 77 {
        assert(in_order_at(77));
    } else if i == 78 {
        assert(in_order_at(78));
    } else if i == 79 {
        assert(in_order_at(79));
    } else if i == 80 {
        assert(in_order_at(80));
    } else if i == 81 {
        assert(in_order_at(81));
    } else if i == 82 {
        assert(in_order_at(82));
    } else if i == 83 {
        assert(in_order_at(83));
    }
}

/// Names 84 to 96 are each before the next: read out their characters
/// and compare.
proof fn lemma_in_order_7(i: int)
    requires
        84 <= i < 96,
    ensures
        in_order_at(i),
{
    broadcast use vstd::string::is_ascii_spec_bytes;

    reveal_strlit("flanger");
    reveal_strlit("format");
    reveal_strlit("gblur");
    reveal_strlit("geq");
    reveal_strlit("gradfun");
    reveal_strlit("haas");
    reveal_strlit("hflip");
    reveal_strlit("highpass");
    reveal_strlit("highshelf");
    reveal_strlit("histeq");
    reveal_strlit("hqdn3d");
    reveal_strlit("hqx");
    reveal_strlit("hstack");
    assert(vstd::string::is_ascii(ALLOWED@[84]));
    assert(vstd::string::is_ascii(ALLOWED@[85]));
    assert(vstd::string::is_ascii(ALLOWED@[86]));
    assert(vstd::string::is_ascii(ALLOWED@[87]));
    assert(vstd::string::is_ascii(ALLOWED@[88]));
    assert(vstd::string::is_ascii(ALLOWED@[89]));
    assert(vstd::string::is_ascii(ALLOWED@[90]));
    assert(vstd::string::is_ascii(ALLOWED@[91]));
    assert(vstd::string::is_ascii(ALLOWED@[92]));
    assert(vstd::string::is_ascii(ALLOWED@[93]));
    assert(vstd::string::is_ascii(ALLOWED@[94]));
    assert(vstd::string::is_ascii(ALLOWED@[95]));
    assert(vstd::string::is_ascii(ALLOWED@[96]));
    reveal_with_fuel(byte_less, 9);
    if i == 84 {
        assert(in_order_at(84));
    } else if i == 85 {
        assert(in_order_at(85));
    } else if i == 86 {
        assert(in_order_at(86));
    } else if i == 87 {
        assert(in_order_at(87));
    } else if i == 88 {
        assert(in_order_at(88));
    } else if i == 89 {
        assert(in_order_at(89));
    } else if i == 90 {
        assert(in_order_at(90));
    } else if i == 91 {
        assert(in_order_at(91));
    } else if i == 92 {
        assert(in_order_at(92));
    } else if i == 93 {
        assert(in_order_at(93));
    } else if i == 94 {
        assert(in_order_at(94));
    } else if i == 95 {
        assert(in_order_at(95));
    }
}

/// Names 96 to 108 are each before the next: read out their characters
/// and compare.
proof fn lemma_in_order_8(i: int)
    requires
        96 <= i < 108,
    ensures
        in_order_at(i),
{
    broadcast use vstd::string::is_ascii_spec_bytes;

    reveal_strlit("hstack");
    reveal_strlit("hsvhold");
    reveal_strlit("hsvkey");
    reveal_strlit("hue");
    reveal_strlit("huesaturation");
    reveal_strlit("lagfun");
    reveal_strlit("lenscorrection");
    reveal_strlit("limiter");
    reveal_strlit("loudnorm");
    reveal_strlit("lowpass");
    reveal_strlit("lowshelf");
    reveal_strlit("lumakey");
    reveal_strlit("lut");
    assert(vstd::string::is_ascii(ALLOWED@[96]));
    assert(vstd::string::is_ascii(ALLOWED@[97]));
    assert(vstd::string::is_ascii(ALLOWED@[98]));
    assert(vstd::string::is_ascii(ALLOWED@[99]));
    assert(vstd::string::is_ascii(ALLOWED@[100]));
    assert(vstd::string::is_ascii(ALLOWED@[101]));
    assert(vstd::string::is_ascii(ALLOWED@[102]));
    assert(vstd::string::is_ascii(ALLOWED@[103]));
    assert(vstd::string::is_ascii(ALLOWED@[104]));
    assert(vstd::string::is_ascii(ALLOWED@[105]));
    assert(vstd::string::is_ascii(ALLOWED@[106]));
    assert(vstd::string::is_ascii(ALLOWED@[107]));
    assert(vstd::string::is_ascii(ALLOWED@[108]));
    reveal_with_fuel(byte_less, 9);
    if i == 96 {
        assert(in_order_at(96));
    } else if i == 97 {
        assert(in_order_at(97));
    } else if i == 98 {
        assert(in_order_at(98));
    } else if i == 99 {
        assert(in_order_at(99));
    } else if i == 100 {
        assert(in_order_at(100));
    } else if i == 101 {
        assert(in_order_at(101));
    } else if i == 102 {
        assert(in_order_at(102));
    } else if i == 103 {
        assert(in_order_at(103));
    } else if i == 104 {
        assert(in_order_at(104));
    } else if i == 105 {
        assert(in_order_at(105));
    } else if i == 106 {
        assert(in_order_at(106));
    } else if i == 107 {
        assert(in_order_at(107));
    }
}

/// Names 108 to 120 are each before the next: read out their characters
/// and compare.
proof fn lemma_in_order_9(i: int)
    requires
        108 <= i < 120,
    ensures
        in_order_at(i),
{
    broadcast use vstd::string::is_ascii_spec_bytes;

    reveal_strlit("lut");
    reveal_strlit("lut1d");
    reveal_strlit("lut3d");
    reveal_strlit("lutrgb");
    reveal_strlit("lutyuv");
    reveal_strlit("median");
    reveal_strlit("monochrome");
    reveal_strlit("negate");
    reveal_strlit("nlmeans");
    reveal_strlit("noise");
    reveal_strlit("normalize");
    reveal_strlit("overlay");
    reveal_strlit("pad");
    assert(vstd::string::is_ascii(ALLOWED@[108]));
    assert(vstd::string::is_ascii(ALLOWED@[109]));
    assert(vstd::string::is_ascii(ALLOWED@[110]));
    assert(vstd::string::is_ascii(ALLOWED@[111]));
    assert(vstd::string::is_ascii(ALLOWED@[112]));
    assert(vstd::string::is_ascii(ALLOWED@[113]));
    assert(vstd::string::is_ascii(ALLOWED@[114]));
    assert(vstd::string::is_ascii(ALLOWED@[115]));
    assert(vstd::string::is_ascii(ALLOWED@[116]));
    assert(vstd::string::is_ascii(ALLOWED@[117]));
    assert(vstd::string::is_ascii(ALLOWED@[118]));
    assert(vstd::string::is_ascii(ALLOWED@[119]));
    assert(vstd::string::is_ascii(ALLOWED@[120]));
    reveal_with_fuel(byte_less, 9);
    if i == 108 {
        assert(in_order_at(108));
    } else if i == 109 {
        assert(in_order_at(109));
    } else if i == 110 {
        assert(in_order_at(110));
    } else if i == 111 {
        assert(in_order_at(111));
    } else if i == 112 {
        assert(in_order_at(112));
    } else if i == 113 {
        assert(in_order_at(113));
    } else if i == 114 {
        assert(in_order_at(114));
    } else if i == 115 {
        assert(in_order_at(115));
    } else if i == 116 {
        assert(in_order_at(116));
    } else if i == 117 {
        assert(in_order_at(117));
    } else if i == 118 {
        assert(in_order_at(118));
    } else if i == 119 {
        assert(in_order_at(119));
    }
}

/// Names 120 to 132 are each before the next: read out their characters
/// and compare.
proof fn lemma_in_order_10(i: int)
    requires
        120 <= i < 132,
    ensures
        in_order_at(i),
{
    broadcast use vstd::string::is_ascii_spec_bytes;

    reveal_strlit("pad");
    reveal_strlit("pan");
    reveal_strlit("perspective");
    reveal_strlit("photosensitivity");
    reveal_strlit("pixelize");
    reveal_strlit("prewitt");
    reveal_strlit("pseudocolor");
    reveal_strlit("rgbashift");
    reveal_strlit("roberts");
    reveal_strlit("rotate");
    reveal_strlit("rubberband");
    reveal_strlit("sab");
    reveal_strlit("scale");
    assert(vstd::string::is_ascii(ALLOWED@[120]));
    assert(vstd::string::is_ascii(ALLOWED@[121]));
    assert(vstd::string::is_ascii(ALLOWED@[122]));
    assert(vstd::string::is_ascii(ALLOWED@[123]));
    assert(vstd::string::is_ascii(ALLOWED@[124]));
    assert(vstd::string::is_ascii(ALLOWED@[125]));
    assert(vstd::string::is_ascii(ALLOWED@[126]));
    assert(vstd::string::is_ascii(ALLOWED@[127]));
    assert(vstd::string::is_ascii(ALLOWED@[128]));
    assert(vstd::string::is_ascii(ALLOWED@[129]));
    assert(vstd::string::is_ascii(ALLOWED@[130]));
    assert(vstd::string::is_ascii(ALLOWED@[131]));
    assert(vstd::string::is_ascii(ALLOWED@[132]));
    reveal_with_fuel(byte_less, 9);
    if i == 120 {
        assert(in_order_at(120));
    } else if i == 121 {
        assert(in_order_at(121));
    } else if i == 122 {
        assert(in_order_at(122));
    } else if i == 123 {
        assert(in_order_at(123));
    } else if i == 124 {
        assert(in_order_at(124));
    } else if i == 125 {
        assert(in_order_at(125));
    } else if i == 126 {
        assert(in_order_at(126));
    } else if i == 127 {
        assert(in_order_at(127));
    } else if i == 128 {
        assert(in_order_at(128));
    } else if i == 129 {
        assert(in_order_at(129));
    } else if i == 130 {
        assert(in_order_at(130));
    } else if i == 131 {
        assert(in_order_at(131));
    }
}

/// Names 132 to 144 are each before the next: read out their characters
/// and compare.
proof fn lemma_in_order_11(i: int)
    requires
        132 <= i < 144,
    ensures
        in_order_at(i),
{
    broadcast use vstd::string::is_ascii_spec_bytes;

    reveal_strlit("scale");
    reveal_strlit("selectivecolor");
    reveal_strlit("shear");
    reveal_strlit("shuffleplanes");
    reveal_strlit("smartblur");
    reveal_strlit("sobel");
    reveal_strlit("speechnorm");
    reveal_strlit("split");
    reveal_strlit("stereotools");
    reveal_strlit("stereowiden");
    reveal_strlit("superequalizer");
    reveal_strlit("surround");
    reveal_strlit("swapuv");
    assert(vstd::string::is_ascii(ALLOWED@[132]));
    assert(vstd::string::is_ascii(ALLOWED@[133]));
    assert(vstd::string::is_ascii(ALLOWED@[134]));
    assert(vstd::string::is_ascii(ALLOWED@[135]));
    assert(vstd::string::is_ascii(ALLOWED@[136]));
    assert(vstd::string::is_ascii(ALLOWED@[137]));
    assert(vstd::string::is_ascii(ALLOWED@[138]));
    assert(vstd::string::is_ascii(ALLOWED@[139]));
    assert(vstd::string::is_ascii(ALLOWED@[140]));
    assert(vstd::string::is_ascii(ALLOWED@[141]));
    assert(vstd::string::is_ascii(ALLOWED@[142]));
    assert(vstd::string::is_ascii(ALLOWED@[143]));
    assert(vstd::string::is_ascii(ALLOWED@[144]));
    reveal_with_fuel(byte_less, 9);
    if i == 132 {
        assert(in_order_at(132));
    } else if i == 133 {
        assert(in_order_at(133));
    } else if i == 134 {
        assert(in_order_at(134));
    } else if i == 135 {
        assert(in_order_at(135));
    } else if i == 136 {
        assert(in_order_at(136));
    } else if i == 137 {
        assert(in_order_at(137));
    } else if i == 138 {
        assert(in_order_at(138));
    } else if i == 139 {
        assert(in_order_at(139));
    } else if i == 140 {
        assert(in_order_at(140));
    } else if i == 141 {
        assert(in_order_at(141));
    } else if i == 142 {
        assert(in_order_at(142));
    } else if i == 143 {
        assert(in_order_at(143));
    }
}

/// Names 144 to 156 are each before the next: read out their characters
/// and compare.
proof fn lemma_in_order_12(i: int)
    requires
        144 <= i < 156,
    ensures
        in_order_at(i),
{
    broadcast use vstd::string::is_ascii_spec_bytes;

    reveal_strlit("swapuv");
    reveal_strlit("tblend");
    reveal_strlit("tile");
    reveal_strlit("tmix");
    reveal_strlit("tonemap");
    reveal_strlit("transpose");
    reveal_strlit("treble");
    reveal_strlit("tremolo");
    reveal_strlit("unsharp");
    reveal_strlit("vaguedenoiser");
    reveal_strlit("vflip");
    reveal_strlit("vibrance");
    reveal_strlit("vibrato");
    assert(vstd::string::is_ascii(ALLOWED@[144]));
    assert(vstd::string::is_ascii(ALLOWED@[145]));
    assert(vstd::string::is_ascii(ALLOWED@[146]));
    assert(vstd::string::is_ascii(ALLOWED@[147]));
    assert(vstd::string::is_ascii(ALLOWED@[148]));
    assert(vstd::string::is_ascii(ALLOWED@[149]));
    assert(vstd::string::is_ascii(ALLOWED@[150]));
    assert(vstd::string::is_ascii(ALLOWED@[151]));
    assert(vstd::string::is_ascii(ALLOWED@[152]));
    assert(vstd::string::is_ascii(ALLOWED@[153]));
    assert(vstd::string::is_ascii(ALLOWED@[154]));
    assert(vstd::string::is_ascii(ALLOWED@[155]));
    assert(vstd::string::is_ascii(ALLOWED@[156]));
    reveal_with_fuel(byte_less, 9);
    if i == 144 {
        assert(in_order_at(144));
    } else if i == 145 {
        assert(in_order_at(145));
    } else if i == 146 {
        assert(in_order_at(146));
    } else if i == 147 {
        assert(in_order_at(147));
    } else if i == 148 {
        assert(in_order_at(148));
    } else if i == 149 {
        assert(in_order_at(149));
    } else if i == 150 {
        assert(in_order_at(150));
    } else if i == 151 {
        assert(in_order_at(151));
    } else if i == 152 {
        assert(in_order_at(152));
    } else if i == 153 {
        assert(in_order_at(153));
    } else if i == 154 {
        assert(in_order_at(154));
    } else if i == 155 {
        assert(in_order_at(155));
    }
}

/// Names 156 to 162 are each before the next: read out their characters
/// and compare.
proof fn lemma_in_order_13(i: int)
    requires
        156 <= i < 162,
    ensures
        in_order_at(i),
{
    broadcast use vstd::string::is_ascii_spec_bytes;

    reveal_strlit("vibrato");
    reveal_strlit("vignette");
    reveal_strlit("virtualbass");
    reveal_strlit("volume");
    reveal_strlit("vstack");
    reveal_strlit("xbr");
    reveal_strlit("zoompan");
    assert(vstd::string::is_ascii(ALLOWED@[156]));
    assert(vstd::string::is_ascii(ALLOWED@[157]));
    assert(vstd::string::is_ascii(ALLOWED@[158]));
    assert(vstd::string::is_ascii(ALLOWED@[159]));
    assert(vstd::string::is_ascii(ALLOWED@[160]));
    assert(vstd::string::is_ascii(ALLOWED@[161]));
    assert(vstd::string::is_ascii(ALLOWED@[162]));
    reveal_with_fuel(byte_less, 9);
    if i == 156 {
        assert(in_order_at(156));
    } else if i == 157 {
        assert(in_order_at(157));
    } else if i == 158 {
        assert(in_order_at(158));
    } else if i == 159 {
        assert(in_order_at(159));
    } else if i == 160 {
        assert(in_order_at(160));
    } else if i == 161 {
        assert(in_order_at(161));
    }
}

/// Each name comes before the next.
proof fn lemma_in_order(i: int)
    requires
        0 <= i < ALLOWED_COUNT - 1,
    ensures
        in_order_at(i),
{
    if i < 12 {
        lemma_in_order_0(i);
    } else if i < 24 {
        lemma_in_order_1(i);
    } else if i < 36 {
        lemma_in_order_2(i);
    } else if i < 48 {
        lemma_in_order_3(i);
    } else if i < 60 {
        lemma_in_order_4(i);
    } else if i < 72 {
        lemma_in_order_5(i);
    } else if i < 84 {
        lemma_in_order_6(i);
    } else if i < 96 {
        lemma_in_order_7(i);
    } else if i < 108 {
        lemma_in_order_8(i);
    } else if i < 120 {
        lemma_in_order_9(i);
    } else if i < 132 {
        lemma_in_order_10(i);
    } else if i < 144 {
        lemma_in_order_11(i);
    } else if i < 156 {
        lemma_in_order_12(i);
    } else if i < 162 {
        lemma_in_order_13(i);
    }
}

/// The list is sorted and free of repeats: every name comes strictly
/// before every later one, so no two names are the same.
pub proof fn allowed_is_sorted()
    ensures
        forall|i: int, j: int|
            0 <= i < j < ALLOWED_COUNT ==> byte_less(#[trigger] allowed_bytes(i), #[trigger] allowed_bytes(j)),
        forall|i: int, j: int|
            0 <= i < j < ALLOWED_COUNT ==> #[trigger] allowed_names()[i] != #[trigger] allowed_names()[j],
{
    assert forall|i: int, j: int| 0 <= i < j < ALLOWED_COUNT implies byte_less(
        #[trigger] allowed_bytes(i),
        #[trigger] allowed_bytes(j),
    ) by {
        lemma_before(i, j);
    }
    assert forall|i: int, j: int|
        0 <= i < j < ALLOWED_COUNT implies #[trigger] allowed_names()[i] != #[trigger] allowed_names()[j] by {
        lemma_before(i, j);
        lemma_byte_less_asymmetric(allowed_bytes(i), allowed_bytes(j));
    }
}

proof fn lemma_before(i: int, j: int)
    requires
        0 <= i < j < ALLOWED_COUNT,
    ensures
        byte_less(allowed_bytes(i), allowed_bytes(j)),
    decreases j - i,
{
    lemma_in_order(i);
    if j > i + 1 {
        lemma_before(i + 1, j);
        lemma_byte_less_transitive(allowed_bytes(i), allowed_bytes(i + 1), allowed_bytes(j));
    }
}

/// Where one byte string stands against another in [`byte_less`] order.
enum Placement {
    Before,
    Same,
    After,
}

/// Compares two byte strings in [`byte_less`] order.
fn place(a: &[u8], b: &[u8]) -> (p: Placement)
    ensures
        p is Before <==> byte_less(a@, b@),
        p is Same <==> a@ == b@,
        p is After <==> byte_less(b@, a@),
{
    let mut i: usize = 0;
    while i < a.len() && i < b.len() && a[i] == b[i]
        invariant
            0 <= i <= a@.len(),
            i <= b@.len(),
            a@.take(i as int) == b@.take(i as int),
        decreases a@.len() - i,
    {
        proof {
            assert(a@.take(i + 1) =~= a@.take(i as int).push(a@[i as int]));
            assert(b@.take(i + 1) =~= b@.take(i as int).push(b@[i as int]));
        }
        i = i + 1;
    }
    proof {
        lemma_byte_less_skip(a@, b@, i as int);
        lemma_byte_less_skip(b@, a@, i as int);
        if a@ == b@ {
            lemma_byte_less_irreflexive(a@);
        }
        if i == a@.len() && i == b@.len() {
            assert(a@ =~= a@.take(i as int));
            assert(b@ =~= b@.take(i as int));
        }
        if i < a@.len() && i < b@.len() {
            assert(a@.skip(i as int)[0] == a@[i as int]);
            assert(b@.skip(i as int)[0] == b@[i as int]);
            assert(a@[i as int] != b@[i as int]);
            assert(a@ != b@);
        }
        if i == a@.len() && i < b@.len() {
            assert(a@.len() != b@.len());
        }
        if i < a@.len() && i == b@.len() {
            assert(a@.len() != b@.len());
        }
    }
    if i == a.len() && i == b.len() {
        Placement::Same
    } else if i == a.len() {
        Placement::Before
    } else if i == b.len() {
        Placement::After
    } else if a[i] < b[i] {
        Placement::Before
    } else {
        Placement::After
    }
}

/// Whether a chain may name this filter: exactly when the name is one of
/// [`ALLOWED`], byte for byte.
pub fn allowed(name: &str) -> (r: bool)
    ensures
        r == allowed_names().contains(name@),
{
    proof {
        allowed_is_sorted();
    }
    let key = name.as_bytes();
    let mut low: usize = 0;
    let mut high: usize = ALLOWED_COUNT;
    while low < high
        invariant
            0 <= low <= high <= ALLOWED_COUNT,
            key@ == name.spec_bytes(),
            forall|i: int| 0 <= i < low ==> byte_less(#[trigger] allowed_bytes(i), key@),
            forall|i: int| high <= i < ALLOWED_COUNT ==> byte_less(key@, #[trigger] allowed_bytes(i)),
            forall|i: int, j: int|
                0 <= i < j < ALLOWED_COUNT ==> byte_less(#[trigger] allowed_bytes(i), #[trigger] allowed_bytes(j)),
        decreases high - low,
    {
        let middle = low + (high - low) / 2;
        let candidate = ALLOWED[middle].as_bytes();
        match place(candidate, key) {
            Placement::Same => {
                proof {
                    vstd::utf8::encode_utf8_decode_utf8(ALLOWED@[middle as int]@);
                    vstd::utf8::encode_utf8_decode_utf8(name@);
                    assert(allowed_names()[middle as int] == name@);
                }
                return true;
            },
            Placement::Before => {
                proof {
                    assert forall|i: int| 0 <= i < middle + 1 implies byte_less(#[trigger] allowed_bytes(i), key@) by {
                        if i < middle {
                            lemma_byte_less_transitive(allowed_bytes(i), allowed_bytes(middle as int), key@);
                        }
                    }
                }
                low = middle + 1;
            },
            Placement::After => {
                proof {
                    assert forall|i: int| middle <= i < ALLOWED_COUNT implies byte_less(key@, #[trigger] allowed_bytes(i)) by {
                        if i > middle {
                            lemma_byte_less_transitive(key@, allowed_bytes(middle as int), allowed_bytes(i));
                        }
                    }
                }
                high = middle;
            },
        }
    }
    proof {
        assert forall|i: int| 0 <= i < ALLOWED_COUNT implies #[trigger] allowed_names()[i] != name@ by {
            if allowed_names()[i] == name@ {
                assert(allowed_bytes(i) == key@);
                lemma_byte_less_irreflexive(key@);
            }
        }
    }
    false
}

} // verus!
