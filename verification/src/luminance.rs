//! Relative luminance of 8-bit sRGB colors, in fixed point.
//!
//! A channel value `c` is normalized to `c / 255` and linearized by the
//! sRGB transfer function: `x / 12.92` when `x <= 0.04045`, and
//! `((x + 0.055) / 1.055) ^ 2.4` above the breakpoint. Linear channel
//! values are held as integers scaled by [`LIN_ONE`], rounded to
//! nearest, so 1.0 is exactly `LIN_ONE`. Relative luminance combines
//! the linear channels with the WCAG / Rec. 709 weights 0.2126, 0.7152
//! and 0.0722; with the weights taken as parts in 10000, 1.0 is exactly
//! [`LUM_ONE`].

use vstd::prelude::*;

verus! {

/// The fixed-point value of a full linear channel: 1.0 scaled by 10^7.
pub const LIN_ONE: u64 = 10000000;

/// The fixed-point value of full luminance: 1.0 scaled by 10^11.
pub const LUM_ONE: u64 = 100000000000;

/// Linearized value of each 8-bit sRGB channel, scaled by [`LIN_ONE`]:
/// entry `c` is the sRGB transfer function applied to `c / 255`,
/// rounded to the nearest multiple of 10^-7.
pub const SRGB_LINEAR: [u64; 256] = [
    0, 3035, 6071, 9106, 12141, 15176, 18212, 21247,
    24282, 27317, 30353, 33465, 36765, 40247, 43914, 47770,
    51815, 56054, 60488, 65121, 69954, 74990, 80232, 85681,
    91341, 97212, 103298, 109601, 116122, 122865, 129830, 137021,
    144438, 152085, 159963, 168074, 176420, 185002, 193824, 202886,
    212190, 221739, 231534, 241576, 251869, 262412, 273209, 284260,
    295568, 307134, 318960, 331048, 343398, 356013, 368895, 382044,
    395462, 409152, 423114, 437350, 451862, 466651, 481718, 497066,
    512695, 528606, 544803, 561285, 578054, 595112, 612461, 630100,
    648033, 666259, 684782, 703601, 722719, 742136, 761854, 781874,
    802198, 822827, 843762, 865005, 886556, 908417, 930590, 953075,
    975873, 998987, 1022417, 1046165, 1070231, 1094617, 1119324, 1144354,
    1169707, 1195384, 1221388, 1247718, 1274377, 1301365, 1328683, 1356333,
    1384316, 1412633, 1441285, 1470273, 1499598, 1529262, 1559265, 1589608,
    1620294, 1651322, 1682694, 1714411, 1746474, 1778884, 1811642, 1844750,
    1878208, 1912017, 1946178, 1980693, 2015563, 2050787, 2086369, 2122308,
    2158605, 2195262, 2232280, 2269659, 2307400, 2345506, 2383976, 2422811,
    2462013, 2501583, 2541521, 2581829, 2622507, 2663556, 2704978, 2746773,
    2788943, 2831487, 2874408, 2917706, 2961383, 3005438, 3049873, 3094689,
    3139887, 3185468, 3231432, 3277781, 3324515, 3371636, 3419144, 3467041,
    3515326, 3564001, 3613068, 3662526, 3712377, 3762621, 3813260, 3864294,
    3915725, 3967552, 4019778, 4072402, 4125426, 4178851, 4232677, 4286905,
    4341536, 4396572, 4452012, 4507858, 4564110, 4620770, 4677838, 4735315,
    4793202, 4851499, 4910208, 4969330, 5028865, 5088813, 5149177, 5209956,
    5271151, 5332764, 5394795, 5457245, 5520114, 5583404, 5647115, 5711248,
    5775804, 5840784, 5906188, 5972018, 6038273, 6104956, 6172066, 6239604,
    6307571, 6375969, 6444797, 6514056, 6583748, 6653873, 6724432, 6795425,
    6866853, 6938718, 7011019, 7083758, 7156935, 7230551, 7304607, 7379104,
    7454042, 7529422, 7605245, 7681511, 7758222, 7835378, 7912979, 7991027,
    8069523, 8148466, 8227858, 8307699, 8387990, 8468732, 8549926, 8631572,
    8713671, 8796224, 8879231, 8962694, 9046612, 9130987, 9215819, 9301109,
    9386857, 9473065, 9559734, 9646862, 9734453, 9822506, 9911021, 10000000,
];

/// The linear (gamma-expanded) value of an 8-bit sRGB channel, scaled
/// by [`LIN_ONE`].
pub open spec fn spec_linear_of(c: u8) -> u64 {
    SRGB_LINEAR[c as int]
}

/// Linearization is bounded by [`LIN_ONE`], exact at the endpoints, and
/// strictly increasing in the channel value.
pub proof fn lemma_linear_of_properties()
    ensures
        forall|c: u8| spec_linear_of(c) <= LIN_ONE,
        spec_linear_of(0) == 0,
        spec_linear_of(255) == LIN_ONE,
        forall|a: u8, b: u8| a < b ==> spec_linear_of(a) < spec_linear_of(b),
{
}

/// Linearizes one 8-bit sRGB channel.
pub fn srgb_u8_to_linear(c: u8) -> (r: u64)
    ensures
        r == spec_linear_of(c),
        r <= LIN_ONE,
{
    SRGB_LINEAR[c as usize]
}

/// WCAG relative luminance of an 8-bit sRGB color, scaled by
/// [`LUM_ONE`]: the linear channels weighted by 0.2126, 0.7152 and
/// 0.0722.
pub open spec fn spec_luminance(r: u8, g: u8, b: u8) -> int {
    2126 * spec_linear_of(r) + 7152 * spec_linear_of(g) + 722 * spec_linear_of(b)
}

/// Computes relative luminance, suitable for WCAG contrast decisions.
/// Black maps to 0 and white to exactly [`LUM_ONE`].
pub fn luminance_from_u8(r: u8, g: u8, b: u8) -> (y: u64)
    ensures
        y == spec_luminance(r, g, b),
        y <= LUM_ONE,
{
    let lr = srgb_u8_to_linear(r);
    let lg = srgb_u8_to_linear(g);
    let lb = srgb_u8_to_linear(b);
    2126 * lr + 7152 * lg + 722 * lb
}

/// Luminance reaches its extremes exactly: 0 on black, [`LUM_ONE`] on
/// white.
pub proof fn lemma_luminance_extremes()
    ensures
        spec_luminance(0, 0, 0) == 0,
        spec_luminance(255, 255, 255) == LUM_ONE,
{
}

/// The least scaled linear value that encodes to each 8-bit sRGB
/// channel value: entry `v` is the inverse transfer function applied to
/// `(v - 0.5) / 255` (the rounding boundary below `v`), scaled by
/// [`LIN_ONE`] and rounded up; entry 0 is 0. Gamma compression of a
/// linear value `x` rounds to the largest `v` whose entry is at most
/// `x`.
pub const SRGB_ENCODE_MIN: [u64; 256] = [
    0, 1518, 4553, 7589, 10624, 13659, 16694, 19730,
    22765, 25800, 28836, 31884, 35093, 38484, 42058, 45819,
    49769, 53911, 58247, 62780, 67513, 72447, 77586, 82931,
    88485, 94250, 100229, 106423, 112835, 119466, 126320, 133398,
    140702, 148234, 155996, 163990, 172218, 180682, 189383, 198325,
    207508, 216934, 226606, 236524, 246692, 257109, 267779, 278703,
    289883, 301320, 313015, 324972, 337190, 349673, 362421, 375436,
    388720, 402274, 416099, 430198, 444572, 459222, 474150, 489357,
    504845, 520616, 536669, 553009, 569634, 586548, 603751, 621244,
    639030, 657110, 675484, 694155, 713123, 732390, 751958, 771827,
    791999, 812475, 833257, 854345, 875742, 897448, 919465, 941794,
    964435, 987391, 1010663, 1034252, 1058159, 1082385, 1106931, 1131799,
    1156990, 1182505, 1208346, 1234512, 1261007, 1287830, 1314983, 1342467,
    1370284, 1398433, 1426917, 1455737, 1484894, 1514388, 1544221, 1574394,
    1604909, 1635765, 1666965, 1698510, 1730400, 1762636, 1795220, 1828153,
    1861435, 1895069, 1929054, 1963392, 1998084, 2033131, 2068534, 2104294,
    2140412, 2176889, 2213726, 2250924, 2288485, 2326408, 2364696, 2403348,
    2442367, 2481753, 2521506, 2561629, 2602122, 2642985, 2684221, 2725829,
    2767812, 2810169, 2852901, 2896011, 2939498, 2983363, 3027608, 3072234,
    3117241, 3162630, 3208402, 3254559, 3301100, 3348028, 3395342, 3443044,
    3491135, 3539615, 3588486, 3637748, 3687403, 3737450, 3787892, 3838728,
    3889960, 3941589, 3993616, 4046041, 4098865, 4152089, 4205714, 4259741,
    4314171, 4369004, 4424242, 4479885, 4535934, 4592390, 4649253, 4706526,
    4764208, 4822300, 4880803, 4939718, 4999046, 5058788, 5118944, 5179515,
    5240502, 5301906, 5363728, 5425968, 5488627, 5551707, 5615207, 5679129,
    5743474, 5808242, 5873434, 5939050, 6005093, 6071562, 6138458, 6205782,
    6273534, 6341717, 6410329, 6479373, 6548849, 6618757, 6689099, 6759874,
    6831085, 6902731, 6974814, 7047334, 7120292, 7193689, 7267525, 7341801,
    7416518, 7491677, 7567279, 7643323, 7719812, 7796745, 7874123, 7951948,
    8030220, 8108939, 8188106, 8267722, 8347789, 8428305, 8509273, 8590693,
    8672565, 8754891, 8837671, 8920906, 9004596, 9088743, 9173346, 9258407,
    9343926, 9429904, 9516342, 9603241, 9690600, 9778422, 9866706, 9955453,
];

/// The encode threshold of channel value `v`.
pub open spec fn spec_encode_min(v: int) -> u64 {
    SRGB_ENCODE_MIN[v]
}

/// Encode thresholds rise with the channel value.
pub proof fn lemma_encode_min_mono()
    ensures
        forall|a: int, b: int| 0 <= a <= b < 256 ==> spec_encode_min(a) <= spec_encode_min(b),
        spec_encode_min(0) == 0,
{
}

/// The largest channel value `v` at or below `hi` whose encode
/// threshold is at most `x`.
pub open spec fn spec_encode_rec(x: u64, hi: int) -> int
    decreases hi,
{
    if hi <= 0 {
        0
    } else if spec_encode_min(hi) <= x {
        hi
    } else {
        spec_encode_rec(x, hi - 1)
    }
}

/// The 8-bit sRGB channel value nearest to a scaled linear value `x`:
/// gamma compression followed by rounding to 8 bits.
pub open spec fn spec_srgb_encode(x: u64) -> int {
    spec_encode_rec(x, 255)
}

/// Compresses a scaled linear channel value back to the nearest 8-bit
/// sRGB channel value. Inverse of [`srgb_u8_to_linear`] up to rounding:
/// exact on every value that [`srgb_u8_to_linear`] returns.
pub fn linear_to_srgb_u8(x: u64) -> (v: u8)
    ensures
        v == spec_srgb_encode(x),
{
    let mut hi: usize = 255;
    loop
        invariant
            hi <= 255,
            spec_srgb_encode(x) == spec_encode_rec(x, hi as int),
        ensures
            hi as int == spec_srgb_encode(x),
        decreases hi,
    {
        if SRGB_ENCODE_MIN[hi] <= x {
            break;
        }
        if hi == 0 {
            break;
        }
        hi = hi - 1;
    }
    hi as u8
}

/// Linearizing a channel and compressing again restores the channel.
pub proof fn lemma_encode_after_linear()
    ensures
        forall|c: u8| #[trigger] spec_srgb_encode(spec_linear_of(c)) == c,
{
    assert forall|c: u8| #[trigger] spec_srgb_encode(spec_linear_of(c)) == c by {
        lemma_encode_rec_value(spec_linear_of(c), 255, c as int);
    }
}

/// The recursive encode search returns `v` when the thresholds around
/// `v` bracket `x`.
proof fn lemma_encode_rec_value(x: u64, hi: int, v: int)
    requires
        0 <= v <= hi <= 255,
        spec_encode_min(v) <= x,
        v < 255 ==> x < spec_encode_min(v + 1),
    ensures
        spec_encode_rec(x, hi) == v,
    decreases hi,
{
    lemma_encode_min_mono();
    if hi > v {
        assert(spec_encode_min(v + 1) <= spec_encode_min(hi));
        lemma_encode_rec_value(x, hi - 1, v);
    }
}

} // verus!

