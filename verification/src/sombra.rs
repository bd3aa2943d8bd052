//! The shadow that a height casts under a sun at a whole number of degrees.
//!
//! A height `h` under a sun at angle `a` casts a shadow of `h / tan(a)`, that
//! is `h` times the cotangent of `a`. The cotangents of the whole degrees from
//! 1 to 89 are tabulated in ticks, each rounded to the nearest tick, so that a
//! shadow is an exact product of integers.
//!
//! What ties the table to the cotangent is its addition formula, which the
//! entries obey from each degree to the next as closely as rounded numbers
//! can, and the cotangent of 45 degrees, which is 1.

use crate::ESCALA;
use vstd::prelude::*;

verus! {

/// The cotangents of the whole degrees, in ticks: the entry at `a` is the
/// cotangent of `a` degrees, for `a` from 1 to 89. The entry at 0 stands for
/// no angle.
pub const COTANGENTES: [u128; 90] = [
    0,
    57_289_961_630_759_424_687,
    28_636_253_282_915_603_551,
    19_081_136_687_728_211_063,
    14_300_666_256_711_927_910,
    11_430_052_302_761_343_067,
    9_514_364_454_222_584_930,
    8_144_346_427_974_594_024,
    7_115_369_722_384_208_748,
    6_313_751_514_675_043_099,
    5_671_281_819_617_709_531,
    5_144_554_015_970_310_135,
    4_704_630_109_478_454_234,
    4_331_475_874_284_155_546,
    4_010_780_933_535_844_716,
    3_732_050_807_568_877_294,
    3_487_414_443_840_908_651,
    3_270_852_618_484_140_865,
    3_077_683_537_175_253_403,
    2_904_210_877_675_822_803,
    2_747_477_419_454_622_279,
    2_605_089_064_693_801_536,
    2_475_086_853_416_295_825,
    2_355_852_365_823_752_834,
    2_246_036_773_904_216_054,
    2_144_506_920_509_558_616,
    2_050_303_841_579_296_217,
    1_962_610_505_505_150_582,
    1_880_726_465_346_332_012,
    1_804_047_755_271_423_937,
    1_732_050_807_568_877_294,
    1_664_279_482_350_517_911,
    1_600_334_529_041_050_355,
    1_539_864_963_814_582_905,
    1_482_560_968_512_740_255,
    1_428_148_006_742_114_502,
    1_376_381_920_471_173_538,
    1_327_044_821_620_410_037,
    1_279_941_632_193_078_780,
    1_234_897_156_535_051_399,
    1_191_753_592_594_209_959,
    1_150_368_407_221_009_556,
    1_110_612_514_829_192_870,
    1_072_368_710_024_682_533,
    1_035_530_313_790_569_507,
    1_000_000_000_000_000_000,
    965_688_774_807_074_046,
    932_515_086_137_661_706,
    900_404_044_297_839_945,
    869_286_737_816_226_662,
    839_099_631_177_280_012,
    809_784_033_195_007_148,
    781_285_626_506_717_397,
    753_554_050_102_794_157,
    726_542_528_005_360_886,
    700_207_538_209_709_779,
    674_508_516_842_426_632,
    649_407_593_197_510_577,
    624_869_351_909_327_510,
    600_860_619_027_560_415,
    577_350_269_189_625_765,
    554_309_051_452_768_918,
    531_709_431_661_478_748,
    509_525_449_494_428_811,
    487_732_588_565_861_423,
    466_307_658_154_998_593,
    445_228_685_308_536_164,
    424_474_816_209_604_742,
    404_026_225_835_156_811,
    383_864_035_035_415_796,
    363_970_234_266_202_361,
    344_327_613_289_665_242,
    324_919_696_232_906_326,
    305_730_681_458_660_356,
    286_745_385_758_807_940,
    267_949_192_431_122_706,
    249_328_002_843_180_692,
    230_868_191_125_563_112,
    212_556_561_670_022_125,
    194_380_309_137_718_484,
    176_326_980_708_464_973,
    158_384_440_324_536_294,
    140_540_834_702_391_447,
    122_784_560_902_904_591,
    105_104_235_265_676_463,
    87_488_663_525_924_005,
    69_926_811_943_510_414,
    52_407_779_283_041_204,
    34_920_769_491_747_731,
    17_455_064_928_217_586,
];

/// Cotangent of `grados` degrees in ticks, for the degrees strictly between
/// 0 and 90; 0 for any other.
pub open spec fn cotangente(grados: u32) -> int {
    if 0 < grados < 90 {
        COTANGENTES[grados as int] as int
    } else {
        0
    }
}

/// The cotangents `x` of an angle and `y` of the angle one degree larger, in
/// ticks, obey the addition formula `y * (x + u) = x * u - 1`, where `u` is
/// the cotangent of one degree, as closely as three numbers can that are
/// rounded to the nearest tick: to within their sum.
pub open spec fn formula_de_la_suma(x: int, y: int) -> bool {
    let u = cotangente(1);
    let desvio = y * (x + u) - (x * u - ESCALA * ESCALA);
    -(x + y + u) <= desvio <= x + y + u
}

/// Length in ticks of the shadow of a height `h` under a sun at `theta`
/// degrees.
pub open spec fn sombra(h: u32, theta: u32) -> int {
    h * cotangente(theta)
}

/// Looks the cotangent up.
pub fn cotangente_de(grados: u32) -> (c: u128)
    ensures
        c == cotangente(grados),
{
    if 0 < grados && grados < 90 {
        COTANGENTES[grados as usize]
    } else {
        0
    }
}

/// From one degree to the next the cotangent falls, and it stays above zero
/// and within the cotangent of one degree.
pub proof fn lema_cotangente_paso(a: u32)
    requires
        0 < a < 90,
    ensures
        0 < cotangente(a) <= cotangente(1),
        a < 89 ==> cotangente(a) > cotangente((a + 1) as u32),
{
}

/// From each degree to the next the table obeys the addition formula of the
/// cotangent.
pub proof fn lema_cotangente_suma(a: u32)
    requires
        0 < a < 89,
    ensures
        formula_de_la_suma(cotangente(a), cotangente((a + 1) as u32)),
{
    match a {
        1 => assert(formula_de_la_suma(57_289_961_630_759_424_687, 28_636_253_282_915_603_551)),
        2 => assert(formula_de_la_suma(28_636_253_282_915_603_551, 19_081_136_687_728_211_063)),
        3 => assert(formula_de_la_suma(19_081_136_687_728_211_063, 14_300_666_256_711_927_910)),
        4 => assert(formula_de_la_suma(14_300_666_256_711_927_910, 11_430_052_302_761_343_067)),
        5 => assert(formula_de_la_suma(11_430_052_302_761_343_067, 9_514_364_454_222_584_930)),
        6 => assert(formula_de_la_suma(9_514_364_454_222_584_930, 8_144_346_427_974_594_024)),
        7 => assert(formula_de_la_suma(8_144_346_427_974_594_024, 7_115_369_722_384_208_748)),
        8 => assert(formula_de_la_suma(7_115_369_722_384_208_748, 6_313_751_514_675_043_099)),
        9 => assert(formula_de_la_suma(6_313_751_514_675_043_099, 5_671_281_819_617_709_531)),
        10 => assert(formula_de_la_suma(5_671_281_819_617_709_531, 5_144_554_015_970_310_135)),
        11 => assert(formula_de_la_suma(5_144_554_015_970_310_135, 4_704_630_109_478_454_234)),
        12 => assert(formula_de_la_suma(4_704_630_109_478_454_234, 4_331_475_874_284_155_546)),
        13 => assert(formula_de_la_suma(4_331_475_874_284_155_546, 4_010_780_933_535_844_716)),
        14 => assert(formula_de_la_suma(4_010_780_933_535_844_716, 3_732_050_807_568_877_294)),
        15 => assert(formula_de_la_suma(3_732_050_807_568_877_294, 3_487_414_443_840_908_651)),
        16 => assert(formula_de_la_suma(3_487_414_443_840_908_651, 3_270_852_618_484_140_865)),
        17 => assert(formula_de_la_suma(3_270_852_618_484_140_865, 3_077_683_537_175_253_403)),
        18 => assert(formula_de_la_suma(3_077_683_537_175_253_403, 2_904_210_877_675_822_803)),
        19 => assert(formula_de_la_suma(2_904_210_877_675_822_803, 2_747_477_419_454_622_279)),
        20 => assert(formula_de_la_suma(2_747_477_419_454_622_279, 2_605_089_064_693_801_536)),
        21 => assert(formula_de_la_suma(2_605_089_064_693_801_536, 2_475_086_853_416_295_825)),
        22 => assert(formula_de_la_suma(2_475_086_853_416_295_825, 2_355_852_365_823_752_834)),
        23 => assert(formula_de_la_suma(2_355_852_365_823_752_834, 2_246_036_773_904_216_054)),
        24 => assert(formula_de_la_suma(2_246_036_773_904_216_054, 2_144_506_920_509_558_616)),
        25 => assert(formula_de_la_suma(2_144_506_920_509_558_616, 2_050_303_841_579_296_217)),
        26 => assert(formula_de_la_suma(2_050_303_841_579_296_217, 1_962_610_505_505_150_582)),
        27 => assert(formula_de_la_suma(1_962_610_505_505_150_582, 1_880_726_465_346_332_012)),
        28 => assert(formula_de_la_suma(1_880_726_465_346_332_012, 1_804_047_755_271_423_937)),
        29 => assert(formula_de_la_suma(1_804_047_755_271_423_937, 1_732_050_807_568_877_294)),
        30 => assert(formula_de_la_suma(1_732_050_807_568_877_294, 1_664_279_482_350_517_911)),
        31 => assert(formula_de_la_suma(1_664_279_482_350_517_911, 1_600_334_529_041_050_355)),
        32 => assert(formula_de_la_suma(1_600_334_529_041_050_355, 1_539_864_963_814_582_905)),
        33 => assert(formula_de_la_suma(1_539_864_963_814_582_905, 1_482_560_968_512_740_255)),
        34 => assert(formula_de_la_suma(1_482_560_968_512_740_255, 1_428_148_006_742_114_502)),
        35 => assert(formula_de_la_suma(1_428_148_006_742_114_502, 1_376_381_920_471_173_538)),
        36 => assert(formula_de_la_suma(1_376_381_920_471_173_538, 1_327_044_821_620_410_037)),
        37 => assert(formula_de_la_suma(1_327_044_821_620_410_037, 1_279_941_632_193_078_780)),
        38 => assert(formula_de_la_suma(1_279_941_632_193_078_780, 1_234_897_156_535_051_399)),
        39 => assert(formula_de_la_suma(1_234_897_156_535_051_399, 1_191_753_592_594_209_959)),
        40 => assert(formula_de_la_suma(1_191_753_592_594_209_959, 1_150_368_407_221_009_556)),
        41 => assert(formula_de_la_suma(1_150_368_407_221_009_556, 1_110_612_514_829_192_870)),
        42 => assert(formula_de_la_suma(1_110_612_514_829_192_870, 1_072_368_710_024_682_533)),
        43 => assert(formula_de_la_suma(1_072_368_710_024_682_533, 1_035_530_313_790_569_507)),
        44 => assert(formula_de_la_suma(1_035_530_313_790_569_507, 1_000_000_000_000_000_000)),
        45 => assert(formula_de_la_suma(1_000_000_000_000_000_000, 965_688_774_807_074_046)),
        46 => assert(formula_de_la_suma(965_688_774_807_074_046, 932_515_086_137_661_706)),
        47 => assert(formula_de_la_suma(932_515_086_137_661_706, 900_404_044_297_839_945)),
        48 => assert(formula_de_la_suma(900_404_044_297_839_945, 869_286_737_816_226_662)),
        49 => assert(formula_de_la_suma(869_286_737_816_226_662, 839_099_631_177_280_012)),
        50 => assert(formula_de_la_suma(839_099_631_177_280_012, 809_784_033_195_007_148)),
        51 => assert(formula_de_la_suma(809_784_033_195_007_148, 781_285_626_506_717_397)),
        52 => assert(formula_de_la_suma(781_285_626_506_717_397, 753_554_050_102_794_157)),
        53 => assert(formula_de_la_suma(753_554_050_102_794_157, 726_542_528_005_360_886)),
        54 => assert(formula_de_la_suma(726_542_528_005_360_886, 700_207_538_209_709_779)),
        55 => assert(formula_de_la_suma(700_207_538_209_709_779, 674_508_516_842_426_632)),
        56 => assert(formula_de_la_suma(674_508_516_842_426_632, 649_407_593_197_510_577)),
        57 => assert(formula_de_la_suma(649_407_593_197_510_577, 624_869_351_909_327_510)),
        58 => assert(formula_de_la_suma(624_869_351_909_327_510, 600_860_619_027_560_415)),
        59 => assert(formula_de_la_suma(600_860_619_027_560_415, 577_350_269_189_625_765)),
        60 => assert(formula_de_la_suma(577_350_269_189_625_765, 554_309_051_452_768_918)),
        61 => assert(formula_de_la_suma(554_309_051_452_768_918, 531_709_431_661_478_748)),
        62 => assert(formula_de_la_suma(531_709_431_661_478_748, 509_525_449_494_428_811)),
        63 => assert(formula_de_la_suma(509_525_449_494_428_811, 487_732_588_565_861_423)),
        64 => assert(formula_de_la_suma(487_732_588_565_861_423, 466_307_658_154_998_593)),
        65 => assert(formula_de_la_suma(466_307_658_154_998_593, 445_228_685_308_536_164)),
        66 => assert(formula_de_la_suma(445_228_685_308_536_164, 424_474_816_209_604_742)),
        67 => assert(formula_de_la_suma(424_474_816_209_604_742, 404_026_225_835_156_811)),
        68 => assert(formula_de_la_suma(404_026_225_835_156_811, 383_864_035_035_415_796)),
        69 => assert(formula_de_la_suma(383_864_035_035_415_796, 363_970_234_266_202_361)),
        70 => assert(formula_de_la_suma(363_970_234_266_202_361, 344_327_613_289_665_242)),
        71 => assert(formula_de_la_suma(344_327_613_289_665_242, 324_919_696_232_906_326)),
        72 => assert(formula_de_la_suma(324_919_696_232_906_326, 305_730_681_458_660_356)),
        73 => assert(formula_de_la_suma(305_730_681_458_660_356, 286_745_385_758_807_940)),
        74 => assert(formula_de_la_suma(286_745_385_758_807_940, 267_949_192_431_122_706)),
        75 => assert(formula_de_la_suma(267_949_192_431_122_706, 249_328_002_843_180_692)),
        76 => assert(formula_de_la_suma(249_328_002_843_180_692, 230_868_191_125_563_112)),
        77 => assert(formula_de_la_suma(230_868_191_125_563_112, 212_556_561_670_022_125)),
        78 => assert(formula_de_la_suma(212_556_561_670_022_125, 194_380_309_137_718_484)),
        79 => assert(formula_de_la_suma(194_380_309_137_718_484, 176_326_980_708_464_973)),
        80 => assert(formula_de_la_suma(176_326_980_708_464_973, 158_384_440_324_536_294)),
        81 => assert(formula_de_la_suma(158_384_440_324_536_294, 140_540_834_702_391_447)),
        82 => assert(formula_de_la_suma(140_540_834_702_391_447, 122_784_560_902_904_591)),
        83 => assert(formula_de_la_suma(122_784_560_902_904_591, 105_104_235_265_676_463)),
        84 => assert(formula_de_la_suma(105_104_235_265_676_463, 87_488_663_525_924_005)),
        85 => assert(formula_de_la_suma(87_488_663_525_924_005, 69_926_811_943_510_414)),
        86 => assert(formula_de_la_suma(69_926_811_943_510_414, 52_407_779_283_041_204)),
        87 => assert(formula_de_la_suma(52_407_779_283_041_204, 34_920_769_491_747_731)),
        88 => assert(formula_de_la_suma(34_920_769_491_747_731, 17_455_064_928_217_586)),
        _ => {},
    }
}

/// The cotangent falls as the angle grows.
pub proof fn lema_cotangente_decrece(a: u32, b: u32)
    requires
        0 < a < b < 90,
    ensures
        cotangente(a) > cotangente(b),
    decreases b - a,
{
    lema_cotangente_paso(a);
    if a + 1 < b {
        lema_cotangente_decrece((a + 1) as u32, b);
    }
}

/// Computes the shadow of a height.
pub fn calcular_sombra(h: u32, theta: u32) -> (l: u128)
    requires
        0 < theta < 90,
    ensures
        l == sombra(h, theta),
        l <= 0xFFFF_FFFF * cotangente(1),
{
    let c: u128 = cotangente_de(theta);
    proof {
        lema_cotangente_paso(theta);
        assert(h * c <= 0xFFFF_FFFF * cotangente(1)) by (nonlinear_arith)
            requires
                0 <= h <= 0xFFFF_FFFF,
                0 <= c <= cotangente(1),
        ;
    }
    (h as u128) * c
}

} // verus!
