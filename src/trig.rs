use vstd::prelude::*;

verus! {

/// Sine of `d` whole degrees (`0 <= d <= 90`) in thousandths, rounded to nearest.
pub open spec fn quarter_sine(d: u32) -> int {
    match d {
        0 => 0,
        1 => 17,
        2 => 35,
        3 => 52,
        4 => 70,
        5 => 87,
        6 => 105,
        7 => 122,
        8 => 139,
        9 => 156,
        10 => 174,
        11 => 191,
        12 => 208,
        13 => 225,
        14 => 242,
        15 => 259,
        16 => 276,
        17 => 292,
        18 => 309,
        19 => 326,
        20 => 342,
        21 => 358,
        22 => 375,
        23 => 391,
        24 => 407,
        25 => 423,
        26 => 438,
        27 => 454,
        28 => 469,
        29 => 485,
        30 => 500,
        31 => 515,
        32 => 530,
        33 => 545,
        34 => 559,
        35 => 574,
        36 => 588,
        37 => 602,
        38 => 616,
        39 => 629,
        40 => 643,
        41 => 656,
        42 => 669,
        43 => 682,
        44 => 695,
        45 => 707,
        46 => 719,
        47 => 731,
        48 => 743,
        49 => 755,
        50 => 766,
        51 => 777,
        52 => 788,
        53 => 799,
        54 => 809,
        55 => 819,
        56 => 829,
        57 => 839,
        58 => 848,
        59 => 857,
        60 => 866,
        61 => 875,
        62 => 883,
        63 => 891,
        64 => 899,
        65 => 906,
        66 => 914,
        67 => 921,
        68 => 927,
        69 => 934,
        70 => 940,
        71 => 946,
        72 => 951,
        73 => 956,
        74 => 961,
        75 => 966,
        76 => 970,
        77 => 974,
        78 => 978,
        79 => 982,
        80 => 985,
        81 => 988,
        82 => 990,
        83 => 993,
        84 => 995,
        85 => 996,
        86 => 998,
        87 => 999,
        88 => 999,
        89 => 1000,
        _ => 1000,
    }
}

/// Sine of `deg` whole degrees (`0 <= deg < 360`) in thousandths.
pub open spec fn sine_milli(deg: u32) -> int {
    if deg <= 90 {
        quarter_sine(deg)
    } else if deg <= 180 {
        quarter_sine((180 - deg) as u32)
    } else if deg <= 270 {
        -quarter_sine((deg - 180) as u32)
    } else {
        -quarter_sine((360 - deg) as u32)
    }
}

/// Cosine of `deg` whole degrees (`0 <= deg < 360`) in thousandths.
pub open spec fn cosine_milli(deg: u32) -> int {
    sine_milli(((deg + 90) % 360) as u32)
}

fn quarter_sine_exec(d: u32) -> (r: i64)
    requires
        d <= 90,
    ensures
        r == quarter_sine(d),
{
    match d {
        0 => 0,
        1 => 17,
        2 => 35,
        3 => 52,
        4 => 70,
        5 => 87,
        6 => 105,
        7 => 122,
        8 => 139,
        9 => 156,
        10 => 174,
        11 => 191,
        12 => 208,
        13 => 225,
        14 => 242,
        15 => 259,
        16 => 276,
        17 => 292,
        18 => 309,
        19 => 326,
        20 => 342,
        21 => 358,
        22 => 375,
        23 => 391,
        24 => 407,
        25 => 423,
        26 => 438,
        27 => 454,
        28 => 469,
        29 => 485,
        30 => 500,
        31 => 515,
        32 => 530,
        33 => 545,
        34 => 559,
        35 => 574,
        36 => 588,
        37 => 602,
        38 => 616,
        39 => 629,
        40 => 643,
        41 => 656,
        42 => 669,
        43 => 682,
        44 => 695,
        45 => 707,
        46 => 719,
        47 => 731,
        48 => 743,
        49 => 755,
        50 => 766,
        51 => 777,
        52 => 788,
        53 => 799,
        54 => 809,
        55 => 819,
        56 => 829,
        57 => 839,
        58 => 848,
        59 => 857,
        60 => 866,
        61 => 875,
        62 => 883,
        63 => 891,
        64 => 899,
        65 => 906,
        66 => 914,
        67 => 921,
        68 => 927,
        69 => 934,
        70 => 940,
        71 => 946,
        72 => 951,
        73 => 956,
        74 => 961,
        75 => 966,
        76 => 970,
        77 => 974,
        78 => 978,
        79 => 982,
        80 => 985,
        81 => 988,
        82 => 990,
        83 => 993,
        84 => 995,
        85 => 996,
        86 => 998,
        87 => 999,
        88 => 999,
        89 => 1000,
        _ => 1000,
    }
}

/// Sine of `deg` whole degrees in thousandths.
pub fn sine(deg: u32) -> (r: i64)
    requires
        deg < 360,
    ensures
        r == sine_milli(deg),
        -1000 <= r <= 1000,
{
    if deg <= 90 {
        quarter_sine_exec(deg)
    } else if deg <= 180 {
        quarter_sine_exec(180 - deg)
    } else if deg <= 270 {
        -quarter_sine_exec(deg - 180)
    } else {
        -quarter_sine_exec(360 - deg)
    }
}

/// Cosine of `deg` whole degrees in thousandths.
pub fn cosine(deg: u32) -> (r: i64)
    requires
        deg < 360,
    ensures
        r == cosine_milli(deg),
        -1000 <= r <= 1000,
{
    sine((deg + 90) % 360)
}

} // verus!
