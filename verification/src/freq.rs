//! The fixed table of named frequencies a node can select, and the node
//! parameters themselves.
//!
//! Frequencies are stored in fixed point, scaled by 2^20: an entry `f`
//! stands for `f / 1048576` Hz. The table mixes slow "beat" periods (whole
//! seconds and fractions) with musical pitches.

use vstd::prelude::*;

verus! {

/// Number of entries in the frequency table.
pub const FREQ_COUNT: u32 = 133;

/// One Hz, in the table's fixed-point scale (2^20).
pub const FREQ_SCALE: u64 = 1048576;

/// The largest scaled frequency in the table.
pub const MAX_FREQ_SCALED: u64 = 8285986824;

/// The frequency selected for new nodes: the one-second beat.
pub const DEFAULT_FREQUENCY: u32 = 16;

/// The table index of the musical pitch A4 (440 Hz).
pub const NOTE_A4: u32 = 82;

/// The scaled frequency of table entry `i`.
pub open spec fn spec_frequency(i: int) -> u64 {
    if i == 0 {
        4096
    } else
    if i == 1 {
        5461
    } else
    if i == 2 {
        8192
    } else
    if i == 3 {
        10923
    } else
    if i == 4 {
        16384
    } else
    if i == 5 {
        21845
    } else
    if i == 6 {
        32768
    } else
    if i == 7 {
        43691
    } else
    if i == 8 {
        65536
    } else
    if i == 9 {
        87381
    } else
    if i == 10 {
        131072
    } else
    if i == 11 {
        174763
    } else
    if i == 12 {
        262144
    } else
    if i == 13 {
        349525
    } else
    if i == 14 {
        524288
    } else
    if i == 15 {
        699051
    } else
    if i == 16 {
        1048576
    } else
    if i == 17 {
        1398101
    } else
    if i == 18 {
        2097152
    } else
    if i == 19 {
        2796203
    } else
    if i == 20 {
        4194304
    } else
    if i == 21 {
        5592405
    } else
    if i == 22 {
        8388608
    } else
    if i == 23 {
        11184811
    } else
    if i == 24 {
        16777216
    } else
    if i == 25 {
        17145893
    } else
    if i == 26 {
        18165441
    } else
    if i == 27 {
        19245614
    } else
    if i == 28 {
        20390018
    } else
    if i == 29 {
        21602472
    } else
    if i == 30 {
        22887021
    } else
    if i == 31 {
        24247954
    } else
    if i == 32 {
        25689813
    } else
    if i == 33 {
        27217409
    } else
    if i == 34 {
        28835840
    } else
    if i == 35 {
        30550508
    } else
    if i == 36 {
        32367136
    } else
    if i == 37 {
        34291786
    } else
    if i == 38 {
        36330882
    } else
    if i == 39 {
        38491228
    } else
    if i == 40 {
        40780036
    } else
    if i == 41 {
        43204943
    } else
    if i == 42 {
        45774043
    } else
    if i == 43 {
        48495909
    } else
    if i == 44 {
        51379626
    } else
    if i == 45 {
        54434817
    } else
    if i == 46 {
        57671680
    } else
    if i == 47 {
        61101017
    } else
    if i == 48 {
        64734272
    } else
    if i == 49 {
        68583572
    } else
    if i == 50 {
        72661764
    } else
    if i == 51 {
        76982457
    } else
    if i == 52 {
        81560072
    } else
    if i == 53 {
        86409886
    } else
    if i == 54 {
        91548086
    } else
    if i == 55 {
        96991818
    } else
    if i == 56 {
        102759252
    } else
    if i == 57 {
        108869635
    } else
    if i == 58 {
        115343360
    } else
    if i == 59 {
        122202033
    } else
    if i == 60 {
        129468544
    } else
    if i == 61 {
        137167144
    } else
    if i == 62 {
        145323527
    } else
    if i == 63 {
        153964914
    } else
    if i == 64 {
        163120144
    } else
    if i == 65 {
        172819773
    } else
    if i == 66 {
        183096171
    } else
    if i == 67 {
        193983636
    } else
    if i == 68 {
        205518503
    } else
    if i == 69 {
        217739269
    } else
    if i == 70 {
        230686720
    } else
    if i == 71 {
        244404066
    } else
    if i == 72 {
        258937088
    } else
    if i == 73 {
        274334289
    } else
    if i == 74 {
        290647054
    } else
    if i == 75 {
        307929828
    } else
    if i == 76 {
        326240288
    } else
    if i == 77 {
        345639545
    } else
    if i == 78 {
        366192342
    } else
    if i == 79 {
        387967272
    } else
    if i == 80 {
        411037006
    } else
    if i == 81 {
        435478539
    } else
    if i == 82 {
        461373440
    } else
    if i == 83 {
        488808132
    } else
    if i == 84 {
        517874176
    } else
    if i == 85 {
        548668578
    } else
    if i == 86 {
        581294109
    } else
    if i == 87 {
        615859655
    } else
    if i == 88 {
        652480576
    } else
    if i == 89 {
        691279090
    } else
    if i == 90 {
        732384684
    } else
    if i == 91 {
        775934544
    } else
    if i == 92 {
        822074013
    } else
    if i == 93 {
        870957077
    } else
    if i == 94 {
        922746880
    } else
    if i == 95 {
        977616265
    } else
    if i == 96 {
        1035748353
    } else
    if i == 97 {
        1097337155
    } else
    if i == 98 {
        1162588218
    } else
    if i == 99 {
        1231719311
    } else
    if i == 100 {
        1304961152
    } else
    if i == 101 {
        1382558180
    } else
    if i == 102 {
        1464769368
    } else
    if i == 103 {
        1551869087
    } else
    if i == 104 {
        1644148025
    } else
    if i == 105 {
        1741914154
    } else
    if i == 106 {
        1845493760
    } else
    if i == 107 {
        1955232530
    } else
    if i == 108 {
        2071496706
    } else
    if i == 109 {
        2194674310
    } else
    if i == 110 {
        2325176436
    } else
    if i == 111 {
        2463438621
    } else
    if i == 112 {
        2609922305
    } else
    if i == 113 {
        2765116361
    } else
    if i == 114 {
        2929538736
    } else
    if i == 115 {
        3103738174
    } else
    if i == 116 {
        3288296050
    } else
    if i == 117 {
        3483828309
    } else
    if i == 118 {
        3690987520
    } else
    if i == 119 {
        3910465059
    } else
    if i == 120 {
        4142993412
    } else
    if i == 121 {
        4389348620
    } else
    if i == 122 {
        4650352871
    } else
    if i == 123 {
        4926877243
    } else
    if i == 124 {
        5219844609
    } else
    if i == 125 {
        5530232722
    } else
    if i == 126 {
        5859077472
    } else
    if i == 127 {
        6207476349
    } else
    if i == 128 {
        6576592100
    } else
    if i == 129 {
        6967656617
    } else
    if i == 130 {
        7381975040
    } else
    if i == 131 {
        7820930118
    } else
     {
        8285986824
    }
}

/// Looks up the scaled frequency of table entry `i`.
pub fn frequency_scaled(i: u32) -> (r: u64)
    requires
        i < 133,
    ensures
        r == spec_frequency(i as int),
        0 < r <= MAX_FREQ_SCALED,
{
    match i {
        0 => 4096,
        1 => 5461,
        2 => 8192,
        3 => 10923,
        4 => 16384,
        5 => 21845,
        6 => 32768,
        7 => 43691,
        8 => 65536,
        9 => 87381,
        10 => 131072,
        11 => 174763,
        12 => 262144,
        13 => 349525,
        14 => 524288,
        15 => 699051,
        16 => 1048576,
        17 => 1398101,
        18 => 2097152,
        19 => 2796203,
        20 => 4194304,
        21 => 5592405,
        22 => 8388608,
        23 => 11184811,
        24 => 16777216,
        25 => 17145893,
        26 => 18165441,
        27 => 19245614,
        28 => 20390018,
        29 => 21602472,
        30 => 22887021,
        31 => 24247954,
        32 => 25689813,
        33 => 27217409,
        34 => 28835840,
        35 => 30550508,
        36 => 32367136,
        37 => 34291786,
        38 => 36330882,
        39 => 38491228,
        40 => 40780036,
        41 => 43204943,
        42 => 45774043,
        43 => 48495909,
        44 => 51379626,
        45 => 54434817,
        46 => 57671680,
        47 => 61101017,
        48 => 64734272,
        49 => 68583572,
        50 => 72661764,
        51 => 76982457,
        52 => 81560072,
        53 => 86409886,
        54 => 91548086,
        55 => 96991818,
        56 => 102759252,
        57 => 108869635,
        58 => 115343360,
        59 => 122202033,
        60 => 129468544,
        61 => 137167144,
        62 => 145323527,
        63 => 153964914,
        64 => 163120144,
        65 => 172819773,
        66 => 183096171,
        67 => 193983636,
        68 => 205518503,
        69 => 217739269,
        70 => 230686720,
        71 => 244404066,
        72 => 258937088,
        73 => 274334289,
        74 => 290647054,
        75 => 307929828,
        76 => 326240288,
        77 => 345639545,
        78 => 366192342,
        79 => 387967272,
        80 => 411037006,
        81 => 435478539,
        82 => 461373440,
        83 => 488808132,
        84 => 517874176,
        85 => 548668578,
        86 => 581294109,
        87 => 615859655,
        88 => 652480576,
        89 => 691279090,
        90 => 732384684,
        91 => 775934544,
        92 => 822074013,
        93 => 870957077,
        94 => 922746880,
        95 => 977616265,
        96 => 1035748353,
        97 => 1097337155,
        98 => 1162588218,
        99 => 1231719311,
        100 => 1304961152,
        101 => 1382558180,
        102 => 1464769368,
        103 => 1551869087,
        104 => 1644148025,
        105 => 1741914154,
        106 => 1845493760,
        107 => 1955232530,
        108 => 2071496706,
        109 => 2194674310,
        110 => 2325176436,
        111 => 2463438621,
        112 => 2609922305,
        113 => 2765116361,
        114 => 2929538736,
        115 => 3103738174,
        116 => 3288296050,
        117 => 3483828309,
        118 => 3690987520,
        119 => 3910465059,
        120 => 4142993412,
        121 => 4389348620,
        122 => 4650352871,
        123 => 4926877243,
        124 => 5219844609,
        125 => 5530232722,
        126 => 5859077472,
        127 => 6207476349,
        128 => 6576592100,
        129 => 6967656617,
        130 => 7381975040,
        131 => 7820930118,
        _ => 8285986824,
    }
}

/// The display label of table entry `i` (a pitch name or a beat period).
pub fn frequency_name(i: u32) -> (r: &'static str)
    requires
        i < 133,
    ensures
        i == 0 ==> r@ == "4m16s"@,
        i == 16 ==> r@ == "1s"@,
        i == 82 ==> r@ == "A4"@,
        i == 132 ==> r@ == "B8"@,
{
    match i {
        0 => "4m16s",
        1 => "3m12s",
        2 => "2m8s",
        3 => "1m36s",
        4 => "1m4s",
        5 => "48s",
        6 => "32s",
        7 => "24s",
        8 => "16s",
        9 => "12s",
        10 => "8s",
        11 => "6s",
        12 => "4s",
        13 => "3s",
        14 => "2s",
        15 => "1.5s",
        16 => "1s",
        17 => "3/4",
        18 => "1/2",
        19 => "3/8",
        20 => "1/4",
        21 => "3/16",
        22 => "1/8",
        23 => "3/32",
        24 => "1/16",
        25 => "C0",
        26 => "C#0",
        27 => "D0",
        28 => "D#0",
        29 => "E0",
        30 => "F0",
        31 => "F#0",
        32 => "G0",
        33 => "G#0",
        34 => "A0",
        35 => "A#0",
        36 => "B0",
        37 => "C1",
        38 => "C#1",
        39 => "D1",
        40 => "D#1",
        41 => "E1",
        42 => "F1",
        43 => "F#1",
        44 => "G1",
        45 => "G#1",
        46 => "A1",
        47 => "A#1",
        48 => "B1",
        49 => "C2",
        50 => "C#2",
        51 => "D2",
        52 => "D#2",
        53 => "E2",
        54 => "F2",
        55 => "F#2",
        56 => "G2",
        57 => "G#2",
        58 => "A2",
        59 => "A#2",
        60 => "B2",
        61 => "C3",
        62 => "C#3",
        63 => "D3",
        64 => "D#3",
        65 => "E3",
        66 => "F3",
        67 => "F#3",
        68 => "G3",
        69 => "G#3",
        70 => "A3",
        71 => "A#3",
        72 => "B3",
        73 => "C4",
        74 => "C#4",
        75 => "D4",
        76 => "D#4",
        77 => "E4",
        78 => "F4",
        79 => "F#4",
        80 => "G4",
        81 => "G#4",
        82 => "A4",
        83 => "A#4",
        84 => "B4",
        85 => "C5",
        86 => "C#5",
        87 => "D5",
        88 => "D#5",
        89 => "E5",
        90 => "F5",
        91 => "F#5",
        92 => "G5",
        93 => "G#5",
        94 => "A5",
        95 => "A#5",
        96 => "B5",
        97 => "C6",
        98 => "C#6",
        99 => "D6",
        100 => "D#6",
        101 => "E6",
        102 => "F6",
        103 => "F#6",
        104 => "G6",
        105 => "G#6",
        106 => "A6",
        107 => "A#6",
        108 => "B6",
        109 => "C7",
        110 => "C#7",
        111 => "D7",
        112 => "D#7",
        113 => "E7",
        114 => "F7",
        115 => "F#7",
        116 => "G7",
        117 => "G#7",
        118 => "A7",
        119 => "A#7",
        120 => "B7",
        121 => "C8",
        122 => "C#8",
        123 => "D8",
        124 => "D#8",
        125 => "E8",
        126 => "F8",
        127 => "F#8",
        128 => "G8",
        129 => "G#8",
        130 => "A8",
        131 => "A#8",
        _ => "B8",
    }
}

} // verus!
