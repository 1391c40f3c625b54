use vstd::prelude::*;

verus! {

/// The first 1024 primes: the bases of the radical inverses by base index.
const PRIMES: [u32; 1024] = [
    2, 3, 5, 7, 11, 13, 17, 19, 23, 29, 31, 37, 41, 43,
    47, 53, 59, 61, 67, 71, 73, 79, 83, 89, 97, 101, 103, 107,
    109, 113, 127, 131, 137, 139, 149, 151, 157, 163, 167, 173, 179, 181,
    191, 193, 197, 199, 211, 223, 227, 229, 233, 239, 241, 251, 257, 263,
    269, 271, 277, 281, 283, 293, 307, 311, 313, 317, 331, 337, 347, 349,
    353, 359, 367, 373, 379, 383, 389, 397, 401, 409, 419, 421, 431, 433,
    439, 443, 449, 457, 461, 463, 467, 479, 487, 491, 499, 503, 509, 521,
    523, 541, 547, 557, 563, 569, 571, 577, 587, 593, 599, 601, 607, 613,
    617, 619, 631, 641, 643, 647, 653, 659, 661, 673, 677, 683, 691, 701,
    709, 719, 727, 733, 739, 743, 751, 757, 761, 769, 773, 787, 797, 809,
    811, 821, 823, 827, 829, 839, 853, 857, 859, 863, 877, 881, 883, 887,
    907, 911, 919, 929, 937, 941, 947, 953, 967, 971, 977, 983, 991, 997,
    1009, 1013, 1019, 1021, 1031, 1033, 1039, 1049, 1051, 1061, 1063, 1069, 1087, 1091,
    1093, 1097, 1103, 1109, 1117, 1123, 1129, 1151, 1153, 1163, 1171, 1181, 1187, 1193,
    1201, 1213, 1217, 1223, 1229, 1231, 1237, 1249, 1259, 1277, 1279, 1283, 1289, 1291,
    1297, 1301, 1303, 1307, 1319, 1321, 1327, 1361, 1367, 1373, 1381, 1399, 1409, 1423,
    1427, 1429, 1433, 1439, 1447, 1451, 1453, 1459, 1471, 1481, 1483, 1487, 1489, 1493,
    1499, 1511, 1523, 1531, 1543, 1549, 1553, 1559, 1567, 1571, 1579, 1583, 1597, 1601,
    1607, 1609, 1613, 1619, 1621, 1627, 1637, 1657, 1663, 1667, 1669, 1693, 1697, 1699,
    1709, 1721, 1723, 1733, 1741, 1747, 1753, 1759, 1777, 1783, 1787, 1789, 1801, 1811,
    1823, 1831, 1847, 1861, 1867, 1871, 1873, 1877, 1879, 1889, 1901, 1907, 1913, 1931,
    1933, 1949, 1951, 1973, 1979, 1987, 1993, 1997, 1999, 2003, 2011, 2017, 2027, 2029,
    2039, 2053, 2063, 2069, 2081, 2083, 2087, 2089, 2099, 2111, 2113, 2129, 2131, 2137,
    2141, 2143, 2153, 2161, 2179, 2203, 2207, 2213, 2221, 2237, 2239, 2243, 2251, 2267,
    2269, 2273, 2281, 2287, 2293, 2297, 2309, 2311, 2333, 2339, 2341, 2347, 2351, 2357,
    2371, 2377, 2381, 2383, 2389, 2393, 2399, 2411, 2417, 2423, 2437, 2441, 2447, 2459,
    2467, 2473, 2477, 2503, 2521, 2531, 2539, 2543, 2549, 2551, 2557, 2579, 2591, 2593,
    2609, 2617, 2621, 2633, 2647, 2657, 2659, 2663, 2671, 2677, 2683, 2687, 2689, 2693,
    2699, 2707, 2711, 2713, 2719, 2729, 2731, 2741, 2749, 2753, 2767, 2777, 2789, 2791,
    2797, 2801, 2803, 2819, 2833, 2837, 2843, 2851, 2857, 2861, 2879, 2887, 2897, 2903,
    2909, 2917, 2927, 2939, 2953, 2957, 2963, 2969, 2971, 2999, 3001, 3011, 3019, 3023,
    3037, 3041, 3049, 3061, 3067, 3079, 3083, 3089, 3109, 3119, 3121, 3137, 3163, 3167,
    3169, 3181, 3187, 3191, 3203, 3209, 3217, 3221, 3229, 3251, 3253, 3257, 3259, 3271,
    3299, 3301, 3307, 3313, 3319, 3323, 3329, 3331, 3343, 3347, 3359, 3361, 3371, 3373,
    3389, 3391, 3407, 3413, 3433, 3449, 3457, 3461, 3463, 3467, 3469, 3491, 3499, 3511,
    3517, 3527, 3529, 3533, 3539, 3541, 3547, 3557, 3559, 3571, 3581, 3583, 3593, 3607,
    3613, 3617, 3623, 3631, 3637, 3643, 3659, 3671, 3673, 3677, 3691, 3697, 3701, 3709,
    3719, 3727, 3733, 3739, 3761, 3767, 3769, 3779, 3793, 3797, 3803, 3821, 3823, 3833,
    3847, 3851, 3853, 3863, 3877, 3881, 3889, 3907, 3911, 3917, 3919, 3923, 3929, 3931,
    3943, 3947, 3967, 3989, 4001, 4003, 4007, 4013, 4019, 4021, 4027, 4049, 4051, 4057,
    4073, 4079, 4091, 4093, 4099, 4111, 4127, 4129, 4133, 4139, 4153, 4157, 4159, 4177,
    4201, 4211, 4217, 4219, 4229, 4231, 4241, 4243, 4253, 4259, 4261, 4271, 4273, 4283,
    4289, 4297, 4327, 4337, 4339, 4349, 4357, 4363, 4373, 4391, 4397, 4409, 4421, 4423,
    4441, 4447, 4451, 4457, 4463, 4481, 4483, 4493, 4507, 4513, 4517, 4519, 4523, 4547,
    4549, 4561, 4567, 4583, 4591, 4597, 4603, 4621, 4637, 4639, 4643, 4649, 4651, 4657,
    4663, 4673, 4679, 4691, 4703, 4721, 4723, 4729, 4733, 4751, 4759, 4783, 4787, 4789,
    4793, 4799, 4801, 4813, 4817, 4831, 4861, 4871, 4877, 4889, 4903, 4909, 4919, 4931,
    4933, 4937, 4943, 4951, 4957, 4967, 4969, 4973, 4987, 4993, 4999, 5003, 5009, 5011,
    5021, 5023, 5039, 5051, 5059, 5077, 5081, 5087, 5099, 5101, 5107, 5113, 5119, 5147,
    5153, 5167, 5171, 5179, 5189, 5197, 5209, 5227, 5231, 5233, 5237, 5261, 5273, 5279,
    5281, 5297, 5303, 5309, 5323, 5333, 5347, 5351, 5381, 5387, 5393, 5399, 5407, 5413,
    5417, 5419, 5431, 5437, 5441, 5443, 5449, 5471, 5477, 5479, 5483, 5501, 5503, 5507,
    5519, 5521, 5527, 5531, 5557, 5563, 5569, 5573, 5581, 5591, 5623, 5639, 5641, 5647,
    5651, 5653, 5657, 5659, 5669, 5683, 5689, 5693, 5701, 5711, 5717, 5737, 5741, 5743,
    5749, 5779, 5783, 5791, 5801, 5807, 5813, 5821, 5827, 5839, 5843, 5849, 5851, 5857,
    5861, 5867, 5869, 5879, 5881, 5897, 5903, 5923, 5927, 5939, 5953, 5981, 5987, 6007,
    6011, 6029, 6037, 6043, 6047, 6053, 6067, 6073, 6079, 6089, 6091, 6101, 6113, 6121,
    6131, 6133, 6143, 6151, 6163, 6173, 6197, 6199, 6203, 6211, 6217, 6221, 6229, 6247,
    6257, 6263, 6269, 6271, 6277, 6287, 6299, 6301, 6311, 6317, 6323, 6329, 6337, 6343,
    6353, 6359, 6361, 6367, 6373, 6379, 6389, 6397, 6421, 6427, 6449, 6451, 6469, 6473,
    6481, 6491, 6521, 6529, 6547, 6551, 6553, 6563, 6569, 6571, 6577, 6581, 6599, 6607,
    6619, 6637, 6653, 6659, 6661, 6673, 6679, 6689, 6691, 6701, 6703, 6709, 6719, 6733,
    6737, 6761, 6763, 6779, 6781, 6791, 6793, 6803, 6823, 6827, 6829, 6833, 6841, 6857,
    6863, 6869, 6871, 6883, 6899, 6907, 6911, 6917, 6947, 6949, 6959, 6961, 6967, 6971,
    6977, 6983, 6991, 6997, 7001, 7013, 7019, 7027, 7039, 7043, 7057, 7069, 7079, 7103,
    7109, 7121, 7127, 7129, 7151, 7159, 7177, 7187, 7193, 7207, 7211, 7213, 7219, 7229,
    7237, 7243, 7247, 7253, 7283, 7297, 7307, 7309, 7321, 7331, 7333, 7349, 7351, 7369,
    7393, 7411, 7417, 7433, 7451, 7457, 7459, 7477, 7481, 7487, 7489, 7499, 7507, 7517,
    7523, 7529, 7537, 7541, 7547, 7549, 7559, 7561, 7573, 7577, 7583, 7589, 7591, 7603,
    7607, 7621, 7639, 7643, 7649, 7669, 7673, 7681, 7687, 7691, 7699, 7703, 7717, 7723,
    7727, 7741, 7753, 7757, 7759, 7789, 7793, 7817, 7823, 7829, 7841, 7853, 7867, 7873,
    7877, 7879, 7883, 7901, 7907, 7919, 7927, 7933, 7937, 7949, 7951, 7963, 7993, 8009,
    8011, 8017, 8039, 8053, 8059, 8069, 8081, 8087, 8089, 8093, 8101, 8111, 8117, 8123,
    8147, 8161,
];

/// The `i`-th prime number, counting from zero, for `i < 1024`.
pub closed spec fn prime_at(i: int) -> nat {
    PRIMES[i] as nat
}

/// The `i`-th prime number, counting from zero.
pub fn prime(i: u32) -> (p: u32)
    requires
        i < 1024,
    ensures
        p == prime_at(i as int),
        p >= 2,
{
    PRIMES[i as usize]
}

/// Entries `k`, `k + 1`, ... of the table go up, each larger than the one
/// before.
spec fn increasing_from(k: int) -> bool
    decreases 1023 - k,
{
    if k >= 1023 || k < 0 {
        true
    } else {
        PRIMES[k] < PRIMES[k + 1] && increasing_from(k + 1)
    }
}

proof fn lemma_increasing_from(k: int, i: int)
    requires
        0 <= k <= i < 1023,
        increasing_from(k),
    ensures
        PRIMES[i] < PRIMES[i + 1],
    decreases i - k,
{
    if k < i {
        lemma_increasing_from(k + 1, i);
    }
}

/// The whole table goes up, checked 32 entries at a time from the end.
#[verifier::rlimit(100)]
proof fn lemma_table_increasing()
    ensures
        increasing_from(0),
{
    reveal_with_fuel(increasing_from, 32);
    assert(increasing_from(992));
    assert(increasing_from(960));
    assert(increasing_from(928));
    assert(increasing_from(896));
    assert(increasing_from(864));
    assert(increasing_from(832));
    assert(increasing_from(800));
    assert(increasing_from(768));
    assert(increasing_from(736));
    assert(increasing_from(704));
    assert(increasing_from(672));
    assert(increasing_from(640));
    assert(increasing_from(608));
    assert(increasing_from(576));
    assert(increasing_from(544));
    assert(increasing_from(512));
    assert(increasing_from(480));
    assert(increasing_from(448));
    assert(increasing_from(416));
    assert(increasing_from(384));
    assert(increasing_from(352));
    assert(increasing_from(320));
    assert(increasing_from(288));
    assert(increasing_from(256));
    assert(increasing_from(224));
    assert(increasing_from(192));
    assert(increasing_from(160));
    assert(increasing_from(128));
    assert(increasing_from(96));
    assert(increasing_from(64));
    assert(increasing_from(32));
    assert(increasing_from(0));
}

/// The table is strictly increasing, so the bases of different dimensions
/// differ.
pub proof fn lemma_primes_increasing(i: int, j: int)
    requires
        0 <= i < j < 1024,
    ensures
        prime_at(i) < prime_at(j),
    decreases j - i,
{
    lemma_table_increasing();
    lemma_increasing_from(0, i);
    if i + 1 < j {
        lemma_primes_increasing(i + 1, j);
    }
}

/// Entries 0 to 63 of the table.
pub proof fn lemma_primes_0_to_63()
    ensures
        prime_at(0) == 2,
        prime_at(1) == 3,
        prime_at(2) == 5,
        prime_at(3) == 7,
        prime_at(4) == 11,
        prime_at(5) == 13,
        prime_at(6) == 17,
        prime_at(7) == 19,
        prime_at(8) == 23,
        prime_at(9) == 29,
        prime_at(10) == 31,
        prime_at(11) == 37,
        prime_at(12) == 41,
        prime_at(13) == 43,
        prime_at(14) == 47,
        prime_at(15) == 53,
        prime_at(16) == 59,
        prime_at(17) == 61,
        prime_at(18) == 67,
        prime_at(19) == 71,
        prime_at(20) == 73,
        prime_at(21) == 79,
        prime_at(22) == 83,
        prime_at(23) == 89,
        prime_at(24) == 97,
        prime_at(25) == 101,
        prime_at(26) == 103,
        prime_at(27) == 107,
        prime_at(28) == 109,
        prime_at(29) == 113,
        prime_at(30) == 127,
        prime_at(31) == 131,
        prime_at(32) == 137,
        prime_at(33) == 139,
        prime_at(34) == 149,
        prime_at(35) == 151,
        prime_at(36) == 157,
        prime_at(37) == 163,
        prime_at(38) == 167,
        prime_at(39) == 173,
        prime_at(40) == 179,
        prime_at(41) == 181,
        prime_at(42) == 191,
        prime_at(43) == 193,
        prime_at(44) == 197,
        prime_at(45) == 199,
        prime_at(46) == 211,
        prime_at(47) == 223,
        prime_at(48) == 227,
        prime_at(49) == 229,
        prime_at(50) == 233,
        prime_at(51) == 239,
        prime_at(52) == 241,
        prime_at(53) == 251,
        prime_at(54) == 257,
        prime_at(55) == 263,
        prime_at(56) == 269,
        prime_at(57) == 271,
        prime_at(58) == 277,
        prime_at(59) == 281,
        prime_at(60) == 283,
        prime_at(61) == 293,
        prime_at(62) == 307,
        prime_at(63) == 311,
{
}

/// Entries 64 to 127 of the table.
pub proof fn lemma_primes_64_to_127()
    ensures
        prime_at(64) == 313,
        prime_at(65) == 317,
        prime_at(66) == 331,
        prime_at(67) == 337,
        prime_at(68) == 347,
        prime_at(69) == 349,
        prime_at(70) == 353,
        prime_at(71) == 359,
        prime_at(72) == 367,
        prime_at(73) == 373,
        prime_at(74) == 379,
        prime_at(75) == 383,
        prime_at(76) == 389,
        prime_at(77) == 397,
        prime_at(78) == 401,
        prime_at(79) == 409,
        prime_at(80) == 419,
        prime_at(81) == 421,
        prime_at(82) == 431,
        prime_at(83) == 433,
        prime_at(84) == 439,
        prime_at(85) == 443,
        prime_at(86) == 449,
        prime_at(87) == 457,
        prime_at(88) == 461,
        prime_at(89) == 463,
        prime_at(90) == 467,
        prime_at(91) == 479,
        prime_at(92) == 487,
        prime_at(93) == 491,
        prime_at(94) == 499,
        prime_at(95) == 503,
        prime_at(96) == 509,
        prime_at(97) == 521,
        prime_at(98) == 523,
        prime_at(99) == 541,
        prime_at(100) == 547,
        prime_at(101) == 557,
        prime_at(102) == 563,
        prime_at(103) == 569,
        prime_at(104) == 571,
        prime_at(105) == 577,
        prime_at(106) == 587,
        prime_at(107) == 593,
        prime_at(108) == 599,
        prime_at(109) == 601,
        prime_at(110) == 607,
        prime_at(111) == 613,
        prime_at(112) == 617,
        prime_at(113) == 619,
        prime_at(114) == 631,
        prime_at(115) == 641,
        prime_at(116) == 643,
        prime_at(117) == 647,
        prime_at(118) == 653,
        prime_at(119) == 659,
        prime_at(120) == 661,
        prime_at(121) == 673,
        prime_at(122) == 677,
        prime_at(123) == 683,
        prime_at(124) == 691,
        prime_at(125) == 701,
        prime_at(126) == 709,
        prime_at(127) == 719,
{
}

/// Entries 128 to 191 of the table.
pub proof fn lemma_primes_128_to_191()
    ensures
        prime_at(128) == 727,
        prime_at(129) == 733,
        prime_at(130) == 739,
        prime_at(131) == 743,
        prime_at(132) == 751,
        prime_at(133) == 757,
        prime_at(134) == 761,
        prime_at(135) == 769,
        prime_at(136) == 773,
        prime_at(137) == 787,
        prime_at(138) == 797,
        prime_at(139) == 809,
        prime_at(140) == 811,
        prime_at(141) == 821,
        prime_at(142) == 823,
        prime_at(143) == 827,
        prime_at(144) == 829,
        prime_at(145) == 839,
        prime_at(146) == 853,
        prime_at(147) == 857,
        prime_at(148) == 859,
        prime_at(149) == 863,
        prime_at(150) == 877,
        prime_at(151) == 881,
        prime_at(152) == 883,
        prime_at(153) == 887,
        prime_at(154) == 907,
        prime_at(155) == 911,
        prime_at(156) == 919,
        prime_at(157) == 929,
        prime_at(158) == 937,
        prime_at(159) == 941,
        prime_at(160) == 947,
        prime_at(161) == 953,
        prime_at(162) == 967,
        prime_at(163) == 971,
        prime_at(164) == 977,
        prime_at(165) == 983,
        prime_at(166) == 991,
        prime_at(167) == 997,
        prime_at(168) == 1009,
        prime_at(169) == 1013,
        prime_at(170) == 1019,
        prime_at(171) == 1021,
        prime_at(172) == 1031,
        prime_at(173) == 1033,
        prime_at(174) == 1039,
        prime_at(175) == 1049,
        prime_at(176) == 1051,
        prime_at(177) == 1061,
        prime_at(178) == 1063,
        prime_at(179) == 1069,
        prime_at(180) == 1087,
        prime_at(181) == 1091,
        prime_at(182) == 1093,
        prime_at(183) == 1097,
        prime_at(184) == 1103,
        prime_at(185) == 1109,
        prime_at(186) == 1117,
        prime_at(187) == 1123,
        prime_at(188) == 1129,
        prime_at(189) == 1151,
        prime_at(190) == 1153,
        prime_at(191) == 1163,
{
}

/// Entries 192 to 255 of the table.
pub proof fn lemma_primes_192_to_255()
    ensures
        prime_at(192) == 1171,
        prime_at(193) == 1181,
        prime_at(194) == 1187,
        prime_at(195) == 1193,
        prime_at(196) == 1201,
        prime_at(197) == 1213,
        prime_at(198) == 1217,
        prime_at(199) == 1223,
        prime_at(200) == 1229,
        prime_at(201) == 1231,
        prime_at(202) == 1237,
        prime_at(203) == 1249,
        prime_at(204) == 1259,
        prime_at(205) == 1277,
        prime_at(206) == 1279,
        prime_at(207) == 1283,
        prime_at(208) == 1289,
        prime_at(209) == 1291,
        prime_at(210) == 1297,
        prime_at(211) == 1301,
        prime_at(212) == 1303,
        prime_at(213) == 1307,
        prime_at(214) == 1319,
        prime_at(215) == 1321,
        prime_at(216) == 1327,
        prime_at(217) == 1361,
        prime_at(218) == 1367,
        prime_at(219) == 1373,
        prime_at(220) == 1381,
        prime_at(221) == 1399,
        prime_at(222) == 1409,
        prime_at(223) == 1423,
        prime_at(224) == 1427,
        prime_at(225) == 1429,
        prime_at(226) == 1433,
        prime_at(227) == 1439,
        prime_at(228) == 1447,
        prime_at(229) == 1451,
        prime_at(230) == 1453,
        prime_at(231) == 1459,
        prime_at(232) == 1471,
        prime_at(233) == 1481,
        prime_at(234) == 1483,
        prime_at(235) == 1487,
        prime_at(236) == 1489,
        prime_at(237) == 1493,
        prime_at(238) == 1499,
        prime_at(239) == 1511,
        prime_at(240) == 1523,
        prime_at(241) == 1531,
        prime_at(242) == 1543,
        prime_at(243) == 1549,
        prime_at(244) == 1553,
        prime_at(245) == 1559,
        prime_at(246) == 1567,
        prime_at(247) == 1571,
        prime_at(248) == 1579,
        prime_at(249) == 1583,
        prime_at(250) == 1597,
        prime_at(251) == 1601,
        prime_at(252) == 1607,
        prime_at(253) == 1609,
        prime_at(254) == 1613,
        prime_at(255) == 1619,
{
}

/// Entries 256 to 319 of the table.
pub proof fn lemma_primes_256_to_319()
    ensures
        prime_at(256) == 1621,
        prime_at(257) == 1627,
        prime_at(258) == 1637,
        prime_at(259) == 1657,
        prime_at(260) == 1663,
        prime_at(261) == 1667,
        prime_at(262) == 1669,
        prime_at(263) == 1693,
        prime_at(264) == 1697,
        prime_at(265) == 1699,
        prime_at(266) == 1709,
        prime_at(267) == 1721,
        prime_at(268) == 1723,
        prime_at(269) == 1733,
        prime_at(270) == 1741,
        prime_at(271) == 1747,
        prime_at(272) == 1753,
        prime_at(273) == 1759,
        prime_at(274) == 1777,
        prime_at(275) == 1783,
        prime_at(276) == 1787,
        prime_at(277) == 1789,
        prime_at(278) == 1801,
        prime_at(279) == 1811,
        prime_at(280) == 1823,
        prime_at(281) == 1831,
        prime_at(282) == 1847,
        prime_at(283) == 1861,
        prime_at(284) == 1867,
        prime_at(285) == 1871,
        prime_at(286) == 1873,
        prime_at(287) == 1877,
        prime_at(288) == 1879,
        prime_at(289) == 1889,
        prime_at(290) == 1901,
        prime_at(291) == 1907,
        prime_at(292) == 1913,
        prime_at(293) == 1931,
        prime_at(294) == 1933,
        prime_at(295) == 1949,
        prime_at(296) == 1951,
        prime_at(297) == 1973,
        prime_at(298) == 1979,
        prime_at(299) == 1987,
        prime_at(300) == 1993,
        prime_at(301) == 1997,
        prime_at(302) == 1999,
        prime_at(303) == 2003,
        prime_at(304) == 2011,
        prime_at(305) == 2017,
        prime_at(306) == 2027,
        prime_at(307) == 2029,
        prime_at(308) == 2039,
        prime_at(309) == 2053,
        prime_at(310) == 2063,
        prime_at(311) == 2069,
        prime_at(312) == 2081,
        prime_at(313) == 2083,
        prime_at(314) == 2087,
        prime_at(315) == 2089,
        prime_at(316) == 2099,
        prime_at(317) == 2111,
        prime_at(318) == 2113,
        prime_at(319) == 2129,
{
}

/// Entries 320 to 383 of the table.
pub proof fn lemma_primes_320_to_383()
    ensures
        prime_at(320) == 2131,
        prime_at(321) == 2137,
        prime_at(322) == 2141,
        prime_at(323) == 2143,
        prime_at(324) == 2153,
        prime_at(325) == 2161,
        prime_at(326) == 2179,
        prime_at(327) == 2203,
        prime_at(328) == 2207,
        prime_at(329) == 2213,
        prime_at(330) == 2221,
        prime_at(331) == 2237,
        prime_at(332) == 2239,
        prime_at(333) == 2243,
        prime_at(334) == 2251,
        prime_at(335) == 2267,
        prime_at(336) == 2269,
        prime_at(337) == 2273,
        prime_at(338) == 2281,
        prime_at(339) == 2287,
        prime_at(340) == 2293,
        prime_at(341) == 2297,
        prime_at(342) == 2309,
        prime_at(343) == 2311,
        prime_at(344) == 2333,
        prime_at(345) == 2339,
        prime_at(346) == 2341,
        prime_at(347) == 2347,
        prime_at(348) == 2351,
        prime_at(349) == 2357,
        prime_at(350) == 2371,
        prime_at(351) == 2377,
        prime_at(352) == 2381,
        prime_at(353) == 2383,
        prime_at(354) == 2389,
        prime_at(355) == 2393,
        prime_at(356) == 2399,
        prime_at(357) == 2411,
        prime_at(358) == 2417,
        prime_at(359) == 2423,
        prime_at(360) == 2437,
        prime_at(361) == 2441,
        prime_at(362) == 2447,
        prime_at(363) == 2459,
        prime_at(364) == 2467,
        prime_at(365) == 2473,
        prime_at(366) == 2477,
        prime_at(367) == 2503,
        prime_at(368) == 2521,
        prime_at(369) == 2531,
        prime_at(370) == 2539,
        prime_at(371) == 2543,
        prime_at(372) == 2549,
        prime_at(373) == 2551,
        prime_at(374) == 2557,
        prime_at(375) == 2579,
        prime_at(376) == 2591,
        prime_at(377) == 2593,
        prime_at(378) == 2609,
        prime_at(379) == 2617,
        prime_at(380) == 2621,
        prime_at(381) == 2633,
        prime_at(382) == 2647,
        prime_at(383) == 2657,
{
}

/// Entries 384 to 447 of the table.
pub proof fn lemma_primes_384_to_447()
    ensures
        prime_at(384) == 2659,
        prime_at(385) == 2663,
        prime_at(386) == 2671,
        prime_at(387) == 2677,
        prime_at(388) == 2683,
        prime_at(389) == 2687,
        prime_at(390) == 2689,
        prime_at(391) == 2693,
        prime_at(392) == 2699,
        prime_at(393) == 2707,
        prime_at(394) == 2711,
        prime_at(395) == 2713,
        prime_at(396) == 2719,
        prime_at(397) == 2729,
        prime_at(398) == 2731,
        prime_at(399) == 2741,
        prime_at(400) == 2749,
        prime_at(401) == 2753,
        prime_at(402) == 2767,
        prime_at(403) == 2777,
        prime_at(404) == 2789,
        prime_at(405) == 2791,
        prime_at(406) == 2797,
        prime_at(407) == 2801,
        prime_at(408) == 2803,
        prime_at(409) == 2819,
        prime_at(410) == 2833,
        prime_at(411) == 2837,
        prime_at(412) == 2843,
        prime_at(413) == 2851,
        prime_at(414) == 2857,
        prime_at(415) == 2861,
        prime_at(416) == 2879,
        prime_at(417) == 2887,
        prime_at(418) == 2897,
        prime_at(419) == 2903,
        prime_at(420) == 2909,
        prime_at(421) == 2917,
        prime_at(422) == 2927,
        prime_at(423) == 2939,
        prime_at(424) == 2953,
        prime_at(425) == 2957,
        prime_at(426) == 2963,
        prime_at(427) == 2969,
        prime_at(428) == 2971,
        prime_at(429) == 2999,
        prime_at(430) == 3001,
        prime_at(431) == 3011,
        prime_at(432) == 3019,
        prime_at(433) == 3023,
        prime_at(434) == 3037,
        prime_at(435) == 3041,
        prime_at(436) == 3049,
        prime_at(437) == 3061,
        prime_at(438) == 3067,
        prime_at(439) == 3079,
        prime_at(440) == 3083,
        prime_at(441) == 3089,
        prime_at(442) == 3109,
        prime_at(443) == 3119,
        prime_at(444) == 3121,
        prime_at(445) == 3137,
        prime_at(446) == 3163,
        prime_at(447) == 3167,
{
}

/// Entries 448 to 511 of the table.
pub proof fn lemma_primes_448_to_511()
    ensures
        prime_at(448) == 3169,
        prime_at(449) == 3181,
        prime_at(450) == 3187,
        prime_at(451) == 3191,
        prime_at(452) == 3203,
        prime_at(453) == 3209,
        prime_at(454) == 3217,
        prime_at(455) == 3221,
        prime_at(456) == 3229,
        prime_at(457) == 3251,
        prime_at(458) == 3253,
        prime_at(459) == 3257,
        prime_at(460) == 3259,
        prime_at(461) == 3271,
        prime_at(462) == 3299,
        prime_at(463) == 3301,
        prime_at(464) == 3307,
        prime_at(465) == 3313,
        prime_at(466) == 3319,
        prime_at(467) == 3323,
        prime_at(468) == 3329,
        prime_at(469) == 3331,
        prime_at(470) == 3343,
        prime_at(471) == 3347,
        prime_at(472) == 3359,
        prime_at(473) == 3361,
        prime_at(474) == 3371,
        prime_at(475) == 3373,
        prime_at(476) == 3389,
        prime_at(477) == 3391,
        prime_at(478) == 3407,
        prime_at(479) == 3413,
        prime_at(480) == 3433,
        prime_at(481) == 3449,
        prime_at(482) == 3457,
        prime_at(483) == 3461,
        prime_at(484) == 3463,
        prime_at(485) == 3467,
        prime_at(486) == 3469,
        prime_at(487) == 3491,
        prime_at(488) == 3499,
        prime_at(489) == 3511,
        prime_at(490) == 3517,
        prime_at(491) == 3527,
        prime_at(492) == 3529,
        prime_at(493) == 3533,
        prime_at(494) == 3539,
        prime_at(495) == 3541,
        prime_at(496) == 3547,
        prime_at(497) == 3557,
        prime_at(498) == 3559,
        prime_at(499) == 3571,
        prime_at(500) == 3581,
        prime_at(501) == 3583,
        prime_at(502) == 3593,
        prime_at(503) == 3607,
        prime_at(504) == 3613,
        prime_at(505) == 3617,
        prime_at(506) == 3623,
        prime_at(507) == 3631,
        prime_at(508) == 3637,
        prime_at(509) == 3643,
        prime_at(510) == 3659,
        prime_at(511) == 3671,
{
}

/// Entries 512 to 575 of the table.
pub proof fn lemma_primes_512_to_575()
    ensures
        prime_at(512) == 3673,
        prime_at(513) == 3677,
        prime_at(514) == 3691,
        prime_at(515) == 3697,
        prime_at(516) == 3701,
        prime_at(517) == 3709,
        prime_at(518) == 3719,
        prime_at(519) == 3727,
        prime_at(520) == 3733,
        prime_at(521) == 3739,
        prime_at(522) == 3761,
        prime_at(523) == 3767,
        prime_at(524) == 3769,
        prime_at(525) == 3779,
        prime_at(526) == 3793,
        prime_at(527) == 3797,
        prime_at(528) == 3803,
        prime_at(529) == 3821,
        prime_at(530) == 3823,
        prime_at(531) == 3833,
        prime_at(532) == 3847,
        prime_at(533) == 3851,
        prime_at(534) == 3853,
        prime_at(535) == 3863,
        prime_at(536) == 3877,
        prime_at(537) == 3881,
        prime_at(538) == 3889,
        prime_at(539) == 3907,
        prime_at(540) == 3911,
        prime_at(541) == 3917,
        prime_at(542) == 3919,
        prime_at(543) == 3923,
        prime_at(544) == 3929,
        prime_at(545) == 3931,
        prime_at(546) == 3943,
        prime_at(547) == 3947,
        prime_at(548) == 3967,
        prime_at(549) == 3989,
        prime_at(550) == 4001,
        prime_at(551) == 4003,
        prime_at(552) == 4007,
        prime_at(553) == 4013,
        prime_at(554) == 4019,
        prime_at(555) == 4021,
        prime_at(556) == 4027,
        prime_at(557) == 4049,
        prime_at(558) == 4051,
        prime_at(559) == 4057,
        prime_at(560) == 4073,
        prime_at(561) == 4079,
        prime_at(562) == 4091,
        prime_at(563) == 4093,
        prime_at(564) == 4099,
        prime_at(565) == 4111,
        prime_at(566) == 4127,
        prime_at(567) == 4129,
        prime_at(568) == 4133,
        prime_at(569) == 4139,
        prime_at(570) == 4153,
        prime_at(571) == 4157,
        prime_at(572) == 4159,
        prime_at(573) == 4177,
        prime_at(574) == 4201,
        prime_at(575) == 4211,
{
}

/// Entries 576 to 639 of the table.
pub proof fn lemma_primes_576_to_639()
    ensures
        prime_at(576) == 4217,
        prime_at(577) == 4219,
        prime_at(578) == 4229,
        prime_at(579) == 4231,
        prime_at(580) == 4241,
        prime_at(581) == 4243,
        prime_at(582) == 4253,
        prime_at(583) == 4259,
        prime_at(584) == 4261,
        prime_at(585) == 4271,
        prime_at(586) == 4273,
        prime_at(587) == 4283,
        prime_at(588) == 4289,
        prime_at(589) == 4297,
        prime_at(590) == 4327,
        prime_at(591) == 4337,
        prime_at(592) == 4339,
        prime_at(593) == 4349,
        prime_at(594) == 4357,
        prime_at(595) == 4363,
        prime_at(596) == 4373,
        prime_at(597) == 4391,
        prime_at(598) == 4397,
        prime_at(599) == 4409,
        prime_at(600) == 4421,
        prime_at(601) == 4423,
        prime_at(602) == 4441,
        prime_at(603) == 4447,
        prime_at(604) == 4451,
        prime_at(605) == 4457,
        prime_at(606) == 4463,
        prime_at(607) == 4481,
        prime_at(608) == 4483,
        prime_at(609) == 4493,
        prime_at(610) == 4507,
        prime_at(611) == 4513,
        prime_at(612) == 4517,
        prime_at(613) == 4519,
        prime_at(614) == 4523,
        prime_at(615) == 4547,
        prime_at(616) == 4549,
        prime_at(617) == 4561,
        prime_at(618) == 4567,
        prime_at(619) == 4583,
        prime_at(620) == 4591,
        prime_at(621) == 4597,
        prime_at(622) == 4603,
        prime_at(623) == 4621,
        prime_at(624) == 4637,
        prime_at(625) == 4639,
        prime_at(626) == 4643,
        prime_at(627) == 4649,
        prime_at(628) == 4651,
        prime_at(629) == 4657,
        prime_at(630) == 4663,
        prime_at(631) == 4673,
        prime_at(632) == 4679,
        prime_at(633) == 4691,
        prime_at(634) == 4703,
        prime_at(635) == 4721,
        prime_at(636) == 4723,
        prime_at(637) == 4729,
        prime_at(638) == 4733,
        prime_at(639) == 4751,
{
}

/// Entries 640 to 703 of the table.
pub proof fn lemma_primes_640_to_703()
    ensures
        prime_at(640) == 4759,
        prime_at(641) == 4783,
        prime_at(642) == 4787,
        prime_at(643) == 4789,
        prime_at(644) == 4793,
        prime_at(645) == 4799,
        prime_at(646) == 4801,
        prime_at(647) == 4813,
        prime_at(648) == 4817,
        prime_at(649) == 4831,
        prime_at(650) == 4861,
        prime_at(651) == 4871,
        prime_at(652) == 4877,
        prime_at(653) == 4889,
        prime_at(654) == 4903,
        prime_at(655) == 4909,
        prime_at(656) == 4919,
        prime_at(657) == 4931,
        prime_at(658) == 4933,
        prime_at(659) == 4937,
        prime_at(660) == 4943,
        prime_at(661) == 4951,
        prime_at(662) == 4957,
        prime_at(663) == 4967,
        prime_at(664) == 4969,
        prime_at(665) == 4973,
        prime_at(666) == 4987,
        prime_at(667) == 4993,
        prime_at(668) == 4999,
        prime_at(669) == 5003,
        prime_at(670) == 5009,
        prime_at(671) == 5011,
        prime_at(672) == 5021,
        prime_at(673) == 5023,
        prime_at(674) == 5039,
        prime_at(675) == 5051,
        prime_at(676) == 5059,
        prime_at(677) == 5077,
        prime_at(678) == 5081,
        prime_at(679) == 5087,
        prime_at(680) == 5099,
        prime_at(681) == 5101,
        prime_at(682) == 5107,
        prime_at(683) == 5113,
        prime_at(684) == 5119,
        prime_at(685) == 5147,
        prime_at(686) == 5153,
        prime_at(687) == 5167,
        prime_at(688) == 5171,
        prime_at(689) == 5179,
        prime_at(690) == 5189,
        prime_at(691) == 5197,
        prime_at(692) == 5209,
        prime_at(693) == 5227,
        prime_at(694) == 5231,
        prime_at(695) == 5233,
        prime_at(696) == 5237,
        prime_at(697) == 5261,
        prime_at(698) == 5273,
        prime_at(699) == 5279,
        prime_at(700) == 5281,
        prime_at(701) == 5297,
        prime_at(702) == 5303,
        prime_at(703) == 5309,
{
}

/// Entries 704 to 767 of the table.
pub proof fn lemma_primes_704_to_767()
    ensures
        prime_at(704) == 5323,
        prime_at(705) == 5333,
        prime_at(706) == 5347,
        prime_at(707) == 5351,
        prime_at(708) == 5381,
        prime_at(709) == 5387,
        prime_at(710) == 5393,
        prime_at(711) == 5399,
        prime_at(712) == 5407,
        prime_at(713) == 5413,
        prime_at(714) == 5417,
        prime_at(715) == 5419,
        prime_at(716) == 5431,
        prime_at(717) == 5437,
        prime_at(718) == 5441,
        prime_at(719) == 5443,
        prime_at(720) == 5449,
        prime_at(721) == 5471,
        prime_at(722) == 5477,
        prime_at(723) == 5479,
        prime_at(724) == 5483,
        prime_at(725) == 5501,
        prime_at(726) == 5503,
        prime_at(727) == 5507,
        prime_at(728) == 5519,
        prime_at(729) == 5521,
        prime_at(730) == 5527,
        prime_at(731) == 5531,
        prime_at(732) == 5557,
        prime_at(733) == 5563,
        prime_at(734) == 5569,
        prime_at(735) == 5573,
        prime_at(736) == 5581,
        prime_at(737) == 5591,
        prime_at(738) == 5623,
        prime_at(739) == 5639,
        prime_at(740) == 5641,
        prime_at(741) == 5647,
        prime_at(742) == 5651,
        prime_at(743) == 5653,
        prime_at(744) == 5657,
        prime_at(745) == 5659,
        prime_at(746) == 5669,
        prime_at(747) == 5683,
        prime_at(748) == 5689,
        prime_at(749) == 5693,
        prime_at(750) == 5701,
        prime_at(751) == 5711,
        prime_at(752) == 5717,
        prime_at(753) == 5737,
        prime_at(754) == 5741,
        prime_at(755) == 5743,
        prime_at(756) == 5749,
        prime_at(757) == 5779,
        prime_at(758) == 5783,
        prime_at(759) == 5791,
        prime_at(760) == 5801,
        prime_at(761) == 5807,
        prime_at(762) == 5813,
        prime_at(763) == 5821,
        prime_at(764) == 5827,
        prime_at(765) == 5839,
        prime_at(766) == 5843,
        prime_at(767) == 5849,
{
}

/// Entries 768 to 831 of the table.
pub proof fn lemma_primes_768_to_831()
    ensures
        prime_at(768) == 5851,
        prime_at(769) == 5857,
        prime_at(770) == 5861,
        prime_at(771) == 5867,
        prime_at(772) == 5869,
        prime_at(773) == 5879,
        prime_at(774) == 5881,
        prime_at(775) == 5897,
        prime_at(776) == 5903,
        prime_at(777) == 5923,
        prime_at(778) == 5927,
        prime_at(779) == 5939,
        prime_at(780) == 5953,
        prime_at(781) == 5981,
        prime_at(782) == 5987,
        prime_at(783) == 6007,
        prime_at(784) == 6011,
        prime_at(785) == 6029,
        prime_at(786) == 6037,
        prime_at(787) == 6043,
        prime_at(788) == 6047,
        prime_at(789) == 6053,
        prime_at(790) == 6067,
        prime_at(791) == 6073,
        prime_at(792) == 6079,
        prime_at(793) == 6089,
        prime_at(794) == 6091,
        prime_at(795) == 6101,
        prime_at(796) == 6113,
        prime_at(797) == 6121,
        prime_at(798) == 6131,
        prime_at(799) == 6133,
        prime_at(800) == 6143,
        prime_at(801) == 6151,
        prime_at(802) == 6163,
        prime_at(803) == 6173,
        prime_at(804) == 6197,
        prime_at(805) == 6199,
        prime_at(806) == 6203,
        prime_at(807) == 6211,
        prime_at(808) == 6217,
        prime_at(809) == 6221,
        prime_at(810) == 6229,
        prime_at(811) == 6247,
        prime_at(812) == 6257,
        prime_at(813) == 6263,
        prime_at(814) == 6269,
        prime_at(815) == 6271,
        prime_at(816) == 6277,
        prime_at(817) == 6287,
        prime_at(818) == 6299,
        prime_at(819) == 6301,
        prime_at(820) == 6311,
        prime_at(821) == 6317,
        prime_at(822) == 6323,
        prime_at(823) == 6329,
        prime_at(824) == 6337,
        prime_at(825) == 6343,
        prime_at(826) == 6353,
        prime_at(827) == 6359,
        prime_at(828) == 6361,
        prime_at(829) == 6367,
        prime_at(830) == 6373,
        prime_at(831) == 6379,
{
}

/// Entries 832 to 895 of the table.
pub proof fn lemma_primes_832_to_895()
    ensures
        prime_at(832) == 6389,
        prime_at(833) == 6397,
        prime_at(834) == 6421,
        prime_at(835) == 6427,
        prime_at(836) == 6449,
        prime_at(837) == 6451,
        prime_at(838) == 6469,
        prime_at(839) == 6473,
        prime_at(840) == 6481,
        prime_at(841) == 6491,
        prime_at(842) == 6521,
        prime_at(843) == 6529,
        prime_at(844) == 6547,
        prime_at(845) == 6551,
        prime_at(846) == 6553,
        prime_at(847) == 6563,
        prime_at(848) == 6569,
        prime_at(849) == 6571,
        prime_at(850) == 6577,
        prime_at(851) == 6581,
        prime_at(852) == 6599,
        prime_at(853) == 6607,
        prime_at(854) == 6619,
        prime_at(855) == 6637,
        prime_at(856) == 6653,
        prime_at(857) == 6659,
        prime_at(858) == 6661,
        prime_at(859) == 6673,
        prime_at(860) == 6679,
        prime_at(861) == 6689,
        prime_at(862) == 6691,
        prime_at(863) == 6701,
        prime_at(864) == 6703,
        prime_at(865) == 6709,
        prime_at(866) == 6719,
        prime_at(867) == 6733,
        prime_at(868) == 6737,
        prime_at(869) == 6761,
        prime_at(870) == 6763,
        prime_at(871) == 6779,
        prime_at(872) == 6781,
        prime_at(873) == 6791,
        prime_at(874) == 6793,
        prime_at(875) == 6803,
        prime_at(876) == 6823,
        prime_at(877) == 6827,
        prime_at(878) == 6829,
        prime_at(879) == 6833,
        prime_at(880) == 6841,
        prime_at(881) == 6857,
        prime_at(882) == 6863,
        prime_at(883) == 6869,
        prime_at(884) == 6871,
        prime_at(885) == 6883,
        prime_at(886) == 6899,
        prime_at(887) == 6907,
        prime_at(888) == 6911,
        prime_at(889) == 6917,
        prime_at(890) == 6947,
        prime_at(891) == 6949,
        prime_at(892) == 6959,
        prime_at(893) == 6961,
        prime_at(894) == 6967,
        prime_at(895) == 6971,
{
}

/// Entries 896 to 959 of the table.
pub proof fn lemma_primes_896_to_959()
    ensures
        prime_at(896) == 6977,
        prime_at(897) == 6983,
        prime_at(898) == 6991,
        prime_at(899) == 6997,
        prime_at(900) == 7001,
        prime_at(901) == 7013,
        prime_at(902) == 7019,
        prime_at(903) == 7027,
        prime_at(904) == 7039,
        prime_at(905) == 7043,
        prime_at(906) == 7057,
        prime_at(907) == 7069,
        prime_at(908) == 7079,
        prime_at(909) == 7103,
        prime_at(910) == 7109,
        prime_at(911) == 7121,
        prime_at(912) == 7127,
        prime_at(913) == 7129,
        prime_at(914) == 7151,
        prime_at(915) == 7159,
        prime_at(916) == 7177,
        prime_at(917) == 7187,
        prime_at(918) == 7193,
        prime_at(919) == 7207,
        prime_at(920) == 7211,
        prime_at(921) == 7213,
        prime_at(922) == 7219,
        prime_at(923) == 7229,
        prime_at(924) == 7237,
        prime_at(925) == 7243,
        prime_at(926) == 7247,
        prime_at(927) == 7253,
        prime_at(928) == 7283,
        prime_at(929) == 7297,
        prime_at(930) == 7307,
        prime_at(931) == 7309,
        prime_at(932) == 7321,
        prime_at(933) == 7331,
        prime_at(934) == 7333,
        prime_at(935) == 7349,
        prime_at(936) == 7351,
        prime_at(937) == 7369,
        prime_at(938) == 7393,
        prime_at(939) == 7411,
        prime_at(940) == 7417,
        prime_at(941) == 7433,
        prime_at(942) == 7451,
        prime_at(943) == 7457,
        prime_at(944) == 7459,
        prime_at(945) == 7477,
        prime_at(946) == 7481,
        prime_at(947) == 7487,
        prime_at(948) == 7489,
        prime_at(949) == 7499,
        prime_at(950) == 7507,
        prime_at(951) == 7517,
        prime_at(952) == 7523,
        prime_at(953) == 7529,
        prime_at(954) == 7537,
        prime_at(955) == 7541,
        prime_at(956) == 7547,
        prime_at(957) == 7549,
        prime_at(958) == 7559,
        prime_at(959) == 7561,
{
}

/// Entries 960 to 1023 of the table.
pub proof fn lemma_primes_960_to_1023()
    ensures
        prime_at(960) == 7573,
        prime_at(961) == 7577,
        prime_at(962) == 7583,
        prime_at(963) == 7589,
        prime_at(964) == 7591,
        prime_at(965) == 7603,
        prime_at(966) == 7607,
        prime_at(967) == 7621,
        prime_at(968) == 7639,
        prime_at(969) == 7643,
        prime_at(970) == 7649,
        prime_at(971) == 7669,
        prime_at(972) == 7673,
        prime_at(973) == 7681,
        prime_at(974) == 7687,
        prime_at(975) == 7691,
        prime_at(976) == 7699,
        prime_at(977) == 7703,
        prime_at(978) == 7717,
        prime_at(979) == 7723,
        prime_at(980) == 7727,
        prime_at(981) == 7741,
        prime_at(982) == 7753,
        prime_at(983) == 7757,
        prime_at(984) == 7759,
        prime_at(985) == 7789,
        prime_at(986) == 7793,
        prime_at(987) == 7817,
        prime_at(988) == 7823,
        prime_at(989) == 7829,
        prime_at(990) == 7841,
        prime_at(991) == 7853,
        prime_at(992) == 7867,
        prime_at(993) == 7873,
        prime_at(994) == 7877,
        prime_at(995) == 7879,
        prime_at(996) == 7883,
        prime_at(997) == 7901,
        prime_at(998) == 7907,
        prime_at(999) == 7919,
        prime_at(1000) == 7927,
        prime_at(1001) == 7933,
        prime_at(1002) == 7937,
        prime_at(1003) == 7949,
        prime_at(1004) == 7951,
        prime_at(1005) == 7963,
        prime_at(1006) == 7993,
        prime_at(1007) == 8009,
        prime_at(1008) == 8011,
        prime_at(1009) == 8017,
        prime_at(1010) == 8039,
        prime_at(1011) == 8053,
        prime_at(1012) == 8059,
        prime_at(1013) == 8069,
        prime_at(1014) == 8081,
        prime_at(1015) == 8087,
        prime_at(1016) == 8089,
        prime_at(1017) == 8093,
        prime_at(1018) == 8101,
        prime_at(1019) == 8111,
        prime_at(1020) == 8117,
        prime_at(1021) == 8123,
        prime_at(1022) == 8147,
        prime_at(1023) == 8161,
{
}

} // verus!
