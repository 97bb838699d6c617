//! Move ordering via MVV-LVA, SEE, killers, history, and continuation history.
//!
//! Score bands ensure correct ordering:
//! - TT move:              100,000
//! - Queen promotion:       30,000
//! - Good captures (SEE >= 0): 10,000 + MVV_LVA (10,007..10,144)
//! - En passant:            10,015
//! - Killer moves:           9,000
//! - Quiet moves (history): bounded by ±HISTORY_MAX plus cont_hist
//! - Bad captures (SEE < 0): -50,000 + see_score (always very negative)

use vstd::prelude::*;

use crate::board::{Board, BoardModel};
use crate::chess_move::{Move, MoveKind, PromotionPiece};
use crate::movegen::MoveList;
use crate::piece_kind::PieceKind;
use crate::search::heuristics::{
    cont_fits, cont_hist_score, cont_sum, div_toward_zero, div_trunc, ContinuationHistory, HistoryTable, KillerTable,
    StackEntry, HISTORY_MAX, MAX_PLY,
};
use crate::search::see::{see, see_ge, see_model};

verus! {

/// MVV-LVA scores indexed by `[victim][attacker]`.
///
/// Weights: Pawn=1, Knight=3, Bishop=3, Rook=5, Queen=9, King=0.
/// Formula: `victim_weight * 16 - attacker_weight`.
pub const MVV_LVA: [[i32; 6]; 6] = [
    // victim = Pawn (weight 1)
    [15, 13, 13, 11, 7, 16],
    // victim = Knight (weight 3)
    [47, 45, 45, 43, 39, 48],
    // victim = Bishop (weight 3)
    [47, 45, 45, 43, 39, 48],
    // victim = Rook (weight 5)
    [79, 77, 77, 75, 71, 80],
    // victim = Queen (weight 9)
    [143, 141, 141, 139, 135, 144],
    // victim = King (weight 0)
    [-1, -3, -3, -5, -9, 0],
];

/// Late-move reductions in 1024ths of a ply, indexed `[move_index][depth]`:
/// `trunc((0.76 + ln(move_index) * ln(depth) / 2.32) * 1024)` for indices and
/// depths from 1, and 0 where either is 0.
pub const LMR_TABLE: [[i32; 64]; 64] = [
    // move index 0
    [
        0, 0, 0, 0, 0, 0, 0, 0, 0, 0, 0, 0, 0, 0, 0, 0,
        0, 0, 0, 0, 0, 0, 0, 0, 0, 0, 0, 0, 0, 0, 0, 0,
        0, 0, 0, 0, 0, 0, 0, 0, 0, 0, 0, 0, 0, 0, 0, 0,
        0, 0, 0, 0, 0, 0, 0, 0, 0, 0, 0, 0, 0, 0, 0, 0,
    ],
    // move index 1
    [
        0, 778, 778, 778, 778, 778, 778, 778, 778, 778, 778, 778, 778, 778, 778, 778,
        778, 778, 778, 778, 778, 778, 778, 778, 778, 778, 778, 778, 778, 778, 778, 778,
        778, 778, 778, 778, 778, 778, 778, 778, 778, 778, 778, 778, 778, 778, 778, 778,
        778, 778, 778, 778, 778, 778, 778, 778, 778, 778, 778, 778, 778, 778, 778, 778,
    ],
    // move index 2
    [
        0, 778, 990, 1114, 1202, 1270, 1326, 1373, 1414, 1450, 1482, 1511, 1538, 1562, 1585, 1606,
        1626, 1645, 1662, 1679, 1694, 1709, 1723, 1737, 1750, 1763, 1775, 1786, 1797, 1808, 1818, 1828,
        1838, 1847, 1857, 1865, 1874, 1882, 1891, 1899, 1906, 1914, 1921, 1928, 1935, 1942, 1949, 1956,
        1962, 1968, 1975, 1981, 1987, 1992, 1998, 2004, 2009, 2015, 2020, 2025, 2030, 2035, 2040, 2045,
    ],
    // move index 3
    [
        0, 778, 1114, 1310, 1450, 1558, 1647, 1721, 1786, 1843, 1894, 1940, 1983, 2021, 2057, 2091,
        2122, 2152, 2179, 2206, 2230, 2254, 2277, 2298, 2319, 2339, 2358, 2376, 2394, 2411, 2427, 2443,
        2458, 2473, 2488, 2502, 2515, 2529, 2542, 2554, 2566, 2578, 2590, 2602, 2613, 2624, 2634, 2645,
        2655, 2665, 2675, 2684, 2694, 2703, 2712, 2721, 2730, 2738, 2747, 2755, 2763, 2771, 2779, 2787,
    ],
    // move index 4
    [
        0, 778, 1202, 1450, 1626, 1763, 1874, 1968, 2050, 2122, 2187, 2245, 2298, 2347, 2393, 2435,
        2474, 2511, 2546, 2579, 2611, 2641, 2669, 2696, 2722, 2747, 2771, 2794, 2817, 2838, 2859, 2879,
        2898, 2917, 2935, 2953, 2970, 2987, 3004, 3019, 3035, 3050, 3065, 3079, 3093, 3107, 3120, 3134,
        3146, 3159, 3171, 3184, 3195, 3207, 3219, 3230, 3241, 3252, 3262, 3273, 3283, 3293, 3303, 3313,
    ],
    // move index 5
    [
        0, 778, 1270, 1558, 1763, 1921, 2051, 2160, 2255, 2339, 2413, 2481, 2543, 2600, 2652, 2701,
        2747, 2790, 2831, 2869, 2906, 2940, 2974, 3005, 3035, 3064, 3092, 3119, 3145, 3170, 3194, 3217,
        3240, 3262, 3283, 3303, 3323, 3343, 3362, 3380, 3398, 3416, 3433, 3450, 3466, 3482, 3498, 3513,
        3528, 3542, 3557, 3571, 3585, 3598, 3611, 3624, 3637, 3650, 3662, 3674, 3686, 3698, 3710, 3721,
    ],
    // move index 6
    [
        0, 778, 1326, 1647, 1874, 2051, 2195, 2317, 2422, 2515, 2599, 2674, 2743, 2806, 2865, 2919,
        2970, 3018, 3064, 3106, 3147, 3185, 3222, 3257, 3291, 3323, 3354, 3384, 3413, 3441, 3468, 3493,
        3519, 3543, 3567, 3589, 3612, 3633, 3655, 3675, 3695, 3715, 3734, 3752, 3770, 3788, 3806, 3823,
        3839, 3856, 3872, 3887, 3903, 3918, 3932, 3947, 3961, 3975, 3989, 4002, 4016, 4029, 4042, 4054,
    ],
    // move index 7
    [
        0, 778, 1373, 1721, 1968, 2160, 2317, 2449, 2564, 2665, 2755, 2837, 2912, 2981, 3044, 3104,
        3159, 3211, 3260, 3307, 3351, 3393, 3433, 3471, 3507, 3542, 3576, 3608, 3640, 3670, 3699, 3727,
        3754, 3781, 3806, 3831, 3856, 3879, 3902, 3924, 3946, 3967, 3988, 4008, 4028, 4047, 4066, 4085,
        4103, 4120, 4138, 4155, 4171, 4188, 4204, 4220, 4235, 4250, 4265, 4280, 4294, 4309, 4322, 4336,
    ],
    // move index 8
    [
        0, 778, 1414, 1786, 2050, 2255, 2422, 2564, 2686, 2794, 2891, 2979, 3058, 3132, 3200, 3263,
        3322, 3378, 3431, 3480, 3527, 3572, 3615, 3656, 3695, 3732, 3768, 3803, 3836, 3868, 3899, 3930,
        3959, 3987, 4014, 4041, 4067, 4092, 4116, 4140, 4163, 4186, 4208, 4230, 4251, 4272, 4292, 4311,
        4331, 4350, 4368, 4386, 4404, 4422, 4439, 4456, 4472, 4489, 4505, 4520, 4536, 4551, 4566, 4580,
    ],
    // move index 9
    [
        0, 778, 1450, 1843, 2122, 2339, 2515, 2665, 2794, 2909, 3011, 3103, 3188, 3265, 3337, 3404,
        3467, 3525, 3581, 3633, 3683, 3730, 3775, 3819, 3860, 3899, 3937, 3974, 4009, 4043, 4076, 4108,
        4139, 4169, 4198, 4226, 4253, 4280, 4306, 4331, 4355, 4379, 4403, 4425, 4448, 4469, 4491, 4512,
        4532, 4552, 4572, 4591, 4610, 4628, 4646, 4664, 4682, 4699, 4716, 4732, 4748, 4765, 4780, 4796,
    ],
    // move index 10
    [
        0, 778, 1482, 1894, 2187, 2413, 2599, 2755, 2891, 3011, 3118, 3215, 3303, 3385, 3460, 3530,
        3596, 3657, 3715, 3770, 3822, 3872, 3919, 3964, 4008, 4049, 4089, 4127, 4164, 4200, 4234, 4268,
        4300, 4331, 4362, 4391, 4420, 4448, 4475, 4501, 4527, 4552, 4576, 4600, 4624, 4647, 4669, 4691,
        4712, 4733, 4754, 4774, 4793, 4813, 4832, 4850, 4869, 4887, 4904, 4922, 4939, 4956, 4972, 4988,
    ],
    // move index 11
    [
        0, 778, 1511, 1940, 2245, 2481, 2674, 2837, 2979, 3103, 3215, 3316, 3408, 3492, 3571, 3644,
        3712, 3776, 3837, 3894, 3948, 4000, 4049, 4096, 4141, 4185, 4226, 4266, 4304, 4342, 4378, 4412,
        4446, 4478, 4510, 4541, 4570, 4599, 4628, 4655, 4682, 4708, 4734, 4759, 4783, 4807, 4830, 4853,
        4875, 4897, 4918, 4939, 4960, 4980, 5000, 5019, 5038, 5057, 5075, 5093, 5111, 5129, 5146, 5163,
    ],
    // move index 12
    [
        0, 778, 1538, 1983, 2298, 2543, 2743, 2912, 3058, 3188, 3303, 3408, 3503, 3591, 3672, 3748,
        3819, 3885, 3948, 4007, 4063, 4117, 4168, 4217, 4263, 4308, 4351, 4393, 4432, 4471, 4508, 4544,
        4579, 4613, 4645, 4677, 4708, 4738, 4767, 4796, 4824, 4851, 4877, 4903, 4928, 4953, 4977, 5001,
        5024, 5046, 5068, 5090, 5111, 5132, 5153, 5173, 5193, 5212, 5231, 5250, 5268, 5286, 5304, 5322,
    ],
    // move index 13
    [
        0, 778, 1562, 2021, 2347, 2600, 2806, 2981, 3132, 3265, 3385, 3492, 3591, 3682, 3765, 3844,
        3917, 3985, 4050, 4111, 4169, 4224, 4277, 4327, 4376, 4422, 4466, 4509, 4550, 4590, 4628, 4665,
        4701, 4736, 4770, 4803, 4835, 4866, 4896, 4925, 4954, 4982, 5009, 5036, 5062, 5087, 5112, 5137,
        5160, 5184, 5207, 5229, 5251, 5273, 5294, 5315, 5335, 5355, 5375, 5394, 5413, 5432, 5450, 5468,
    ],
    // move index 14
    [
        0, 778, 1585, 2057, 2393, 2652, 2865, 3044, 3200, 3337, 3460, 3571, 3672, 3765, 3852, 3932,
        4007, 4078, 4145, 4207, 4267, 4324, 4378, 4430, 4480, 4527, 4573, 4617, 4659, 4700, 4740, 4778,
        4815, 4851, 4885, 4919, 4952, 4984, 5015, 5045, 5075, 5103, 5131, 5159, 5186, 5212, 5237, 5262,
        5287, 5311, 5335, 5358, 5380, 5402, 5424, 5446, 5467, 5487, 5507, 5527, 5547, 5566, 5585, 5604,
    ],
    // move index 15
    [
        0, 778, 1606, 2091, 2435, 2701, 2919, 3104, 3263, 3404, 3530, 3644, 3748, 3844, 3932, 4015,
        4092, 4164, 4233, 4297, 4358, 4417, 4472, 4526, 4576, 4625, 4672, 4717, 4761, 4803, 4843, 4882,
        4920, 4957, 4993, 5027, 5061, 5094, 5126, 5157, 5187, 5216, 5245, 5273, 5301, 5328, 5354, 5380,
        5405, 5430, 5454, 5477, 5501, 5523, 5546, 5568, 5589, 5610, 5631, 5652, 5672, 5691, 5711, 5730,
    ],
    // move index 16
    [
        0, 778, 1626, 2122, 2474, 2747, 2970, 3159, 3322, 3467, 3596, 3712, 3819, 3917, 4007, 4092,
        4171, 4245, 4315, 4381, 4444, 4504, 4560, 4615, 4667, 4717, 4765, 4811, 4856, 4899, 4940, 4980,
        5019, 5057, 5093, 5129, 5163, 5197, 5229, 5261, 5292, 5322, 5352, 5381, 5409, 5436, 5463, 5489,
        5515, 5540, 5565, 5589, 5613, 5636, 5659, 5682, 5704, 5725, 5747, 5768, 5788, 5808, 5828, 5848,
    ],
    // move index 17
    [
        0, 778, 1645, 2152, 2511, 2790, 3018, 3211, 3378, 3525, 3657, 3776, 3885, 3985, 4078, 4164,
        4245, 4321, 4392, 4460, 4524, 4585, 4643, 4699, 4752, 4803, 4852, 4899, 4945, 4989, 5031, 5072,
        5112, 5150, 5188, 5224, 5259, 5293, 5327, 5359, 5391, 5422, 5452, 5481, 5510, 5538, 5566, 5592,
        5619, 5645, 5670, 5695, 5719, 5743, 5766, 5789, 5812, 5834, 5855, 5877, 5898, 5918, 5939, 5959,
    ],
    // move index 18
    [
        0, 778, 1662, 2179, 2546, 2831, 3064, 3260, 3431, 3581, 3715, 3837, 3948, 4050, 4145, 4233,
        4315, 4392, 4465, 4534, 4600, 4662, 4721, 4778, 4832, 4884, 4934, 4982, 5029, 5074, 5117, 5159,
        5199, 5238, 5276, 5313, 5349, 5384, 5418, 5452, 5484, 5515, 5546, 5576, 5605, 5634, 5662, 5690,
        5716, 5743, 5769, 5794, 5819, 5843, 5867, 5890, 5913, 5936, 5958, 5980, 6001, 6022, 6043, 6063,
    ],
    // move index 19
    [
        0, 778, 1679, 2206, 2579, 2869, 3106, 3307, 3480, 3633, 3770, 3894, 4007, 4111, 4207, 4297,
        4381, 4460, 4534, 4604, 4671, 4734, 4795, 4853, 4908, 4961, 5012, 5061, 5108, 5154, 5198, 5241,
        5282, 5322, 5361, 5398, 5435, 5471, 5505, 5539, 5572, 5604, 5635, 5666, 5696, 5725, 5753, 5781,
        5809, 5836, 5862, 5888, 5913, 5938, 5962, 5986, 6009, 6032, 6055, 6077, 6099, 6120, 6141, 6162,
    ],
    // move index 20
    [
        0, 778, 1694, 2230, 2611, 2906, 3147, 3351, 3527, 3683, 3822, 3948, 4063, 4169, 4267, 4358,
        4444, 4524, 4600, 4671, 4739, 4803, 4865, 4924, 4980, 5034, 5086, 5136, 5184, 5230, 5275, 5318,
        5360, 5401, 5440, 5479, 5516, 5552, 5588, 5622, 5655, 5688, 5720, 5751, 5781, 5811, 5840, 5869,
        5896, 5924, 5950, 5977, 6002, 6027, 6052, 6076, 6100, 6124, 6147, 6169, 6192, 6213, 6235, 6256,
    ],
    // move index 21
    [
        0, 778, 1709, 2254, 2641, 2940, 3185, 3393, 3572, 3730, 3872, 4000, 4117, 4224, 4324, 4417,
        4504, 4585, 4662, 4734, 4803, 4869, 4931, 4991, 5048, 5103, 5156, 5207, 5256, 5303, 5348, 5392,
        5435, 5476, 5516, 5555, 5593, 5630, 5666, 5701, 5735, 5768, 5800, 5832, 5863, 5893, 5923, 5952,
        5980, 6008, 6035, 6061, 6087, 6113, 6138, 6163, 6187, 6211, 6234, 6257, 6280, 6302, 6324, 6345,
    ],
    // move index 22
    [
        0, 778, 1723, 2277, 2669, 2974, 3222, 3433, 3615, 3775, 3919, 4049, 4168, 4277, 4378, 4472,
        4560, 4643, 4721, 4795, 4865, 4931, 4995, 5056, 5114, 5169, 5223, 5274, 5324, 5372, 5418, 5463,
        5506, 5548, 5589, 5628, 5667, 5704, 5741, 5776, 5811, 5844, 5877, 5909, 5941, 5971, 6001, 6031,
        6059, 6087, 6115, 6142, 6169, 6194, 6220, 6245, 6270, 6294, 6317, 6341, 6364, 6386, 6408, 6430,
    ],
    // move index 23
    [
        0, 778, 1737, 2298, 2696, 3005, 3257, 3471, 3656, 3819, 3964, 4096, 4217, 4327, 4430, 4526,
        4615, 4699, 4778, 4853, 4924, 4991, 5056, 5117, 5176, 5232, 5287, 5339, 5389, 5438, 5485, 5530,
        5574, 5617, 5658, 5698, 5737, 5775, 5812, 5848, 5883, 5917, 5950, 5983, 6015, 6046, 6076, 6106,
        6135, 6164, 6192, 6219, 6246, 6272, 6298, 6324, 6349, 6373, 6397, 6421, 6444, 6467, 6489, 6512,
    ],
    // move index 24
    [
        0, 778, 1750, 2319, 2722, 3035, 3291, 3507, 3695, 3860, 4008, 4141, 4263, 4376, 4480, 4576,
        4667, 4752, 4832, 4908, 4980, 5048, 5114, 5176, 5236, 5293, 5348, 5401, 5452, 5501, 5549, 5595,
        5639, 5682, 5724, 5765, 5804, 5843, 5880, 5917, 5952, 5987, 6021, 6054, 6086, 6117, 6148, 6178,
        6208, 6237, 6265, 6293, 6320, 6347, 6373, 6399, 6424, 6449, 6473, 6497, 6521, 6544, 6567, 6589,
    ],
    // move index 25
    [
        0, 778, 1763, 2339, 2747, 3064, 3323, 3542, 3732, 3899, 4049, 4185, 4308, 4422, 4527, 4625,
        4717, 4803, 4884, 4961, 5034, 5103, 5169, 5232, 5293, 5351, 5407, 5460, 5512, 5562, 5610, 5657,
        5702, 5745, 5788, 5829, 5869, 5908, 5946, 5983, 6019, 6054, 6088, 6121, 6154, 6186, 6217, 6248,
        6278, 6307, 6336, 6364, 6391, 6419, 6445, 6471, 6497, 6522, 6547, 6571, 6595, 6618, 6641, 6664,
    ],
    // move index 26
    [
        0, 778, 1775, 2358, 2771, 3092, 3354, 3576, 3768, 3937, 4089, 4226, 4351, 4466, 4573, 4672,
        4765, 4852, 4934, 5012, 5086, 5156, 5223, 5287, 5348, 5407, 5463, 5517, 5570, 5620, 5669, 5716,
        5762, 5806, 5849, 5891, 5931, 5970, 6009, 6046, 6083, 6118, 6153, 6187, 6220, 6252, 6284, 6314,
        6345, 6374, 6403, 6432, 6460, 6487, 6514, 6541, 6566, 6592, 6617, 6641, 6666, 6689, 6713, 6736,
    ],
    // move index 27
    [
        0, 778, 1786, 2376, 2794, 3119, 3384, 3608, 3803, 3974, 4127, 4266, 4393, 4509, 4617, 4717,
        4811, 4899, 4982, 5061, 5136, 5207, 5274, 5339, 5401, 5460, 5517, 5572, 5625, 5676, 5726, 5773,
        5819, 5864, 5908, 5950, 5991, 6031, 6069, 6107, 6144, 6180, 6215, 6249, 6283, 6315, 6347, 6379,
        6409, 6439, 6469, 6497, 6526, 6553, 6581, 6607, 6633, 6659, 6685, 6709, 6734, 6758, 6782, 6805,
    ],
    // move index 28
    [
        0, 778, 1797, 2394, 2817, 3145, 3413, 3640, 3836, 4009, 4164, 4304, 4432, 4550, 4659, 4761,
        4856, 4945, 5029, 5108, 5184, 5256, 5324, 5389, 5452, 5512, 5570, 5625, 5679, 5730, 5780, 5828,
        5875, 5920, 5964, 6007, 6048, 6089, 6128, 6166, 6203, 6240, 6275, 6310, 6343, 6376, 6409, 6440,
        6471, 6502, 6531, 6561, 6589, 6617, 6645, 6672, 6698, 6724, 6750, 6775, 6800, 6824, 6848, 6871,
    ],
    // move index 29
    [
        0, 778, 1808, 2411, 2838, 3170, 3441, 3670, 3868, 4043, 4200, 4342, 4471, 4590, 4700, 4803,
        4899, 4989, 5074, 5154, 5230, 5303, 5372, 5438, 5501, 5562, 5620, 5676, 5730, 5782, 5833, 5882,
        5929, 5974, 6019, 6062, 6104, 6144, 6184, 6223, 6260, 6297, 6333, 6368, 6402, 6435, 6468, 6500,
        6531, 6562, 6592, 6621, 6650, 6679, 6706, 6734, 6760, 6787, 6813, 6838, 6863, 6888, 6912, 6935,
    ],
    // move index 30
    [
        0, 778, 1818, 2427, 2859, 3194, 3468, 3699, 3899, 4076, 4234, 4378, 4508, 4628, 4740, 4843,
        4940, 5031, 5117, 5198, 5275, 5348, 5418, 5485, 5549, 5610, 5669, 5726, 5780, 5833, 5884, 5933,
        5981, 6027, 6072, 6115, 6157, 6199, 6239, 6278, 6316, 6353, 6389, 6424, 6459, 6492, 6525, 6558,
        6589, 6620, 6651, 6680, 6709, 6738, 6766, 6794, 6821, 6847, 6873, 6899, 6924, 6949, 6973, 6997,
    ],
    // move index 31
    [
        0, 778, 1828, 2443, 2879, 3217, 3493, 3727, 3930, 4108, 4268, 4412, 4544, 4665, 4778, 4882,
        4980, 5072, 5159, 5241, 5318, 5392, 5463, 5530, 5595, 5657, 5716, 5773, 5828, 5882, 5933, 5983,
        6031, 6077, 6123, 6167, 6209, 6251, 6291, 6331, 6369, 6406, 6443, 6479, 6513, 6547, 6581, 6613,
        6645, 6677, 6707, 6737, 6767, 6795, 6824, 6852, 6879, 6906, 6932, 6958, 6984, 7009, 7033, 7057,
    ],
    // move index 32
    [
        0, 778, 1838, 2458, 2898, 3240, 3519, 3754, 3959, 4139, 4300, 4446, 4579, 4701, 4815, 4920,
        5019, 5112, 5199, 5282, 5360, 5435, 5506, 5574, 5639, 5702, 5762, 5819, 5875, 5929, 5981, 6031,
        6079, 6126, 6172, 6216, 6259, 6301, 6342, 6382, 6421, 6458, 6495, 6531, 6566, 6601, 6634, 6667,
        6700, 6731, 6762, 6792, 6822, 6851, 6880, 6908, 6935, 6962, 6989, 7015, 7041, 7066, 7091, 7116,
    ],
    // move index 33
    [
        0, 778, 1847, 2473, 2917, 3262, 3543, 3781, 3987, 4169, 4331, 4478, 4613, 4736, 4851, 4957,
        5057, 5150, 5238, 5322, 5401, 5476, 5548, 5617, 5682, 5745, 5806, 5864, 5920, 5974, 6027, 6077,
        6126, 6174, 6220, 6265, 6308, 6350, 6392, 6432, 6471, 6509, 6546, 6582, 6618, 6653, 6686, 6720,
        6752, 6784, 6815, 6846, 6876, 6905, 6934, 6962, 6990, 7017, 7044, 7071, 7096, 7122, 7147, 7172,
    ],
    // move index 34
    [
        0, 778, 1857, 2488, 2935, 3283, 3567, 3806, 4014, 4198, 4362, 4510, 4645, 4770, 4885, 4993,
        5093, 5188, 5276, 5361, 5440, 5516, 5589, 5658, 5724, 5788, 5849, 5908, 5964, 6019, 6072, 6123,
        6172, 6220, 6266, 6312, 6355, 6398, 6440, 6480, 6519, 6558, 6595, 6632, 6668, 6703, 6737, 6770,
        6803, 6835, 6867, 6897, 6928, 6957, 6986, 7015, 7043, 7071, 7098, 7124, 7150, 7176, 7201, 7226,
    ],
    // move index 35
    [
        0, 778, 1865, 2502, 2953, 3303, 3589, 3831, 4041, 4226, 4391, 4541, 4677, 4803, 4919, 5027,
        5129, 5224, 5313, 5398, 5479, 5555, 5628, 5698, 5765, 5829, 5891, 5950, 6007, 6062, 6115, 6167,
        6216, 6265, 6312, 6357, 6401, 6444, 6486, 6527, 6567, 6605, 6643, 6680, 6716, 6751, 6786, 6820,
        6853, 6885, 6917, 6948, 6978, 7008, 7037, 7066, 7095, 7122, 7150, 7176, 7203, 7229, 7254, 7279,
    ],
    // move index 36
    [
        0, 778, 1874, 2515, 2970, 3323, 3612, 3856, 4067, 4253, 4420, 4570, 4708, 4835, 4952, 5061,
        5163, 5259, 5349, 5435, 5516, 5593, 5667, 5737, 5804, 5869, 5931, 5991, 6048, 6104, 6157, 6209,
        6259, 6308, 6355, 6401, 6446, 6489, 6531, 6572, 6612, 6651, 6690, 6727, 6763, 6799, 6833, 6867,
        6901, 6933, 6965, 6997, 7027, 7058, 7087, 7116, 7145, 7173, 7200, 7227, 7254, 7280, 7306, 7331,
    ],
    // move index 37
    [
        0, 778, 1882, 2529, 2987, 3343, 3633, 3879, 4092, 4280, 4448, 4599, 4738, 4866, 4984, 5094,
        5197, 5293, 5384, 5471, 5552, 5630, 5704, 5775, 5843, 5908, 5970, 6031, 6089, 6144, 6199, 6251,
        6301, 6350, 6398, 6444, 6489, 6533, 6575, 6617, 6657, 6696, 6735, 6772, 6809, 6845, 6880, 6914,
        6948, 6980, 7013, 7044, 7075, 7106, 7135, 7165, 7193, 7221, 7249, 7276, 7303, 7330, 7356, 7381,
    ],
    // move index 38
    [
        0, 778, 1891, 2542, 3004, 3362, 3655, 3902, 4116, 4306, 4475, 4628, 4767, 4896, 5015, 5126,
        5229, 5327, 5418, 5505, 5588, 5666, 5741, 5812, 5880, 5946, 6009, 6069, 6128, 6184, 6239, 6291,
        6342, 6392, 6440, 6486, 6531, 6575, 6618, 6660, 6700, 6740, 6779, 6817, 6853, 6890, 6925, 6959,
        6993, 7026, 7059, 7091, 7122, 7152, 7182, 7212, 7241, 7269, 7297, 7324, 7351, 7378, 7404, 7430,
    ],
    // move index 39
    [
        0, 778, 1899, 2554, 3019, 3380, 3675, 3924, 4140, 4331, 4501, 4655, 4796, 4925, 5045, 5157,
        5261, 5359, 5452, 5539, 5622, 5701, 5776, 5848, 5917, 5983, 6046, 6107, 6166, 6223, 6278, 6331,
        6382, 6432, 6480, 6527, 6572, 6617, 6660, 6702, 6743, 6783, 6822, 6860, 6897, 6933, 6969, 7004,
        7038, 7071, 7104, 7136, 7167, 7198, 7228, 7258, 7287, 7315, 7344, 7371, 7398, 7425, 7451, 7477,
    ],
    // move index 40
    [
        0, 778, 1906, 2566, 3035, 3398, 3695, 3946, 4163, 4355, 4527, 4682, 4824, 4954, 5075, 5187,
        5292, 5391, 5484, 5572, 5655, 5735, 5811, 5883, 5952, 6019, 6083, 6144, 6203, 6260, 6316, 6369,
        6421, 6471, 6519, 6567, 6612, 6657, 6700, 6743, 6784, 6824, 6863, 6902, 6939, 6976, 7012, 7047,
        7081, 7114, 7147, 7180, 7211, 7242, 7273, 7302, 7332, 7361, 7389, 7417, 7444, 7471, 7498, 7524,
    ],
    // move index 41
    [
        0, 778, 1914, 2578, 3050, 3416, 3715, 3967, 4186, 4379, 4552, 4708, 4851, 4982, 5103, 5216,
        5322, 5422, 5515, 5604, 5688, 5768, 5844, 5917, 5987, 6054, 6118, 6180, 6240, 6297, 6353, 6406,
        6458, 6509, 6558, 6605, 6651, 6696, 6740, 6783, 6824, 6865, 6904, 6943, 6980, 7017, 7053, 7088,
        7123, 7157, 7190, 7222, 7254, 7285, 7316, 7346, 7376, 7405, 7433, 7461, 7489, 7516, 7543, 7569,
    ],
    // move index 42
    [
        0, 778, 1921, 2590, 3065, 3433, 3734, 3988, 4208, 4403, 4576, 4734, 4877, 5009, 5131, 5245,
        5352, 5452, 5546, 5635, 5720, 5800, 5877, 5950, 6021, 6088, 6153, 6215, 6275, 6333, 6389, 6443,
        6495, 6546, 6595, 6643, 6690, 6735, 6779, 6822, 6863, 6904, 6944, 6983, 7021, 7058, 7094, 7129,
        7164, 7198, 7232, 7264, 7296, 7328, 7358, 7389, 7418, 7448, 7476, 7505, 7532, 7560, 7586, 7613,
    ],
    // move index 43
    [
        0, 778, 1928, 2602, 3079, 3450, 3752, 4008, 4230, 4425, 4600, 4759, 4903, 5036, 5159, 5273,
        5381, 5481, 5576, 5666, 5751, 5832, 5909, 5983, 6054, 6121, 6187, 6249, 6310, 6368, 6424, 6479,
        6531, 6582, 6632, 6680, 6727, 6772, 6817, 6860, 6902, 6943, 6983, 7022, 7060, 7097, 7134, 7169,
        7204, 7239, 7272, 7305, 7337, 7369, 7400, 7430, 7460, 7490, 7519, 7547, 7575, 7602, 7629, 7656,
    ],
    // move index 44
    [
        0, 778, 1935, 2613, 3093, 3466, 3770, 4028, 4251, 4448, 4624, 4783, 4928, 5062, 5186, 5301,
        5409, 5510, 5605, 5696, 5781, 5863, 5941, 6015, 6086, 6154, 6220, 6283, 6343, 6402, 6459, 6513,
        6566, 6618, 6668, 6716, 6763, 6809, 6853, 6897, 6939, 6980, 7021, 7060, 7098, 7136, 7173, 7208,
        7244, 7278, 7312, 7345, 7377, 7409, 7440, 7471, 7501, 7531, 7560, 7588, 7616, 7644, 7671, 7698,
    ],
    // move index 45
    [
        0, 778, 1942, 2624, 3107, 3482, 3788, 4047, 4272, 4469, 4647, 4807, 4953, 5087, 5212, 5328,
        5436, 5538, 5634, 5725, 5811, 5893, 5971, 6046, 6117, 6186, 6252, 6315, 6376, 6435, 6492, 6547,
        6601, 6653, 6703, 6751, 6799, 6845, 6890, 6933, 6976, 7017, 7058, 7097, 7136, 7174, 7211, 7247,
        7282, 7317, 7351, 7384, 7417, 7449, 7480, 7511, 7541, 7571, 7600, 7629, 7657, 7685, 7712, 7739,
    ],
    // move index 46
    [
        0, 778, 1949, 2634, 3120, 3498, 3806, 4066, 4292, 4491, 4669, 4830, 4977, 5112, 5237, 5354,
        5463, 5566, 5662, 5753, 5840, 5923, 6001, 6076, 6148, 6217, 6284, 6347, 6409, 6468, 6525, 6581,
        6634, 6686, 6737, 6786, 6833, 6880, 6925, 6969, 7012, 7053, 7094, 7134, 7173, 7211, 7248, 7284,
        7320, 7354, 7389, 7422, 7455, 7487, 7519, 7550, 7580, 7610, 7639, 7668, 7697, 7725, 7752, 7779,
    ],
    // move index 47
    [
        0, 778, 1956, 2645, 3134, 3513, 3823, 4085, 4311, 4512, 4691, 4853, 5001, 5137, 5262, 5380,
        5489, 5592, 5690, 5781, 5869, 5952, 6031, 6106, 6178, 6248, 6314, 6379, 6440, 6500, 6558, 6613,
        6667, 6720, 6770, 6820, 6867, 6914, 6959, 7004, 7047, 7088, 7129, 7169, 7208, 7247, 7284, 7321,
        7356, 7391, 7426, 7459, 7492, 7525, 7557, 7588, 7618, 7648, 7678, 7707, 7736, 7764, 7791, 7818,
    ],
    // move index 48
    [
        0, 778, 1962, 2655, 3146, 3528, 3839, 4103, 4331, 4532, 4712, 4875, 5024, 5160, 5287, 5405,
        5515, 5619, 5716, 5809, 5896, 5980, 6059, 6135, 6208, 6278, 6345, 6409, 6471, 6531, 6589, 6645,
        6700, 6752, 6803, 6853, 6901, 6948, 6993, 7038, 7081, 7123, 7164, 7204, 7244, 7282, 7320, 7356,
        7392, 7428, 7462, 7496, 7529, 7562, 7594, 7625, 7656, 7686, 7716, 7745, 7774, 7802, 7830, 7857,
    ],
    // move index 49
    [
        0, 778, 1968, 2665, 3159, 3542, 3856, 4120, 4350, 4552, 4733, 4897, 5046, 5184, 5311, 5430,
        5540, 5645, 5743, 5836, 5924, 6008, 6087, 6164, 6237, 6307, 6374, 6439, 6502, 6562, 6620, 6677,
        6731, 6784, 6835, 6885, 6933, 6980, 7026, 7071, 7114, 7157, 7198, 7239, 7278, 7317, 7354, 7391,
        7428, 7463, 7498, 7532, 7565, 7598, 7630, 7661, 7692, 7723, 7753, 7782, 7811, 7839, 7867, 7895,
    ],
    // move index 50
    [
        0, 778, 1975, 2675, 3171, 3557, 3872, 4138, 4368, 4572, 4754, 4918, 5068, 5207, 5335, 5454,
        5565, 5670, 5769, 5862, 5950, 6035, 6115, 6192, 6265, 6336, 6403, 6469, 6531, 6592, 6651, 6707,
        6762, 6815, 6867, 6917, 6965, 7013, 7059, 7104, 7147, 7190, 7232, 7272, 7312, 7351, 7389, 7426,
        7462, 7498, 7533, 7567, 7600, 7633, 7665, 7697, 7728, 7759, 7789, 7818, 7847, 7876, 7904, 7932,
    ],
    // move index 51
    [
        0, 778, 1981, 2684, 3184, 3571, 3887, 4155, 4386, 4591, 4774, 4939, 5090, 5229, 5358, 5477,
        5589, 5695, 5794, 5888, 5977, 6061, 6142, 6219, 6293, 6364, 6432, 6497, 6561, 6621, 6680, 6737,
        6792, 6846, 6897, 6948, 6997, 7044, 7091, 7136, 7180, 7222, 7264, 7305, 7345, 7384, 7422, 7459,
        7496, 7532, 7567, 7601, 7635, 7668, 7700, 7732, 7763, 7794, 7824, 7854, 7883, 7912, 7940, 7968,
    ],
    // move index 52
    [
        0, 778, 1987, 2694, 3195, 3585, 3903, 4171, 4404, 4610, 4793, 4960, 5111, 5251, 5380, 5501,
        5613, 5719, 5819, 5913, 6002, 6087, 6169, 6246, 6320, 6391, 6460, 6526, 6589, 6650, 6709, 6767,
        6822, 6876, 6928, 6978, 7027, 7075, 7122, 7167, 7211, 7254, 7296, 7337, 7377, 7417, 7455, 7492,
        7529, 7565, 7600, 7635, 7669, 7702, 7735, 7767, 7798, 7829, 7859, 7889, 7918, 7947, 7975, 8003,
    ],
    // move index 53
    [
        0, 778, 1992, 2703, 3207, 3598, 3918, 4188, 4422, 4628, 4813, 4980, 5132, 5273, 5402, 5523,
        5636, 5743, 5843, 5938, 6027, 6113, 6194, 6272, 6347, 6419, 6487, 6553, 6617, 6679, 6738, 6795,
        6851, 6905, 6957, 7008, 7058, 7106, 7152, 7198, 7242, 7285, 7328, 7369, 7409, 7449, 7487, 7525,
        7562, 7598, 7633, 7668, 7702, 7735, 7768, 7800, 7832, 7863, 7893, 7923, 7953, 7982, 8010, 8038,
    ],
    // move index 54
    [
        0, 778, 1998, 2712, 3219, 3611, 3932, 4204, 4439, 4646, 4832, 5000, 5153, 5294, 5424, 5546,
        5659, 5766, 5867, 5962, 6052, 6138, 6220, 6298, 6373, 6445, 6514, 6581, 6645, 6706, 6766, 6824,
        6880, 6934, 6986, 7037, 7087, 7135, 7182, 7228, 7273, 7316, 7358, 7400, 7440, 7480, 7519, 7557,
        7594, 7630, 7665, 7700, 7735, 7768, 7801, 7833, 7865, 7896, 7927, 7957, 7986, 8016, 8044, 8072,
    ],
    // move index 55
    [
        0, 778, 2004, 2721, 3230, 3624, 3947, 4220, 4456, 4664, 4850, 5019, 5173, 5315, 5446, 5568,
        5682, 5789, 5890, 5986, 6076, 6163, 6245, 6324, 6399, 6471, 6541, 6607, 6672, 6734, 6794, 6852,
        6908, 6962, 7015, 7066, 7116, 7165, 7212, 7258, 7302, 7346, 7389, 7430, 7471, 7511, 7550, 7588,
        7625, 7661, 7697, 7732, 7767, 7800, 7833, 7866, 7898, 7929, 7960, 7990, 8020, 8049, 8078, 8106,
    ],
    // move index 56
    [
        0, 778, 2009, 2730, 3241, 3637, 3961, 4235, 4472, 4682, 4869, 5038, 5193, 5335, 5467, 5589,
        5704, 5812, 5913, 6009, 6100, 6187, 6270, 6349, 6424, 6497, 6566, 6633, 6698, 6760, 6821, 6879,
        6935, 6990, 7043, 7095, 7145, 7193, 7241, 7287, 7332, 7376, 7418, 7460, 7501, 7541, 7580, 7618,
        7656, 7692, 7728, 7763, 7798, 7832, 7865, 7898, 7930, 7961, 7992, 8022, 8052, 8082, 8110, 8139,
    ],
    // move index 57
    [
        0, 778, 2015, 2738, 3252, 3650, 3975, 4250, 4489, 4699, 4887, 5057, 5212, 5355, 5487, 5610,
        5725, 5834, 5936, 6032, 6124, 6211, 6294, 6373, 6449, 6522, 6592, 6659, 6724, 6787, 6847, 6906,
        6962, 7017, 7071, 7122, 7173, 7221, 7269, 7315, 7361, 7405, 7448, 7490, 7531, 7571, 7610, 7648,
        7686, 7723, 7759, 7794, 7829, 7863, 7896, 7929, 7961, 7993, 8024, 8054, 8084, 8114, 8143, 8171,
    ],
    // move index 58
    [
        0, 778, 2020, 2747, 3262, 3662, 3989, 4265, 4505, 4716, 4904, 5075, 5231, 5375, 5507, 5631,
        5747, 5855, 5958, 6055, 6147, 6234, 6317, 6397, 6473, 6547, 6617, 6685, 6750, 6813, 6873, 6932,
        6989, 7044, 7098, 7150, 7200, 7249, 7297, 7344, 7389, 7433, 7476, 7519, 7560, 7600, 7639, 7678,
        7716, 7753, 7789, 7824, 7859, 7893, 7927, 7960, 7992, 8024, 8055, 8085, 8116, 8145, 8174, 8203,
    ],
    // move index 59
    [
        0, 778, 2025, 2755, 3273, 3674, 4002, 4280, 4520, 4732, 4922, 5093, 5250, 5394, 5527, 5652,
        5768, 5877, 5980, 6077, 6169, 6257, 6341, 6421, 6497, 6571, 6641, 6709, 6775, 6838, 6899, 6958,
        7015, 7071, 7124, 7176, 7227, 7276, 7324, 7371, 7417, 7461, 7505, 7547, 7588, 7629, 7668, 7707,
        7745, 7782, 7818, 7854, 7889, 7923, 7957, 7990, 8022, 8054, 8085, 8116, 8146, 8176, 8206, 8234,
    ],
    // move index 60
    [
        0, 778, 2030, 2763, 3283, 3686, 4016, 4294, 4536, 4748, 4939, 5111, 5268, 5413, 5547, 5672,
        5788, 5898, 6001, 6099, 6192, 6280, 6364, 6444, 6521, 6595, 6666, 6734, 6800, 6863, 6924, 6984,
        7041, 7096, 7150, 7203, 7254, 7303, 7351, 7398, 7444, 7489, 7532, 7575, 7616, 7657, 7697, 7736,
        7774, 7811, 7847, 7883, 7918, 7953, 7986, 8020, 8052, 8084, 8116, 8146, 8177, 8207, 8236, 8265,
    ],
    // move index 61
    [
        0, 778, 2035, 2771, 3293, 3698, 4029, 4309, 4551, 4765, 4956, 5129, 5286, 5432, 5566, 5691,
        5808, 5918, 6022, 6120, 6213, 6302, 6386, 6467, 6544, 6618, 6689, 6758, 6824, 6888, 6949, 7009,
        7066, 7122, 7176, 7229, 7280, 7330, 7378, 7425, 7471, 7516, 7560, 7602, 7644, 7685, 7725, 7764,
        7802, 7839, 7876, 7912, 7947, 7982, 8016, 8049, 8082, 8114, 8145, 8176, 8207, 8237, 8266, 8295,
    ],
    // move index 62
    [
        0, 778, 2040, 2779, 3303, 3710, 4042, 4322, 4566, 4780, 4972, 5146, 5304, 5450, 5585, 5711,
        5828, 5939, 6043, 6141, 6235, 6324, 6408, 6489, 6567, 6641, 6713, 6782, 6848, 6912, 6973, 7033,
        7091, 7147, 7201, 7254, 7306, 7356, 7404, 7451, 7498, 7543, 7586, 7629, 7671, 7712, 7752, 7791,
        7830, 7867, 7904, 7940, 7975, 8010, 8044, 8078, 8110, 8143, 8174, 8206, 8236, 8266, 8296, 8325,
    ],
    // move index 63
    [
        0, 778, 2045, 2787, 3313, 3721, 4054, 4336, 4580, 4796, 4988, 5163, 5322, 5468, 5604, 5730,
        5848, 5959, 6063, 6162, 6256, 6345, 6430, 6512, 6589, 6664, 6736, 6805, 6871, 6935, 6997, 7057,
        7116, 7172, 7226, 7279, 7331, 7381, 7430, 7477, 7524, 7569, 7613, 7656, 7698, 7739, 7779, 7818,
        7857, 7895, 7932, 7968, 8003, 8038, 8072, 8106, 8139, 8171, 8203, 8234, 8265, 8295, 8325, 8354,
    ],
];

/// `x` capped at 63.
pub open spec fn cap63(x: int) -> int {
    if x < 63 {
        x
    } else {
        63
    }
}

/// Get the LMR reduction for the given move index and depth (in 1024ths of a ply).
pub fn lmr_reduction(move_index: usize, depth: usize) -> (r: i32)
    ensures
        r == LMR_TABLE[cap63(move_index as int)][cap63(depth as int)],
{
    let i = if move_index < 63 { move_index } else { 63 };
    let d = if depth < 63 { depth } else { 63 };
    LMR_TABLE[i][d]
}

/// The kind of the piece on the source of `mv` (a pawn when the square is empty).
pub open spec fn mover(m: BoardModel, mv: Move) -> PieceKind {
    match m.piece_at(mv.src()) {
        Some(k) => k,
        None => PieceKind::Pawn,
    }
}

/// The MVV-LVA score of `victim` taken by `attacker`.
pub open spec fn mvv_lva(victim: PieceKind, attacker: PieceKind) -> int {
    MVV_LVA[victim.idx()][attacker.idx()] as int
}

/// The score of a promotion to `p`: `queen` for a queen, 170 for a rook and
/// 160 for a minor piece.
pub open spec fn promo_score(p: PromotionPiece, queen: int) -> int {
    match p {
        PromotionPiece::Queen => queen,
        PromotionPiece::Rook => 170,
        _ => 160,
    }
}

/// The quiescence-search score of `mv`: promotions by piece, en passant 15,
/// castling 0, captures 1000 plus MVV-LVA when SEE is not negative and
/// -10000 plus SEE otherwise, quiet moves 0.
pub open spec fn qsearch_score(m: BoardModel, mv: Move) -> int {
    match mv.spec_kind() {
        MoveKind::Promotion => promo_score(mv.promo(), 200),
        MoveKind::EnPassant => 15,
        MoveKind::Castling => 0,
        MoveKind::Normal => match m.piece_at(mv.dst()) {
            Some(victim) => {
                let s = see_model(m, mv);
                if s >= 0 {
                    1000 + mvv_lva(victim, mover(m, mv))
                } else {
                    -10000 + s
                }
            },
            None => 0,
        },
    }
}

/// `mv` is one of the two killers of `ply`.
pub open spec fn is_killer_at(killers: KillerTable, ply: int, mv: Move) -> bool {
    ply < MAX_PLY && (killers.killer(ply, 0) == mv || killers.killer(ply, 1) == mv)
}

/// `mv` is a quiet normal move that is not a killer: its score comes from the
/// history tables.
pub open spec fn history_scored(m: BoardModel, mv: Move, killers: KillerTable, ply: int) -> bool {
    mv.spec_kind() == MoveKind::Normal && m.piece_at(mv.dst()).is_none() && !is_killer_at(killers, ply, mv)
}

/// The main-search score of `mv`: queen promotions 30000 (others by piece), en
/// passant 10015, castling 1, captures 10000 plus MVV-LVA when SEE is not
/// negative and -50000 plus SEE otherwise, killers 9000, and other quiet moves
/// their history score plus half their continuation history score.
pub open spec fn staged_score(
    m: BoardModel,
    mv: Move,
    killers: KillerTable,
    history: HistoryTable,
    ch: ContinuationHistory,
    stack: Seq<StackEntry>,
    ply: int,
) -> int {
    match mv.spec_kind() {
        MoveKind::Promotion => promo_score(mv.promo(), 30_000),
        MoveKind::EnPassant => 10_015,
        MoveKind::Castling => 1,
        MoveKind::Normal => match m.piece_at(mv.dst()) {
            Some(victim) => {
                let s = see_model(m, mv);
                if s >= 0 {
                    10_000 + mvv_lva(victim, mover(m, mv))
                } else {
                    -50_000 + s
                }
            },
            None => if is_killer_at(killers, ply, mv) {
                9_000
            } else {
                history.at(mover(m, mv), mv.dst()) + div_trunc(cont_sum(ch, stack, ply, mover(m, mv), mv.dst(), 5), 2)
            },
        },
    }
}

/// The continuation sums the main-search score of `mv` needs fit in 32 bits.
pub open spec fn staged_fits(
    m: BoardModel,
    mv: Move,
    killers: KillerTable,
    ch: ContinuationHistory,
    stack: Seq<StackEntry>,
    ply: int,
) -> bool {
    history_scored(m, mv, killers, ply) ==> cont_fits(ch, stack, ply, mover(m, mv), mv.dst())
}

fn mover_of(board: &Board, mv: Move) -> (r: PieceKind)
    ensures
        r == mover(board.view(), mv),
{
    match board.piece_on(mv.source()) {
        Some(k) => k,
        None => PieceKind::Pawn,
    }
}

/// Score a move for the main search using staged score bands and continuation history.
fn score_move_staged(
    board: &Board,
    mv: Move,
    killers: &KillerTable,
    history: &HistoryTable,
    cont_history: &ContinuationHistory,
    stack: &[StackEntry],
    ply: usize,
) -> (r: i32)
    requires
        killers.wf(),
        history.wf(),
        cont_history.wf(),
        ply <= stack@.len(),
        staged_fits(board.view(), mv, *killers, *cont_history, stack@, ply as int),
    ensures
        r == staged_score(board.view(), mv, *killers, *history, *cont_history, stack@, ply as int),
{
    match mv.kind() {
        MoveKind::Promotion => match mv.promotion_piece() {
            PromotionPiece::Queen => 30_000,
            PromotionPiece::Rook => 170,
            PromotionPiece::Bishop | PromotionPiece::Knight => 160,
        },
        MoveKind::EnPassant => 10_015,
        MoveKind::Castling => 1,
        MoveKind::Normal => {
            if let Some(victim) = board.piece_on(mv.dest()) {
                let see_score = see(board, mv);
                if see_score >= 0 {
                    let attacker = mover_of(board, mv);
                    10_000 + MVV_LVA[victim.index()][attacker.index()]
                } else {
                    -50_000 + see_score
                }
            } else if killers.is_killer(ply, mv) {
                9_000
            } else {
                let piece = mover_of(board, mv);
                let hist = history.score(piece, mv.dest().index());
                let cont = cont_hist_score(cont_history, stack, ply, piece, mv.dest().index());
                proof {
                    assert(-HISTORY_MAX <= hist <= HISTORY_MAX) by {
                        history.lemma_bounded(piece, mv.dst());
                    }
                }
                hist + div_toward_zero(cont, 2)
            }
        },
    }
}

/// Score a move for quiescence search (no killers or history needed).
pub fn score_move(board: &Board, mv: Move) -> (r: i32)
    ensures
        r == qsearch_score(board.view(), mv),
{
    match mv.kind() {
        MoveKind::Promotion => match mv.promotion_piece() {
            PromotionPiece::Queen => 200,
            PromotionPiece::Rook => 170,
            PromotionPiece::Bishop | PromotionPiece::Knight => 160,
        },
        MoveKind::EnPassant => 15,
        MoveKind::Castling => 0,
        MoveKind::Normal => {
            if let Some(victim) = board.piece_on(mv.dest()) {
                let see_score = see(board, mv);
                if see_score >= 0 {
                    let attacker = mover_of(board, mv);
                    1_000 + MVV_LVA[victim.index()][attacker.index()]
                } else {
                    -10_000 + see_score
                }
            } else {
                0
            }
        },
    }
}

/// The first index of a maximal score among `scores[lo..hi]`.
pub open spec fn first_max(scores: Seq<i32>, lo: int, hi: int) -> int
    decreases hi - lo,
{
    if hi - lo <= 1 {
        lo
    } else {
        let b = first_max(scores, lo, hi - 1);
        if scores[hi - 1] > scores[b] {
            hi - 1
        } else {
            b
        }
    }
}

/// `first_max` is a maximal index of the range, ahead of every index with an equal score.
pub proof fn lemma_first_max(scores: Seq<i32>, lo: int, hi: int)
    requires
        lo < hi,
    ensures
        lo <= first_max(scores, lo, hi) < hi,
        forall|j: int| lo <= j < hi ==> #[trigger] scores[j] <= scores[first_max(scores, lo, hi)],
        forall|j: int| lo <= j < first_max(scores, lo, hi) ==> #[trigger] scores[j] < scores[first_max(scores, lo, hi)],
    decreases hi - lo,
{
    if hi - lo > 1 {
        lemma_first_max(scores, lo, hi - 1);
    }
}

/// Swapping two moves of a list keeps the same moves, each as often: a
/// pick reorders the picker's moves and neither adds nor drops one.
pub proof fn lemma_swap_keeps_moves(s: Seq<Move>, c: int, b: int)
    requires
        0 <= c < s.len(),
        0 <= b < s.len(),
    ensures
        s.update(c, s[b]).update(b, s[c]).to_multiset() == s.to_multiset(),
{
    broadcast use vstd::seq_lib::to_multiset_update;
    broadcast use vstd::multiset::group_multiset_axioms;

    let s1 = s.update(c, s[b]);
    assert(s1[b] == s[b]);
    assert(s1.to_multiset() == s.to_multiset().insert(s[b]).remove(s[c]));
    assert(s1.update(b, s[c]).to_multiset() == s1.to_multiset().insert(s[c]).remove(s[b]));
    assert(s.to_multiset().count(s[c]) > 0) by {
        s.to_multiset_ensures();
    }
    assert(s1.update(b, s[c]).to_multiset() =~= s.to_multiset());
}

/// Incremental move picker using selection sort.
///
/// Yields moves in descending score order. Score bands ensure TT move,
/// good captures, killers, quiets, and bad captures are searched in the
/// correct sequence. For quiescence search, only captures and promotions
/// (score >= 1) are yielded.
pub struct MovePicker {
    moves: Vec<Move>,
    scores: Vec<i32>,
    len: usize,
    cursor: usize,
    min_score: i32,
}

impl MovePicker {
    /// The moves, in their current order.
    pub closed spec fn moves_view(&self) -> Seq<Move> {
        self.moves@
    }

    /// The score of each move.
    pub closed spec fn scores_view(&self) -> Seq<i32> {
        self.scores@
    }

    /// The number of moves already yielded.
    pub closed spec fn cursor_view(&self) -> int {
        self.cursor as int
    }

    /// The lowest score the picker yields.
    pub closed spec fn min_score_view(&self) -> i32 {
        self.min_score
    }

    /// The cursor of a well-formed picker stays within its moves.
    pub proof fn lemma_cursor_in_range(&self)
        requires
            self.wf(),
        ensures
            0 <= self.cursor_view() <= self.moves_view().len(),
            self.moves_view().len() <= usize::MAX,
            self.scores_view().len() == self.moves_view().len(),
    {
    }

    /// One score per move, the cursor within them, and every yielded move
    /// scored at least as high as every move still to come.
    pub closed spec fn wf(&self) -> bool {
        &&& self.moves@.len() == self.len
        &&& self.scores@.len() == self.len
        &&& self.cursor <= self.len
        &&& forall|i: int, j: int| 0 <= i < self.cursor <= j < self.len ==> #[trigger] self.scores@[j] <= #[trigger] self.scores@[i]
    }

    /// Create a staged picker that yields all legal moves ordered by priority.
    ///
    /// Scoring uses staged bands:
    /// TT move (100,000) > queen promotions (30,000) > good captures (10,007+) >
    /// killers (9,000) > quiets (history-based) > bad captures (-50,000+).
    pub fn new(
        moves: &MoveList,
        board: &Board,
        tt_move: Move,
        killers: &KillerTable,
        history: &HistoryTable,
        cont_history: &ContinuationHistory,
        stack: &[StackEntry],
        ply: usize,
    ) -> (r: MovePicker)
        requires
            killers.wf(),
            history.wf(),
            cont_history.wf(),
            ply <= stack@.len(),
            forall|i: int| 0 <= i < moves@.len() ==> staged_fits(board.view(), #[trigger] moves@[i], *killers, *cont_history, stack@, ply as int),
        ensures
            r.wf(),
            r.moves_view() == moves@,
            r.cursor_view() == 0,
            r.min_score_view() == i32::MIN,
            forall|i: int| 0 <= i < moves@.len() ==> #[trigger] r.scores_view()[i] == if moves@[i] == tt_move {
                100_000
            } else {
                staged_score(board.view(), moves@[i], *killers, *history, *cont_history, stack@, ply as int)
            },
    {
        let mut list: Vec<Move> = Vec::new();
        let mut scores: Vec<i32> = Vec::new();
        let n = moves.len();
        let mut i: usize = 0;
        while i < n
            invariant
                i <= n,
                n == moves@.len(),
                killers.wf(),
                history.wf(),
                cont_history.wf(),
                ply <= stack@.len(),
                forall|k: int| 0 <= k < moves@.len() ==> staged_fits(board.view(), #[trigger] moves@[k], *killers, *cont_history, stack@, ply as int),
                list@ == moves@.take(i as int),
                scores@.len() == i,
                forall|k: int| 0 <= k < i ==> #[trigger] scores@[k] == if moves@[k] == tt_move {
                    100_000
                } else {
                    staged_score(board.view(), moves@[k], *killers, *history, *cont_history, stack@, ply as int)
                },
            decreases n - i,
        {
            let mv = moves.get(i);
            let score = if mv == tt_move {
                100_000
            } else {
                score_move_staged(board, mv, killers, history, cont_history, stack, ply)
            };
            list.push(mv);
            scores.push(score);
            assert(list@ =~= moves@.take(i + 1));
            i = i + 1;
        }
        assert(list@ =~= moves@);
        MovePicker { moves: list, scores, len: n, cursor: 0, min_score: i32::MIN }
    }

    /// Create a picker for quiescence search (captures and promotions only).
    pub fn new_qsearch(moves: &MoveList, board: &Board) -> (r: MovePicker)
        ensures
            r.wf(),
            r.moves_view() == moves@,
            r.cursor_view() == 0,
            r.min_score_view() == 1,
            forall|i: int| 0 <= i < moves@.len() ==> #[trigger] r.scores_view()[i] == qsearch_score(board.view(), moves@[i]),
    {
        let mut list: Vec<Move> = Vec::new();
        let mut scores: Vec<i32> = Vec::new();
        let n = moves.len();
        let mut i: usize = 0;
        while i < n
            invariant
                i <= n,
                n == moves@.len(),
                list@ == moves@.take(i as int),
                scores@.len() == i,
                forall|k: int| 0 <= k < i ==> #[trigger] scores@[k] == qsearch_score(board.view(), moves@[k]),
            decreases n - i,
        {
            let mv = moves.get(i);
            list.push(mv);
            scores.push(score_move(board, mv));
            assert(list@ =~= moves@.take(i + 1));
            i = i + 1;
        }
        assert(list@ =~= moves@);
        MovePicker { moves: list, scores, len: n, cursor: 0, min_score: 1 }
    }

    /// Yield the next highest-scored move via selection sort.
    ///
    /// Returns `None` when all remaining moves score below `min_score`
    /// or all moves have been yielded.
    pub fn pick_next(&mut self) -> (r: Option<Move>)
        requires
            old(self).wf(),
        ensures
            final(self).wf(),
            final(self).moves_view().to_multiset() == old(self).moves_view().to_multiset(),
            final(self).min_score_view() == old(self).min_score_view(),
            final(self).moves_view().len() == old(self).moves_view().len(),
            ({
                let c = old(self).cursor_view();
                let n = old(self).moves_view().len() as int;
                let sc = old(self).scores_view();
                let b = first_max(sc, c, n);
                if c >= n || sc[b] < old(self).min_score_view() {
                    &&& r.is_none()
                    &&& final(self).moves_view() == old(self).moves_view()
                    &&& final(self).scores_view() == sc
                    &&& final(self).cursor_view() == c
                } else {
                    &&& r == Some(old(self).moves_view()[b])
                    &&& final(self).moves_view() == old(self).moves_view().update(c, old(self).moves_view()[b]).update(b, old(self).moves_view()[c])
                    &&& final(self).scores_view() == sc.update(c, sc[b]).update(b, sc[c])
                    &&& final(self).cursor_view() == c + 1
                    &&& forall|i: int| 0 <= i < c ==> sc[b] <= #[trigger] sc[i]
                    &&& forall|j: int| c <= j < n ==> #[trigger] sc[j] <= sc[b]
                }
            }),
    {
        if self.cursor >= self.len {
            return None;
        }
        let ghost before_moves = self.moves@;
        let ghost sc = self.scores@;
        let c = self.cursor;
        let mut best_idx = c;
        let mut best_score = self.scores[c];
        let mut i = c + 1;
        while i < self.len
            invariant
                self.wf(),
                self.scores@ == sc,
                self.cursor == c,
                c < i <= self.len,
                best_idx == first_max(sc, c as int, i as int),
                best_score == sc[best_idx as int],
            decreases self.len - i,
        {
            if self.scores[i] > best_score {
                best_score = self.scores[i];
                best_idx = i;
            }
            i = i + 1;
        }
        proof {
            lemma_first_max(sc, c as int, self.len as int);
        }
        if best_score < self.min_score {
            return None;
        }
        let mv_c = self.moves[c];
        let mv_b = self.moves[best_idx];
        let score_c = self.scores[c];
        self.moves.set(c, mv_b);
        self.moves.set(best_idx, mv_c);
        proof {
            lemma_swap_keeps_moves(before_moves, c as int, best_idx as int);
        }
        self.scores.set(c, best_score);
        self.scores.set(best_idx, score_c);
        self.cursor = c + 1;
        proof {
            let b = best_idx as int;
            let fs = self.scores@;
            assert forall|x: int, y: int| 0 <= x < c + 1 <= y < self.len implies #[trigger] fs[y] <= #[trigger] fs[x] by {
                if x < c {
                    assert(fs[x] == sc[x]);
                    if y == b {
                        assert(fs[y] == sc[c as int]);
                    } else {
                        assert(fs[y] == sc[y]);
                    }
                } else {
                    assert(fs[x] == sc[b]);
                    if y == b {
                        assert(fs[y] == sc[c as int]);
                    } else {
                        assert(fs[y] == sc[y]);
                    }
                }
            }
        }
        Some(mv_b)
    }
}

/// `mv` captures, takes en passant or promotes.
pub open spec fn tactical(m: BoardModel, mv: Move) -> bool {
    m.piece_at(mv.dst()).is_some() || mv.spec_kind() == MoveKind::EnPassant || mv.spec_kind() == MoveKind::Promotion
}

/// The moves a ProbCut picker keeps: tactical moves whose SEE reaches `threshold`.
pub open spec fn probcut_kept(m: BoardModel, threshold: i32) -> spec_fn(Move) -> bool {
    |mv: Move| tactical(m, mv) && see_model(m, mv) >= threshold
}

/// The ProbCut score of a kept move: MVV-LVA for a capture, 200 for a
/// promotion, 15 for en passant.
pub open spec fn probcut_score(m: BoardModel, mv: Move) -> int {
    match m.piece_at(mv.dst()) {
        Some(victim) => mvv_lva(victim, mover(m, mv)),
        None => if mv.spec_kind() == MoveKind::Promotion {
            200
        } else {
            15
        },
    }
}

/// Move picker for ProbCut — yields only captures and promotions with SEE >= threshold.
///
/// Ordered by MVV-LVA score. Quiet moves are excluded entirely.
pub struct ProbCutPicker {
    moves: Vec<Move>,
    scores: Vec<i32>,
    len: usize,
    cursor: usize,
}

impl ProbCutPicker {
    /// The kept moves, in their current order.
    pub closed spec fn moves_view(&self) -> Seq<Move> {
        self.moves@
    }

    /// The score of each kept move.
    pub closed spec fn scores_view(&self) -> Seq<i32> {
        self.scores@
    }

    /// The number of moves already yielded.
    pub closed spec fn cursor_view(&self) -> int {
        self.cursor as int
    }

    /// One score per move, the cursor within them, and every yielded move
    /// scored at least as high as every move still to come.
    pub closed spec fn wf(&self) -> bool {
        &&& self.moves@.len() == self.len
        &&& self.scores@.len() == self.len
        &&& self.cursor <= self.len
        &&& forall|i: int, j: int| 0 <= i < self.cursor <= j < self.len ==> #[trigger] self.scores@[j] <= #[trigger] self.scores@[i]
    }

    /// Create a ProbCut picker that yields captures/promotions with SEE >= `threshold`.
    pub fn new(moves: &MoveList, board: &Board, threshold: i32) -> (r: ProbCutPicker)
        ensures
            r.wf(),
            r.cursor_view() == 0,
            r.moves_view() == moves@.filter(probcut_kept(board.view(), threshold)),
            forall|i: int| 0 <= i < r.moves_view().len() ==> #[trigger] r.scores_view()[i] == probcut_score(board.view(), r.moves_view()[i]),
    {
        let ghost m = board.view();
        let ghost keep = probcut_kept(m, threshold);
        let mut list: Vec<Move> = Vec::new();
        let mut scores: Vec<i32> = Vec::new();
        let n = moves.len();
        let mut i: usize = 0;
        while i < n
            invariant
                i <= n,
                n == moves@.len(),
                m == board.view(),
                keep == probcut_kept(m, threshold),
                list@ == moves@.take(i as int).filter(keep),
                scores@.len() == list@.len(),
                forall|k: int| 0 <= k < list@.len() ==> #[trigger] scores@[k] == probcut_score(m, list@[k]),
            decreases n - i,
        {
            let mv = moves.get(i);
            proof {
                reveal(Seq::filter);
                assert(moves@.take(i + 1).drop_last() =~= moves@.take(i as int));
                assert(moves@.take(i + 1).last() == mv);
            }
            let is_tactical = board.piece_on(mv.dest()).is_some() || mv.kind() == MoveKind::EnPassant
                || mv.kind() == MoveKind::Promotion;
            if is_tactical && see_ge(board, mv, threshold) {
                let score = match board.piece_on(mv.dest()) {
                    Some(victim) => {
                        let attacker = mover_of(board, mv);
                        MVV_LVA[victim.index()][attacker.index()]
                    },
                    None => if mv.kind() == MoveKind::Promotion {
                        200
                    } else {
                        15
                    },
                };
                list.push(mv);
                scores.push(score);
            }
            i = i + 1;
        }
        assert(moves@.take(n as int) =~= moves@);
        let len = list.len();
        ProbCutPicker { moves: list, scores, len, cursor: 0 }
    }

    /// Yield the next highest-scored move via selection sort.
    pub fn pick_next(&mut self) -> (r: Option<Move>)
        requires
            old(self).wf(),
        ensures
            final(self).wf(),
            final(self).moves_view().to_multiset() == old(self).moves_view().to_multiset(),
            ({
                let c = old(self).cursor_view();
                let n = old(self).moves_view().len() as int;
                let sc = old(self).scores_view();
                let b = first_max(sc, c, n);
                if c >= n {
                    &&& r.is_none()
                    &&& final(self).moves_view() == old(self).moves_view()
                    &&& final(self).scores_view() == sc
                    &&& final(self).cursor_view() == c
                } else {
                    &&& r == Some(old(self).moves_view()[b])
                    &&& final(self).moves_view() == old(self).moves_view().update(c, old(self).moves_view()[b]).update(b, old(self).moves_view()[c])
                    &&& final(self).scores_view() == sc.update(c, sc[b]).update(b, sc[c])
                    &&& final(self).cursor_view() == c + 1
                    &&& forall|i: int| 0 <= i < c ==> sc[b] <= #[trigger] sc[i]
                    &&& forall|j: int| c <= j < n ==> #[trigger] sc[j] <= sc[b]
                }
            }),
    {
        if self.cursor >= self.len {
            return None;
        }
        let ghost before_moves = self.moves@;
        let ghost sc = self.scores@;
        let c = self.cursor;
        let mut best_idx = c;
        let mut best_score = self.scores[c];
        let mut i = c + 1;
        while i < self.len
            invariant
                self.wf(),
                self.scores@ == sc,
                self.cursor == c,
                c < i <= self.len,
                best_idx == first_max(sc, c as int, i as int),
                best_score == sc[best_idx as int],
            decreases self.len - i,
        {
            if self.scores[i] > best_score {
                best_score = self.scores[i];
                best_idx = i;
            }
            i = i + 1;
        }
        proof {
            lemma_first_max(sc, c as int, self.len as int);
        }
        let mv_c = self.moves[c];
        let mv_b = self.moves[best_idx];
        let score_c = self.scores[c];
        self.moves.set(c, mv_b);
        self.moves.set(best_idx, mv_c);
        proof {
            lemma_swap_keeps_moves(before_moves, c as int, best_idx as int);
        }
        self.scores.set(c, best_score);
        self.scores.set(best_idx, score_c);
        self.cursor = c + 1;
        proof {
            let b = best_idx as int;
            let fs = self.scores@;
            assert forall|x: int, y: int| 0 <= x < c + 1 <= y < self.len implies #[trigger] fs[y] <= #[trigger] fs[x] by {
                if x < c {
                    assert(fs[x] == sc[x]);
                } else {
                    assert(fs[x] == sc[b]);
                }
                if y == b {
                    assert(fs[y] == sc[c as int]);
                } else {
                    assert(fs[y] == sc[y]);
                }
            }
        }
        Some(mv_b)
    }
}

} // verus!
