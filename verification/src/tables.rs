//! The immutable lookup tables of the animation core: a 256-entry
//! brightness curve giving one smooth 0 -> peak -> 0 ramp over a fade cycle,
//! and a 256-entry saturation table shaping a uniform random byte into a
//! perceptually reasonable saturation value.

use vstd::prelude::*;

verus! {

/// Brightness ramp over one fade cycle, indexed by the high byte of a pixel's
/// `phase`. Rises from 0 to a plateau of 255 and falls back toward 0.
pub const HALF_LUT: [u8; 256] = [
    0, 3, 6, 9, 13, 16, 19, 22, 25, 28, 31, 34, 37, 41, 44, 47,
    50, 53, 56, 59, 62, 65, 68, 71, 74, 77, 80, 83, 86, 89, 92, 95,
    98, 100, 103, 106, 109, 112, 115, 117, 120, 123, 126, 128, 131, 134, 136, 139,
    142, 144, 147, 149, 152, 154, 157, 159, 162, 164, 167, 169, 171, 174, 176, 178,
    180, 183, 185, 187, 189, 191, 193, 195, 197, 199, 201, 203, 205, 207, 208, 210,
    212, 214, 215, 217, 219, 220, 222, 223, 225, 226, 228, 229, 231, 232, 233, 234,
    236, 237, 238, 239, 240, 241, 242, 243, 244, 245, 246, 247, 247, 248, 249, 249,
    250, 251, 251, 252, 252, 253, 253, 253, 254, 254, 254, 255, 255, 255, 255, 255,
    255, 255, 255, 255, 255, 255, 254, 254, 254, 253, 253, 253, 252, 252, 251, 251,
    250, 249, 249, 248, 247, 247, 246, 245, 244, 243, 242, 241, 240, 239, 238, 237,
    236, 234, 233, 232, 231, 229, 228, 226, 225, 223, 222, 220, 219, 217, 215, 214,
    212, 210, 208, 207, 205, 203, 201, 199, 197, 195, 193, 191, 189, 187, 185, 183,
    180, 178, 176, 174, 171, 169, 167, 164, 162, 159, 157, 154, 152, 149, 147, 144,
    142, 139, 136, 134, 131, 128, 126, 123, 120, 117, 115, 112, 109, 106, 103, 100,
    98, 95, 92, 89, 86, 83, 80, 77, 74, 71, 68, 65, 62, 59, 56, 53,
    50, 47, 44, 41, 37, 34, 31, 28, 25, 22, 19, 16, 13, 9, 6, 3,
];

/// Saturation shaping table, indexed by a uniform random byte.
pub const SAT_LUT: [u8; 256] = [
    255, 255, 255, 255, 255, 255, 255, 255, 255, 255, 255, 255, 255, 255, 255, 255,
    255, 255, 255, 254, 254, 254, 254, 254, 254, 254, 254, 254, 254, 254, 254, 254,
    254, 254, 254, 254, 254, 254, 254, 254, 254, 254, 254, 253, 253, 253, 253, 253,
    253, 253, 253, 253, 253, 253, 253, 253, 253, 253, 252, 252, 252, 252, 252, 252,
    252, 252, 252, 252, 252, 252, 251, 251, 251, 251, 251, 251, 251, 251, 251, 250,
    250, 250, 250, 250, 250, 250, 250, 249, 249, 249, 249, 249, 249, 249, 248, 248,
    248, 248, 248, 247, 247, 247, 247, 247, 246, 246, 246, 246, 246, 245, 245, 245,
    245, 244, 244, 244, 244, 243, 243, 243, 243, 242, 242, 242, 241, 241, 241, 240,
    240, 240, 239, 239, 239, 238, 238, 237, 237, 237, 236, 236, 235, 235, 234, 234,
    233, 233, 232, 232, 231, 231, 230, 230, 229, 229, 228, 227, 227, 226, 225, 225,
    224, 223, 223, 222, 221, 220, 220, 219, 218, 217, 216, 215, 215, 214, 213, 212,
    211, 210, 209, 208, 207, 206, 204, 203, 202, 201, 200, 199, 197, 196, 195, 193,
    192, 191, 189, 188, 186, 185, 183, 182, 180, 178, 177, 175, 173, 171, 169, 167,
    165, 164, 161, 159, 157, 155, 153, 151, 148, 146, 144, 141, 139, 136, 133, 131,
    128, 125, 122, 119, 116, 113, 110, 107, 104, 100, 97, 94, 90, 86, 83, 79,
    75, 71, 67, 63, 59, 54, 50, 45, 41, 36, 31, 26, 21, 16, 11, 5,
];

/// First index of the curve's 255-valued plateau: the curve is non-decreasing
/// up to this index and non-increasing from it onward.
pub const CURVE_PEAK_INDEX: u16 = 123;

/// Largest difference between any two adjacent curve entries (the table's
/// granularity), the wrapping pair at the end included.
pub const CURVE_MAX_STEP: u8 = 4;

/// Curve entry at index `i`, for `0 <= i < 256`.
pub open spec fn curve_at(i: int) -> u8 {
    HALF_LUT[i]
}

/// Saturation entry at index `i`, for `0 <= i < 256`.
pub open spec fn sat_at(i: int) -> u8 {
    SAT_LUT[i]
}

/// The curve ascends up to its peak index and descends after it; the final
/// entry still lies above the entry the index wraps around to.
pub proof fn lemma_curve_single_peaked_adjacent()
    ensures
        forall|i: int| 0 <= i < CURVE_PEAK_INDEX ==> #[trigger] curve_at(i) <= curve_at(i + 1),
        forall|i: int| CURVE_PEAK_INDEX <= i < 255 ==> #[trigger] curve_at(i) >= curve_at(i + 1),
        curve_at(255) >= curve_at(0),
        curve_at(CURVE_PEAK_INDEX as int) == 255,
{
}

/// Adjacent curve entries differ by at most `CURVE_MAX_STEP`, the wrapping
/// pair at the end included.
pub proof fn lemma_curve_adjacent_step_bound()
    ensures
        forall|i: int| 0 <= i < 255 ==> -(CURVE_MAX_STEP as int) <= curve_at(i + 1) - #[trigger] curve_at(i)
            <= CURVE_MAX_STEP as int,
        -(CURVE_MAX_STEP as int) <= curve_at(0) - curve_at(255) <= CURVE_MAX_STEP as int,
{
}

/// Exec lookup into the brightness curve.
pub fn curve_lookup(i: u8) -> (r: u8)
    ensures
        r == curve_at(i as int),
{
    HALF_LUT[i as usize]
}

/// Exec lookup into the saturation table.
pub fn sat_lookup(i: u8) -> (r: u8)
    ensures
        r == sat_at(i as int),
{
    SAT_LUT[i as usize]
}

} // verus!
