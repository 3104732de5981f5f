use vstd::prelude::*;

verus! {

/// Brightness curve applied to every colour channel before it is stored in the
/// panel buffer: 256 entries, roughly `255 * (raw / 255)^2`.
pub const GAMMA8: [u8; 256] = [
    0, 0, 0, 0, 0, 0, 0, 0, 0, 0, 0, 0, 1, 1, 1, 1,
    1, 1, 1, 1, 2, 2, 2, 2, 2, 2, 3, 3, 3, 3, 4, 4,
    4, 4, 5, 5, 5, 5, 6, 6, 6, 7, 7, 7, 8, 8, 8, 9,
    9, 9, 10, 10, 11, 11, 11, 12, 12, 13, 13, 14, 14, 15, 15, 16,
    16, 17, 17, 18, 18, 19, 19, 20, 20, 21, 21, 22, 23, 23, 24, 24,
    25, 26, 26, 27, 28, 28, 29, 30, 30, 31, 32, 32, 33, 34, 35, 35,
    36, 37, 38, 38, 39, 40, 41, 42, 42, 43, 44, 45, 46, 47, 47, 48,
    49, 50, 51, 52, 53, 54, 55, 56, 56, 57, 58, 59, 60, 61, 62, 63,
    64, 65, 66, 67, 68, 69, 70, 71, 73, 74, 75, 76, 77, 78, 79, 80,
    81, 82, 84, 85, 86, 87, 88, 89, 91, 92, 93, 94, 95, 97, 98, 99,
    100, 102, 103, 104, 105, 107, 108, 109, 111, 112, 113, 115, 116, 117, 119, 120,
    121, 123, 124, 126, 127, 128, 130, 131, 133, 134, 136, 137, 139, 140, 142, 143,
    145, 146, 148, 149, 151, 152, 154, 155, 157, 158, 160, 162, 163, 165, 166, 168,
    170, 171, 173, 175, 176, 178, 180, 181, 183, 185, 186, 188, 190, 192, 193, 195,
    197, 199, 200, 202, 204, 206, 207, 209, 211, 213, 215, 217, 218, 220, 222, 224,
    226, 228, 230, 232, 233, 235, 237, 239, 241, 243, 245, 247, 249, 251, 253, 255,
];

/// The corrected intensity that the curve assigns to a raw intensity.
pub open spec fn gamma_spec(raw: int) -> u8
    recommends
        0 <= raw < 256,
{
    GAMMA8@[raw]
}

/// A channel value that the curve can produce.
pub open spec fn is_gamma_value(v: u8) -> bool {
    exists|raw: int| 0 <= raw < 256 && #[trigger] gamma_spec(raw) == v
}

/// Looks a raw intensity up in the curve.
pub fn gamma(raw: u8) -> (corrected: u8)
    ensures
        corrected == gamma_spec(raw as int),
        is_gamma_value(corrected),
{
    let corrected = GAMMA8[raw as usize];
    assert(gamma_spec(raw as int) == corrected);
    corrected
}

/// The curve never decreases, maps darkness to darkness and full intensity to
/// full intensity.
pub proof fn lemma_gamma_monotonic()
    ensures
        forall|i: int, j: int| 0 <= i <= j < 256 ==> gamma_spec(i) <= gamma_spec(j),
        gamma_spec(0) == 0,
        gamma_spec(255) == 255,
{
}

/// Zero is a value of the curve, so a cleared panel holds only curve values.
pub proof fn lemma_zero_is_gamma_value()
    ensures
        is_gamma_value(0),
{
    assert(gamma_spec(0) == 0);
}

} // verus!
