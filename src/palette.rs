use vstd::prelude::*;

verus! {

/// The 256-entry VGA palette, each channel on the VGA DAC's 6-bit scale (0..=63).
pub const VGA_PALETTE: [(u8, u8, u8); 256] = [
    (0, 0, 0), (0, 0, 42), (0, 42, 0), (0, 42, 42),
    (42, 0, 0), (42, 0, 42), (42, 21, 0), (42, 42, 42),
    (21, 21, 21), (21, 21, 63), (21, 63, 21), (21, 63, 63),
    (63, 21, 21), (63, 21, 63), (63, 63, 21), (63, 63, 63),
    (59, 59, 59), (55, 55, 55), (52, 52, 52), (48, 48, 48),
    (45, 45, 45), (42, 42, 42), (38, 38, 38), (35, 35, 35),
    (31, 31, 31), (28, 28, 28), (25, 25, 25), (21, 21, 21),
    (18, 18, 18), (14, 14, 14), (11, 11, 11), (8, 8, 8),
    (63, 0, 0), (59, 0, 0), (56, 0, 0), (53, 0, 0),
    (50, 0, 0), (47, 0, 0), (44, 0, 0), (41, 0, 0),
    (38, 0, 0), (34, 0, 0), (31, 0, 0), (28, 0, 0),
    (25, 0, 0), (22, 0, 0), (19, 0, 0), (16, 0, 0),
    (63, 54, 54), (63, 46, 46), (63, 39, 39), (63, 31, 31),
    (63, 23, 23), (63, 16, 16), (63, 8, 8), (63, 0, 0),
    (63, 42, 23), (63, 38, 16), (63, 34, 8), (63, 30, 0),
    (57, 27, 0), (51, 24, 0), (45, 21, 0), (39, 19, 0),
    (63, 63, 54), (63, 63, 46), (63, 63, 39), (63, 63, 31),
    (63, 62, 23), (63, 61, 16), (63, 61, 8), (63, 61, 0),
    (57, 54, 0), (51, 49, 0), (45, 43, 0), (39, 39, 0),
    (33, 33, 0), (28, 27, 0), (22, 21, 0), (16, 16, 0),
    (52, 63, 23), (49, 63, 16), (45, 63, 8), (40, 63, 0),
    (36, 57, 0), (32, 51, 0), (29, 45, 0), (24, 39, 0),
    (54, 63, 54), (47, 63, 46), (39, 63, 39), (32, 63, 31),
    (24, 63, 23), (16, 63, 16), (8, 63, 8), (0, 63, 0),
    (0, 63, 0), (0, 59, 0), (0, 56, 0), (0, 53, 0),
    (1, 50, 0), (1, 47, 0), (1, 44, 0), (1, 41, 0),
    (1, 38, 0), (1, 34, 0), (1, 31, 0), (1, 28, 0),
    (1, 25, 0), (1, 22, 0), (1, 19, 0), (1, 16, 0),
    (54, 63, 63), (46, 63, 63), (39, 63, 63), (31, 63, 62),
    (23, 63, 63), (16, 63, 63), (8, 63, 63), (0, 63, 63),
    (0, 57, 57), (0, 51, 51), (0, 45, 45), (0, 39, 39),
    (0, 33, 33), (0, 28, 28), (0, 22, 22), (0, 16, 16),
    (23, 47, 63), (16, 44, 63), (8, 42, 63), (0, 39, 63),
    (0, 35, 57), (0, 31, 51), (0, 27, 45), (0, 23, 39),
    (54, 54, 63), (46, 47, 63), (39, 39, 63), (31, 32, 63),
    (23, 24, 63), (16, 16, 63), (8, 9, 63), (0, 1, 63),
    (0, 0, 63), (0, 0, 59), (0, 0, 56), (0, 0, 53),
    (0, 0, 50), (0, 0, 47), (0, 0, 44), (0, 0, 41),
    (0, 0, 38), (0, 0, 34), (0, 0, 31), (0, 0, 28),
    (0, 0, 25), (0, 0, 22), (0, 0, 19), (0, 0, 16),
    (10, 10, 10), (63, 56, 13), (63, 53, 9), (63, 51, 6),
    (63, 48, 2), (63, 45, 0), (45, 8, 63), (42, 0, 63),
    (38, 0, 57), (32, 0, 51), (29, 0, 45), (24, 0, 39),
    (20, 0, 33), (17, 0, 28), (13, 0, 22), (10, 0, 16),
    (63, 54, 63), (63, 46, 63), (63, 39, 63), (63, 31, 63),
    (63, 23, 63), (63, 16, 63), (63, 8, 63), (63, 0, 63),
    (56, 0, 57), (50, 0, 51), (45, 0, 45), (39, 0, 39),
    (33, 0, 33), (27, 0, 28), (22, 0, 22), (16, 0, 16),
    (63, 58, 55), (63, 56, 52), (63, 54, 49), (63, 53, 47),
    (63, 51, 44), (63, 49, 41), (63, 47, 39), (63, 46, 36),
    (63, 44, 32), (63, 41, 28), (63, 39, 24), (60, 37, 23),
    (58, 35, 22), (55, 34, 21), (52, 32, 20), (50, 31, 19),
    (47, 30, 18), (45, 28, 17), (42, 26, 16), (40, 25, 15),
    (39, 24, 14), (36, 23, 13), (34, 22, 12), (32, 20, 11),
    (29, 19, 10), (27, 18, 9), (23, 16, 8), (21, 15, 7),
    (18, 14, 6), (16, 12, 6), (14, 11, 5), (10, 8, 3),
    (24, 0, 25), (0, 25, 25), (0, 24, 24), (0, 0, 7),
    (0, 0, 11), (12, 9, 4), (18, 0, 18), (20, 0, 20),
    (0, 0, 13), (7, 7, 7), (19, 19, 19), (23, 23, 23),
    (16, 16, 16), (12, 12, 12), (13, 13, 13), (54, 61, 61),
    (46, 58, 58), (39, 55, 55), (29, 50, 50), (18, 48, 48),
    (8, 45, 45), (8, 44, 44), (0, 41, 41), (0, 38, 38),
    (0, 35, 35), (0, 33, 33), (0, 31, 31), (0, 30, 30),
    (0, 29, 29), (0, 28, 28), (0, 27, 27), (38, 0, 34),
];

/// A channel of the 6-bit VGA scale stretched to the 8-bit scale.
pub open spec fn scale_channel_spec(c: u8) -> u8 {
    (c as int * 255 / 63) as u8
}

/// A palette entry with each channel stretched to the 8-bit scale.
pub open spec fn scale_entry_spec(e: (u8, u8, u8)) -> (u8, u8, u8) {
    (scale_channel_spec(e.0), scale_channel_spec(e.1), scale_channel_spec(e.2))
}

/// Stretches one 6-bit channel to 8 bits: `c * 255 / 63`, kept to its low 8 bits.
pub fn scale_channel(c: u8) -> (r: u8)
    ensures
        r == scale_channel_spec(c),
{
    ((c as u32) * 255 / 63) as u8
}

/// Stretches every entry of a 6-bit palette to 8 bits per channel.
pub fn expand_palette(raw: &[(u8, u8, u8)]) -> (r: Vec<(u8, u8, u8)>)
    ensures
        r@.len() == raw@.len(),
        forall|i: int| 0 <= i < raw@.len() ==> r@[i] == scale_entry_spec(#[trigger] raw@[i]),
{
    let mut r: Vec<(u8, u8, u8)> = Vec::new();
    let mut i: usize = 0;
    while i < raw.len()
        invariant
            i <= raw@.len(),
            r@.len() == i,
            forall|k: int| 0 <= k < i ==> r@[k] == scale_entry_spec(#[trigger] raw@[k]),
        decreases raw@.len() - i,
    {
        let (cr, cg, cb) = raw[i];
        r.push((scale_channel(cr), scale_channel(cg), scale_channel(cb)));
        i = i + 1;
    }
    r
}

/// The color map: the VGA palette with each channel stretched to 8 bits.
pub fn build_color_map() -> (r: Vec<(u8, u8, u8)>)
    ensures
        r@.len() == 256,
        forall|i: int| 0 <= i < 256 ==> r@[i] == scale_entry_spec(#[trigger] VGA_PALETTE@[i]),
{
    let raw = VGA_PALETTE;
    expand_palette(&raw)
}

} // verus!
