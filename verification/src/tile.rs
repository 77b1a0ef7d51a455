//! The spatial tile calculator: scales a coordinate pair into sixteen-bit
//! ranges and interleaves the bits into the schema's tile index.
use vstd::prelude::*;

verus! {

/// The latitude scaled to the sixteen-bit range, rounding to nearest:
/// (lat + 90) * 65535 / 180 over degrees, here in decimicro degrees.
pub open spec fn scale_lat_spec(lat_dm: int) -> int {
    ((lat_dm + 900000000) * 65535 + 900000000) / 1800000000
}

/// The longitude scaled to the sixteen-bit range, rounding to nearest:
/// (lon + 180) * 65535 / 360 over degrees, here in decimicro degrees.
pub open spec fn scale_lon_spec(lon_dm: int) -> int {
    ((lon_dm + 1800000000) * 65535 + 1800000000) / 3600000000
}

/// The tile value with the bits of `x` and `y` interleaved from bit
/// fifteen down to bit `k`, most significant first, `x` before `y`.
pub open spec fn tile_prefix(x: u64, y: u64, k: int) -> u64
    decreases 16 - k,
{
    if k >= 16 || k < 0 {
        0u64
    } else {
        let acc = tile_prefix(x, y, k + 1);
        (((acc << 1u64) | ((x >> k as u64) & 1u64)) << 1u64) | ((y >> k as u64) & 1u64)
    }
}

/// The tile index of a coordinate pair given in decimicro degrees.
pub open spec fn tile_spec(lat_dm: int, lon_dm: int) -> u64 {
    tile_prefix(scale_lon_spec(lon_dm) as u64, scale_lat_spec(lat_dm) as u64, 0)
}

/// Scales a latitude; the result fits in sixteen bits.
pub fn scale_lat(lat_dm: i32) -> (r: u16)
    requires
        -900000000 <= lat_dm <= 900000000,
    ensures
        r == scale_lat_spec(lat_dm as int),
{
    let x: i64 = lat_dm as i64 + 900000000;
    let r = (x * 65535 + 900000000) / 1800000000;
    r as u16
}

/// Scales a longitude; the result fits in sixteen bits.
pub fn scale_lon(lon_dm: i32) -> (r: u16)
    requires
        -1800000000 <= lon_dm <= 1800000000,
    ensures
        r == scale_lon_spec(lon_dm as int),
{
    let x: i64 = lon_dm as i64 + 1800000000;
    let r = (x * 65535 + 1800000000) / 3600000000;
    r as u16
}

/// The quadkey-style tile index of a coordinate pair in decimicro degrees:
/// both coordinates scaled into sixteen bits, then interleaved most
/// significant bit first, longitude before latitude.
#[verifier::loop_isolation(false)]
pub fn calculate_tile(lat_dm: i32, lon_dm: i32) -> (r: u64)
    requires
        -900000000 <= lat_dm <= 900000000,
        -1800000000 <= lon_dm <= 1800000000,
    ensures
        r == tile_spec(lat_dm as int, lon_dm as int),
{
    let x: u64 = scale_lon(lon_dm) as u64;
    let y: u64 = scale_lat(lat_dm) as u64;
    let mut tile: u64 = 0;
    let mut k: usize = 16;
    while k > 0
        invariant
            0 <= k <= 16,
            tile == tile_prefix(x, y, k as int),
        decreases k,
    {
        k = k - 1;
        tile = (tile << 1u64) | ((x >> (k as u64)) & 1u64);
        tile = (tile << 1u64) | ((y >> (k as u64)) & 1u64);
    }
    tile
}

} // verus!
