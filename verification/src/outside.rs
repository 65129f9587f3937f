//! The library's trusted boundary: the two outside computations its logic
//! uses in place — base64 encoding of rendered page images, and the
//! wall-clock snapshot for export metadata. Each outside call sits in one
//! wrapper whose contract states what the crate's source shows; everything
//! around the calls is verified.

use vstd::prelude::*;
use crate::timestamp::Timestamp;

verus! {

/// The base64 encoding (standard alphabet, padded) of a byte sequence.
pub uninterp spec fn base64_of(bytes: Seq<u8>) -> Seq<char>;

/// Relies on base64's `Engine::encode` with the `STANDARD` engine: the
/// output is a function of the input bytes alone, four characters for every
/// started group of three bytes, padded.
#[verifier::external_body]
fn base64_encode(bytes: &Vec<u8>) -> (r: String)
    ensures
        r@ == base64_of(bytes@),
        r@.len() == 4 * ((bytes@.len() + 2) / 3),
{
    base64::Engine::encode(&base64::engine::general_purpose::STANDARD, bytes)
}

/// Answer to a render request: the page's raster image, base64 encoded,
/// with the page size in millipoints.
#[derive(Debug)]
pub struct TypstRenderResponse {
    pub frame: String,
    pub width: u64,
    pub height: u64,
}

/// Builds the response for a rendered page from its encoded raster bytes
/// and its size in millipoints.
pub fn make_render_response(png: &Vec<u8>, width: u64, height: u64) -> (r: TypstRenderResponse)
    ensures
        r.frame@ == base64_of(png@),
        r.frame@.len() == 4 * ((png@.len() + 2) / 3),
        r.width == width,
        r.height == height,
{
    let frame = base64_encode(png);
    TypstRenderResponse { frame, width, height }
}

/// Relies on chrono's `Local::now().naive_utc()` and the `Datelike` /
/// `Timelike` accessors for the clock snapshot, in UTC: year, month (1
/// through 12), day of month (1 through 31), hour (to 23), minute and
/// second (to 59; chrono carries a leap second in the sub-second part).
#[verifier::external_body]
fn current_utc_parts() -> (r: (i32, u32, u32, u32, u32, u32))
    ensures
        1 <= r.1 <= 12,
        1 <= r.2 <= 31,
        r.3 <= 23,
        r.4 <= 59,
        r.5 <= 59,
{
    let now = chrono::Local::now().naive_utc();
    (
        chrono::Datelike::year(&now),
        chrono::Datelike::month(&now),
        chrono::Datelike::day(&now),
        chrono::Timelike::hour(&now),
        chrono::Timelike::minute(&now),
        chrono::Timelike::second(&now),
    )
}

/// A wall-clock snapshot for export metadata, validated: whatever the clock
/// reported, a returned timestamp names a real calendar date and time of
/// day. `None` only when the clock reported parts that name none.
pub fn current_timestamp() -> (r: Option<Timestamp>)
    ensures
        match r {
            Some(t) => t.wf(),
            None => true,
        },
{
    let (year, month, day, hour, minute, second) = current_utc_parts();
    Timestamp::from_parts(year, month as u8, day as u8, hour as u8, minute as u8, second as u8)
}

} // verus!
