use vstd::prelude::*;

verus! {

/// Why a filter refused its input.
#[derive(Clone, Copy, Debug, PartialEq, Eq, Structural)]
pub enum BlurError {
    /// The width or the height is zero or negative.
    InvalidDimension,
    /// The band does not hold exactly width times height samples.
    BandLengthMismatch,
    /// The radius is negative, or larger than the filter supports.
    RadiusOutOfRange,
}

/// The largest radius that fits the filters' signature.
pub const ANY_RADIUS: i32 = 0x7fff_ffff;

/// The verdict on a filter's arguments: the reason to refuse them, or `None`
/// where the filter must do its work. The dimensions are judged first, then
/// the band's length, then the radius against `limit`.
pub open spec fn rejection(len: nat, width: int, height: int, radius: int, limit: int) -> Option<
    BlurError,
> {
    if width <= 0 || height <= 0 {
        Some(BlurError::InvalidDimension)
    } else if len != width * height {
        Some(BlurError::BandLengthMismatch)
    } else if radius < 0 || radius > limit {
        Some(BlurError::RadiusOutOfRange)
    } else {
        None
    }
}

/// Judges a filter's arguments before any sample is read.
pub fn validate(len: usize, width: i32, height: i32, radius: i32, limit: i32) -> (verdict:
    Option<BlurError>)
    ensures
        verdict == rejection(len as nat, width as int, height as int, radius as int, limit as int),
{
    if width <= 0 || height <= 0 {
        return Some(BlurError::InvalidDimension);
    }
    assert(width * height <= 0x7fff_ffff * 0x7fff_ffff) by (nonlinear_arith)
        requires
            0 < width <= 0x7fff_ffff,
            0 < height <= 0x7fff_ffff,
    ;
    let cells: u64 = (width as u64) * (height as u64);
    if len as u64 != cells {
        return Some(BlurError::BandLengthMismatch);
    }
    if radius < 0 || radius > limit {
        return Some(BlurError::RadiusOutOfRange);
    }
    None
}

/// Whether `result` is what a filter owes its caller: the error that
/// `verdict` names, or, where it names none, the band `wanted`.
pub open spec fn answers(
    result: Result<Vec<u8>, BlurError>,
    verdict: Option<BlurError>,
    wanted: Seq<u8>,
) -> bool {
    match result {
        Ok(out) => verdict is None && out@ == wanted,
        Err(reason) => verdict == Some(reason),
    }
}

/// Two results that answer the same arguments are the same result: what a
/// filter returns depends on its arguments and on nothing else.
pub proof fn lemma_answers_agree(
    first: Result<Vec<u8>, BlurError>,
    second: Result<Vec<u8>, BlurError>,
    verdict: Option<BlurError>,
    wanted: Seq<u8>,
)
    requires
        answers(first, verdict, wanted),
        answers(second, verdict, wanted),
    ensures
        match (first, second) {
            (Ok(a), Ok(b)) => a@ == b@,
            (Err(a), Err(b)) => a == b,
            _ => false,
        },
{
}

} // verus!
