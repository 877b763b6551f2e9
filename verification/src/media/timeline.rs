//! Media-frame conversion with checked, floor-rounded integer math.
use vstd::prelude::*;

verus! {

/// Why a frame count cannot be produced.
#[derive(Debug, Clone, Copy, PartialEq, Eq, Structural)]
pub enum FrameMathError {
    /// A sample rate of zero was given.
    ZeroRate,
    /// The elapsed-time frame count does not fit in 64 bits.
    FrameCountOverflow,
    /// The converted frame count does not fit in 64 bits.
    ConvertedCountOverflow,
}

impl FrameMathError {
    /// Human-readable description.
    pub fn message(&self) -> (r: &'static str)
        ensures
            *self == FrameMathError::ZeroRate ==> r@ == "sample rates must be non-zero"@,
            *self == FrameMathError::FrameCountOverflow ==> r@ == "media-frame count exceeds u64"@,
            *self == FrameMathError::ConvertedCountOverflow ==> r@ == "converted frame count exceeds u64"@,
    {
        match self {
            FrameMathError::ZeroRate => "sample rates must be non-zero",
            FrameMathError::FrameCountOverflow => "media-frame count exceeds u64",
            FrameMathError::ConvertedCountOverflow => "converted frame count exceeds u64",
        }
    }
}

/// Whole frames elapsed after `duration_nanos` nanoseconds at `rate` Hz.
pub open spec fn frames_at(duration_nanos: u64, rate: u32) -> int {
    (duration_nanos as int * rate as int) / 1_000_000_000
}

/// Convert elapsed nanoseconds to sample frames using checked, floor-rounded
/// integer math.
pub fn target_frame(duration_nanos: u64, rate: u32) -> (r: Result<u64, FrameMathError>)
    ensures
        r matches Ok(v) ==> v == frames_at(duration_nanos, rate),
        r is Err <==> frames_at(duration_nanos, rate) > u64::MAX,
        r matches Err(e) ==> e == FrameMathError::FrameCountOverflow,
{
    proof {
        let (a, b) = (duration_nanos as int, rate as int);
        assert(a * b <= 0xffff_ffff_ffff_ffffint * 0xffff_ffffint) by (nonlinear_arith)
            requires
                0 <= a <= 0xffff_ffff_ffff_ffffint,
                0 <= b <= 0xffff_ffffint;
    }
    let product: u128 = (duration_nanos as u128) * (rate as u128);
    let frames: u128 = product / 1_000_000_000u128;
    if frames > u64::MAX as u128 {
        Err(FrameMathError::FrameCountOverflow)
    } else {
        Ok(frames as u64)
    }
}

/// `frames` at `from_rate`, expressed at `to_rate`, rounded down.
pub open spec fn scaled_frames(frames: u64, from_rate: u32, to_rate: u32) -> int {
    (frames as int * to_rate as int) / (from_rate as int)
}

/// Scale a frame count between sample rates using checked, floor-rounded
/// integer math.
pub fn scale_frames(frames: u64, from_rate: u32, to_rate: u32) -> (r: Result<u64, FrameMathError>)
    ensures
        (from_rate == 0 || to_rate == 0) <==> r == Err::<u64, FrameMathError>(FrameMathError::ZeroRate),
        from_rate != 0 && to_rate != 0 ==> {
            &&& r matches Ok(v) ==> v == scaled_frames(frames, from_rate, to_rate)
            &&& r is Err <==> scaled_frames(frames, from_rate, to_rate) > u64::MAX
            &&& r matches Err(e) ==> e == FrameMathError::ConvertedCountOverflow
        },
{
    if from_rate == 0 || to_rate == 0 {
        return Err(FrameMathError::ZeroRate);
    }
    proof {
        let (a, b) = (frames as int, to_rate as int);
        assert(a * b <= 0xffff_ffff_ffff_ffffint * 0xffff_ffffint) by (nonlinear_arith)
            requires
                0 <= a <= 0xffff_ffff_ffff_ffffint,
                0 <= b <= 0xffff_ffffint;
    }
    let product: u128 = (frames as u128) * (to_rate as u128);
    let scaled: u128 = product / (from_rate as u128);
    if scaled > u64::MAX as u128 {
        Err(FrameMathError::ConvertedCountOverflow)
    } else {
        Ok(scaled as u64)
    }
}

} // verus!
