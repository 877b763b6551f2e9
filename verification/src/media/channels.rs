//! Interleaved multi-channel sample layout.
use crate::runtime::decimal::{decimal, push_decimal};
use crate::text::push_str;
use vstd::prelude::*;

verus! {

/// Why a channel cannot be taken out of interleaved audio.
#[derive(Debug, Clone, Copy, PartialEq, Eq, Structural)]
pub enum ChannelError {
    ZeroChannels,
    MissingChannel { channel: usize, channels: u16 },
}

impl ChannelError {
    pub fn message(&self) -> (r: String)
        ensures
            *self is ZeroChannels ==> r@ == "audio has zero channels"@,
            (match *self {
                ChannelError::MissingChannel { channel, channels } => r@ == "requested channel "@ + decimal(channel as nat)
                    + ", but audio has "@ + decimal(channels as nat) + " channels"@,
                _ => true,
            }),
    {
        match self {
            ChannelError::ZeroChannels => "audio has zero channels".to_owned(),
            ChannelError::MissingChannel { channel, channels } => {
                let mut out = String::new();
                push_str(&mut out, "requested channel ");
                push_decimal(&mut out, *channel as u64);
                push_str(&mut out, ", but audio has ");
                push_decimal(&mut out, *channels as u64);
                push_str(&mut out, " channels");
                out
            },
        }
    }
}

/// Whole frames in `len` interleaved samples; none without channels.
pub open spec fn frames_in(len: nat, channels: u16) -> nat {
    if channels == 0 { 0 } else { len / (channels as nat) }
}

pub fn frame_count(len: usize, channels: u16) -> (r: usize)
    ensures
        r == frames_in(len as nat, channels),
{
    if channels == 0 { 0 } else { len / channels as usize }
}

/// The samples of one channel: every `channels`-th sample from `channel`
/// on, including one from a trailing partial frame when it has it.
pub open spec fn channel_samples<T>(samples: Seq<T>, channels: nat, channel: nat) -> Seq<T> {
    Seq::new(
        (if samples.len() > channel { ((samples.len() - channel - 1) as nat / channels) + 1 } else { 0 }) as nat,
        |k: int| samples[k * channels + channel],
    )
}

/// Takes channel `channel` out of interleaved samples.
pub fn extract_channel<T: Copy>(samples: &[T], channels: u16, channel: usize) -> (r: Result<Vec<T>, ChannelError>)
    ensures
        channels == 0 ==> r == Err::<Vec<T>, ChannelError>(ChannelError::ZeroChannels),
        channels > 0 && channel >= channels ==> r == Err::<Vec<T>, ChannelError>(ChannelError::MissingChannel { channel, channels }),
        channels > 0 && channel < channels ==> (r matches Ok(v) && v@ == channel_samples(samples@, channels as nat, channel as nat)),
{
    if channels == 0 {
        return Err(ChannelError::ZeroChannels);
    }
    let width = channels as usize;
    if channel >= width {
        return Err(ChannelError::MissingChannel { channel, channels });
    }
    let count: usize = if samples.len() > channel { (samples.len() - channel - 1) / width + 1 } else { 0 };
    let mut out: Vec<T> = Vec::new();
    let mut k: usize = 0;
    while k < count
        invariant
            0 < width,
            channel < width,
            k <= count,
            count == (if samples.len() > channel { ((samples.len() - channel - 1) as nat / width as nat) + 1 } else { 0 }),
            out@.len() == k,
            forall|t: int| 0 <= t < k ==> #[trigger] out@[t] == samples@[t * width + channel],
        decreases count - k,
    {
        proof {
            assert(k as int * width + channel < samples.len()) by (nonlinear_arith)
                requires
                    samples.len() > channel,
                    k < count,
                    count == ((samples.len() - channel - 1) as nat / width as nat) + 1,
                    0 < width;
        }
        let pos = k * width + channel;
        out.push(samples[pos]);
        k = k + 1;
    }
    assert(out@ =~= channel_samples(samples@, channels as nat, channel as nat));
    Ok(out)
}

// ------------------------------------------------------ row-major layout

/// The number of elements in one step of axis `i - 1`: the product of the
/// extents of the axes from `i` on.
pub open spec fn suffix_product(shape: Seq<usize>, i: int) -> nat
    decreases shape.len() - i,
{
    if i < 0 || i >= shape.len() {
        1
    } else {
        shape[i] as nat * suffix_product(shape, i + 1)
    }
}

/// Every stride of a row-major array of this shape fits in `usize`.
pub open spec fn strides_fit(shape: Seq<usize>) -> bool {
    forall|i: int| 1 <= i <= shape.len() ==> #[trigger] suffix_product(shape, i) <= usize::MAX
}

/// Row-major strides of an array shape: each axis steps over the product of
/// the extents after it, and the last axis steps by one.
pub fn contiguous_strides(shape: &[usize]) -> (r: Vec<usize>)
    requires
        strides_fit(shape@),
    ensures
        r@.len() == shape@.len(),
        forall|i: int| 0 <= i < shape@.len() ==> r@[i] == suffix_product(shape@, i + 1),
{
    let n = shape.len();
    let mut strides: Vec<usize> = Vec::new();
    while strides.len() < n
        invariant
            strides.len() <= n,
            n == shape.len(),
            forall|k: int| 0 <= k < strides.len() ==> strides@[k] == 1,
        decreases n - strides.len(),
    {
        strides.push(1);
    }
    if n >= 2 {
        let mut index: usize = n - 1;
        // Strides from `index` on are final.
        while index > 0
            invariant
                1 <= n,
                n == shape.len(),
                strides@.len() == n,
                strides_fit(shape@),
                index <= n - 1,
                forall|k: int| index <= k < n ==> strides@[k] == suffix_product(shape@, k + 1),
                forall|k: int| 0 <= k < index ==> strides@[k] == 1,
            decreases index,
        {
            let k = index - 1;
            assert(suffix_product(shape@, k + 1) == shape@[k + 1] as nat * suffix_product(shape@, k + 2));
            assert(suffix_product(shape@, k + 1) <= usize::MAX);
            let next = shape[k + 1] * strides[k + 1];
            strides.set(k, next);
            index = k;
        }
    } else {
        assert(n == 1 ==> suffix_product(shape@, 1) == 1);
    }
    strides
}

} // verus!
