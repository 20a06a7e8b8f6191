//! Choice of the capture configuration among those a device advertises.

use vstd::prelude::*;

verus! {

/// The rate the recognisers expect, in Hz.
pub const WHISPER_SAMPLE_RATE: u32 = 16000;

/// Sample encodings a capture device may offer.
#[derive(Debug, Clone, Copy, PartialEq, Eq, Structural)]
pub enum SampleFormat {
    I8,
    I16,
    I32,
    I64,
    U8,
    U16,
    U32,
    U64,
    F32,
    F64,
}

/// One advertised configuration: a channel count, a range of sample rates
/// and a sample format.
#[derive(Debug, Clone, Copy, PartialEq, Eq, Structural)]
pub struct ConfigRange {
    pub channels: u16,
    pub min_sample_rate: u32,
    pub max_sample_rate: u32,
    pub sample_format: SampleFormat,
}

/// Preference among formats: F32, then I16, then I32, then the others.
pub open spec fn format_rank(f: SampleFormat) -> int {
    match f {
        SampleFormat::F32 => 4,
        SampleFormat::I16 => 3,
        SampleFormat::I32 => 2,
        _ => 1,
    }
}

pub fn format_score(f: SampleFormat) -> (r: u8)
    ensures
        r == format_rank(f),
{
    match f {
        SampleFormat::F32 => 4,
        SampleFormat::I16 => 3,
        SampleFormat::I32 => 2,
        _ => 1,
    }
}

pub open spec fn covers(c: ConfigRange, rate: u32) -> bool {
    c.min_sample_rate <= rate <= c.max_sample_rate
}

/// Among the first `k` configurations, the index of the first one of the
/// best-ranked format among those whose range covers `rate`.
pub open spec fn preferred_among(configs: Seq<ConfigRange>, rate: u32, k: nat) -> Option<int>
    decreases k,
{
    if k == 0 {
        None
    } else {
        let prev = preferred_among(configs, rate, (k - 1) as nat);
        let j = k - 1;
        if covers(configs[j], rate) && (prev is None
            || format_rank(configs[j].sample_format) > format_rank(configs[prev.unwrap()].sample_format)) {
            Some(j)
        } else {
            prev
        }
    }
}

/// The index of the configuration to capture with at `rate`, or `None`
/// when no range covers it (the device default is then used, and the
/// resampler matches the rates).
pub fn preferred_config(configs: &[ConfigRange], rate: u32) -> (r: Option<usize>)
    ensures
        match r {
            Some(i) => preferred_among(configs@, rate, configs@.len()) == Some(i as int),
            None => preferred_among(configs@, rate, configs@.len()) is None,
        },
{
    let mut best: Option<usize> = None;
    let mut i: usize = 0;
    while i < configs.len()
        invariant
            0 <= i <= configs@.len(),
            match best {
                Some(j) => preferred_among(configs@, rate, i as nat) == Some(j as int) && j < i,
                None => preferred_among(configs@, rate, i as nat) is None,
            },
        decreases configs@.len() - i,
    {
        let c = configs[i];
        if c.min_sample_rate <= rate && c.max_sample_rate >= rate {
            let better = match best {
                None => true,
                Some(j) => format_score(c.sample_format) > format_score(configs[j].sample_format),
            };
            if better {
                best = Some(i);
            }
        }
        i = i + 1;
    }
    best
}

/// Whether capture can convert samples of this format.
pub fn format_supported(f: SampleFormat) -> (r: bool)
    ensures
        r == (f == SampleFormat::I8 || f == SampleFormat::I16 || f == SampleFormat::I32 || f == SampleFormat::F32),
{
    match f {
        SampleFormat::I8 | SampleFormat::I16 | SampleFormat::I32 | SampleFormat::F32 => true,
        _ => false,
    }
}

} // verus!
