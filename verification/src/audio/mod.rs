//! Audio: sample formats, the choice of a device stream configuration, PCM
//! sample handling and the playback buffer.

pub mod pcm;
pub mod ring;

use vstd::prelude::*;

verus! {

/// The format of one sample in a device buffer.
#[derive(Debug, Clone, Copy, PartialEq, Eq, Structural)]
pub enum SampleFormat {
    I8,
    I16,
    I32,
    I64,
    U8,
    U16,
    U32,
    U64,
    F32,
    F64,
    /// A format this client does not know.
    Other,
}

/// The rank of a sample format in the client's preference (lower is better):
/// float and 16-bit formats before 8-bit ones.
pub open spec fn format_rank(sf: SampleFormat) -> u8 {
    match sf {
        SampleFormat::F32 => 0,
        SampleFormat::F64 => 1,
        SampleFormat::I16 => 2,
        SampleFormat::U16 => 3,
        SampleFormat::I32 => 4,
        SampleFormat::U32 => 5,
        SampleFormat::I8 => 6,
        SampleFormat::U8 => 7,
        _ => 8,
    }
}

/// The preference orders formats by quality: 32-bit then 64-bit float, then
/// 16-bit, then 32-bit integers, then 8-bit ones, each signed before
/// unsigned, and any other format last.
pub proof fn lemma_format_rank_order(other: SampleFormat)
    requires
        !(other is F32 || other is F64 || other is I16 || other is U16 || other is I32 || other is U32
            || other is I8 || other is U8),
    ensures
        format_rank(SampleFormat::F32) < format_rank(SampleFormat::F64),
        format_rank(SampleFormat::F64) < format_rank(SampleFormat::I16),
        format_rank(SampleFormat::I16) < format_rank(SampleFormat::U16),
        format_rank(SampleFormat::U16) < format_rank(SampleFormat::I32),
        format_rank(SampleFormat::I32) < format_rank(SampleFormat::U32),
        format_rank(SampleFormat::U32) < format_rank(SampleFormat::I8),
        format_rank(SampleFormat::I8) < format_rank(SampleFormat::U8),
        format_rank(SampleFormat::U8) < format_rank(other),
{
}

/// Between two ranges that differ only in their sample format, the one with
/// the better format fits strictly better.
pub proof fn lemma_better_format_wins(a: StreamConfigRange, b: StreamConfigRange, rate: u32, channels: u16)
    requires
        a.channels == b.channels,
        a.min_sample_rate == b.min_sample_rate,
        a.max_sample_rate == b.max_sample_rate,
        format_rank(a.sample_format) < format_rank(b.sample_format),
    ensures
        better(fit(a, rate, channels), fit(b, rate, channels)),
{
}

/// The order of the criteria: a range with the desired channel count fits
/// better than one without; with the same channel match, a range that holds
/// the desired rate fits better than one that does not; with both the same,
/// the better format wins; with the format the same too, the range whose
/// lowest rate lies nearer the desired one wins.
pub proof fn lemma_fit_criteria_order(a: StreamConfigRange, b: StreamConfigRange, rate: u32, channels: u16)
    ensures
        a.channels == channels && b.channels != channels ==> better(fit(a, rate, channels), fit(b, rate, channels)),
        ((a.channels == channels) == (b.channels == channels) && a.min_sample_rate <= rate
            <= a.max_sample_rate && !(b.min_sample_rate <= rate <= b.max_sample_rate)) ==> better(
            fit(a, rate, channels),
            fit(b, rate, channels),
        ),
        ((a.channels == channels) == (b.channels == channels) && (a.min_sample_rate <= rate
            <= a.max_sample_rate) == (b.min_sample_rate <= rate <= b.max_sample_rate)
            && a.sample_format == b.sample_format && a.min_sample_rate >= rate && b.min_sample_rate
            >= rate && a.min_sample_rate < b.min_sample_rate) ==> better(
            fit(a, rate, channels),
            fit(b, rate, channels),
        ),
        !better(fit(a, rate, channels), fit(a, rate, channels)),
{
}

/// A chosen range runs at the desired rate when it holds it, and otherwise at
/// its highest rate; either way the rate lies within the range.
pub proof fn lemma_rate_in_range(r: StreamConfigRange, rate: u32)
    requires
        r.min_sample_rate <= r.max_sample_rate,
    ensures
        r.min_sample_rate <= rate <= r.max_sample_rate ==> rate_in(r, rate) == rate,
        !(r.min_sample_rate <= rate <= r.max_sample_rate) ==> rate_in(r, rate) == r.max_sample_rate,
        r.min_sample_rate <= rate_in(r, rate) <= r.max_sample_rate,
{
}

/// The rank of a sample format in the client's preference (lower is better).
pub fn format_preference(sf: SampleFormat) -> (r: u8)
    ensures
        r == format_rank(sf),
{
    match sf {
        SampleFormat::F32 => 0,
        SampleFormat::F64 => 1,
        SampleFormat::I16 => 2,
        SampleFormat::U16 => 3,
        SampleFormat::I32 => 4,
        SampleFormat::U32 => 5,
        SampleFormat::I8 => 6,
        SampleFormat::U8 => 7,
        _ => 8,
    }
}

/// A range of stream configurations that a device supports.
#[derive(Debug, Clone, Copy)]
pub struct StreamConfigRange {
    pub channels: u16,
    pub min_sample_rate: u32,
    pub max_sample_rate: u32,
    pub sample_format: SampleFormat,
}

/// A configuration picked from a list of ranges: the range's position and the
/// sample rate to use in it.
#[derive(Debug, Clone, Copy, PartialEq, Eq, Structural)]
pub struct StreamChoice {
    pub index: usize,
    pub sample_rate: u32,
}

/// How well a range fits the desired rate and channel count, compared
/// lexicographically (lower is better): the channel count matches, the rate
/// is within the range, the format's rank, and the distance of the range's
/// lowest rate from the desired one.
pub open spec fn fit(r: StreamConfigRange, rate: u32, channels: u16) -> (u8, u8, u8, u32) {
    (
        if r.channels == channels { 0u8 } else { 1u8 },
        if r.min_sample_rate <= rate <= r.max_sample_rate { 0u8 } else { 1u8 },
        format_rank(r.sample_format),
        (if r.min_sample_rate >= rate { r.min_sample_rate - rate } else { rate - r.min_sample_rate }) as u32,
    )
}

/// `a` fits strictly better than `b`.
pub open spec fn better(a: (u8, u8, u8, u32), b: (u8, u8, u8, u32)) -> bool {
    a.0 < b.0 || (a.0 == b.0 && (a.1 < b.1 || (a.1 == b.1 && (a.2 < b.2 || (a.2 == b.2 && a.3 < b.3)))))
}

/// The sample rate used in a range: the desired one where the range holds
/// it, else the range's highest.
pub open spec fn rate_in(r: StreamConfigRange, rate: u32) -> u32 {
    if r.min_sample_rate <= rate <= r.max_sample_rate {
        rate
    } else {
        r.max_sample_rate
    }
}

fn fit_of(r: &StreamConfigRange, rate: u32, channels: u16) -> (f: (u8, u8, u8, u32))
    ensures
        f == fit(*r, rate, channels),
{
    let channels_ok: u8 = if r.channels == channels { 0 } else { 1 };
    let rate_ok: u8 = if r.min_sample_rate <= rate && rate <= r.max_sample_rate { 0 } else { 1 };
    let distance = if r.min_sample_rate >= rate {
        r.min_sample_rate - rate
    } else {
        rate - r.min_sample_rate
    };
    (channels_ok, rate_ok, format_preference(r.sample_format), distance)
}

fn is_better(a: (u8, u8, u8, u32), b: (u8, u8, u8, u32)) -> (res: bool)
    ensures
        res == better(a, b),
{
    a.0 < b.0 || (a.0 == b.0 && (a.1 < b.1 || (a.1 == b.1 && (a.2 < b.2 || (a.2 == b.2 && a.3 < b.3)))))
}

/// Picks the stream configuration closest to the desired sample rate and
/// channel count: the first range that no other range fits better, at the
/// desired rate when the range holds it, else at the range's highest rate.
/// `None` only when there is no range.
pub fn choose_stream_config(ranges: &[StreamConfigRange], rate: u32, channels: u16) -> (res: Option<
    StreamChoice,
>)
    ensures
        res is None <==> ranges@.len() == 0,
        res matches Some(c) ==> {
            &&& c.index < ranges@.len()
            &&& c.sample_rate == rate_in(ranges@[c.index as int], rate)
            &&& forall|j: int|
                0 <= j < ranges@.len() ==> !better(
                    fit(#[trigger] ranges@[j], rate, channels),
                    fit(ranges@[c.index as int], rate, channels),
                )
            &&& forall|j: int|
                0 <= j < c.index ==> better(
                    fit(ranges@[c.index as int], rate, channels),
                    fit(#[trigger] ranges@[j], rate, channels),
                )
        },
{
    if ranges.len() == 0 {
        return None;
    }
    let mut best: usize = 0;
    let mut best_fit = fit_of(&ranges[0], rate, channels);
    let mut i: usize = 1;
    while i < ranges.len()
        invariant
            1 <= i <= ranges@.len(),
            best < i,
            best_fit == fit(ranges@[best as int], rate, channels),
            forall|j: int| 0 <= j < i ==> !better(fit(#[trigger] ranges@[j], rate, channels), best_fit),
            forall|j: int| 0 <= j < best ==> better(best_fit, fit(#[trigger] ranges@[j], rate, channels)),
        decreases ranges@.len() - i,
    {
        let f = fit_of(&ranges[i], rate, channels);
        if is_better(f, best_fit) {
            best = i;
            best_fit = f;
        }
        i = i + 1;
    }
    let r = &ranges[best];
    let sample_rate = if r.min_sample_rate <= rate && rate <= r.max_sample_rate {
        rate
    } else {
        r.max_sample_rate
    };
    Some(StreamChoice { index: best, sample_rate })
}

/// The number of samples per channel in a frame of `duration_ms`
/// milliseconds at `rate` Hz.
pub fn frame_samples(rate: u32, duration_ms: u32) -> (n: usize)
    requires
        rate as int * duration_ms as int <= usize::MAX,
    ensures
        n == (rate as int * duration_ms as int) / 1000,
{
    (rate as usize * duration_ms as usize) / 1000
}

/// The channel layout of an Opus codec.
#[derive(Debug, Clone, Copy, PartialEq, Eq, Structural)]
pub enum OpusChannels {
    Mono,
    Stereo,
}

/// The Opus layout for a channel count: stereo for two channels, mono for
/// any other count.
pub fn opus_channels(channels: u16) -> (c: OpusChannels)
    ensures
        c == (if channels == 2 { OpusChannels::Stereo } else { OpusChannels::Mono }),
{
    if channels == 2 {
        OpusChannels::Stereo
    } else {
        OpusChannels::Mono
    }
}

/// The lowercase form of a string, as `str::to_lowercase` computes it.
pub uninterp spec fn lowercase(s: Seq<char>) -> Seq<char>;

/// Calls `str::to_lowercase`. Its result depends on the string alone, so the
/// contract names it `lowercase`; the Unicode case mapping itself is left
/// unstated.
#[verifier::external_body]
fn to_lowercase(s: &str) -> (res: String)
    ensures
        res@ == lowercase(s@),
{
    s.to_lowercase()
}

/// `needle` occurs in `hay` at position `i`.
pub open spec fn occurs_at(hay: Seq<char>, needle: Seq<char>, i: int) -> bool {
    0 <= i && i + needle.len() <= hay.len() && hay.subrange(i, i + needle.len()) == needle
}

/// `needle` occurs somewhere in `hay` (the empty string occurs everywhere).
pub open spec fn occurs_in(hay: Seq<char>, needle: Seq<char>) -> bool {
    exists|i: int| occurs_at(hay, needle, i)
}

/// Whether `needle` occurs in `hay`.
pub fn contains_text(hay: &str, needle: &str) -> (res: bool)
    ensures
        res == occurs_in(hay@, needle@),
{
    let n = hay.unicode_len();
    let m = needle.unicode_len();
    if m > n {
        assert forall|i: int| !occurs_at(hay@, needle@, i) by {}
        return false;
    }
    let mut i: usize = 0;
    while i <= n - m
        invariant
            n == hay@.len(),
            m == needle@.len(),
            m <= n,
            i <= n - m + 1,
            forall|k: int| 0 <= k < i ==> !occurs_at(hay@, needle@, k),
        decreases n - m + 1 - i,
    {
        let mut j: usize = 0;
        let mut same = true;
        while j < m
            invariant
                n == hay@.len(),
                m == needle@.len(),
                i + m <= n,
                j <= m,
                same == (forall|k: int| 0 <= k < j ==> hay@[i + k] == needle@[k]),
            decreases m - j,
        {
            if hay.get_char(i + j) != needle.get_char(j) {
                same = false;
            }
            j = j + 1;
        }
        if same {
            assert(hay@.subrange(i as int, i + m) =~= needle@);
            assert(occurs_at(hay@, needle@, i as int));
            return true;
        }
        assert(!occurs_at(hay@, needle@, i as int)) by {
            let k = choose|k: int| 0 <= k < m && hay@[i + k] != needle@[k];
            if hay@.subrange(i as int, i + m) == needle@ {
                assert(hay@.subrange(i as int, i + m)[k] == hay@[i + k]);
            }
        }
        i = i + 1;
    }
    assert forall|i: int| !occurs_at(hay@, needle@, i) by {}
    false
}

/// The name matches the wanted text, ignoring case.
pub open spec fn name_matches(name: Seq<char>, wanted: Seq<char>) -> bool {
    occurs_in(lowercase(name), lowercase(wanted))
}

/// The device at position `j` has a name that matches `wanted`.
pub open spec fn device_matches(names: Seq<Option<String>>, j: int, wanted: Seq<char>) -> bool {
    match names[j] {
        Some(n) => name_matches(n@, wanted),
        None => false,
    }
}

/// The position of the first device whose name holds `wanted`, ignoring case
/// (a device whose name could not be read never matches).
pub fn find_device(names: &[Option<String>], wanted: &str) -> (res: Option<usize>)
    ensures
        match res {
            Some(i) => i < names@.len() && device_matches(names@, i as int, wanted@) && forall|j: int|
                0 <= j < i ==> !device_matches(names@, j, wanted@),
            None => forall|j: int| 0 <= j < names@.len() ==> !device_matches(names@, j, wanted@),
        },
{
    let wanted_lower = to_lowercase(wanted);
    let mut i: usize = 0;
    while i < names.len()
        invariant
            i <= names@.len(),
            wanted_lower@ == lowercase(wanted@),
            forall|j: int| 0 <= j < i ==> !device_matches(names@, j, wanted@),
        decreases names@.len() - i,
    {
        if let Some(n) = &names[i] {
            let lower = to_lowercase(n.as_str());
            if contains_text(lower.as_str(), wanted_lower.as_str()) {
                return Some(i);
            }
        }
        i = i + 1;
    }
    None
}

} // verus!
