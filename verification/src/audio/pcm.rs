//! 16-bit PCM handling: conversion of device samples to 16-bit, downmixing
//! interleaved channels to mono, and the device bytes of mono samples for
//! each integer sample format.

use vstd::prelude::*;
use crate::audio::SampleFormat;

verus! {

/// `x` limited to the range of `i16`.
pub open spec fn clamp16(x: int) -> int {
    if x < -32768 {
        -32768
    } else if x > 32767 {
        32767
    } else {
        x
    }
}

/// An 8-bit signed sample scaled to 16 bits (times 257, clamped).
pub open spec fn i8_sample(s: i8) -> i16 {
    clamp16(s as int * 257) as i16
}

/// An 8-bit unsigned sample (midpoint 128) scaled to 16 bits.
pub open spec fn u8_sample(s: u8) -> i16 {
    clamp16((s as int - 128) * 257) as i16
}

/// A 16-bit unsigned sample (midpoint 32768) as a signed one.
pub open spec fn u16_sample(s: u16) -> i16 {
    (s as int - 32768) as i16
}

/// The high 16 bits of a 32-bit signed sample (its value divided by 2^16,
/// rounded down).
pub open spec fn i32_sample(s: i32) -> i16 {
    ((s as int + 0x8000_0000) / 0x1_0000 - 32768) as i16
}

/// The high 16 bits of a 32-bit unsigned sample (midpoint 2^31).
pub open spec fn u32_sample(s: u32) -> i16 {
    (s as int / 0x1_0000 - 32768) as i16
}

pub fn i8_to_i16(s: i8) -> (r: i16)
    ensures
        r == i8_sample(s),
{
    let v: i32 = s as i32 * 257;
    if v < -32768 {
        -32768
    } else {
        v as i16
    }
}

pub fn u8_to_i16(s: u8) -> (r: i16)
    ensures
        r == u8_sample(s),
{
    let v: i32 = (s as i32 - 128) * 257;
    if v < -32768 {
        -32768
    } else {
        v as i16
    }
}

pub fn u16_to_i16(s: u16) -> (r: i16)
    ensures
        r == u16_sample(s),
{
    (s as i32 - 32768) as i16
}

pub fn i32_to_i16(s: i32) -> (r: i16)
    ensures
        r == i32_sample(s),
{
    let shifted: i64 = s as i64 + 0x8000_0000;
    (shifted / 0x1_0000 - 32768) as i16
}

pub fn u32_to_i16(s: u32) -> (r: i16)
    ensures
        r == u32_sample(s),
{
    ((s / 0x1_0000) as i32 - 32768) as i16
}

/// The sum of the samples.
pub open spec fn sum_of(s: Seq<i16>) -> int
    decreases s.len(),
{
    if s.len() == 0 {
        0
    } else {
        sum_of(s.drop_last()) + s.last() as int
    }
}

/// `total / n` rounded toward zero.
pub open spec fn div_toward_zero(total: int, n: int) -> int {
    if total >= 0 {
        total / n
    } else {
        -((-total) / n)
    }
}

/// The mono stream of interleaved `samples` with `channels` channels: each
/// group of `channels` consecutive samples (the last group may be shorter)
/// becomes its mean, rounded toward zero.
pub open spec fn downmixed(samples: Seq<i16>, channels: nat) -> Seq<i16>
    decreases samples.len(),
{
    if samples.len() == 0 || channels == 0 {
        Seq::empty()
    } else {
        let n = if samples.len() < channels { samples.len() } else { channels };
        seq![div_toward_zero(sum_of(samples.take(n as int)), n as int) as i16] + downmixed(
            samples.skip(n as int),
            channels,
        )
    }
}

proof fn lemma_sum_push(s: Seq<i16>, x: i16)
    ensures
        sum_of(s.push(x)) == sum_of(s) + x,
{
    assert(s.push(x).drop_last() =~= s);
}

proof fn lemma_mean_in_range(total: int, n: int)
    requires
        0 < n,
        -32768 * n <= total <= 32767 * n,
    ensures
        -32768 <= div_toward_zero(total, n) <= 32767,
{
    if total >= 0 {
        assert(total / n <= 32767) by (nonlinear_arith)
            requires 0 < n, 0 <= total <= 32767 * n;
        assert(total / n >= 0) by (nonlinear_arith)
            requires 0 < n, 0 <= total;
    } else {
        assert((-total) / n <= 32768) by (nonlinear_arith)
            requires 0 < n, 0 < -total <= 32768 * n;
        assert((-total) / n >= 0) by (nonlinear_arith)
            requires 0 < n, 0 < -total;
    }
}

/// The mean of `samples[from..from + n]`, rounded toward zero.
fn chunk_mean(samples: &[i16], from: usize, n: usize) -> (m: i16)
    requires
        0 < n <= 65536,
        from + n <= samples@.len(),
    ensures
        m as int == div_toward_zero(sum_of(samples@.subrange(from as int, from + n)), n as int),
{
    let mut acc: i32 = 0;
    let mut j: usize = 0;
    let total_len = samples.len();
    assert(samples@.subrange(from as int, from as int) =~= Seq::<i16>::empty());
    while j < n
        invariant
            0 < n <= 65536,
            from + n <= samples@.len(),
            total_len == samples@.len(),
            j <= n,
            acc as int == sum_of(samples@.subrange(from as int, from + j)),
            -32768 * j <= acc <= 32767 * j,
        decreases n - j,
    {
        proof {
            let part = samples@.subrange(from as int, from + j);
            assert(samples@.subrange(from as int, from + j + 1) =~= part.push(samples@[from + j]));
            lemma_sum_push(part, samples@[from + j]);
        }
        let x = samples[from + j];
        assert(-32768 * (j + 1) <= acc + x <= 32767 * (j + 1));
        acc = acc + x as i32;
        j = j + 1;
    }
    proof {
        lemma_mean_in_range(acc as int, n as int);
    }
    let len = n as i64;
    let total = acc as i64;
    let mean: i64 = if total >= 0 {
        total / len
    } else {
        -((-total) / len)
    };
    mean as i16
}

/// Downmixes interleaved samples with `channels` channels to mono: each group
/// of `channels` consecutive samples (the last group may be shorter) becomes
/// its mean, rounded toward zero.
pub fn downmix(samples: &[i16], channels: usize) -> (out: Vec<i16>)
    requires
        1 <= channels <= 65536,
    ensures
        out@ == downmixed(samples@, channels as nat),
{
    let mut out: Vec<i16> = Vec::new();
    let mut pos: usize = 0;
    let len = samples.len();
    assert(samples@.skip(0) =~= samples@);
    while pos < len
        invariant
            1 <= channels <= 65536,
            len == samples@.len(),
            pos <= len,
            out@ + downmixed(samples@.skip(pos as int), channels as nat) == downmixed(
                samples@,
                channels as nat,
            ),
        decreases len - pos,
    {
        let n = if len - pos < channels {
            len - pos
        } else {
            channels
        };
        let m = chunk_mean(samples, pos, n);
        proof {
            let rest = samples@.skip(pos as int);
            assert(rest.take(n as int) =~= samples@.subrange(pos as int, pos + n));
            assert(rest.skip(n as int) =~= samples@.skip(pos + n));
            let step = seq![m];
            assert(downmixed(rest, channels as nat) == step + downmixed(rest.skip(n as int), channels as nat));
            assert(out@.push(m) + downmixed(samples@.skip(pos + n), channels as nat) =~= out@ + (step
                + downmixed(rest.skip(n as int), channels as nat)));
        }
        out.push(m);
        pos = pos + n;
    }
    assert(samples@.skip(len as int) =~= Seq::<i16>::empty());
    assert(out@ + Seq::<i16>::empty() =~= out@);
    out
}

/// Downmixing a single channel changes nothing.
pub proof fn lemma_downmix_one_channel(samples: Seq<i16>)
    ensures
        downmixed(samples, 1) == samples,
    decreases samples.len(),
{
    if samples.len() > 0 {
        let first = samples.take(1);
        assert(first.drop_last() =~= Seq::<i16>::empty());
        assert(sum_of(Seq::<i16>::empty()) == 0);
        assert(first.last() == samples[0]);
        assert(sum_of(first) == samples[0] as int);
        assert(div_toward_zero(samples[0] as int, 1) == samples[0] as int);
        lemma_downmix_one_channel(samples.skip(1));
        assert(samples =~= seq![samples[0]] + samples.skip(1));
    }
}

/// The 16-bit word of two bytes, little- or big-endian.
pub open spec fn word16(b: Seq<u8>, little_endian: bool) -> int {
    if little_endian {
        b[0] as int + b[1] as int * 256
    } else {
        b[0] as int * 256 + b[1] as int
    }
}

/// The 32-bit word of four bytes, little- or big-endian.
pub open spec fn word32(b: Seq<u8>, little_endian: bool) -> int {
    if little_endian {
        b[0] as int + b[1] as int * 256 + b[2] as int * 65536 + b[3] as int * 16777216
    } else {
        b[0] as int * 16777216 + b[1] as int * 65536 + b[2] as int * 256 + b[3] as int
    }
}

/// The 16-bit sample that the bytes of one device sample in integer format
/// `f` stand for.
pub open spec fn decoded_sample(f: SampleFormat, b: Seq<u8>, little_endian: bool) -> i16 {
    match f {
        SampleFormat::I8 => i8_sample(b[0] as i8),
        SampleFormat::U8 => u8_sample(b[0]),
        SampleFormat::I16 => ((word16(b, little_endian) as u16) as i16),
        SampleFormat::U16 => u16_sample(word16(b, little_endian) as u16),
        SampleFormat::I32 => i32_sample((word32(b, little_endian) as u32) as i32),
        SampleFormat::U32 => u32_sample(word32(b, little_endian) as u32),
        _ => 0,
    }
}

/// The 16-bit samples of a device buffer in integer format `f`: one per
/// whole sample, bytes left over at the end ignored.
pub open spec fn samples_of(bytes: Seq<u8>, f: SampleFormat, little_endian: bool) -> Seq<i16>
    decreases bytes.len(),
{
    let w = sample_width(f);
    if w == 0 || bytes.len() < w {
        Seq::empty()
    } else {
        seq![decoded_sample(f, bytes.take(w as int), little_endian)] + samples_of(
            bytes.skip(w as int),
            f,
            little_endian,
        )
    }
}

proof fn lemma_one_sample(b: Seq<u8>, f: SampleFormat, le: bool)
    requires
        sample_width(f) > 0,
        b.len() == sample_width(f),
    ensures
        samples_of(b, f, le) == seq![decoded_sample(f, b, le)],
{
    assert(b.take(b.len() as int) =~= b);
    assert(b.skip(b.len() as int) =~= Seq::<u8>::empty());
    assert(samples_of(Seq::<u8>::empty(), f, le) == Seq::<i16>::empty());
}

/// One-byte samples are scaled by 257 into 16 bits: an I8 byte is a signed
/// value (0 is silence; -128 saturates at -32768), a U8 byte is offset by
/// its midpoint 128 (0 saturates at -32768). The byte order does not matter.
pub proof fn lemma_byte_samples(b: u8, le: bool)
    ensures
        samples_of(seq![b], SampleFormat::I8, le).len() == 1,
        b < 128 ==> samples_of(seq![b], SampleFormat::I8, le)[0] as int == b as int * 257,
        b == 128 ==> samples_of(seq![b], SampleFormat::I8, le)[0] as int == -32768,
        b > 128 ==> samples_of(seq![b], SampleFormat::I8, le)[0] as int == (b as int - 256) * 257,
        samples_of(seq![b], SampleFormat::U8, le).len() == 1,
        b == 0 ==> samples_of(seq![b], SampleFormat::U8, le)[0] as int == -32768,
        b > 0 ==> samples_of(seq![b], SampleFormat::U8, le)[0] as int == (b as int - 128) * 257,
{
    lemma_one_sample(seq![b], SampleFormat::I8, le);
    lemma_one_sample(seq![b], SampleFormat::U8, le);
    let x: u8 = b;
    assert(x < 128 ==> (x as i8) as int == x as int) by (bit_vector);
    assert(x >= 128 ==> (x as i8) as int == x as int - 256) by (bit_vector);
}

/// A two-byte sample is the 16-bit word of its bytes, low byte first when
/// little-endian and high byte first otherwise: as I16 it is read in two's
/// complement, as U16 it is offset by its midpoint 32768.
pub proof fn lemma_word_samples(lo: u8, hi: u8)
    ensures
        samples_of(seq![lo, hi], SampleFormat::I16, true).len() == 1,
        samples_of(seq![hi, lo], SampleFormat::I16, false) == samples_of(seq![lo, hi], SampleFormat::I16, true),
        hi < 128 ==> samples_of(seq![lo, hi], SampleFormat::I16, true)[0] as int == hi as int * 256 + lo as int,
        hi >= 128 ==> samples_of(seq![lo, hi], SampleFormat::I16, true)[0] as int == hi as int * 256 + lo as int
            - 65536,
        samples_of(seq![hi, lo], SampleFormat::U16, false) == samples_of(seq![lo, hi], SampleFormat::U16, true),
        samples_of(seq![lo, hi], SampleFormat::U16, true)[0] as int == hi as int * 256 + lo as int - 32768,
{
    lemma_one_sample(seq![lo, hi], SampleFormat::I16, true);
    lemma_one_sample(seq![hi, lo], SampleFormat::I16, false);
    lemma_one_sample(seq![lo, hi], SampleFormat::U16, true);
    lemma_one_sample(seq![hi, lo], SampleFormat::U16, false);
    let a: u8 = lo;
    let b: u8 = hi;
    assert(((b as int * 256 + a as int) as u16) as int == b as int * 256 + a as int) by (bit_vector);
    assert(b < 128 ==> (((b as int * 256 + a as int) as u16) as i16) as int == b as int * 256 + a as int)
        by (bit_vector);
    assert(b >= 128 ==> (((b as int * 256 + a as int) as u16) as i16) as int == b as int * 256 + a as int
        - 65536) by (bit_vector);
}

fn decode_one(bytes: &[u8], pos: usize, f: SampleFormat, little_endian: bool) -> (s: i16)
    requires
        is_integer_format(f),
        pos + sample_width(f) <= bytes@.len(),
    ensures
        s == decoded_sample(f, bytes@.skip(pos as int).take(sample_width(f) as int), little_endian),
{
    let ghost b = bytes@.skip(pos as int).take(sample_width(f) as int);
    match f {
        SampleFormat::I8 => {
            assert(b[0] == bytes@[pos as int]);
            i8_to_i16(bytes[pos] as i8)
        },
        SampleFormat::U8 => {
            assert(b[0] == bytes@[pos as int]);
            u8_to_i16(bytes[pos])
        },
        SampleFormat::I16 | SampleFormat::U16 => {
            assert(b[0] == bytes@[pos as int] && b[1] == bytes@[pos + 1]);
            let b0 = bytes[pos] as u16;
            let b1 = bytes[pos + 1] as u16;
            let w: u16 = if little_endian {
                b0 + b1 * 256
            } else {
                b0 * 256 + b1
            };
            if f == SampleFormat::I16 {
                w as i16
            } else {
                u16_to_i16(w)
            }
        },
        _ => {
            assert(b[0] == bytes@[pos as int] && b[1] == bytes@[pos + 1] && b[2] == bytes@[pos + 2] && b[3]
                == bytes@[pos + 3]);
            let b0 = bytes[pos] as u32;
            let b1 = bytes[pos + 1] as u32;
            let b2 = bytes[pos + 2] as u32;
            let b3 = bytes[pos + 3] as u32;
            let w: u32 = if little_endian {
                b0 + b1 * 256 + b2 * 65536 + b3 * 16777216
            } else {
                b0 * 16777216 + b1 * 65536 + b2 * 256 + b3
            };
            if f == SampleFormat::I32 {
                i32_to_i16(w as i32)
            } else {
                u32_to_i16(w)
            }
        },
    }
}

/// The 16-bit samples of a device buffer in a non-float format `f`, its
/// words in the byte order given by `little_endian`; bytes left over at the
/// end are ignored. A format this client cannot read (64-bit or unknown)
/// gives no samples: it is taken as silence.
pub fn decode_samples(bytes: &[u8], f: SampleFormat, little_endian: bool) -> (out: Vec<i16>)
    requires
        !is_float_format(f),
    ensures
        out@ == samples_of(bytes@, f, little_endian),
        !is_integer_format(f) ==> out@ == Seq::<i16>::empty(),
{
    if !is_integer(f) {
        return Vec::new();
    }
    let w: usize = match f {
        SampleFormat::I8 | SampleFormat::U8 => 1,
        SampleFormat::I16 | SampleFormat::U16 => 2,
        _ => 4,
    };
    let len = bytes.len();
    let mut out: Vec<i16> = Vec::new();
    let mut pos: usize = 0;
    assert(bytes@.skip(0) =~= bytes@);
    while len - pos >= w
        invariant
            is_integer_format(f),
            w == sample_width(f),
            len == bytes@.len(),
            pos <= len,
            out@ + samples_of(bytes@.skip(pos as int), f, little_endian) == samples_of(bytes@, f, little_endian),
        decreases len - pos,
    {
        let s = decode_one(bytes, pos, f, little_endian);
        proof {
            let rest = bytes@.skip(pos as int);
            assert(rest.skip(w as int) =~= bytes@.skip(pos + w));
            assert(samples_of(rest, f, little_endian) == seq![s] + samples_of(rest.skip(w as int), f, little_endian));
            assert(out@.push(s) + samples_of(bytes@.skip(pos + w), f, little_endian) =~= out@ + samples_of(
                rest,
                f,
                little_endian,
            ));
        }
        out.push(s);
        pos = pos + w;
    }
    proof {
        assert(samples_of(bytes@.skip(pos as int), f, little_endian) =~= Seq::<i16>::empty());
        assert(out@ + Seq::<i16>::empty() =~= out@);
    }
    out
}

/// The mono stream of a device buffer in a non-float format `f` with
/// `channels` interleaved channels (a count of 0 is taken as 1). A format this
/// client cannot read (64-bit or unknown) gives no samples: silence.
pub fn bytes_to_mono(bytes: &[u8], f: SampleFormat, channels: u16, little_endian: bool) -> (out: Vec<i16>)
    requires
        !is_float_format(f),
    ensures
        out@ == downmixed(samples_of(bytes@, f, little_endian), if channels == 0 { 1 } else { channels as nat }),
        !is_integer_format(f) ==> out@ == Seq::<i16>::empty(),
{
    let samples = decode_samples(bytes, f, little_endian);
    let ch: usize = if channels == 0 {
        1
    } else {
        channels as usize
    };
    downmix(samples.as_slice(), ch)
}

/// `s` divided by 256, rounded down.
pub open spec fn high_byte(s: i16) -> int {
    (s as int + 32768) / 256 - 128
}

/// The two little-endian bytes of `x` modulo 2^16.
pub open spec fn le16(x: int) -> Seq<u8> {
    seq![(x % 256) as u8, ((x / 256) % 256) as u8]
}

/// The four little-endian bytes of `x` modulo 2^32.
pub open spec fn le32(x: int) -> Seq<u8> {
    seq![(x % 256) as u8, ((x / 256) % 256) as u8, ((x / 65536) % 256) as u8, ((x / 16777216) % 256) as u8]
}

/// The integer sample formats of at most 32 bits, which the client reads
/// and writes.
pub open spec fn is_integer_format(f: SampleFormat) -> bool {
    f is I8 || f is U8 || f is I16 || f is U16 || f is I32 || f is U32
}

/// The floating-point sample formats.
pub open spec fn is_float_format(f: SampleFormat) -> bool {
    f is F32 || f is F64
}

/// Whether `f` is an integer format of at most 32 bits.
pub fn is_integer(f: SampleFormat) -> (res: bool)
    ensures
        res == is_integer_format(f),
{
    match f {
        SampleFormat::I8 | SampleFormat::U8 | SampleFormat::I16 | SampleFormat::U16 | SampleFormat::I32
        | SampleFormat::U32 => true,
        _ => false,
    }
}

/// The device bytes of one mono sample in format `f`. Unsigned formats are
/// offset so that silence is the midpoint of their range; wider formats
/// carry the sample in their high bits.
pub open spec fn sample_bytes(f: SampleFormat, s: i16) -> Seq<u8> {
    match f {
        SampleFormat::I8 => seq![(high_byte(s) as i8) as u8],
        SampleFormat::U8 => seq![(high_byte(s) + 128) as u8],
        SampleFormat::I16 => le16((s as u16) as int),
        SampleFormat::U16 => le16(((s as u16) as int + 32768) % 65536),
        SampleFormat::I32 => le32(((s as int * 65536) as u32) as int),
        SampleFormat::U32 => le32((s as int + 32768) * 65536),
        _ => Seq::empty(),
    }
}

/// `b` repeated `n` times.
pub open spec fn repeated(b: Seq<u8>, n: nat) -> Seq<u8>
    decreases n,
{
    if n == 0 {
        Seq::empty()
    } else {
        repeated(b, (n - 1) as nat) + b
    }
}

/// The device bytes of `mono` in format `f` with every sample copied to each
/// of `channels` channels.
pub open spec fn interleaved(mono: Seq<i16>, channels: nat, f: SampleFormat) -> Seq<u8>
    decreases mono.len(),
{
    if mono.len() == 0 {
        Seq::empty()
    } else {
        interleaved(mono.drop_last(), channels, f) + repeated(sample_bytes(f, mono.last()), channels)
    }
}

/// The number of bytes of one sample in format `f`.
pub open spec fn sample_width(f: SampleFormat) -> nat {
    match f {
        SampleFormat::I8 | SampleFormat::U8 => 1,
        SampleFormat::I16 | SampleFormat::U16 => 2,
        SampleFormat::I32 | SampleFormat::U32 => 4,
        _ => 0,
    }
}

proof fn lemma_repeated_len(b: Seq<u8>, n: nat)
    ensures
        repeated(b, n).len() == n * b.len(),
    decreases n,
{
    if n > 0 {
        lemma_repeated_len(b, (n - 1) as nat);
        let m = (n - 1) as nat;
        assert(m * b.len() + b.len() == n * b.len()) by (nonlinear_arith)
            requires m + 1 == n;
        assert(repeated(b, n) == repeated(b, m) + b);
    } else {
        assert(n * b.len() == 0) by (nonlinear_arith)
            requires n == 0;
    }
}

/// The device bytes of a mono stream fill exactly a buffer of
/// samples x channels x sample width bytes.
pub proof fn lemma_interleaved_len(mono: Seq<i16>, channels: nat, f: SampleFormat)
    ensures
        interleaved(mono, channels, f).len() == mono.len() * channels * sample_width(f),
    decreases mono.len(),
{
    if mono.len() > 0 {
        lemma_interleaved_len(mono.drop_last(), channels, f);
        lemma_repeated_len(sample_bytes(f, mono.last()), channels);
        assert(sample_bytes(f, mono.last()).len() == sample_width(f));
        let k = mono.len() - 1;
        let w = sample_width(f);
        assert(k * channels * w + channels * w == mono.len() * channels * w) by (nonlinear_arith)
            requires k == mono.len() - 1;
    }
}

fn push_le16(out: &mut Vec<u8>, x: u16)
    ensures
        final(out)@ == old(out)@ + le16(x as int),
{
    out.push((x % 256) as u8);
    out.push((x / 256) as u8);
}

fn push_le32(out: &mut Vec<u8>, x: u32)
    ensures
        final(out)@ == old(out)@ + le32(x as int),
{
    out.push((x % 256) as u8);
    out.push(((x / 256) % 256) as u8);
    out.push(((x / 65536) % 256) as u8);
    out.push((x / 16777216) as u8);
}

/// Appends the device bytes of one sample (none for a format this client
/// does not write).
fn push_sample(out: &mut Vec<u8>, f: SampleFormat, s: i16)
    ensures
        final(out)@ == old(out)@ + sample_bytes(f, s),
{
    let high: i32 = (s as i32 + 32768) / 256 - 128;
    match f {
        SampleFormat::I8 => {
            out.push((high as i8) as u8);
            assert(out@ =~= old(out)@ + sample_bytes(f, s));
        },
        SampleFormat::U8 => {
            out.push((high + 128) as u8);
            assert(out@ =~= old(out)@ + sample_bytes(f, s));
        },
        SampleFormat::I16 => push_le16(out, s as u16),
        SampleFormat::U16 => push_le16(out, ((s as u16 as u32 + 32768) % 65536) as u16),
        SampleFormat::I32 => push_le32(out, (s as i32 * 65536) as u32),
        SampleFormat::U32 => push_le32(out, (s as i32 + 32768) as u32 * 65536),
        _ => {},
    }
}

/// The device bytes of `mono` in a non-float format `f`, each sample copied
/// to each of `channels` channels; none for a format this client does not
/// write (64-bit or unknown).
pub fn interleave(mono: &[i16], channels: usize, f: SampleFormat) -> (out: Vec<u8>)
    requires
        !is_float_format(f),
    ensures
        out@ == interleaved(mono@, channels as nat, f),
        out@.len() == mono@.len() * channels * sample_width(f),
        !is_integer_format(f) ==> out@.len() == 0,
{
    let mut out: Vec<u8> = Vec::new();
    let mut i: usize = 0;
    assert(mono@.subrange(0, 0) =~= Seq::<i16>::empty());
    while i < mono.len()
        invariant
            i <= mono@.len(),
            out@ == interleaved(mono@.subrange(0, i as int), channels as nat, f),
        decreases mono@.len() - i,
    {
        let s = mono[i];
        let ghost before = out@;
        let mut c: usize = 0;
        while c < channels
            invariant
                c <= channels,
                out@ == before + repeated(sample_bytes(f, s), c as nat),
            decreases channels - c,
        {
            push_sample(&mut out, f, s);
            proof {
                assert(repeated(sample_bytes(f, s), (c + 1) as nat) == repeated(sample_bytes(f, s), c as nat)
                    + sample_bytes(f, s));
                assert(out@ =~= before + repeated(sample_bytes(f, s), (c + 1) as nat));
            }
            c = c + 1;
        }
        proof {
            let taken = mono@.subrange(0, i + 1);
            assert(taken.drop_last() =~= mono@.subrange(0, i as int));
            assert(taken.last() == s);
        }
        i = i + 1;
    }
    assert(mono@.subrange(0, mono@.len() as int) =~= mono@);
    proof {
        lemma_interleaved_len(mono@, channels as nat, f);
        if !is_integer_format(f) {
            assert(mono@.len() * channels * 0 == 0) by (nonlinear_arith);
        }
    }
    out
}

/// What a device buffer of `len` bytes holds after writing `mono` in format
/// `f` with `channels` channels: the interleaved samples followed by the
/// buffer's earlier contents, or all zero (silence) for a format this client
/// does not write.
pub open spec fn filled_buffer(old: Seq<u8>, mono: Seq<i16>, channels: nat, f: SampleFormat) -> Seq<u8> {
    if is_integer_format(f) {
        let written = interleaved(mono, channels, f);
        written + old.skip(written.len() as int)
    } else {
        Seq::new(old.len(), |i: int| 0u8)
    }
}

/// Writes `mono` into a device buffer in a non-float format `f`, each sample
/// copied to each of `channels` channels; a format this client does not
/// write (64-bit or unknown) gets silence over the whole buffer.
pub fn fill_output_buffer(buf: &mut [u8], mono: &[i16], channels: usize, f: SampleFormat)
    requires
        !is_float_format(f),
        mono@.len() * channels * sample_width(f) <= old(buf)@.len(),
    ensures
        final(buf)@ == filled_buffer(old(buf)@, mono@, channels as nat, f),
{
    let n = buf.len();
    if is_integer(f) {
        let out = interleave(mono, channels, f);
        let m = out.len();
        let mut i: usize = 0;
        while i < m
            invariant
                m == out@.len() <= n == buf@.len() == old(buf)@.len(),
                i <= m,
                buf@ == out@.subrange(0, i as int) + old(buf)@.skip(i as int),
            decreases m - i,
        {
            buf[i] = out[i];
            proof {
                assert(buf@ =~= out@.subrange(0, i + 1) + old(buf)@.skip(i + 1));
            }
            i = i + 1;
        }
        assert(out@.subrange(0, m as int) =~= out@);
    } else {
        let mut i: usize = 0;
        while i < n
            invariant
                n == buf@.len(),
                i <= n,
                forall|j: int| 0 <= j < i ==> buf@[j] == 0u8,
            decreases n - i,
        {
            buf[i] = 0;
            i = i + 1;
        }
        assert(buf@ =~= Seq::new(old(buf)@.len(), |i: int| 0u8));
    }
}

/// The whole frames of `n` samples at the front of `all`, in order.
pub open spec fn frames_of(all: Seq<i16>, n: nat) -> Seq<Seq<i16>>
    decreases all.len(),
{
    if n == 0 || all.len() < n {
        Seq::empty()
    } else {
        seq![all.take(n as int)] + frames_of(all.skip(n as int), n)
    }
}

/// What remains of `all` after its whole frames of `n` samples.
pub open spec fn rest_of(all: Seq<i16>, n: nat) -> Seq<i16>
    decreases all.len(),
{
    if n == 0 || all.len() < n {
        all
    } else {
        rest_of(all.skip(n as int), n)
    }
}

/// The sample sequences of a list of frames.
pub open spec fn frame_views(frames: Seq<Vec<i16>>) -> Seq<Seq<i16>> {
    frames.map_values(|f: Vec<i16>| f@)
}

/// Cutting a stream into frames loses, adds and reorders nothing: the frames
/// followed by the rest are the stream, every frame holds `n` samples and the
/// rest is shorter than a frame.
pub proof fn lemma_frames_partition(all: Seq<i16>, n: nat)
    requires
        n > 0,
    ensures
        frames_of(all, n).flatten() + rest_of(all, n) == all,
        forall|k: int| 0 <= k < frames_of(all, n).len() ==> (#[trigger] frames_of(all, n)[k]).len() == n,
        rest_of(all, n).len() < n,
    decreases all.len(),
{
    if all.len() >= n {
        let tail = all.skip(n as int);
        lemma_frames_partition(tail, n);
        let fr = frames_of(all, n);
        assert(fr.first() == all.take(n as int));
        assert(fr.drop_first() =~= frames_of(tail, n));
        assert(all.take(n as int) + tail =~= all);
        assert forall|k: int| 0 <= k < fr.len() implies (#[trigger] fr[k]).len() == n by {
            if k > 0 {
                assert(fr[k] == frames_of(tail, n)[k - 1]);
            }
        }
    } else {
        assert(frames_of(all, n).flatten() =~= Seq::<i16>::empty());
        assert(Seq::<i16>::empty() + all =~= all);
    }
}

/// Cuts a stream of samples, arriving in chunks of any size, into frames of a
/// fixed number of samples.
pub struct PcmFramer {
    buf: Vec<i16>,
    frame_samples: usize,
}

impl View for PcmFramer {
    type V = Seq<i16>;

    /// The samples received but not yet handed out in a frame.
    closed spec fn view(&self) -> Seq<i16> {
        self.buf@
    }
}

impl PcmFramer {
    /// The number of samples in a frame.
    pub closed spec fn frame_len(&self) -> nat {
        self.frame_samples as nat
    }

    /// A framer with nothing pending that cuts frames of `frame_samples`.
    pub fn new(frame_samples: usize) -> (f: PcmFramer)
        requires
            frame_samples > 0,
        ensures
            f@ == Seq::<i16>::empty(),
            f.frame_len() == frame_samples,
    {
        PcmFramer { buf: Vec::new(), frame_samples }
    }

    /// Takes a chunk of samples and hands out every whole frame now pending,
    /// oldest first; the samples left over wait for the next chunk.
    pub fn push(&mut self, chunk: &[i16]) -> (frames: Vec<Vec<i16>>)
        requires
            old(self).frame_len() > 0,
        ensures
            frame_views(frames@) == frames_of(old(self)@ + chunk@, old(self).frame_len()),
            final(self)@ == rest_of(old(self)@ + chunk@, old(self).frame_len()),
            final(self).frame_len() == old(self).frame_len(),
    {
        let n = self.frame_samples;
        let mut all: Vec<i16> = Vec::new();
        let mut i: usize = 0;
        while i < self.buf.len()
            invariant
                i <= self.buf@.len(),
                all@ == self.buf@.subrange(0, i as int),
            decreases self.buf@.len() - i,
        {
            all.push(self.buf[i]);
            i = i + 1;
        }
        let mut j: usize = 0;
        while j < chunk.len()
            invariant
                i == self.buf@.len(),
                j <= chunk@.len(),
                all@ == self.buf@ + chunk@.subrange(0, j as int),
            decreases chunk@.len() - j,
        {
            all.push(chunk[j]);
            j = j + 1;
        }
        assert(all@ =~= old(self)@ + chunk@);
        let ghost whole = all@;
        let total = all.len();
        let mut frames: Vec<Vec<i16>> = Vec::new();
        let mut pos: usize = 0;
        assert(whole.skip(0) =~= whole);
        assert(frame_views(frames@) =~= Seq::<Seq<i16>>::empty());
        while total - pos >= n
            invariant
                n > 0,
                total == whole.len(),
                all@ == whole,
                pos <= total,
                frame_views(frames@) + frames_of(whole.skip(pos as int), n as nat) == frames_of(whole, n as nat),
                rest_of(whole.skip(pos as int), n as nat) == rest_of(whole, n as nat),
            decreases total - pos,
        {
            let mut frame: Vec<i16> = Vec::new();
            let mut k: usize = 0;
            while k < n
                invariant
                    n > 0,
                    total == whole.len(),
                    all@ == whole,
                    pos + n <= total,
                    k <= n,
                    frame@ == whole.subrange(pos as int, pos + k),
                decreases n - k,
            {
                frame.push(all[pos + k]);
                k = k + 1;
            }
            proof {
                let tail = whole.skip(pos as int);
                assert(tail.take(n as int) =~= frame@);
                assert(tail.skip(n as int) =~= whole.skip(pos + n));
                assert(frame_views(frames@.push(frame)) =~= frame_views(frames@).push(frame@));
                assert(frames_of(tail, n as nat) == seq![frame@] + frames_of(whole.skip(pos + n), n as nat));
                assert(frame_views(frames@).push(frame@) + frames_of(whole.skip(pos + n), n as nat) =~= frame_views(
                    frames@,
                ) + frames_of(tail, n as nat));
            }
            frames.push(frame);
            pos = pos + n;
        }
        let mut rest: Vec<i16> = Vec::new();
        let mut r: usize = pos;
        while r < total
            invariant
                total == whole.len(),
                all@ == whole,
                pos <= r <= total,
                rest@ == whole.subrange(pos as int, r as int),
            decreases total - r,
        {
            rest.push(all[r]);
            r = r + 1;
        }
        proof {
            let tail = whole.skip(pos as int);
            assert(rest@ =~= tail);
            assert(frames_of(tail, n as nat) =~= Seq::<Seq<i16>>::empty());
            assert(frame_views(frames@) + Seq::<Seq<i16>>::empty() =~= frame_views(frames@));
        }
        self.buf = rest;
        frames
    }
}

} // verus!
