//! The on-disk format of decoded audio kept between editor sessions.
//!
//! An entry is a 32-byte little-endian header — the magic `MIKANPCM`, the
//! format version `1`, the sample rate (`u32`), the channel count (`u16`), a
//! reserved `u16`, the sample count (`u64`) and the waveform peak count
//! (`u32`) — followed by the interleaved samples and then the waveform
//! peaks, each an `f32` stored as its little-endian bit pattern. Samples and
//! peaks are handled here as those `u32` bit patterns.

use vstd::prelude::*;

verus! {

/// A decoded cache entry; samples and peaks are `f32` bit patterns.
#[derive(Clone, Debug, PartialEq, Eq)]
pub struct CachedPcm {
    pub sample_rate: u32,
    pub channels: u16,
    pub samples: Vec<u32>,
    pub waveform: Vec<u32>,
}

/// Why bytes are not a usable cache entry (or an entry cannot be written).
#[derive(Clone, Copy, Debug, PartialEq, Eq, Structural)]
pub enum CacheError {
    /// The bytes end inside the header.
    Truncated,
    InvalidMagic,
    UnsupportedVersion,
    /// Zero sample rate or channels, or samples not a whole number of frames.
    InvalidFormat,
    SizeOverflow,
    LengthMismatch,
    SampleCountTooLarge,
    WaveformCountTooLarge,
    NonFiniteValue,
    /// The entry was decoded for another sample rate or channel count than
    /// the key it was looked up by.
    KeyMismatch,
}

/// The format version this code reads and writes.
pub open spec fn cache_version() -> int {
    1
}

/// The length of the header.
pub open spec fn header_len() -> int {
    32
}

/// The magic bytes `MIKANPCM`.
pub open spec fn magic() -> Seq<u8> {
    seq![0x4du8, 0x49u8, 0x4bu8, 0x41u8, 0x4eu8, 0x50u8, 0x43u8, 0x4du8]
}

/// `256^n`.
pub open spec fn pow256(n: nat) -> int
    decreases n,
{
    if n == 0 {
        1
    } else {
        256 * pow256((n - 1) as nat)
    }
}

/// The little-endian bytes of the low `n` bytes of `x`.
pub open spec fn le_bytes(x: int, n: nat) -> Seq<u8>
    decreases n,
{
    if n == 0 {
        Seq::empty()
    } else {
        seq![(x % 256) as u8] + le_bytes(x / 256, (n - 1) as nat)
    }
}

/// The little-endian number held by the `n` bytes of `b` from `at`.
pub open spec fn le_value(b: Seq<u8>, at: int, n: nat) -> int
    decreases n,
{
    if n == 0 {
        0
    } else {
        b[at] + 256 * le_value(b, at + 1, (n - 1) as nat)
    }
}

/// The bytes of a sequence of 32-bit words, each little-endian.
pub open spec fn words_bytes(words: Seq<u32>) -> Seq<u8> {
    Seq::new(4 * words.len(), |j: int| le_bytes(words[j / 4] as int, 4)[j % 4])
}

/// The `count` little-endian 32-bit words of `b` from `at`.
pub open spec fn words_at(b: Seq<u8>, at: int, count: int) -> Seq<u32> {
    Seq::new(count as nat, |i: int| le_value(b, at + 4 * i, 4) as u32)
}

/// Whether the `f32` with bit pattern `bits` is finite (its exponent is not
/// all ones).
pub open spec fn finite_bits(bits: u32) -> bool {
    (bits / 0x80_0000) % 0x100 != 0xff
}

/// The header of an entry.
pub open spec fn header_bytes(
    sample_rate: u32,
    channels: u16,
    sample_count: int,
    waveform_count: int,
) -> Seq<u8> {
    magic() + le_bytes(1, 4) + le_bytes(sample_rate as int, 4) + le_bytes(channels as int, 2)
        + le_bytes(0, 2) + le_bytes(sample_count, 8) + le_bytes(waveform_count, 4)
}

/// The bytes of an entry.
pub open spec fn entry_bytes(
    sample_rate: u32,
    channels: u16,
    samples: Seq<u32>,
    waveform: Seq<u32>,
) -> Seq<u8> {
    header_bytes(sample_rate, channels, samples.len() as int, waveform.len() as int)
        + words_bytes(samples) + words_bytes(waveform)
}

/// What encoding an entry yields: its bytes, unless there are more peaks
/// than a `u32` counts.
pub open spec fn spec_encode(
    sample_rate: u32,
    channels: u16,
    samples: Seq<u32>,
    waveform: Seq<u32>,
) -> Result<Seq<u8>, CacheError> {
    if waveform.len() > u32::MAX {
        Err(CacheError::WaveformCountTooLarge)
    } else {
        Ok(entry_bytes(sample_rate, channels, samples, waveform))
    }
}

/// What decoding `b` yields, checking in the order the header is read.
pub open spec fn spec_decode(b: Seq<u8>) -> Result<(u32, u16, Seq<u32>, Seq<u32>), CacheError> {
    if b.len() < 8 {
        Err(CacheError::Truncated)
    } else if b.take(8) != magic() {
        Err(CacheError::InvalidMagic)
    } else if b.len() < 12 {
        Err(CacheError::Truncated)
    } else if le_value(b, 8, 4) != cache_version() {
        Err(CacheError::UnsupportedVersion)
    } else if b.len() < header_len() {
        Err(CacheError::Truncated)
    } else {
        let sample_rate = le_value(b, 12, 4);
        let channels = le_value(b, 16, 2);
        let sample_count = le_value(b, 20, 8);
        let waveform_count = le_value(b, 28, 4);
        let values = sample_count + waveform_count;
        if sample_rate == 0 || channels == 0 || sample_count % channels != 0 {
            Err(CacheError::InvalidFormat)
        } else if values > u64::MAX || values * 4 > u64::MAX || header_len() + values * 4
            > u64::MAX {
            Err(CacheError::SizeOverflow)
        } else if b.len() != header_len() + values * 4 {
            Err(CacheError::LengthMismatch)
        } else if sample_count > usize::MAX {
            Err(CacheError::SampleCountTooLarge)
        } else if waveform_count > usize::MAX {
            Err(CacheError::WaveformCountTooLarge)
        } else {
            let samples = words_at(b, header_len(), sample_count);
            let waveform = words_at(b, header_len() + 4 * sample_count, waveform_count);
            if exists|i: int| 0 <= i < samples.len() && !finite_bits(#[trigger] samples[i]) {
                Err(CacheError::NonFiniteValue)
            } else if exists|i: int|
                0 <= i < waveform.len() && !finite_bits(#[trigger] waveform[i]) {
                Err(CacheError::NonFiniteValue)
            } else {
                Ok((sample_rate as u32, channels as u16, samples, waveform))
            }
        }
    }
}

/// The decoded form of an entry as the tuple [`spec_decode`] yields.
pub open spec fn pcm_tuple(pcm: CachedPcm) -> (u32, u16, Seq<u32>, Seq<u32>) {
    (pcm.sample_rate, pcm.channels, pcm.samples@, pcm.waveform@)
}

/// Appends the low `n` bytes of `x`, little-endian.
fn push_le(out: &mut Vec<u8>, x: u64, n: usize)
    ensures
        final(out)@ == old(out)@ + le_bytes(x as int, n as nat),
{
    let ghost start = out@;
    let mut rest = x;
    let mut i: usize = 0;
    while i < n
        invariant
            i <= n,
            start + le_bytes(x as int, n as nat) == out@ + le_bytes(rest as int, (n - i) as nat),
        decreases n - i,
    {
        let ghost before = out@;
        assert(le_bytes(rest as int, (n - i) as nat) == seq![(rest % 256) as u8] + le_bytes(
            rest as int / 256,
            (n - i - 1) as nat,
        ));
        out.push((rest % 256) as u8);
        assert(before + (seq![(rest % 256) as u8] + le_bytes(rest as int / 256, (n - i - 1) as nat))
            == out@ + le_bytes(rest as int / 256, (n - i - 1) as nat));
        rest = rest / 256;
        i = i + 1;
    }
    assert(le_bytes(rest as int, 0) == Seq::<u8>::empty());
    assert(out@ + Seq::<u8>::empty() == out@);
}

/// `words_bytes` of one more word appends that word's bytes.
proof fn lemma_words_bytes_push(words: Seq<u32>, i: int)
    requires
        0 <= i < words.len(),
    ensures
        words_bytes(words.take(i + 1)) == words_bytes(words.take(i)) + le_bytes(
            words[i] as int,
            4,
        ),
{
    let a = words_bytes(words.take(i + 1));
    let b = words_bytes(words.take(i)) + le_bytes(words[i] as int, 4);
    assert(le_bytes(words[i] as int, 4).len() == 4) by {
        reveal_with_fuel(le_bytes, 5);
    }
    assert forall|j: int| 0 <= j < a.len() implies a[j] == b[j] by {
        if j < 4 * i {
            assert(j / 4 < i) by (nonlinear_arith)
                requires
                    0 <= j < 4 * i,
            ;
            assert(j / 4 >= 0) by (nonlinear_arith)
                requires
                    0 <= j,
            ;
        } else {
            assert(j / 4 == i && j % 4 == j - 4 * i) by (nonlinear_arith)
                requires
                    4 * i <= j < 4 * i + 4,
            ;
        }
    }
    assert(a =~= b);
}

/// Appends the bytes of `words`.
fn push_words(out: &mut Vec<u8>, words: &Vec<u32>)
    ensures
        final(out)@ == old(out)@ + words_bytes(words@),
{
    let ghost start = out@;
    let n = words.len();
    let mut i: usize = 0;
    while i < n
        invariant
            i <= n == words@.len(),
            out@ == start + words_bytes(words@.take(i as int)),
        decreases n - i,
    {
        proof {
            lemma_words_bytes_push(words@, i as int);
        }
        push_le(out, words[i] as u64, 4);
        i = i + 1;
    }
    assert(words@.take(n as int) == words@);
}

/// The bytes of a cache entry (see [`spec_encode`]).
pub fn encode(pcm: &CachedPcm) -> (r: Result<Vec<u8>, CacheError>)
    ensures
        match spec_encode(pcm.sample_rate, pcm.channels, pcm.samples@, pcm.waveform@) {
            Ok(bytes) => r matches Ok(v) && v@ == bytes,
            Err(e) => r == Err::<Vec<u8>, CacheError>(e),
        },
{
    if pcm.waveform.len() > u32::MAX as usize {
        return Err(CacheError::WaveformCountTooLarge);
    }
    let mut out: Vec<u8> = Vec::new();
    out.push(0x4d);
    out.push(0x49);
    out.push(0x4b);
    out.push(0x41);
    out.push(0x4e);
    out.push(0x50);
    out.push(0x43);
    out.push(0x4d);
    assert(out@ == magic());
    push_le(&mut out, 1, 4);
    push_le(&mut out, pcm.sample_rate as u64, 4);
    push_le(&mut out, pcm.channels as u64, 2);
    push_le(&mut out, 0, 2);
    push_le(&mut out, pcm.samples.len() as u64, 8);
    push_le(&mut out, pcm.waveform.len() as u64, 4);
    push_words(&mut out, &pcm.samples);
    push_words(&mut out, &pcm.waveform);
    Ok(out)
}

/// The little-endian `u16` at `at`.
pub fn read_u16(bytes: &[u8], at: usize) -> (v: u16)
    requires
        at + 2 <= bytes@.len(),
    ensures
        v == le_value(bytes@, at as int, 2),
{
    let v = bytes[at] as u16 + 256 * bytes[at + 1] as u16;
    assert(v == le_value(bytes@, at as int, 2)) by {
        reveal_with_fuel(le_value, 3);
    }
    v
}

/// The little-endian `u32` at `at`.
pub fn read_u32(bytes: &[u8], at: usize) -> (v: u32)
    requires
        at + 4 <= bytes@.len(),
    ensures
        v == le_value(bytes@, at as int, 4),
{
    let v = bytes[at] as u32 + 0x100 * bytes[at + 1] as u32 + 0x1_0000 * bytes[at + 2] as u32
        + 0x100_0000 * bytes[at + 3] as u32;
    assert(v == le_value(bytes@, at as int, 4)) by {
        reveal_with_fuel(le_value, 5);
    }
    v
}

/// The little-endian `u64` at `at`.
pub fn read_u64(bytes: &[u8], at: usize) -> (v: u64)
    requires
        at + 8 <= bytes@.len(),
    ensures
        v == le_value(bytes@, at as int, 8),
{
    let _len = bytes.len();
    let low = read_u32(bytes, at) as u64;
    let high = read_u32(bytes, at + 4) as u64;
    let v = low + 0x1_0000_0000 * high;
    proof {
        lemma_le_value_split(bytes@, at as int, 4, 4);
        reveal_with_fuel(pow256, 5);
    }
    v
}

/// A number's little-endian bytes split into a low and a high part.
proof fn lemma_le_value_split(b: Seq<u8>, at: int, n: nat, m: nat)
    ensures
        le_value(b, at, n + m) == le_value(b, at, n) + pow256(n) * le_value(b, at + n, m),
    decreases n,
{
    if n > 0 {
        lemma_le_value_split(b, at + 1, (n - 1) as nat, m);
        assert(le_value(b, at, n + m) == b[at] + 256 * le_value(b, at + 1, (n - 1 + m) as nat));
        assert(256 * (pow256((n - 1) as nat) * le_value(b, at + n, m)) == pow256(n) * le_value(
            b,
            at + n,
            m,
        )) by (nonlinear_arith)
            requires
                pow256(n) == 256 * pow256((n - 1) as nat),
        ;
    }
}

/// Whether the bit pattern is that of a finite `f32`.
fn is_finite_bits(bits: u32) -> (b: bool)
    ensures
        b == finite_bits(bits),
{
    (bits / 0x80_0000) % 0x100 != 0xff
}

/// The `count` words of `bytes` from `at`, or `NonFiniteValue` as soon as
/// one is not a finite `f32`.
fn read_words(bytes: &[u8], at: usize, count: usize) -> (r: Result<Vec<u32>, CacheError>)
    requires
        at + 4 * count <= bytes@.len(),
    ensures
        match r {
            Ok(words) => words@ == words_at(bytes@, at as int, count as int) && forall|i: int|
                0 <= i < count ==> finite_bits(#[trigger] words@[i]),
            Err(e) => e == CacheError::NonFiniteValue && exists|i: int|
                0 <= i < count && !finite_bits(
                    #[trigger] words_at(bytes@, at as int, count as int)[i],
                ),
        },
{
    let ghost expected = words_at(bytes@, at as int, count as int);
    let len = bytes.len();
    let mut words: Vec<u32> = Vec::new();
    let mut i: usize = 0;
    while i < count
        invariant
            i <= count,
            at + 4 * count <= bytes@.len(),
            len == bytes@.len(),
            expected == words_at(bytes@, at as int, count as int),
            words@ == expected.take(i as int),
            forall|k: int| 0 <= k < i ==> finite_bits(#[trigger] words@[k]),
        decreases count - i,
    {
        let word = read_u32(bytes, at + 4 * i);
        assert(word == expected[i as int]);
        if !is_finite_bits(word) {
            return Err(CacheError::NonFiniteValue);
        }
        words.push(word);
        i = i + 1;
    }
    assert(expected.take(count as int) == expected);
    Ok(words)
}

/// Decodes a cache entry (see [`spec_decode`]).
pub fn decode(bytes: &[u8]) -> (r: Result<CachedPcm, CacheError>)
    ensures
        match spec_decode(bytes@) {
            Ok(t) => r matches Ok(pcm) && pcm_tuple(pcm) == t,
            Err(e) => r == Err::<CachedPcm, CacheError>(e),
        },
{
    let len = bytes.len();
    if len < 8 {
        return Err(CacheError::Truncated);
    }
    if bytes[0] != 0x4d || bytes[1] != 0x49 || bytes[2] != 0x4b || bytes[3] != 0x41 || bytes[4]
        != 0x4e || bytes[5] != 0x50 || bytes[6] != 0x43 || bytes[7] != 0x4d {
        assert(bytes@.take(8) != magic()) by {
            if bytes@.take(8) == magic() {
                assert(bytes@.take(8)[0] == bytes@[0]);
                assert(bytes@.take(8)[1] == bytes@[1]);
                assert(bytes@.take(8)[2] == bytes@[2]);
                assert(bytes@.take(8)[3] == bytes@[3]);
                assert(bytes@.take(8)[4] == bytes@[4]);
                assert(bytes@.take(8)[5] == bytes@[5]);
                assert(bytes@.take(8)[6] == bytes@[6]);
                assert(bytes@.take(8)[7] == bytes@[7]);
            }
        }
        return Err(CacheError::InvalidMagic);
    }
    assert(bytes@.take(8) =~= magic());
    if len < 12 {
        return Err(CacheError::Truncated);
    }
    if read_u32(bytes, 8) != 1 {
        return Err(CacheError::UnsupportedVersion);
    }
    if len < 32 {
        return Err(CacheError::Truncated);
    }
    let sample_rate = read_u32(bytes, 12);
    let channels = read_u16(bytes, 16);
    let sample_count = read_u64(bytes, 20);
    let waveform_count = read_u32(bytes, 28);
    if sample_rate == 0 || channels == 0 || sample_count % channels as u64 != 0 {
        return Err(CacheError::InvalidFormat);
    }
    let values = match sample_count.checked_add(waveform_count as u64) {
        Some(v) => v,
        None => return Err(CacheError::SizeOverflow),
    };
    let value_bytes = match values.checked_mul(4) {
        Some(v) => v,
        None => return Err(CacheError::SizeOverflow),
    };
    let expected_len = match value_bytes.checked_add(32) {
        Some(v) => v,
        None => return Err(CacheError::SizeOverflow),
    };
    if len as u64 != expected_len {
        return Err(CacheError::LengthMismatch);
    }
    if sample_count > usize::MAX as u64 {
        return Err(CacheError::SampleCountTooLarge);
    }
    let sample_count = sample_count as usize;
    let waveform_count = waveform_count as usize;
    let samples = read_words(bytes, 32, sample_count)?;
    let waveform = read_words(bytes, 32 + 4 * sample_count, waveform_count)?;
    Ok(CachedPcm { sample_rate, channels, samples, waveform })
}

/// `le_bytes` yields exactly `n` bytes.
proof fn lemma_le_bytes_len(x: int, n: nat)
    ensures
        le_bytes(x, n).len() == n,
    decreases n,
{
    if n > 0 {
        lemma_le_bytes_len(x / 256, (n - 1) as nat);
    }
}

/// Reading back the little-endian bytes of `x` gives `x`.
proof fn lemma_le_value_of_bytes(b: Seq<u8>, at: int, x: int, n: nat)
    requires
        0 <= x < pow256(n),
        0 <= at,
        at + n <= b.len(),
        forall|k: int| 0 <= k < n ==> b[at + k] == #[trigger] le_bytes(x, n)[k],
    ensures
        le_value(b, at, n) == x,
    decreases n,
{
    if n > 0 {
        lemma_le_bytes_len(x / 256, (n - 1) as nat);
        let rest = le_bytes(x / 256, (n - 1) as nat);
        assert(le_bytes(x, n) == seq![(x % 256) as u8] + rest);
        assert(b[at] == le_bytes(x, n)[0]);
        assert forall|k: int| 0 <= k < n - 1 implies b[at + 1 + k] == #[trigger] rest[k] by {
            assert(b[at + (k + 1)] == le_bytes(x, n)[k + 1]);
        }
        assert(0 <= x / 256 < pow256((n - 1) as nat)) by (nonlinear_arith)
            requires
                0 <= x < pow256(n),
                pow256(n) == 256 * pow256((n - 1) as nat),
        ;
        lemma_le_value_of_bytes(b, at + 1, x / 256, (n - 1) as nat);
    }
}

/// The bytes of `words` hold word `i` at `4 * i`.
proof fn lemma_words_bytes_at(words: Seq<u32>, i: int, k: int)
    requires
        0 <= i < words.len(),
        0 <= k < 4,
    ensures
        words_bytes(words)[4 * i + k] == le_bytes(words[i] as int, 4)[k],
{
    assert((4 * i + k) / 4 == i && (4 * i + k) % 4 == k) by (nonlinear_arith)
        requires
            0 <= k < 4,
    ;
}

/// The words of an entry read back as the words that were written.
proof fn lemma_words_read_back(b: Seq<u8>, at: int, words: Seq<u32>)
    requires
        0 <= at,
        at + 4 * words.len() <= b.len(),
        forall|j: int| 0 <= j < 4 * words.len() ==> b[at + j] == #[trigger] words_bytes(words)[j],
    ensures
        words_at(b, at, words.len() as int) == words,
{
    assert forall|i: int| 0 <= i < words.len() implies #[trigger] words_at(
        b,
        at,
        words.len() as int,
    )[i] == words[i] by {
        assert forall|k: int| 0 <= k < 4 implies b[(at + 4 * i) + k] == #[trigger] le_bytes(
            words[i] as int,
            4,
        )[k] by {
            lemma_words_bytes_at(words, i, k);
            assert(b[at + (4 * i + k)] == words_bytes(words)[4 * i + k]);
        }
        reveal_with_fuel(pow256, 5);
        lemma_le_value_of_bytes(b, at + 4 * i, words[i] as int, 4);
    }
    assert(words_at(b, at, words.len() as int) =~= words);
}

/// Decodes the entry stored under the key `(sample_rate, channels)`; an
/// entry of another format is refused.
pub fn decode_for_key(bytes: &[u8], sample_rate: u32, channels: u16) -> (r: Result<
    CachedPcm,
    CacheError,
>)
    ensures
        match spec_decode(bytes@) {
            Ok(t) => if t.0 != sample_rate || t.1 != channels {
                r == Err::<CachedPcm, CacheError>(CacheError::KeyMismatch)
            } else {
                r matches Ok(pcm) && pcm_tuple(pcm) == t
            },
            Err(e) => r == Err::<CachedPcm, CacheError>(e),
        },
{
    let pcm = decode(bytes)?;
    if pcm.sample_rate != sample_rate || pcm.channels != channels {
        return Err(CacheError::KeyMismatch);
    }
    Ok(pcm)
}

/// Decoding the bytes of a well-formed entry gives the entry back: a cache
/// read returns what the cache write stored.
pub proof fn law_decode_encoded(pcm: CachedPcm)
    requires
        pcm.sample_rate != 0,
        pcm.channels != 0,
        (pcm.samples@.len() as int) % (pcm.channels as int) == 0,
        pcm.samples@.len() <= usize::MAX,
        pcm.waveform@.len() <= u32::MAX,
        header_len() + 4 * (pcm.samples@.len() + pcm.waveform@.len()) <= u64::MAX,
        forall|i: int| 0 <= i < pcm.samples@.len() ==> finite_bits(#[trigger] pcm.samples@[i]),
        forall|i: int| 0 <= i < pcm.waveform@.len() ==> finite_bits(#[trigger] pcm.waveform@[i]),
    ensures
        spec_encode(pcm.sample_rate, pcm.channels, pcm.samples@, pcm.waveform@) is Ok,
        spec_decode(
            spec_encode(pcm.sample_rate, pcm.channels, pcm.samples@, pcm.waveform@)->Ok_0,
        ) == Ok::<(u32, u16, Seq<u32>, Seq<u32>), CacheError>(pcm_tuple(pcm)),
{
    let samples = pcm.samples@;
    let waveform = pcm.waveform@;
    let sc = samples.len() as int;
    let wc = waveform.len() as int;
    let b = entry_bytes(pcm.sample_rate, pcm.channels, samples, waveform);
    let h = header_bytes(pcm.sample_rate, pcm.channels, sc, wc);
    lemma_le_bytes_len(1, 4);
    lemma_le_bytes_len(pcm.sample_rate as int, 4);
    lemma_le_bytes_len(pcm.channels as int, 2);
    lemma_le_bytes_len(0, 2);
    lemma_le_bytes_len(sc, 8);
    lemma_le_bytes_len(wc, 4);
    assert(h.len() == 32);
    let ws = words_bytes(samples);
    let ww = words_bytes(waveform);
    assert(b == h + ws + ww);
    assert(b.len() == 32 + 4 * sc + 4 * wc);
    reveal_with_fuel(pow256, 9);
    // The header fields.
    assert(b.take(8) =~= magic());
    assert forall|k: int| 0 <= k < 4 implies b[8 + k] == #[trigger] le_bytes(1, 4)[k] by {
        assert(b[8 + k] == h[8 + k]);
    }
    lemma_le_value_of_bytes(b, 8, 1, 4);
    assert forall|k: int| 0 <= k < 4 implies b[12 + k] == #[trigger] le_bytes(
        pcm.sample_rate as int,
        4,
    )[k] by {
        assert(b[12 + k] == h[12 + k]);
    }
    lemma_le_value_of_bytes(b, 12, pcm.sample_rate as int, 4);
    assert forall|k: int| 0 <= k < 2 implies b[16 + k] == #[trigger] le_bytes(
        pcm.channels as int,
        2,
    )[k] by {
        assert(b[16 + k] == h[16 + k]);
    }
    lemma_le_value_of_bytes(b, 16, pcm.channels as int, 2);
    assert forall|k: int| 0 <= k < 8 implies b[20 + k] == #[trigger] le_bytes(sc, 8)[k] by {
        assert(b[20 + k] == h[20 + k]);
    }
    lemma_le_value_of_bytes(b, 20, sc, 8);
    assert forall|k: int| 0 <= k < 4 implies b[28 + k] == #[trigger] le_bytes(wc, 4)[k] by {
        assert(b[28 + k] == h[28 + k]);
    }
    lemma_le_value_of_bytes(b, 28, wc, 4);
    // The samples and the peaks.
    assert forall|j: int| 0 <= j < 4 * sc implies b[32 + j] == #[trigger] ws[j] by {
        assert(b[32 + j] == (h + ws)[32 + j]);
    }
    lemma_words_read_back(b, 32, samples);
    assert forall|j: int| 0 <= j < 4 * wc implies b[32 + 4 * sc + j] == #[trigger] ww[j] by {}
    lemma_words_read_back(b, 32 + 4 * sc, waveform);
    assert(le_value(b, 8, 4) == cache_version());
    assert(b.len() >= header_len());
    assert(le_value(b, 20, 8) % le_value(b, 16, 2) == 0);
    assert(b.len() == header_len() + (le_value(b, 20, 8) + le_value(b, 28, 4)) * 4);
    assert(!(exists|i: int| 0 <= i < samples.len() && !finite_bits(#[trigger] samples[i])));
    assert(!(exists|i: int| 0 <= i < waveform.len() && !finite_bits(#[trigger] waveform[i])));
    assert(words_at(b, header_len(), le_value(b, 20, 8)) == samples);
    assert(words_at(b, header_len() + 4 * le_value(b, 20, 8), le_value(b, 28, 4)) == waveform);
}

} // verus!
