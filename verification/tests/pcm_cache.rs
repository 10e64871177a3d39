use celesta::pcm_cache::{decode, decode_for_key, encode, read_u16, read_u32, read_u64, CacheError, CachedPcm};

fn entry() -> CachedPcm {
    CachedPcm {
        sample_rate: 48_000,
        channels: 2,
        samples: [0.25f32, -0.25, 0.5, -0.5].iter().map(|s| s.to_bits()).collect(),
        waveform: [0.25f32, 0.5].iter().map(|s| s.to_bits()).collect(),
    }
}

#[test]
fn round_trips_cached_audio() {
    let bytes = encode(&entry()).unwrap();
    assert_eq!(bytes.len(), 32 + 4 * 6);
    assert_eq!(&bytes[..8], b"MIKANPCM");
    assert_eq!(decode(&bytes), Ok(entry()));
}

#[test]
fn rejects_truncated_cache_entries() {
    assert_eq!(decode(b"MIKANPCM"), Err(CacheError::Truncated));
    assert_eq!(decode(b"MIKAN"), Err(CacheError::Truncated));
    let bytes = encode(&entry()).unwrap();
    assert_eq!(decode(&bytes[..31]), Err(CacheError::Truncated));
    assert_eq!(decode(&bytes[..40]), Err(CacheError::LengthMismatch));
}

#[test]
fn rejects_corrupted_headers_and_values() {
    let bytes = encode(&entry()).unwrap();
    let mut bad_magic = bytes.clone();
    bad_magic[0] = b'X';
    assert_eq!(decode(&bad_magic), Err(CacheError::InvalidMagic));
    let mut bad_version = bytes.clone();
    bad_version[8] = 2;
    assert_eq!(decode(&bad_version), Err(CacheError::UnsupportedVersion));
    let mut no_channels = bytes.clone();
    no_channels[16] = 0;
    assert_eq!(decode(&no_channels), Err(CacheError::InvalidFormat));
    let mut odd_samples = bytes.clone();
    odd_samples[20] = 3;
    assert_eq!(decode(&odd_samples), Err(CacheError::InvalidFormat));
    let mut huge = bytes.clone();
    huge[27] = 0xff;
    assert_eq!(decode(&huge), Err(CacheError::SizeOverflow));
    let mut not_finite = bytes.clone();
    not_finite[32..36].copy_from_slice(&f32::NAN.to_bits().to_le_bytes());
    assert_eq!(decode(&not_finite), Err(CacheError::NonFiniteValue));
    let mut infinite_peak = bytes;
    infinite_peak[52..56].copy_from_slice(&f32::INFINITY.to_bits().to_le_bytes());
    assert_eq!(decode(&infinite_peak), Err(CacheError::NonFiniteValue));
}

#[test]
fn reads_little_endian_integers() {
    let bytes = [1u8, 2, 3, 4, 5, 6, 7, 8, 9];
    assert_eq!(read_u16(&bytes, 0), 0x0201);
    assert_eq!(read_u32(&bytes, 1), 0x0504_0302);
    assert_eq!(read_u64(&bytes, 1), 0x0908_0706_0504_0302);
}

#[test]
fn cache_entries_are_only_read_back_under_their_key() {
    let bytes = encode(&entry()).unwrap();
    assert_eq!(decode_for_key(&bytes, 48_000, 2), Ok(entry()));
    assert_eq!(decode_for_key(&bytes, 44_100, 2), Err(CacheError::KeyMismatch));
    assert_eq!(decode_for_key(&bytes, 48_000, 1), Err(CacheError::KeyMismatch));
    assert_eq!(decode_for_key(&bytes[..31], 48_000, 2), Err(CacheError::Truncated));
}
