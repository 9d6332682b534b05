use md5sum::engine::{compute_md5, Md5};

#[test]
fn empty() {
    assert_eq!(
        compute_md5("".as_bytes()).to_hex(),
        "d41d8cd98f00b204e9800998ecf8427e".to_string()
    )
}

#[test]
fn brown_fox() {
    assert_eq!(
        compute_md5("The quick brown fox jumps over the lazy dog".as_bytes()).to_hex(),
        "9e107d9d372bb6826bd81d3542a419d6".to_string()
    )
}

#[test]
fn single_byte() {
    assert_eq!(
        compute_md5("a".as_bytes()).to_hex(),
        "0cc175b9c0f1b6a831c399e269772661".to_string()
    )
}

#[test]
fn abc() {
    assert_eq!(
        compute_md5("abc".as_bytes()).to_hex(),
        "900150983cd24fb0d6963f7d28e17f72".to_string()
    )
}

#[test]
fn digest_bytes_little_endian() {
    let digest = compute_md5("".as_bytes());
    let expected: Vec<u8> = vec![
        0xd4, 0x1d, 0x8c, 0xd9, 0x8f, 0x00, 0xb2, 0x04, 0xe9, 0x80, 0x09, 0x98, 0xec, 0xf8, 0x42,
        0x7e,
    ];
    assert_eq!(digest.as_bytes(), expected.as_slice());
}

#[test]
fn determinism() {
    let input = "determinism check input".as_bytes();
    let first = compute_md5(input);
    let second = compute_md5(input);
    assert_eq!(first.to_hex(), second.to_hex());
    assert_eq!(first.as_bytes(), second.as_bytes());
}

#[test]
fn boundary_55_bytes() {
    let input = vec![b'A'; 55];
    assert_eq!(
        compute_md5(&input).to_hex(),
        "e38a93ffe074a99b3fed47dfbe37db21".to_string()
    )
}

#[test]
fn boundary_56_bytes() {
    let input = vec![b'A'; 56];
    assert_eq!(
        compute_md5(&input).to_hex(),
        "a2f3e2024931bd470555002aa5ccc010".to_string()
    )
}

#[test]
fn boundary_63_bytes() {
    let input = vec![b'A'; 63];
    assert_eq!(
        compute_md5(&input).to_hex(),
        "5f1c4bb2970471a5c75b7ba1dc9ee3ed".to_string()
    )
}

#[test]
fn boundary_64_bytes() {
    let input = vec![b'A'; 64];
    assert_eq!(
        compute_md5(&input).to_hex(),
        "d289a97565bc2d27ac8b8545a5ddba45".to_string()
    )
}

#[test]
fn chunked_reads_match_one_shot() {
    let input: Vec<u8> = (0u32..1000).map(|i| (i % 251) as u8).collect();

    let mut one_byte_at_a_time = Md5::new();
    for byte in &input {
        one_byte_at_a_time.update(std::slice::from_ref(byte));
    }

    let mut block_at_a_time = Md5::new();
    for block in input.chunks(64) {
        block_at_a_time.update(block);
    }

    let mut uneven = Md5::new();
    let mut offset = 0usize;
    let mut step = 1usize;
    while offset < input.len() {
        let end = (offset + step).min(input.len());
        uneven.update(&input[offset..end]);
        offset = end;
        step = step % 17 + 1;
    }

    let reference = compute_md5(&input).to_hex();
    assert_eq!(one_byte_at_a_time.finalize().to_hex(), reference);
    assert_eq!(block_at_a_time.finalize().to_hex(), reference);
    assert_eq!(uneven.finalize().to_hex(), reference);
}

#[test]
fn multi_megabyte_input() {
    let pattern: Vec<u8> = (0u32..256).map(|i| ((i * 31 + 7) % 256) as u8).collect();
    let mut input = Vec::with_capacity(2 * 1024 * 1024);
    for _ in 0..8192 {
        input.extend_from_slice(&pattern);
    }
    assert_eq!(input.len(), 2097152);
    assert_eq!(
        compute_md5(&input).to_hex(),
        "710aed6859964e3a1678bf153dd2c607".to_string()
    )
}

#[test]
fn streaming_empty_updates() {
    let mut engine = Md5::new();
    engine.update("".as_bytes());
    engine.update("".as_bytes());
    assert_eq!(
        engine.finalize().to_hex(),
        "d41d8cd98f00b204e9800998ecf8427e".to_string()
    )
}
