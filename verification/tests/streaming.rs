use xx_renu::{XxHash32, XxHash64};

/// Bytes with no short period, so that a misplaced block shows.
fn pattern(len: usize) -> Vec<u8> {
    let mut bytes = Vec::with_capacity(len);
    let mut state: u32 = 0x1234_5678;
    for _ in 0..len {
        state = state.wrapping_mul(1664525).wrapping_add(1013904223);
        bytes.push((state >> 24) as u8);
    }
    bytes
}

fn in_chunks_64(seed: u64, data: &[u8], size: usize) -> u64 {
    let mut hasher = XxHash64::with_seed(seed);
    for chunk in data.chunks(size) {
        hasher.write(chunk);
    }
    hasher.finish()
}

fn in_chunks_32(seed: u32, data: &[u8], size: usize) -> u32 {
    let mut hasher = XxHash32::with_seed(seed);
    for chunk in data.chunks(size) {
        hasher.write(chunk);
    }
    hasher.finish()
}

#[test]
fn nothing_written_is_the_empty_input() {
    assert_eq!(XxHash64::with_seed(0).finish(), 0xEF46_DB37_51D8_E999);
    assert_eq!(XxHash64::with_seed(77).finish(), XxHash64::oneshot(77, b""));
    assert_eq!(XxHash32::with_seed(0).finish(), 0x02CC_5D05);
    assert_eq!(XxHash32::with_seed(77).finish(), XxHash32::oneshot(77, b""));
}

#[test]
fn one_write_of_everything_is_oneshot() {
    let data = pattern(200);
    for len in 0..=data.len() {
        let mut wide = XxHash64::with_seed(5);
        wide.write(&data[..len]);
        assert_eq!(wide.finish(), XxHash64::oneshot(5, &data[..len]));
        let mut narrow = XxHash32::with_seed(5);
        narrow.write(&data[..len]);
        assert_eq!(narrow.finish(), XxHash32::oneshot(5, &data[..len]));
    }
}

#[test]
fn every_cut_in_two_agrees_with_oneshot_64() {
    let data = pattern(3 * 32 + 5);
    for len in 0..=data.len() {
        let expected = XxHash64::oneshot(9, &data[..len]);
        for cut in 0..=len {
            let mut hasher = XxHash64::with_seed(9);
            hasher.write(&data[..cut]);
            hasher.write(&data[cut..len]);
            assert_eq!(hasher.finish(), expected, "length {len}, cut at {cut}");
        }
    }
}

#[test]
fn every_cut_in_two_agrees_with_oneshot_32() {
    let data = pattern(3 * 16 + 5);
    for len in 0..=data.len() {
        let expected = XxHash32::oneshot(9, &data[..len]);
        for cut in 0..=len {
            let mut hasher = XxHash32::with_seed(9);
            hasher.write(&data[..cut]);
            hasher.write(&data[cut..len]);
            assert_eq!(hasher.finish(), expected, "length {len}, cut at {cut}");
        }
    }
}

#[test]
fn every_chunk_size_agrees_with_oneshot() {
    let data = pattern(300);
    let wide = XxHash64::oneshot(0xDEAD_BEEF, &data);
    let narrow = XxHash32::oneshot(0xDEAD_BEEF, &data);
    for size in 1..=data.len() {
        assert_eq!(in_chunks_64(0xDEAD_BEEF, &data, size), wide, "chunks of {size}");
        assert_eq!(in_chunks_32(0xDEAD_BEEF, &data, size), narrow, "chunks of {size}");
    }
}

#[test]
fn chunks_of_a_known_input_give_the_known_answer() {
    let bytes: Vec<u8> = (0..100).collect();
    for size in [1, 3, 4, 7, 8, 15, 16, 17, 31, 32, 33, 64, 99, 100] {
        assert_eq!(in_chunks_64(0, &bytes, size), 0x6AC1_E580_3216_6597);
        assert_eq!(in_chunks_32(0, &bytes, size), 0x7F89_BA44);
    }
}

#[test]
fn empty_writes_change_nothing() {
    let data = pattern(70);
    let mut wide = XxHash64::with_seed(3);
    let mut narrow = XxHash32::with_seed(3);
    wide.write(&[]);
    narrow.write(&[]);
    for chunk in data.chunks(9) {
        wide.write(chunk);
        wide.write(&[]);
        narrow.write(chunk);
        narrow.write(&[]);
    }
    assert_eq!(wide.finish(), XxHash64::oneshot(3, &data));
    assert_eq!(narrow.finish(), XxHash32::oneshot(3, &data));
}

#[test]
fn finish_twice_gives_the_same_digest() {
    let data = pattern(45);
    let mut wide = XxHash64::with_seed(11);
    let mut narrow = XxHash32::with_seed(11);
    assert_eq!(wide.finish(), wide.finish());
    assert_eq!(narrow.finish(), narrow.finish());
    wide.write(&data);
    narrow.write(&data);
    let first = wide.finish();
    assert_eq!(wide.finish(), first);
    assert_eq!(wide.finish(), first);
    let first = narrow.finish();
    assert_eq!(narrow.finish(), first);
    assert_eq!(narrow.finish(), first);
}

#[test]
fn finish_does_not_end_the_stream() {
    let data = pattern(150);
    for cut in [0, 1, 15, 16, 17, 31, 32, 33, 64, 100, 150] {
        let mut wide = XxHash64::with_seed(21);
        wide.write(&data[..cut]);
        assert_eq!(wide.finish(), XxHash64::oneshot(21, &data[..cut]));
        wide.write(&data[cut..]);
        assert_eq!(wide.finish(), XxHash64::oneshot(21, &data));

        let mut narrow = XxHash32::with_seed(21);
        narrow.write(&data[..cut]);
        assert_eq!(narrow.finish(), XxHash32::oneshot(21, &data[..cut]));
        narrow.write(&data[cut..]);
        assert_eq!(narrow.finish(), XxHash32::oneshot(21, &data));
    }
}

#[test]
fn digest_after_every_byte_is_the_digest_of_the_prefix() {
    let data = pattern(100);
    let mut wide = XxHash64::with_seed(1);
    let mut narrow = XxHash32::with_seed(1);
    for (i, byte) in data.iter().enumerate() {
        wide.write(&[*byte]);
        narrow.write(&[*byte]);
        assert_eq!(wide.finish(), XxHash64::oneshot(1, &data[..=i]));
        assert_eq!(narrow.finish(), XxHash32::oneshot(1, &data[..=i]));
    }
}

#[test]
fn a_clone_goes_its_own_way() {
    let data = pattern(80);
    let mut wide = XxHash64::with_seed(4);
    wide.write(&data[..50]);
    let mut fork = wide.clone();
    assert_eq!(fork.finish(), wide.finish());
    fork.write(&data[50..]);
    assert_eq!(fork.finish(), XxHash64::oneshot(4, &data));
    assert_eq!(wide.finish(), XxHash64::oneshot(4, &data[..50]));

    let mut narrow = XxHash32::with_seed(4);
    narrow.write(&data[..50]);
    let mut fork = narrow.clone();
    fork.write(&data[50..]);
    assert_eq!(fork.finish(), XxHash32::oneshot(4, &data));
    assert_eq!(narrow.finish(), XxHash32::oneshot(4, &data[..50]));
}

#[test]
fn seed_and_length_are_kept() {
    let mut wide = XxHash64::with_seed(0x0123_4567_89AB_CDEF);
    assert_eq!(wide.seed(), 0x0123_4567_89AB_CDEF);
    assert_eq!(wide.total_len(), 0);
    wide.write(&[0; 40]);
    wide.write(&[0; 2]);
    assert_eq!(wide.seed(), 0x0123_4567_89AB_CDEF);
    assert_eq!(wide.total_len(), 42);

    let mut narrow = XxHash32::with_seed(0x89AB_CDEF);
    assert_eq!(narrow.seed(), 0x89AB_CDEF);
    assert_eq!(narrow.total_len(), 0);
    narrow.write(&[0; 40]);
    narrow.write(&[0; 2]);
    assert_eq!(narrow.seed(), 0x89AB_CDEF);
    assert_eq!(narrow.total_len(), 42);
}

#[test]
fn oneshot_is_a_function_of_seed_and_bytes() {
    let data = pattern(90);
    let copy = data.clone();
    assert_eq!(XxHash64::oneshot(6, &data), XxHash64::oneshot(6, &copy));
    assert_eq!(XxHash32::oneshot(6, &data), XxHash32::oneshot(6, &copy));
    let shifted = &pattern(91)[..90];
    assert_eq!(XxHash64::oneshot(6, &data), XxHash64::oneshot(6, shifted));
    assert_eq!(XxHash32::oneshot(6, &data), XxHash32::oneshot(6, shifted));
}

#[test]
fn different_seeds_give_different_digests() {
    let data = pattern(57);
    let mut wide = Vec::new();
    let mut narrow = Vec::new();
    for seed in 0..1000u32 {
        wide.push(XxHash64::oneshot(seed as u64, &data));
        narrow.push(XxHash32::oneshot(seed, &data));
    }
    wide.sort();
    wide.dedup();
    narrow.sort();
    narrow.dedup();
    assert_eq!(wide.len(), 1000);
    assert_eq!(narrow.len(), 1000);
}

#[test]
fn every_byte_of_the_input_counts() {
    let data = pattern(75);
    let wide = XxHash64::oneshot(0, &data);
    let narrow = XxHash32::oneshot(0, &data);
    for i in 0..data.len() {
        let mut changed = data.clone();
        changed[i] ^= 0x01;
        assert_ne!(XxHash64::oneshot(0, &changed), wide, "byte {i}");
        assert_ne!(XxHash32::oneshot(0, &changed), narrow, "byte {i}");
    }
}
