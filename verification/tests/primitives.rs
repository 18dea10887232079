use xx_renu::le::{read_u32_le, read_u64_le};
use xx_renu::xxhash32;
use xx_renu::xxhash64;

#[test]
fn little_endian_words_are_read_low_byte_first() {
    let bytes = [0x01, 0x02, 0x03, 0x04, 0x05, 0x06, 0x07, 0x08, 0x09];
    assert_eq!(read_u32_le(&bytes, 0), 0x0403_0201);
    assert_eq!(read_u32_le(&bytes, 5), 0x0908_0706);
    assert_eq!(read_u64_le(&bytes, 0), 0x0807_0605_0403_0201);
    assert_eq!(read_u64_le(&bytes, 1), 0x0908_0706_0504_0302);
    assert_eq!(read_u32_le(&[0xFF, 0, 0, 0x80], 0), 0x8000_00FF);
}

#[test]
fn rotation_wraps_the_high_bits_around() {
    assert_eq!(xxhash64::engine::rotate_left(0x8000_0000_0000_0001, 1), 0x0000_0000_0000_0003);
    assert_eq!(xxhash64::engine::rotate_left(0x0123_4567_89AB_CDEF, 31), 0xC4D5E6F78091A2B3);
    assert_eq!(xxhash32::engine::rotate_left(0x8000_0001, 1), 0x0000_0003);
    assert_eq!(xxhash32::engine::rotate_left(0x0123_4567, 13), 0x68ACE024);
}

#[test]
fn round_64_matches_its_formula() {
    assert_eq!(xxhash64::engine::round(0, 0), 0);
    assert_eq!(xxhash64::engine::round(0, 1), 0x7F0E345BE3649CD2);
    assert_eq!(xxhash64::engine::round(0x0123_4567_89AB_CDEF, 0xFEDC_BA98_7654_3210), 0x9E9FA3BEA5C7BCD2);
}

#[test]
fn round_32_matches_its_formula() {
    assert_eq!(xxhash32::engine::round(0, 0), 0);
    assert_eq!(xxhash32::engine::round(0, 1), 0x8DF8C7AD);
    assert_eq!(xxhash32::engine::round(0x0123_4567, 0x89AB_CDEF), 0xDFD5F5FC);
}

#[test]
fn merge_round_matches_its_formula() {
    assert_eq!(xxhash64::engine::merge_round(0, 0), 0x85EBCA77C2B2AE63);
    assert_eq!(xxhash64::engine::merge_round(0x0123_4567_89AB_CDEF, 0xFEDC_BA98_7654_3210), 0xB9F0D6953977F322);
}

#[test]
fn avalanche_matches_its_formula() {
    assert_eq!(xxhash64::engine::avalanche(0), 0);
    assert_eq!(xxhash64::engine::avalanche(1), 0x283A72A5B9AB93D3);
    assert_eq!(xxhash64::engine::avalanche(xxhash64::spec::PRIME64_5), 0xEF46_DB37_51D8_E999);
    assert_eq!(xxhash32::engine::avalanche(0), 0);
    assert_eq!(xxhash32::engine::avalanche(1), 0x606D18A8);
    assert_eq!(xxhash32::engine::avalanche(xxhash32::spec::PRIME32_5), 0x02CC_5D05);
}

#[test]
fn tail_folds_match_their_formulas() {
    assert_eq!(xxhash64::engine::fold_u64(1, 2), 0x23A7DE8FF0E80C42);
    assert_eq!(xxhash64::engine::fold_u32(1, 2), 0x0B07F4FE142AAB50);
    assert_eq!(xxhash64::engine::fold_byte(1, 2), 0x32C5A3EE2CB959EB);
    assert_eq!(xxhash64::engine::fold_u32(0xFFFF_FFFF_FFFF_FFFF, 0xFFFF_FFFF), 0xA5E7440B8CBF8452);
    assert_eq!(xxhash64::engine::fold_byte(0xFFFF_FFFF_FFFF_FFFF, 0xFF), 0xF23140CB699463A1);
    assert_eq!(xxhash32::engine::fold_u32(1, 2), 0x718A6916);
    assert_eq!(xxhash32::engine::fold_byte(1, 2), 0xD4D04BD5);
    assert_eq!(xxhash32::engine::fold_byte(0xFFFF_FFFF, 0xFF), 0x4B5AD200);
}

#[test]
fn lanes_start_from_the_seed() {
    let lanes = xxhash64::spec::Lanes::new(0);
    assert_eq!((lanes.v1, lanes.v2, lanes.v3, lanes.v4), (0x60EA27EEADC0B5D6, 0xC2B2AE3D27D4EB4F, 0x0000000000000000, 0x61C8864E7A143579));
    let lanes = xxhash64::spec::Lanes::new(u64::MAX);
    assert_eq!((lanes.v1, lanes.v2, lanes.v3, lanes.v4), (0x60EA27EEADC0B5D5, 0xC2B2AE3D27D4EB4E, 0xFFFFFFFFFFFFFFFF, 0x61C8864E7A143578));
    let lanes = xxhash32::spec::Lanes::new(0);
    assert_eq!((lanes.v1, lanes.v2, lanes.v3, lanes.v4), (0x24234428, 0x85EBCA77, 0x00000000, 0x61C8864F));
    let lanes = xxhash32::spec::Lanes::new(u32::MAX);
    assert_eq!((lanes.v1, lanes.v2, lanes.v3, lanes.v4), (0x24234427, 0x85EBCA76, 0xFFFFFFFF, 0x61C8864E));
}

#[test]
fn lanes_take_blocks_in_order() {
    let data: Vec<u8> = (1..=100).collect();
    let one = xxhash64::spec::Lanes::new(7).write(&data, 3);
    assert_eq!((one.v1, one.v2, one.v3, one.v4), (0x0C9F54B9068CC4F1, 0x18C77F6F65E48BB9, 0x201AF4260EC2BB97, 0x8D707DD174064CE6));
    let (all, consumed) = xxhash64::spec::Lanes::new(7).write_many(&data);
    assert_eq!(consumed, 96);
    assert_eq!((all.v1, all.v2, all.v3, all.v4), (0xC3F86D015C0D0A33, 0x1D8EB995EC9CAEDF, 0xE6CC20B37786E568, 0xDE99E6F98E02549B));
    assert_eq!(all.finish(), 0xD547C1263B99E681);
    let (none, consumed) = xxhash64::spec::Lanes::new(7).write_many(&data[..31]);
    assert_eq!(consumed, 0);
    assert_eq!(none, xxhash64::spec::Lanes::new(7));

    let one = xxhash32::spec::Lanes::new(7).write(&data, 3);
    assert_eq!((one.v1, one.v2, one.v3, one.v4), (0x81512D32, 0xFDEE4851, 0xD07C975A, 0xDA874C2A));
    let (all, consumed) = xxhash32::spec::Lanes::new(7).write_many(&data);
    assert_eq!(consumed, 96);
    assert_eq!((all.v1, all.v2, all.v3, all.v4), (0x8B8ED768, 0x7CBD0741, 0x2ACA071F, 0x81213F46));
    assert_eq!(all.finish(), 0x132D46BF);
    let (none, consumed) = xxhash32::spec::Lanes::new(7).write_many(&data[..15]);
    assert_eq!(consumed, 0);
    assert_eq!(none, xxhash32::spec::Lanes::new(7));
}

#[test]
fn tail_is_folded_in_groups_of_decreasing_size() {
    let data: Vec<u8> = (1..=100).collect();
    assert_eq!(xxhash64::engine::write_tail(5, &[]), 5);
    assert_eq!(xxhash32::engine::write_tail(5, &[]), 5);
    assert_eq!(xxhash64::engine::write_tail(5, &data[..1]), 0x415C9219CC9793B2);
    assert_eq!(xxhash64::engine::write_tail(5, &data[..3]), 0xDE675A635FF395AB);
    assert_eq!(xxhash64::engine::write_tail(5, &data[..4]), 0xE6EEE07EF2B844CB);
    assert_eq!(xxhash64::engine::write_tail(5, &data[..7]), 0x76A900663296FC5F);
    assert_eq!(xxhash64::engine::write_tail(5, &data[..8]), 0x24DBB41D0046FA07);
    assert_eq!(xxhash64::engine::write_tail(5, &data[..11]), 0x52B3E905DB4D8079);
    assert_eq!(xxhash64::engine::write_tail(5, &data[..12]), 0x506E6A5A39D051A1);
    assert_eq!(xxhash64::engine::write_tail(5, &data[..15]), 0x449B2B8BA44D6AF2);
    assert_eq!(xxhash64::engine::write_tail(5, &data[..16]), 0x4DAE215D0A65231B);
    assert_eq!(xxhash64::engine::write_tail(5, &data[..23]), 0xEC278D12C2F640D2);
    assert_eq!(xxhash64::engine::write_tail(5, &data[..31]), 0x14BC9C444E3802A7);
    assert_eq!(xxhash32::engine::write_tail(5, &data[..1]), 0xE8694D12);
    assert_eq!(xxhash32::engine::write_tail(5, &data[..3]), 0x26DED46B);
    assert_eq!(xxhash32::engine::write_tail(5, &data[..4]), 0xC769C0B4);
    assert_eq!(xxhash32::engine::write_tail(5, &data[..7]), 0x206E4F8E);
    assert_eq!(xxhash32::engine::write_tail(5, &data[..8]), 0xE57EE281);
    assert_eq!(xxhash32::engine::write_tail(5, &data[..15]), 0x16737D52);
}

#[test]
fn finish_with_picks_the_path_by_the_large_flag() {
    let lanes = xxhash64::spec::Lanes { v1: 1, v2: 2, v3: 3, v4: 4 };
    assert_eq!(xxhash64::engine::finish_with(9, 40, true, &lanes, &[1, 2, 3]), 0xC070078E993DBC15);
    assert_eq!(xxhash64::engine::finish_with(9, 3, false, &lanes, &[1, 2, 3]), 0x927A2A668FE2C44D);
    assert_eq!(xxhash64::engine::finish_with(9, u64::MAX, false, &lanes, &[]), 0xA9BD756BAC813797);
    let lanes = xxhash32::spec::Lanes { v1: 1, v2: 2, v3: 3, v4: 4 };
    assert_eq!(xxhash32::engine::finish_with(9, 40, true, &lanes, &[1, 2, 3]), 0x139B4899);
    assert_eq!(xxhash32::engine::finish_with(9, 3, false, &lanes, &[1, 2, 3]), 0xE79B3E82);
    assert_eq!(xxhash32::engine::finish_with(9, 0x1_0000_0003, false, &lanes, &[1, 2, 3]), 0xE79B3E82);
}
