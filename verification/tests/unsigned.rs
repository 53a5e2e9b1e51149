use snmp_message::message::var_bind::{encode_uint32, encode_uint64};

/// Reads integer content octets back as a two's complement number.
fn read_signed(bytes: &[u8]) -> i128 {
    let mut v: i128 = if bytes[0] & 0x80 != 0 { -1 } else { 0 };
    for &b in bytes {
        v = (v << 8) | b as i128;
    }
    v
}

#[test]
fn uint32_exact_encodings() {
    assert_eq!(encode_uint32(0), vec![0x00]);
    assert_eq!(encode_uint32(1), vec![0x01]);
    assert_eq!(encode_uint32(127), vec![0x7f]);
    assert_eq!(encode_uint32(128), vec![0x00, 0x80]);
    assert_eq!(encode_uint32(255), vec![0x00, 0xff]);
    assert_eq!(encode_uint32(256), vec![0x01, 0x00]);
    assert_eq!(encode_uint32(0x7fff), vec![0x7f, 0xff]);
    assert_eq!(encode_uint32(0x8000), vec![0x00, 0x80, 0x00]);
    assert_eq!(encode_uint32(0x0100_0000), vec![0x01, 0x00, 0x00, 0x00]);
    assert_eq!(encode_uint32(u32::MAX), vec![0x00, 0xff, 0xff, 0xff, 0xff]);
}

#[test]
fn uint64_exact_encodings() {
    assert_eq!(encode_uint64(0), vec![0x00]);
    assert_eq!(encode_uint64(0x80), vec![0x00, 0x80]);
    assert_eq!(encode_uint64(0x1_0000_0000), vec![0x01, 0x00, 0x00, 0x00, 0x00]);
    assert_eq!(encode_uint64(0x7fff_ffff_ffff_ffff), vec![0x7f, 0xff, 0xff, 0xff, 0xff, 0xff, 0xff, 0xff]);
    assert_eq!(
        encode_uint64(u64::MAX),
        vec![0x00, 0xff, 0xff, 0xff, 0xff, 0xff, 0xff, 0xff, 0xff]
    );
}

#[test]
fn encodings_read_back_and_are_minimal() {
    let samples: [u64; 12] = [
        0, 1, 0x7f, 0x80, 0xff, 0x100, 0xffff, 0x12345, 0x8000_0000, 0xffff_ffff,
        0x0080_0000_0000_0000, u64::MAX,
    ];
    for v in samples {
        let e = encode_uint64(v);
        assert_eq!(read_signed(&e), v as i128);
        assert!(e[0] < 0x80);
        if e.len() > 1 {
            assert!(!(e[0] == 0 && e[1] < 0x80));
        }
    }
}

#[test]
fn uint32_and_uint64_encodings_agree() {
    for v in [0u32, 5, 0x80, 0xffff, 0x80_0000, 0xdead_beef, u32::MAX] {
        assert_eq!(encode_uint32(v), encode_uint64(v as u64));
    }
}
