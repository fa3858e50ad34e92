use xsz::scale::{fmt_u64, pad_left, pad_right, parse_u64, unit, Scale};

#[test]
fn bytes_scale_small() {
    assert_eq!(Scale::Bytes.scale(0), "0");
    assert_eq!(Scale::Bytes.scale(7), "7");
    assert_eq!(Scale::Bytes.scale(4096), "4096");
}

#[test]
fn bytes_scale_large() {
    assert_eq!(Scale::Bytes.scale(u64::MAX), "18446744073709551615");
    assert_eq!(Scale::Bytes.scale(100146085502), "100146085502");
}

#[test]
fn parse_roundtrip_small() {
    for n in [0u64, 1, 9, 10, 99, 100, 1023, 1024, 4096, 123456789] {
        let s = fmt_u64(n);
        assert_eq!(parse_u64(&s), Some(n));
    }
}

#[test]
fn parse_roundtrip_max() {
    let s = fmt_u64(u64::MAX);
    assert_eq!(parse_u64(&s), Some(u64::MAX));
}

#[test]
fn parse_roundtrip_through_string() {
    let s = Scale::Bytes.scale(8675309);
    assert_eq!(parse_u64(s.as_bytes()), Some(8675309));
}

#[test]
fn parse_rejects_empty() {
    assert_eq!(parse_u64(b""), None);
}

#[test]
fn parse_rejects_non_digits() {
    assert_eq!(parse_u64(b"12a4"), None);
    assert_eq!(parse_u64(b"-1"), None);
    assert_eq!(parse_u64(b" 1"), None);
}

#[test]
fn parse_rejects_overflow() {
    // one past u64::MAX
    assert_eq!(parse_u64(b"18446744073709551616"), None);
    assert_eq!(parse_u64(b"99999999999999999999999"), None);
}

#[test]
fn parse_accepts_leading_zeros() {
    assert_eq!(parse_u64(b"0042"), Some(42));
}

#[test]
fn human_scale_below_unit() {
    // up to four digits right-aligned, then the unit letter
    assert_eq!(Scale::Human.scale(0), "   0B");
    assert_eq!(Scale::Human.scale(1023), "1023B");
}

#[test]
fn human_scale_fraction() {
    // 4096 bytes: " 4.0K" exactly as compsize prints it
    assert_eq!(Scale::Human.scale(4096), " 4.0K");
    assert_eq!(Scale::Human.scale(8192), " 8.0K");
    assert_eq!(Scale::Human.scale(1536), " 1.5K");
}

#[test]
fn human_scale_reduction() {
    // 10241 is just past ten units: one reduction, then 10 < 1024
    assert_eq!(Scale::Human.scale(10241), "  10K");
    // a full mebibyte reduces once and prints with a decimal place
    assert_eq!(Scale::Human.scale(1024 * 1024), " 1.0M");
    assert_eq!(Scale::Human.scale(5 * 1024 * 1024 * 1024), " 5.0G");
}

#[test]
fn human_scale_huge() {
    // the whole u64 range ends in the exbi unit
    assert_eq!(Scale::Human.scale(u64::MAX), "  15E");
}

#[test]
fn human_matches_reference_loop() {
    // cross-check against an independent shift-based computation
    const UNITS: &[u8; 7] = b"BKMGTPE";
    for n in [
        0u64,
        1,
        1023,
        1024,
        10240,
        10241,
        65536,
        123456789,
        987654321012345,
        u64::MAX,
    ] {
        let expected = {
            let base = 1024;
            let mut num = n;
            let mut cnt = 0;
            while num > base * 10 {
                num >>= 10;
                cnt += 1;
            }
            if num < base {
                format!("{:>4}{}", num, UNITS[cnt] as char)
            } else {
                format!(" {}.{}{}", num >> 10, num * 10 / 1024 % 10, UNITS[cnt + 1] as char)
            }
        };
        assert_eq!(Scale::Human.scale(n), expected, "value {}", n);
    }
}

#[test]
fn unit_letters() {
    assert_eq!(unit(0), b'B');
    assert_eq!(unit(1), b'K');
    assert_eq!(unit(2), b'M');
    assert_eq!(unit(3), b'G');
    assert_eq!(unit(4), b'T');
    assert_eq!(unit(5), b'P');
    assert_eq!(unit(6), b'E');
}

#[test]
fn padding() {
    assert_eq!(pad_left(vec![b'a', b'b'], 4), b"  ab".to_vec());
    assert_eq!(pad_right(vec![b'a', b'b'], 4), b"ab  ".to_vec());
    assert_eq!(pad_left(vec![b'a', b'b', b'c'], 2), b"abc".to_vec());
    assert_eq!(pad_right(vec![b'a', b'b', b'c'], 2), b"abc".to_vec());
}
