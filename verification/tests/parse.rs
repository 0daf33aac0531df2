use inet_aton::inet_aton;

/// A straightforward strict dotted-decimal parser: exactly four groups of
/// one to three digits, no leading zeros, each at most 255; the packed
/// result holds the first group in the least-significant byte.
fn reference_parse(s: &[u8]) -> Option<u32> {
    let t = std::str::from_utf8(s).ok()?;
    let parts: Vec<&str> = t.split('.').collect();
    if parts.len() != 4 {
        return None;
    }
    let mut bytes = [0u8; 4];
    for (i, p) in parts.iter().enumerate() {
        if p.is_empty() || p.len() > 3 {
            return None;
        }
        if !p.bytes().all(|b| b.is_ascii_digit()) {
            return None;
        }
        if p.len() > 1 && p.starts_with('0') {
            return None;
        }
        let v: u32 = p.parse().ok()?;
        if v > 255 {
            return None;
        }
        bytes[i] = v as u8;
    }
    Some(u32::from_le_bytes(bytes))
}

#[test]
fn simple_quad_layout() {
    // byte layout: (1, 2, 3, 4) from least- to most-significant byte
    assert_eq!(inet_aton(b"1.2.3.4"), Some(0x0403_0201));
}

#[test]
fn all_octets_max() {
    assert_eq!(inet_aton(b"255.255.255.255"), Some(0xFFFF_FFFF));
}

#[test]
fn all_zero() {
    assert_eq!(inet_aton(b"0.0.0.0"), Some(0));
}

#[test]
fn first_group_over_255() {
    assert_eq!(inet_aton(b"256.0.0.1"), None);
}

#[test]
fn inner_leading_zero() {
    assert_eq!(inet_aton(b"192.168.01.1"), None);
}

#[test]
fn empty_input() {
    assert_eq!(inet_aton(b""), None);
}

#[test]
fn five_groups() {
    assert_eq!(inet_aton(b"1.2.3.4.5"), None);
}

#[test]
fn too_long_rejected() {
    assert_eq!(inet_aton(b"255.255.255.2555"), None);
    assert_eq!(inet_aton(b"1.2.3.4aaaaaaaaa"), None);
    assert_eq!(inet_aton(b"111.222.111.2220"), None);
}

#[test]
fn wrong_shapes_rejected() {
    assert_eq!(inet_aton(b"1.2.3"), None);
    assert_eq!(inet_aton(b"1..2.3"), None);
    assert_eq!(inet_aton(b"1.2.3."), None);
    assert_eq!(inet_aton(b".1.2.3"), None);
    assert_eq!(inet_aton(b"1234.1.1.1"), None);
    assert_eq!(inet_aton(b"12345678"), None);
    assert_eq!(inet_aton(b"..."), None);
    assert_eq!(inet_aton(b"1.2.3.4 "), None);
}

#[test]
fn hash_collision_shapes_rejected() {
    // inputs whose separator bitmaps collide with a valid shape's hash
    // slot: the descriptor check must still reject them
    assert_eq!(inet_aton(b"1.234.56."), None);
    assert_eq!(inet_aton(b"12.345.67."), None);
}

#[test]
fn non_digit_bytes_rejected() {
    assert_eq!(inet_aton(b"a.b.c.d"), None);
    assert_eq!(inet_aton(b"1.2.3.x"), None);
    assert_eq!(inet_aton(b"1.2.3.+4"), None);
    assert_eq!(inet_aton(b"1.2.3.4\n"), None);
    assert_eq!(inet_aton(b"1.2 .3.4"), None);
    assert_eq!(inet_aton(b"1.2.3.-4"), None);
}

#[test]
fn leading_zero_each_group() {
    assert_eq!(inet_aton(b"01.1.1.1"), None);
    assert_eq!(inet_aton(b"1.01.1.1"), None);
    assert_eq!(inet_aton(b"1.1.01.1"), None);
    assert_eq!(inet_aton(b"1.1.1.01"), None);
    assert_eq!(inet_aton(b"012.1.1.1"), None);
    assert_eq!(inet_aton(b"1.1.1.001"), None);
    // a single zero digit is a valid group
    assert_eq!(inet_aton(b"0.1.1.1"), Some(0x0101_0100));
    assert_eq!(inet_aton(b"1.0.1.1"), Some(0x0101_0001));
    assert_eq!(inet_aton(b"1.1.1.0"), Some(0x0001_0101));
}

#[test]
fn overflow_each_group() {
    assert_eq!(inet_aton(b"300.1.1.1"), None);
    assert_eq!(inet_aton(b"1.300.1.1"), None);
    assert_eq!(inet_aton(b"1.1.300.1"), None);
    assert_eq!(inet_aton(b"1.1.1.300"), None);
    assert_eq!(inet_aton(b"999.999.999.999"), None);
    assert_eq!(inet_aton(b"1.1.1.256"), None);
    assert_eq!(inet_aton(b"255.1.1.1"), Some(0x0101_01FF));
}

#[test]
fn agrees_with_reference_on_valid_quads() {
    let octets = [0u32, 1, 5, 9, 10, 42, 99, 100, 101, 178, 199, 200, 249, 250, 255];
    for &a in &octets {
        for &b in &octets {
            for &c in &octets {
                for &d in &octets {
                    let text = format!("{}.{}.{}.{}", a, b, c, d);
                    let expect = a | b << 8 | c << 16 | d << 24;
                    assert_eq!(inet_aton(text.as_bytes()), Some(expect), "{}", text);
                    assert_eq!(reference_parse(text.as_bytes()), Some(expect), "{}", text);
                }
            }
        }
    }
}

#[test]
fn agrees_with_reference_on_mixed_inputs() {
    let cases: &[&str] = &[
        "1.2.3.4", "01.2.3.4", "1.02.3.4", "256.1.1.1", "25.6.1.1", "0.0.0.0", "00.0.0.0",
        "255.255.255.255", "255.255.255.256", "1.2.3", "1.2.3.4.5", "", ".", "..", "...",
        "1...2", "1.2.3.", ".1.2.3", "10.20.30.40", "100.200.100.200", "9.99.999.9",
        "1.234.56.", "123.45678.9.", "12.34.56.78", "192.168.0.1", "127.0.0.1",
    ];
    for case in cases {
        assert_eq!(
            inet_aton(case.as_bytes()),
            reference_parse(case.as_bytes()),
            "{}",
            case
        );
    }
}

#[test]
fn format_and_reparse_round_trip() {
    let values = [
        0u32,
        1,
        0xFF,
        0x0100,
        0x0102_0304,
        0x7F00_0001,
        0xC0A8_0001,
        0xDEAD_BEEF,
        0xFFFF_FFFF,
        0x0A00_000A,
        0x0101_0101,
    ];
    for &v in &values {
        let text = format!(
            "{}.{}.{}.{}",
            v & 0xFF,
            v >> 8 & 0xFF,
            v >> 16 & 0xFF,
            v >> 24
        );
        assert_eq!(inet_aton(text.as_bytes()), Some(v), "{}", text);
    }
}

#[test]
fn every_group_length_combination() {
    // one literal per combination of group lengths 1..=3
    let pick = |l: u32| -> u32 {
        match l {
            1 => 7,
            2 => 42,
            _ => 250,
        }
    };
    for a in 1..=3u32 {
        for b in 1..=3u32 {
            for c in 1..=3u32 {
                for d in 1..=3u32 {
                    let (ga, gb, gc, gd) = (pick(a), pick(b), pick(c), pick(d));
                    let text = format!("{}.{}.{}.{}", ga, gb, gc, gd);
                    let expect = ga | gb << 8 | gc << 16 | gd << 24;
                    assert_eq!(inet_aton(text.as_bytes()), Some(expect), "{}", text);
                }
            }
        }
    }
}
