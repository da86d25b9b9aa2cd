use parser::codecs::numbers::{
    bytes_to_hex, i64_from_bits, i64_to_bits, i64_to_string, parse_i64, parse_u64, push_be,
    read_be, u64_to_string, NumberFault,
};

fn chars(text: &str) -> Vec<char> {
    text.chars().collect()
}

const SAMPLES: [&str; 34] = [
    "",
    "0",
    "7",
    "007",
    "42424242",
    "+5",
    "+",
    "-",
    "-1",
    "-0",
    "+-1",
    "--1",
    "1+",
    " 1",
    "1 ",
    "1_000",
    "asdf",
    "12a",
    "9223372036854775807",
    "9223372036854775808",
    "-9223372036854775808",
    "-9223372036854775809",
    "18446744073709551615",
    "18446744073709551616",
    "+18446744073709551615",
    "99999999999999999999999",
    "99999999999999999999999x",
    "1844674407370955162x",
    "-99999999999999999999999",
    "-99999999999999999999999x",
    "00000000000000000000000000000001",
    "١٢٣",
    "1e5",
    "0x10",
];

#[test]
fn parse_u64_agrees_with_std() {
    for sample in SAMPLES {
        let ours = parse_u64(&chars(sample));
        let theirs = sample.parse::<u64>();
        match (ours, theirs) {
            (Ok(a), Ok(b)) => assert_eq!(a, b, "value of {:?}", sample),
            (Err(fault), Err(e)) => {
                assert_eq!(fault.to_string(), format!("{}", e), "fault of {:?}", sample)
            }
            (ours, theirs) => panic!("{:?}: {:?} against {:?}", sample, ours, theirs),
        }
    }
}

#[test]
fn parse_i64_agrees_with_std() {
    for sample in SAMPLES {
        let ours = parse_i64(&chars(sample));
        let theirs = sample.parse::<i64>();
        match (ours, theirs) {
            (Ok(a), Ok(b)) => assert_eq!(a, b, "value of {:?}", sample),
            (Err(fault), Err(e)) => {
                assert_eq!(fault.to_string(), format!("{}", e), "fault of {:?}", sample)
            }
            (ours, theirs) => panic!("{:?}: {:?} against {:?}", sample, ours, theirs),
        }
    }
}

#[test]
fn parse_faults_are_told_apart() {
    assert_eq!(parse_u64(&chars("")), Err(NumberFault::Empty));
    assert_eq!(parse_u64(&chars("-1")), Err(NumberFault::InvalidDigit));
    assert_eq!(
        parse_u64(&chars("18446744073709551616")),
        Err(NumberFault::PosOverflow)
    );
    assert_eq!(
        parse_i64(&chars("-9223372036854775809")),
        Err(NumberFault::NegOverflow)
    );
    assert_eq!(parse_i64(&chars("-9223372036854775808")), Ok(i64::MIN));
    assert_eq!(parse_u64(&chars("18446744073709551615")), Ok(u64::MAX));
}

#[test]
fn decimal_forms_agree_with_std() {
    for n in [0u64, 1, 9, 10, 11, 99, 100, 1_700_000, u64::MAX - 1, u64::MAX] {
        assert_eq!(u64_to_string(n), format!("{}", n));
    }
    for n in [0i64, 1, -1, 9, -9, 10, -10, -500, i64::MAX, i64::MIN, i64::MIN + 1] {
        assert_eq!(i64_to_string(n), format!("{}", n));
    }
}

#[test]
fn decimal_round_trip_on_values() {
    for n in [0u64, 5, 10, 1234567890, u64::MAX] {
        assert_eq!(parse_u64(&chars(&u64_to_string(n))), Ok(n));
    }
    for n in [0i64, -1, 77, i64::MIN, i64::MAX] {
        assert_eq!(parse_i64(&chars(&i64_to_string(n))), Ok(n));
    }
}

#[test]
fn hex_is_upper_case_two_digits_per_byte() {
    assert_eq!(bytes_to_hex(&[]), "");
    assert_eq!(bytes_to_hex(b"NOPE"), "4E4F5045");
    assert_eq!(bytes_to_hex(&[0x00, 0x0a, 0xff, 0x9c]), "000AFF9C");
}

#[test]
fn big_endian_agrees_with_std() {
    for v in [0u64, 1, 255, 256, 0x0102030405060708, u64::MAX] {
        let mut out = vec![0xEEu8];
        push_be(&mut out, v, 8);
        assert_eq!(&out[1..], &v.to_be_bytes());
        assert_eq!(out[0], 0xEE);
        assert_eq!(read_be(&out, 1, 8), v);
    }
    for v in [0u32, 53, 0x01020304, u32::MAX] {
        let mut out = Vec::new();
        push_be(&mut out, v as u64, 4);
        assert_eq!(out, v.to_be_bytes().to_vec());
        assert_eq!(read_be(&out, 0, 4), v as u64);
    }
    let mut out = Vec::new();
    push_be(&mut out, 0x0102030405060708, 4);
    assert_eq!(out, vec![5, 6, 7, 8]);
    assert_eq!(read_be(&[9, 9], 1, 0), 0);
}

#[test]
fn twos_complement_agrees_with_std() {
    for v in [0i64, 1, -1, -500, i64::MIN, i64::MAX] {
        assert_eq!(i64_to_bits(v), v as u64);
        assert_eq!(i64_from_bits(v as u64), v);
    }
    assert_eq!(i64_to_bits(-500), 0xFFFF_FFFF_FFFF_FE0C);
}
