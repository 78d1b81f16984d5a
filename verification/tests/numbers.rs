use rawspeed::loop_xform::numbers::{parse_usize, usize_to_dec, IntErrorKind};

#[test]
fn decimal_text() {
    assert_eq!(usize_to_dec(0), "0");
    assert_eq!(usize_to_dec(7), "7");
    assert_eq!(usize_to_dec(1024), "1024");
    assert_eq!(usize_to_dec(usize::MAX), usize::MAX.to_string());
}

#[test]
fn decimal_parsing_as_std() {
    for s in ["", "+", "-1", "12a", "0", "+17", "007", "18446744073709551615", "18446744073709551616", "99999999999999999999x"] {
        let ours = parse_usize(&s.to_owned());
        let std = s.parse::<usize>();
        match (ours, std) {
            (Ok(a), Ok(b)) => assert_eq!(a, b),
            (Err(k), Err(e)) => {
                let expected = match e.kind() {
                    std::num::IntErrorKind::Empty => IntErrorKind::Empty,
                    std::num::IntErrorKind::InvalidDigit => IntErrorKind::InvalidDigit,
                    std::num::IntErrorKind::PosOverflow => IntErrorKind::PosOverflow,
                    _ => unreachable!(),
                };
                assert_eq!(k, expected, "{s}");
            }
            (a, b) => panic!("{s}: {a:?} vs {b:?}"),
        }
    }
}
