use tonemate::decimal::{parse_u16, push_decimal};

fn decimal(n: u64) -> String {
    let mut out = Vec::new();
    push_decimal(&mut out, n);
    out.into_iter().collect()
}

#[test]
fn numbers_are_written_as_display_writes_them() {
    for n in [0u64, 7, 10, 99, 100, 4096, 461_860_800, u64::MAX] {
        assert_eq!(decimal(n), n.to_string());
    }
}

#[test]
fn digits_are_appended_after_what_is_there() {
    let mut out = vec!['x', '='];
    push_decimal(&mut out, 42);
    assert_eq!(out, vec!['x', '=', '4', '2']);
}

#[test]
fn port_numbers_are_read_as_from_str_reads_them() {
    for text in ["0", "8931", "65535", "65536", "", "+", "+1", "-1", "1 ", " 1", "00080", "12a", "99999999999"] {
        assert_eq!(parse_u16(text), text.parse::<u16>().ok(), "{text:?}");
    }
}

