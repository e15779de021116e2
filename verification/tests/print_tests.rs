use mcu_os::print::{put_char, put_count, put_decimal, put_printable, put_string, Printable};
use mcu_os::syscall::{delay, exec, exit, put_byte, set_leds, SystemCall};

fn decimal(d: i32) -> String {
    let mut out = Vec::new();
    put_decimal(d, &mut out);
    String::from_utf8(out).unwrap()
}

#[test]
fn decimal_of_single_digits() {
    assert_eq!(decimal(0), "0");
    assert_eq!(decimal(7), "7");
    assert_eq!(decimal(9), "9");
}

#[test]
fn decimal_keeps_inner_and_trailing_zeros() {
    assert_eq!(decimal(10), "10");
    assert_eq!(decimal(100), "100");
    assert_eq!(decimal(1234), "1234");
    assert_eq!(decimal(1002003), "1002003");
    assert_eq!(decimal(120), "120");
}

#[test]
fn decimal_of_negative_numbers() {
    assert_eq!(decimal(-1), "-1");
    assert_eq!(decimal(-10), "-10");
    assert_eq!(decimal(-4096), "-4096");
}

#[test]
fn decimal_of_the_extremes() {
    assert_eq!(decimal(i32::MAX), "2147483647");
    assert_eq!(decimal(i32::MIN + 1), "-2147483647");
    assert_eq!(decimal(i32::MIN), "-2147483648");
}

#[test]
fn decimal_agrees_with_the_standard_library() {
    let mut d: i32 = 1;
    for _ in 0..200 {
        assert_eq!(decimal(d), d.to_string());
        assert_eq!(decimal(-d), (-d).to_string());
        d = d.wrapping_mul(37).wrapping_add(11) & 0x7fff_ffff;
    }
}

#[test]
fn count_is_printed_in_full() {
    for n in [0u64, 5, 10, 99, 100, 18446744073709551615] {
        let mut out = Vec::new();
        put_count(n, &mut out);
        assert_eq!(String::from_utf8(out).unwrap(), n.to_string());
    }
}

#[test]
fn printing_appends() {
    let mut out = b">".to_vec();
    put_char(b'a', &mut out);
    put_string(b"bc", &mut out);
    put_decimal(-5, &mut out);
    put_string(b"", &mut out);
    assert_eq!(out, b">abc-5".to_vec());
}

#[test]
fn each_printable_prints_itself() {
    let mut out = Vec::new();
    put_printable(&b"bytes"[..], &mut out);
    put_printable(" ", &mut out);
    put_printable("text", &mut out);
    put_printable(b' ', &mut out);
    put_printable(-42i32, &mut out);
    assert_eq!(out, b"bytes text -42".to_vec());
    let mut out = Vec::new();
    "caf\u{e9}".print(&mut out);
    65u8.print(&mut out);
    assert_eq!(out, vec![b'c', b'a', b'f', 0xc3, 0xa9, b'A']);
}

#[test]
fn requests_carry_their_number_and_argument() {
    assert_eq!(delay(250), SystemCall { number: 1, argument: 250 });
    assert_eq!(set_leds(0b010), SystemCall { number: 2, argument: 2 });
    assert_eq!(exec(0x0801_fc04), SystemCall { number: 3, argument: 0x0801_fc04 });
    assert_eq!(exit(1), SystemCall { number: 4, argument: 1 });
    assert_eq!(put_byte(b'x'), SystemCall { number: 5, argument: 120 });
    assert_eq!(put_byte(255), SystemCall { number: 5, argument: 255 });
}

#[test]
fn lights_named_are_on_and_the_others_off() {
    let bits = |colors: &[u8]| mcu_os::sys_call::set_leds(colors);
    assert_eq!(bits(b""), SystemCall { number: 2, argument: 0b111000 });
    assert_eq!(bits(b"r"), SystemCall { number: 2, argument: 0b110001 });
    assert_eq!(bits(b"g"), SystemCall { number: 2, argument: 0b101010 });
    assert_eq!(bits(b"b"), SystemCall { number: 2, argument: 0b011100 });
    assert_eq!(bits(b"123"), SystemCall { number: 2, argument: 0b000111 });
    assert_eq!(bits(b"rr1"), SystemCall { number: 2, argument: 0b110001 });
    assert_eq!(bits(b"xbzg"), SystemCall { number: 2, argument: 0b001110 });
}

#[test]
fn shell_side_requests_match_the_program_side() {
    assert_eq!(mcu_os::sys_call::delay(9), delay(9));
    assert_eq!(mcu_os::sys_call::exec(9), exec(9));
    assert_eq!(mcu_os::sys_call::exit(9), exit(9));
}
