use neon_rush::save::{encode_save, parse_save, SaveRecord};

fn record(
    currency: i32,
    speed: u32,
    dash_cd: u32,
    dash_time: u32,
    shard_value: u32,
    magnet: u32,
    best: i32,
) -> SaveRecord {
    SaveRecord { currency, speed, dash_cd, dash_time, shard_value, magnet, best }
}

#[test]
fn save_then_load_round_trip() {
    let r = record(120, 2, 1, 0, 3, 0, 540);
    let bytes = encode_save(&r);
    let back = parse_save(&bytes);
    assert_eq!(back, r);
}

#[test]
fn encoded_form_is_the_expected_text() {
    let r = record(120, 2, 1, 0, 3, 0, 540);
    let bytes = encode_save(&r);
    let expected = "currency=120\nspeed=2\ndash_cd=1\ndash_time=0\nshard_value=3\nmagnet=0\nbest=540\n";
    assert_eq!(bytes, expected.as_bytes().to_vec());
}

#[test]
fn empty_input_gives_all_zero_defaults() {
    let r = parse_save(&[]);
    assert_eq!(r, record(0, 0, 0, 0, 0, 0, 0));
}

#[test]
fn negative_currency_round_trips() {
    let r = record(-75, 0, 0, 0, 0, 0, 0);
    let back = parse_save(&encode_save(&r));
    assert_eq!(back.currency, -75);
}

#[test]
fn malformed_values_default_to_zero_per_field() {
    let text = "currency=abc\nspeed=4\nbest=\n";
    let r = parse_save(text.as_bytes());
    assert_eq!(r.currency, 0);
    assert_eq!(r.speed, 4);
    assert_eq!(r.best, 0);
}

#[test]
fn unknown_keys_and_lines_without_equals_are_skipped() {
    let text = "volume=9\nnoise\nspeed=7\n";
    let r = parse_save(text.as_bytes());
    assert_eq!(r.speed, 7);
    assert_eq!(r.currency, 0);
}

#[test]
fn keys_and_values_are_trimmed() {
    let text = "  currency =\t42 \r\nbest= 7\n";
    let r = parse_save(text.as_bytes());
    assert_eq!(r.currency, 42);
    assert_eq!(r.best, 7);
}

#[test]
fn later_lines_overwrite_earlier_ones() {
    let text = "speed=1\nspeed=5\n";
    let r = parse_save(text.as_bytes());
    assert_eq!(r.speed, 5);
}

#[test]
fn out_of_range_values_default_to_zero() {
    let text = "currency=2147483648\nspeed=99999999999\nbest=-2147483648\n";
    let r = parse_save(text.as_bytes());
    assert_eq!(r.currency, 0);
    assert_eq!(r.speed, 0);
    assert_eq!(r.best, -2147483648);
}

#[test]
fn signed_values_accept_a_leading_plus() {
    let text = "currency=+33\nspeed=+2\n";
    let r = parse_save(text.as_bytes());
    assert_eq!(r.currency, 33);
    assert_eq!(r.speed, 2);
}

#[test]
fn missing_final_newline_still_parses() {
    let text = "currency=9";
    let r = parse_save(text.as_bytes());
    assert_eq!(r.currency, 9);
}
