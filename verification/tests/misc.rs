use claudiofsr_lib::BytesExtension;
use claudiofsr_lib::GetNChars;
use claudiofsr_lib::OptionExtension;
use claudiofsr_lib::StringExtension;
use claudiofsr_lib::blake3_hash_bytes;
use claudiofsr_lib::get_naive_date_v2;
use claudiofsr_lib::strings::u64_to_string;
use chrono::NaiveDate;

#[test]
fn bytes_trimming_and_hex() {
    let text: &str = " foo bar\r\n";
    let bytes: Vec<u8> = text.bytes().collect();
    assert_eq!(bytes, [32, 102, 111, 111, 32, 98, 97, 114, 13, 10]);
    assert_eq!(bytes.trim(), b"foo bar");

    let text: &str = " foo bar\n";
    let bytes: Vec<u8> = text.bytes().collect();
    let string = bytes.to_hex_string();
    assert_eq!(string, "20666f6f206261720a");
    assert_eq!(b"".to_hex_string(), "");
}

#[test]
fn blake3_digest_of_bytes() {
    // The well-known BLAKE3 digest of the empty input.
    assert_eq!(
        blake3_hash_bytes(b""),
        "af1349b9f5f9a1a6a0404dea36dcc9499bcb25c9adc112b7cc9a93cae41f3262"
    );
    let a = blake3_hash_bytes(b"some bytes");
    let b = blake3_hash_bytes(b"other bytes");
    assert_eq!(a.len(), 64);
    assert_eq!(b.len(), 64);
    assert_ne!(a, b);
    assert_ne!(a, "some bytes");
}

#[test]
fn get_first_and_last_n_chars() {
    let string = String::from("♥foo よção♥ bar");
    assert_eq!(string.get_first_n_chars(10), "♥foo よção♥");
    assert_eq!(string.get_first_n_chars(14), string);

    let st = "♥foo よção♥ bar";
    assert_eq!(st.get_first_n_chars(10), "♥foo よção♥");
    assert_eq!(st.get_first_n_chars(14), st);

    let string = String::from("♥foo よção♥ bar");
    assert_eq!(string.get_last_n_chars(9), "よção♥ bar");
    assert_eq!(string.get_last_n_chars(14), string);

    let st = "♥foo よção♥ bar";
    assert_eq!(st.get_last_n_chars(9), "よção♥ bar");
    assert_eq!(st.get_last_n_chars(14), st);
}

#[test]
fn remove_whitespace_and_chars() {
    let mut string = String::from(" for  bar \n");
    string.remove_all_whitespace();
    assert_eq!(string, "forbar");

    let mut string = String::from("for bar bbar");
    string.remove_all_char('b');
    assert_eq!(string, "for ar ar");
}

#[test]
fn combine_options() {
    let a = Some(5.0);
    let b = Some(10.0);

    let sum = |a: f64, b: f64| a + b;
    assert_eq!(a.combine_with(b, sum), Some(15.0));

    let a = Some(5);
    let b = Some(10);
    assert_eq!(a.combine_with_sum(b), Some(15));
    assert_eq!(a.combine_with_sub(b), Some(-5));
    assert_eq!(a.combine_with_mul(b), Some(50));
    assert_eq!(Some(50).combine_with_div(Some(10)), Some(5));

    let none: Option<i32> = None;
    assert_eq!(none.combine_with_sum(Some(1)), None::<i32>);
    assert_eq!(Some(1).combine_with_sum(none), None::<i32>);
}

#[test]
fn date_from_arithmetic_reading() {
    assert_eq!(
        get_naive_date_v2("06-12-2022T00:00:00-03:00"),
        NaiveDate::from_ymd_opt(2022, 12, 6)
    );
    assert_eq!(get_naive_date_v2("29021973"), None);
    assert_eq!(get_naive_date_v2("29021972"), NaiveDate::from_ymd_opt(1972, 2, 29));
    assert_eq!(get_naive_date_v2("0101"), None);
}

#[test]
fn u64_rendering() {
    assert_eq!(u64_to_string(0), "0");
    assert_eq!(u64_to_string(7), "7");
    assert_eq!(u64_to_string(12345), "12345");
    assert_eq!(u64_to_string(u64::MAX), "18446744073709551615");
}
