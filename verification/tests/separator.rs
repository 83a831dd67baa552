use claudiofsr_lib::FormatStyle;
use claudiofsr_lib::add_sep;
use claudiofsr_lib::thousands_separator;

#[test]
fn thousands_separator_test() {
    // Test with an f32 value
    let val_f32: f32 = -5000.0;
    let result = thousands_separator(
        &format!("{:.2}", val_f32.abs()),
        val_f32.is_sign_negative(),
        2,
        FormatStyle::PtBr,
    );
    println!("f32: {val_f32}");
    println!("result: {result}\n");
    assert_eq!(result, "-5.000,00");

    // Test with f64
    let val_f64: f64 = -1234567.8949;
    let result = thousands_separator(
        &format!("{:.2}", val_f64.abs()),
        val_f64.is_sign_negative(),
        2,
        FormatStyle::PtBr,
    );
    println!("f64: {val_f64}");
    println!("result: {result}\n");
    assert_eq!(result, "-1.234.567,89");

    // Test with f64 rounding
    let val_f64_round: f64 = -1234567.8950;
    let result = thousands_separator(
        &format!("{:.2}", val_f64_round.abs()),
        val_f64_round.is_sign_negative(),
        2,
        FormatStyle::PtBr,
    );
    println!("f64: {val_f64_round}");
    println!("result: {result}\n");
    assert_eq!(result, "-1.234.567,90");

    // Test US style
    let val_us: f64 = 1234567.8912;
    let result = thousands_separator(
        &format!("{:.2}", val_us.abs()),
        val_us.is_sign_negative(),
        2,
        FormatStyle::Us,
    );
    println!("f64: {val_us}");
    println!("us result: {result}\n");
    assert_eq!(result, "1,234,567.89");
}

/// Optional values format like their content, and a missing value
/// formats like zero.
#[test]
fn test_options() {
    // Test Some(value)
    let val_some: Option<f64> = Some(1234.567);
    let v = val_some.unwrap_or(0.0);
    let result = thousands_separator(
        &format!("{:.2}", v.abs()),
        v.is_sign_negative(),
        2,
        FormatStyle::PtBr,
    );
    println!("val_some: {val_some:?}");
    println!("result: {result}\n");
    assert_eq!(result, "1.234,57");

    // Test None
    let val_none: Option<f64> = None;
    let v = val_none.unwrap_or(0.0);
    let result = thousands_separator(
        &format!("{:.2}", v.abs()),
        v.is_sign_negative(),
        2,
        FormatStyle::Us,
    );
    println!("val_none: {val_none:?}");
    println!("result: {result}\n");
    assert_eq!(result, "0.00");

    // Test None with 0 decimals
    let result_no_dec = thousands_separator(
        &format!("{:.0}", v.abs()),
        v.is_sign_negative(),
        0,
        FormatStyle::Euro,
    );
    assert_eq!(result_no_dec, "0");
}

#[test]
fn add_sep_groups_in_threes() {
    let mut buffer = String::new();
    add_sep("1234567", '.', &mut buffer);
    assert_eq!(buffer, "1.234.567");

    let mut buffer = String::new();
    add_sep("12", ',', &mut buffer);
    assert_eq!(buffer, "12");

    let mut buffer = String::new();
    add_sep("", '.', &mut buffer);
    assert_eq!(buffer, "");

    let mut buffer = String::from("x");
    add_sep("123456", '.', &mut buffer);
    assert_eq!(buffer, "x123.456");
}

#[test]
fn thousands_separator_without_fraction() {
    let result = thousands_separator("987654321", false, 0, FormatStyle::Us);
    assert_eq!(result, "987,654,321");

    // Requested decimals but no dot in the rendering: the whole string is
    // grouped as an integer part.
    let result = thousands_separator("1234", true, 2, FormatStyle::Euro);
    assert_eq!(result, "-1.234");
}
