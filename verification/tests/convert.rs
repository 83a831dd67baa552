use claudiofsr_lib::ParseNumberError;
use claudiofsr_lib::string_to_digits;
use claudiofsr_lib::string_to_vec_of_integers;
use claudiofsr_lib::to_vec_slice;
use claudiofsr_lib::to_vec_string;

#[test]
fn string_to_digits_reads_digit_strings() {
    let digits_slice: &str = "06122022";
    let vector1: Vec<u32> = string_to_digits(digits_slice);

    let digits_string: String = "06122022".to_string();
    let vector2: Vec<u32> = string_to_digits(&digits_string);

    assert_eq!(vector1, vector2);
    assert_eq!(vector1, vec![0, 6, 1, 2, 2, 0, 2, 2]);

    // Any non-digit yields an empty vector.
    assert_eq!(string_to_digits("12x45"), Vec::<u32>::new());
    assert_eq!(string_to_digits(""), Vec::<u32>::new());
}

#[test]
fn string_to_vec_of_integers_reads_tokens() {
    let digits_slice: &str = "06 12 2022";
    let vector1: Vec<u32> = string_to_vec_of_integers(digits_slice).unwrap();

    let digits_string: String = "06 12 2022".to_string();
    let vector2: Vec<u32> = string_to_vec_of_integers(&digits_string).unwrap();

    assert_eq!(vector1, vector2);
    assert_eq!(vector1, vec![6, 12, 2022]);

    assert_eq!(string_to_vec_of_integers("").unwrap(), Vec::<u32>::new());
    assert_eq!(string_to_vec_of_integers("  \t ").unwrap(), Vec::<u32>::new());
    assert_eq!(string_to_vec_of_integers("+5 7").unwrap(), vec![5, 7]);
    assert_eq!(
        string_to_vec_of_integers("4294967295").unwrap(),
        vec![u32::MAX]
    );
}

#[test]
fn string_to_vec_of_integers_rejects_bad_tokens() {
    assert_eq!(string_to_vec_of_integers("1 2x 3"), Err(ParseNumberError));
    assert_eq!(string_to_vec_of_integers("abc"), Err(ParseNumberError));
    assert_eq!(string_to_vec_of_integers("+"), Err(ParseNumberError));
    assert_eq!(string_to_vec_of_integers("-1"), Err(ParseNumberError));
    // One past u32::MAX overflows.
    assert_eq!(string_to_vec_of_integers("4294967296"), Err(ParseNumberError));
}

#[test]
fn to_vec_string_renders_elements() {
    let original: Vec<&str> = vec!["this", "that", "the other"];
    let result: Vec<String> = to_vec_string(&original);
    assert_eq!(
        result,
        vec![
            String::from("this"),
            String::from("that"),
            String::from("the other"),
        ]
    );

    let numbers = [1, 22, 333];
    assert_eq!(to_vec_string(&numbers), vec!["1", "22", "333"]);
}

#[test]
fn to_vec_slice_borrows_elements() {
    let original: Vec<String> = vec!["this".into(), "that".into(), "the other".into()];
    let result: Vec<&str> = to_vec_slice(&original);
    assert_eq!(result, vec!["this", "that", "the other"]);
}
