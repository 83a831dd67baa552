use claudiofsr_lib::strings::StrExtension;

#[test]
fn test_replace_multiple_whitespaces() {
    let strings: Vec<&str> = vec![
        "🦀",
        " teste",
        "teste ",
        " teste ",
        "  teste",
        "teste  ",
        "  teste  ",
        "tes te",
        "tes  te",
        "tes   te",
        " tes te",
        "tes  te ",
        " tes  te ",
        "  tes te",
        "tes  te  ",
        "  tes  te  ",
        " ",
        "  ",
        "   ",
        "    ",
    ];
    for string in strings {
        let s = ["'", string, "'"].concat();
        println!("{:13} --> '{}'", s, string.replace_multiple_whitespaces());
    }
    let s1 = "tes  te".replace_multiple_whitespaces();
    let s2 = " tes  te".replace_multiple_whitespaces();
    let s3 = "tes  te ".replace_multiple_whitespaces();
    let s4 = " tes  te ".replace_multiple_whitespaces();
    let s5 = "  tes  te".replace_multiple_whitespaces();
    let s6 = "tes  te  ".replace_multiple_whitespaces();
    let s7 = "  tes  te  ".replace_multiple_whitespaces();
    let s8 = "         ".replace_multiple_whitespaces();

    assert_eq!(s1, "tes te");
    assert_eq!(s2, " tes te");
    assert_eq!(s3, "tes te ");
    assert_eq!(s4, " tes te ");
    assert_eq!(s5, " tes te");
    assert_eq!(s6, "tes te ");
    assert_eq!(s7, " tes te ");
    assert_eq!(s8, " ");
}

#[test]
fn test_select_first_digits() {
    let strings: Vec<&str> = vec![
        "1234🦀",
        "1191-1",
        "10845/a",
        "987654Cláudio",
        "1",
        "a",
        "12345",
        "12345___abc",
    ];
    let digits: Vec<&str> = vec!["1234", "1191", "10845", "987654", "1", "", "12345", "12345"];

    for (&string, &digit) in strings.iter().zip(digits.iter()) {
        let s = ["'", string, "'"].concat();
        println!("{:15} --> '{}'", s, string.select_first_digits());
        assert_eq!(string.select_first_digits(), digit);
    }
}

#[test]
fn test_contains_only_digits() {
    let strings: Vec<&str> = vec![
        "🦀", "12345", "12345x", " 12345", " 12345 ", "", " ", "0", "7", "10",
    ];
    for string in strings {
        let s = ["'", string, "'"].concat();
        println!("{:13} --> {}", s, string.contains_only_digits());
    }
    let s1 = "🦀".contains_only_digits();
    let s2 = "12345".contains_only_digits();
    let s3 = "12345x".contains_only_digits();
    let s4 = " 12345".contains_only_digits();
    let s5 = " 12345 ".contains_only_digits();
    let s6 = "".contains_only_digits();
    let s7 = " ".contains_only_digits();
    let s8 = "0".contains_only_digits();
    let s9 = "10".contains_only_digits();

    assert!(!s1);
    assert!(s2);
    assert!(!s3);
    assert!(!s4);
    assert!(!s5);
    assert!(!s6);
    assert!(!s7);
    assert!(s8);
    assert!(s9);
}

#[test]
fn test_chars_count() {
    let strings: Vec<&str> = vec![
        "🦀",
        "12345",
        "Cláudio",
        " Cláudio 🦀 çṕ@",
        "Bom dia おはよう!",
    ];
    for string in strings {
        let s = ["'", string, "'"].concat();
        println!("{} --> {}", s, string.chars_count());
    }
    let s1 = "🦀".chars_count();
    let s2 = "12345".chars_count();
    let s3 = "Cláudio".chars_count();
    let s4 = " Cláudio 🦀 çṕ@".chars_count();
    let s5 = "Bom dia おはよう!".chars_count();

    assert_eq!(s1, 1);
    assert_eq!(s2, 5);
    assert_eq!(s3, 7);
    assert_eq!(s4, 14);
    assert_eq!(s5, 13);
}

#[test]
fn test_more_digit_predicates() {
    assert!("12345".contains_some_digits());
    assert!("12x45".contains_some_digits());
    assert!(!"foo".contains_some_digits());

    assert!("12345".contains_num_digits(5));
    assert!(!"12x45".contains_num_digits(4));
    assert!(!"foo".contains_num_digits(3));

    assert!("12345".contains_up_to_num_digits(6));
    assert!("12345".contains_up_to_num_digits(5));
    assert!(!"12345".contains_up_to_num_digits(4));
    assert!(!"12x45".contains_up_to_num_digits(4));
    assert!(!"foo".contains_up_to_num_digits(3));
}

#[test]
fn test_remove_and_retain() {
    let text: &str = "1234-ab_5ção67__8 9 ";
    assert_eq!(text.remove_non_digits(), "123456789");

    let text: &str = "1234-ab_5ç";
    assert_eq!(text.remove_first_and_last_char(), "234-ab_5");
    assert_eq!("a".remove_first_and_last_char(), "");
    assert_eq!("ab".remove_first_and_last_char(), "");
    assert_eq!("".remove_first_and_last_char(), "");

    let word = "12345abc678";
    assert_eq!(word.retain_first_digits(), "12345");
}

#[test]
fn test_strip_and_count() {
    let text: &str = "12|34|ab|5|ç678";
    assert_eq!(text.strip_prefix_and_sufix(b'|'), "34|ab|5");
    assert_eq!("no delimiter".strip_prefix_and_sufix(b'|'), "no delimiter");

    let line: &str = "|C170|foo|bar|zzz|";
    assert_eq!(line.count_char('|'), 5);
    assert_eq!(line.count_char('x'), 0);
}

#[test]
fn test_to_digits() {
    let text: &str = "12345";
    assert_eq!(text.to_digits(), vec![1, 2, 3, 4, 5]);
    assert_eq!("12x45".to_digits(), Vec::<u32>::new());
}

#[test]
fn test_format_documents() {
    let cnpj: &str = "12345678901234";
    assert_eq!(cnpj.format_cnpj(), "12.345.678/9012-34");
    assert_eq!("123".format_cnpj(), "123");

    let cpf: &str = "12345678901";
    assert_eq!(cpf.format_cpf(), "123.456.789-01");
    assert_eq!("12345678x01".format_cpf(), "12345678x01");

    let ncm: &str = "23099090";
    assert_eq!(ncm.format_ncm(), "2309.90.90");
    assert_eq!("230990".format_ncm(), "230990");
}
