use cl_format::into_english;
use cl_format::into_ordinal_english;
use cl_format::digits::group_chars;
use cl_format::digits::push_padded;

#[test]
fn test_into_english() {
    let mut buf = String::new();
    into_english(12345, &mut buf);
    assert_eq!(buf, String::from("twelve thousand three hundred forty-five"));

    let mut buf = String::new();
    into_english(0, &mut buf);
    assert_eq!(buf, String::from("zero"));

    let mut buf = String::new();
    into_english(1000000000000000001, &mut buf);
    assert_eq!(buf, String::from("one quintillion one"));

    let mut buf = String::new();
    into_english(2132314453234, &mut buf);
    assert_eq!(buf, String::from("two trillion one hundred thirty-two billion three hundred fourteen million four hundred fifty-three thousand two hundred thirty-four"));
}

#[test]
fn test_into_ordinal_english() {
    let mut buf = String::new();
    into_ordinal_english(55, &mut buf);
    assert_eq!(buf, String::from("fifty-fifth"));

    let mut buf = String::new();
    into_ordinal_english(345, &mut buf);
    assert_eq!(buf, String::from("three hundred forty-fifth"));

    let mut buf = String::new();
    into_ordinal_english(12345, &mut buf);
    assert_eq!(buf, String::from("twelve thousand three hundred forty-fifth"));

    let mut buf = String::new();
    into_ordinal_english(1000000000000000, &mut buf);
    assert_eq!(buf, String::from("one quadrillionth"));

    let mut buf = String::new();
    into_ordinal_english(1000000000000000001, &mut buf);
    assert_eq!(buf, String::from("one quintillion first"));

    let mut buf = String::new();
    into_ordinal_english(2132314453234, &mut buf);
    assert_eq!(buf, String::from("two trillion one hundred thirty-two billion three hundred fourteen million four hundred fifty-three thousand two hundred thirty-fourth"));
}

#[test]
fn test_radix_format() {
    let buf = format!("{}", radix_fmt::radix(17, 3));
    assert_eq!(buf, String::from("122"));

    let buf = format!("{}", radix_fmt::radix(345, 2));
    assert_eq!(buf, String::from("101011001"));
}

#[test]
fn test_format_helper() {
    let digits = format!("{}", radix_fmt::radix(345, 2));
    assert_eq!(group_chars(&digits, 3, ','), String::from("101,011,001"));

    // without the colon flag the evaluator leaves the digits ungrouped
    let digits = format!("{}", radix_fmt::radix(345, 2));
    assert_eq!(digits, String::from("101011001"));

    let digits = format!("{}", radix_fmt::radix(345, 3));
    assert_eq!(group_chars(&digits, 3, ','), String::from("110,210"));

    let digits = format!("{}", radix_fmt::radix(17, 3));
    assert_eq!(group_chars(&digits, 2, ','), String::from("1,22"));

    let digits = format!("{}", radix_fmt::radix(17, 10));
    assert_eq!(group_chars(&digits, 2, ','), String::from("17"));

    let digits = format!("{}", radix_fmt::radix(17, 10));
    let grouped = group_chars(&digits, 2, ',');
    let mut buf = String::new();
    push_padded(&grouped, 5, 'a', &mut buf);
    assert_eq!(buf, String::from("aaa17"));
}
