use cl_format::Arg;
use cl_format::Args;
use cl_format::ControlStr;

// A caller-defined value takes part through the `Custom` argument: it
// registers the text it renders as under each capability it supports.
fn my_struct(a: usize, b: &str) -> Arg {
    Arg::Custom {
        va: Some(format!("a: {}, b: {}", a, b)),
        digit: Some(format!("{}", a)),
        standard: None,
    }
}

#[test]
fn test_custom_struct() {
    let s = my_struct(1, "b");

    assert_eq!(
        "a: 1, b: b".to_string(),
        ControlStr::from("~a")
            .unwrap()
            .render(Args::new(vec![s.clone()]))
            .unwrap()
    );

    assert_eq!(
        "a: 1, b: b lalalal a: 1, b: b".to_string(),
        ControlStr::from("~a lalalal ~a")
            .unwrap()
            .render(Args::new(vec![s.clone(), s.clone()]))
            .unwrap()
    );

    assert_eq!(
        "1".to_string(),
        ControlStr::from("~d")
            .unwrap()
            .render(Args::new(vec![s.clone()]))
            .unwrap()
    );

    assert_eq!(
        "First: a: 1, b: b; Second: 1".to_string(),
        ControlStr::from("First: ~a; Second: ~d")
            .unwrap()
            .render(Args::new(vec![s.clone(), s]))
            .unwrap()
    );
}
