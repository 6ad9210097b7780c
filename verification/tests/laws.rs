use cl_format::Arg;
use cl_format::Args;
use cl_format::ControlStr;
use cl_format::ErrorKind;
use cl_format::into_ordinal_english;
use cl_format::digits::group_chars;

fn render_with(control: &str, args: Vec<Arg>) -> Result<String, cl_format::TildeError> {
    ControlStr::from(control).unwrap().render(Args::new(args))
}

#[test]
fn spans_tile_the_control_text() {
    // every span is exactly as wide as its directive records, and the
    // spans stand in order inside the text with no overlap
    let cases = ["hello wor~{~a~}", "~a, ~a, ~a", "~d ~:*(~d)", "~#[NONE~;~a~:;~a, ~a~]tail"];
    for case in cases.iter() {
        let cs = ControlStr::from(case).unwrap();
        let mut prev_end = 0;
        for ((a, b), t) in cs.tildes().iter() {
            assert!(prev_end <= *a);
            assert!(a <= b);
            assert!(*b <= case.chars().count());
            assert_eq!(b - a, t.len());
            prev_end = *b;
        }
    }
}

#[test]
fn reveal_is_deterministic() {
    let cs = ControlStr::from("~a and ~@R: ~{~a~^, ~}").unwrap();
    let make_args = || {
        Args::new(vec![
            Arg::Bool(true),
            Arg::Int(58),
            Arg::List(vec![Arg::Int(1), Arg::Int(2)]),
        ])
    };
    let first = cs.render(make_args()).unwrap();
    let second = cs.render(make_args()).unwrap();
    assert_eq!(first, second);
    assert_eq!(first, "true and LVIII: 1, 2");
}

#[test]
fn parsed_control_string_is_reusable() {
    // one parsed value fed different argument lists agrees with a freshly
    // parsed copy fed each list independently
    let control = "~a, ~a";
    let reused = ControlStr::from(control).unwrap();
    let one = reused
        .render(Args::new(vec![Arg::Int(1), Arg::Int(2)]))
        .unwrap();
    let two = reused
        .render(Args::new(vec![Arg::Int(3), Arg::Int(4)]))
        .unwrap();
    let fresh_one = ControlStr::from(control)
        .unwrap()
        .render(Args::new(vec![Arg::Int(1), Arg::Int(2)]))
        .unwrap();
    let fresh_two = ControlStr::from(control)
        .unwrap()
        .render(Args::new(vec![Arg::Int(3), Arg::Int(4)]))
        .unwrap();
    assert_eq!(one, fresh_one);
    assert_eq!(two, fresh_two);
}

#[test]
fn comma_grouping_counts() {
    // grouping n digits at interval k inserts ceil(n / k) - 1 separators
    let cases: [(&str, usize, &str); 5] = [
        ("101011001", 3, "101,011,001"),
        ("110210", 3, "110,210"),
        ("122", 2, "1,22"),
        ("17", 2, "17"),
        ("1", 1, "1"),
    ];
    for (digits, k, expected) in cases.iter() {
        let grouped = group_chars(digits, *k, ',');
        assert_eq!(&grouped, expected);
        let n = digits.len();
        let separators = grouped.len() - n;
        assert_eq!(separators, (n + k - 1) / k - 1);
    }
}

#[test]
fn scenario_value_inserts() {
    assert_eq!(
        render_with("~a, ~a, ~a", vec![Arg::Int(1), Arg::Int(2), Arg::Int(3)]).unwrap(),
        "1, 2, 3"
    );
}

#[test]
fn scenario_loop_with_count_conditional() {
    assert_eq!(
        render_with(
            "~{~a~#[~;, and ~:;, ~]~}",
            vec![Arg::List(vec![
                Arg::Int(1),
                Arg::Int(2),
                Arg::Int(3),
                Arg::Int(4),
            ])],
        )
        .unwrap(),
        "1, 2, 3, and 4"
    );
}

#[test]
fn scenario_index_conditional_with_fallback() {
    let control = "~[cero~;uno~:;dos~]";
    assert_eq!(render_with(control, vec![Arg::Int(2)]).unwrap(), "dos");
    assert_eq!(render_with(control, vec![Arg::Int(100)]).unwrap(), "dos");
    assert_eq!(render_with(control, vec![Arg::Int(0)]).unwrap(), "cero");
}

#[test]
fn scenario_rewind_reconsumes() {
    assert_eq!(
        render_with("~d ~:*(~d)", vec![Arg::Int(1)]).unwrap(),
        "1 (1)"
    );
}

#[test]
fn scenario_ordinal_words() {
    assert_eq!(render_with("~:R", vec![Arg::Int(64)]).unwrap(), "sixty-fourth");
    assert_eq!(
        render_with("~:R", vec![Arg::Int(-64)]).unwrap(),
        "negative sixty-fourth"
    );
}

#[test]
fn scenario_optional_render() {
    assert_eq!(
        render_with(
            "~@[x = ~a ~]~@[y = ~a~]",
            vec![Arg::Opt(Some(Box::new(Arg::Int(1)))), Arg::Opt(None)],
        )
        .unwrap(),
        "x = 1 "
    );
}

#[test]
fn parse_errors_carry_the_parse_kind() {
    // an unknown key character never shows up: the scan runs out of text
    let e = ControlStr::from("~q").unwrap_err();
    assert!(matches!(e.kind, ErrorKind::ParseError));

    // an unterminated loop is a parse error
    let e = ControlStr::from("~{~a").unwrap_err();
    assert!(matches!(e.kind, ErrorKind::ParseError));

    // a radix parameter list needs one or five fields
    let e = ControlStr::from("~2,8R").unwrap_err();
    assert!(matches!(e.kind, ErrorKind::ParseError));

    // a non-numeric field is rejected
    let e = ControlStr::from("~x8,8,0, ,R").unwrap_err();
    assert!(matches!(e.kind, ErrorKind::ParseError));
}

#[test]
fn capability_misses_are_reveal_errors() {
    // a character directive cannot consume a number
    let e = render_with("~c", vec![Arg::Int(1)]).unwrap_err();
    assert!(matches!(e.kind, ErrorKind::RevealError));

    // no argument offers the float capability
    let e = render_with("~5$", vec![Arg::Int(1)]).unwrap_err();
    assert!(matches!(e.kind, ErrorKind::RevealError));

    // a loop needs a list argument
    let e = render_with("~{~a~}", vec![Arg::Int(1)]).unwrap_err();
    assert!(matches!(e.kind, ErrorKind::RevealError));
}

#[test]
fn exhaustion_and_ranges_are_format_errors() {
    // an exhausted cursor
    let e = render_with("~a", vec![]).unwrap_err();
    assert!(matches!(e.kind, ErrorKind::FormatError));

    // a rewind before the first argument
    let e = render_with("~:*~a", vec![Arg::Int(1)]).unwrap_err();
    assert!(matches!(e.kind, ErrorKind::FormatError));

    // Roman numerals are bounded above by 3999 and below by 1
    let e = render_with("~@R", vec![Arg::Int(4000)]).unwrap_err();
    assert!(matches!(e.kind, ErrorKind::FormatError));
    let e = render_with("~@R", vec![Arg::Int(0)]).unwrap_err();
    assert!(matches!(e.kind, ErrorKind::FormatError));
    let e = render_with("~@R", vec![Arg::Int(-5)]).unwrap_err();
    assert!(matches!(e.kind, ErrorKind::FormatError));

    // the old-style Roman form is not offered
    let e = render_with("~:@R", vec![Arg::Int(5)]).unwrap_err();
    assert!(matches!(e.kind, ErrorKind::FormatError));

    // an explicit radix must lie between 2 and 36
    let e = render_with("~100R", vec![Arg::Int(5)]).unwrap_err();
    assert!(matches!(e.kind, ErrorKind::FormatError));
}

#[test]
fn radix_digits_use_lowercase_letters() {
    // also checks that the base really drives the digits: base 16 of 255
    // is neither its decimal form nor the input unchanged
    assert_eq!(render_with("~16R", vec![Arg::Int(255)]).unwrap(), "ff");
    assert_eq!(render_with("~36R", vec![Arg::Int(35)]).unwrap(), "z");
    assert_eq!(render_with("~2R", vec![Arg::Int(-5)]).unwrap(), "-101");
}

#[test]
fn literal_tildes_and_plain_text() {
    assert_eq!(render_with("~3~", vec![]).unwrap(), "~~~");
    assert_eq!(render_with("", vec![]).unwrap(), "");
    assert_eq!(render_with("plain text", vec![]).unwrap(), "plain text");
}

#[test]
fn generic_display_of_values() {
    assert_eq!(
        render_with("~a ~a ~a", vec![Arg::Bool(false), Arg::Ch('x'), Arg::Opt(None)]).unwrap(),
        "false x nil"
    );
    assert_eq!(
        render_with(
            "~a",
            vec![Arg::List(vec![
                Arg::Text(String::from("ab")),
                Arg::Ch('c'),
                Arg::Int(-1),
            ])],
        )
        .unwrap(),
        "[\"ab\", 'c', -1]"
    );
}

#[test]
fn cursor_pop_back_and_reset() {
    let mut args = Args::new(vec![Arg::Int(10), Arg::Int(20)]);
    assert_eq!(args.left_count(), 2);
    assert!(matches!(args.pop(), Some(Arg::Int(10))));
    assert_eq!(args.left_count(), 1);
    assert!(matches!(args.back(), Some(Arg::Int(10))));
    assert_eq!(args.left_count(), 2);
    assert!(matches!(args.pop(), Some(Arg::Int(10))));
    assert!(matches!(args.pop(), Some(Arg::Int(20))));
    assert!(args.pop().is_none());
    args.reset();
    assert_eq!(args.left_count(), 2);
    assert_eq!(args.position(), 0);
}

#[test]
fn ordinal_whole_hundreds() {
    let mut buf = String::new();
    into_ordinal_english(300, &mut buf);
    assert_eq!(buf, "three hundredth");
}

#[test]
fn skip_directive_discards_one_argument() {
    assert_eq!(
        render_with("~*~a", vec![Arg::Int(1), Arg::Int(2)]).unwrap(),
        "2"
    );
    // skipping on an exhausted cursor is an error
    let e = render_with("~*", vec![]).unwrap_err();
    assert!(matches!(e.kind, ErrorKind::FormatError));
}

#[test]
fn failed_directive_leaves_buffer_untouched() {
    // the per-directive dispatch appends nothing when it fails
    let cs = ControlStr::from("~c").unwrap();
    let mut args = Args::new(vec![Arg::Int(1)]);
    let mut buf = String::from("before");
    assert!(cs.tildes()[0].1.render(&mut args, &mut buf).is_err());
    assert_eq!(buf, "before");
}
