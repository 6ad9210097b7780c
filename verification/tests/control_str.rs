use cl_format::Arg;
use cl_format::Args;
use cl_format::ControlStr;
use cl_format::Tilde;
use cl_format::TildeKind;
use cl_format::TildeLoopKind;

fn reveal_segments(cs: &ControlStr, args: &mut Args) -> Vec<String> {
    let mut v = Vec::new();
    for pair in cs.tildes().iter() {
        let mut b = String::new();
        pair.1.render(args, &mut b).unwrap();
        v.push(b);
    }
    v
}

fn strings(items: &[&str]) -> Vec<String> {
    items.iter().map(|s| s.to_string()).collect()
}

fn ints(ns: &[i64]) -> Arg {
    Arg::List(ns.iter().map(|n| Arg::Int(*n)).collect())
}

#[test]
fn test_try_from_self() {
    let case = "hello wor~{~a~}";
    let x = ControlStr::from(case).unwrap();
    let y = ControlStr::from(case).unwrap();
    assert_eq!(x.tildes(), y.tildes());
    assert_eq!(x.as_str(), y.as_str());
}

#[test]
fn test_control_str_scan() {
    let case = "hello wor~{~a~}";
    let cs = ControlStr::from(case).unwrap();
    assert_eq!(
        *cs.tildes(),
        vec![(
            (9, 15),
            Tilde::new(
                6,
                TildeKind::Loop(vec![Tilde::new(2, TildeKind::Va)], TildeLoopKind::Nil)
            )
        )]
    );

    let case = "~{~5$~}";
    let cs = ControlStr::from(case).unwrap();
    assert_eq!(
        *cs.tildes(),
        vec![(
            (0, 7),
            Tilde::new(
                7,
                TildeKind::Loop(
                    vec![Tilde::new(3, TildeKind::Float(Some("5".to_string())))],
                    TildeLoopKind::Nil
                )
            )
        )]
    );
}

#[test]
fn test_reveal_normal_tildes() {
    let case = "hello wor~a";
    let cs = ControlStr::from(case).unwrap();
    let mut args = Args::new(vec![Arg::Text(format!("{}", 13_f32))]);
    assert_eq!(strings(&["13"]), reveal_segments(&cs, &mut args));
}

#[test]
fn test_reveal_loop_tildes() {
    let case = "hello wor~{~a~}~a";
    let cs = ControlStr::from(case).unwrap();
    let inner = vec![
        Arg::Text(format!("{}", 13_f32)),
        Arg::Text(format!("{}", 14_f32)),
    ];
    let mut args = Args::new(vec![Arg::List(inner), Arg::Text(format!("{}", 15_f32))]);
    assert_eq!(strings(&["1314", "15"]), reveal_segments(&cs, &mut args));

    let case = "hello, ~@{~a~^, ~}";
    let cs = ControlStr::from(case).unwrap();
    let mut args = Args::new(vec![Arg::Int(1), Arg::Int(2), Arg::Int(3)]);
    assert_eq!(strings(&["1, 2, 3"]), reveal_segments(&cs, &mut args));

    let case = "hello, ~{~a~^, ~}";
    let cs = ControlStr::from(case).unwrap();
    let inner = vec![Arg::Int(1), Arg::Int(2), Arg::Int(3)];
    let mut args = Args::new(vec![Arg::List(inner)]);
    assert_eq!(strings(&["1, 2, 3"]), reveal_segments(&cs, &mut args));
}

#[test]
fn test_reveal_normal_cond_tildes() {
    let case = "~[cero~;uno~;dos~]";
    let cs = ControlStr::from(case).unwrap();

    let mut args = Args::new(vec![Arg::Int(0)]);
    assert_eq!(strings(&["cero"]), reveal_segments(&cs, &mut args));

    let mut args = Args::new(vec![Arg::Int(1)]);
    assert_eq!(strings(&["uno"]), reveal_segments(&cs, &mut args));

    let case = "~[cero~;uno~:;dos~]";
    let cs = ControlStr::from(case).unwrap();

    let mut args = Args::new(vec![Arg::Int(0)]);
    assert_eq!(strings(&["cero"]), reveal_segments(&cs, &mut args));

    let mut args = Args::new(vec![Arg::Int(2)]);
    assert_eq!(strings(&["dos"]), reveal_segments(&cs, &mut args));

    let mut args = Args::new(vec![Arg::Int(3)]);
    assert_eq!(strings(&["dos"]), reveal_segments(&cs, &mut args));

    let mut args = Args::new(vec![Arg::Int(4)]);
    assert_eq!(strings(&["dos"]), reveal_segments(&cs, &mut args));

    let mut args = Args::new(vec![Arg::Int(100)]);
    assert_eq!(strings(&["dos"]), reveal_segments(&cs, &mut args));

    let case = "~#[NONE~;first: ~a~;~a and ~a~:;~a, ~a~]";
    let cs = ControlStr::from(case).unwrap();
    let mut args = Args::new(vec![Arg::Int(1)]);
    assert_eq!(strings(&["first: 1"]), reveal_segments(&cs, &mut args));

    let cs = ControlStr::from(case).unwrap();
    let mut args = Args::new(vec![Arg::Int(2), Arg::Int(2)]);
    assert_eq!(strings(&["2 and 2"]), reveal_segments(&cs, &mut args));

    let cs = ControlStr::from(case).unwrap();
    let mut args = Args::new(vec![Arg::Int(3), Arg::Int(3), Arg::Int(3)]);
    assert_eq!(strings(&["3, 3"]), reveal_segments(&cs, &mut args));
}

#[test]
fn test_reveal_sharp_cond_tildes() {
    let case = "~#[NONE~;~a~;~a and ~a~:;~a, ~a~]~#[~; and ~a~:;, ~a, etc~].";
    let cs = ControlStr::from(case).unwrap();
    let mut args = Args::new(vec![]);
    assert_eq!(strings(&["NONE", ""]), reveal_segments(&cs, &mut args));
}

#[test]
fn test_reveal_at_cond_tildes() {
    let case = "~@[x = ~a ~]~@[y = ~a~]";
    let cs = ControlStr::from(case).unwrap();
    let mut args = Args::new(vec![
        Arg::Opt(Some(Box::new(Arg::Int(1)))),
        Arg::Opt(None),
    ]);
    assert_eq!(strings(&["x = 1 ", ""]), reveal_segments(&cs, &mut args));

    let cs = ControlStr::from(case).unwrap();
    let mut args = Args::new(vec![
        Arg::Opt(Some(Box::new(Arg::Int(1)))),
        Arg::Opt(Some(Box::new(Arg::Int(2)))),
    ]);
    assert_eq!(strings(&["x = 1 ", "y = 2"]), reveal_segments(&cs, &mut args));
}

#[test]
fn test_reveal_loop_cond_combine() {
    let case = "~{~a~#[~;, and ~:;, ~]~}";
    let cs = ControlStr::from(case).unwrap();
    let mut args = Args::new(vec![ints(&[1, 2])]);
    assert_eq!(strings(&["1, and 2"]), reveal_segments(&cs, &mut args));

    let case = "~{~#[~;~a~;~a and ~a~:;~@{~a~#[~;, and ~:;, ~]~}~]~}";
    let cs = ControlStr::from(case).unwrap();
    let mut args = Args::new(vec![ints(&[])]);
    assert_eq!(strings(&[""]), reveal_segments(&cs, &mut args));

    let cs = ControlStr::from(case).unwrap();
    let mut args = Args::new(vec![ints(&[1])]);
    assert_eq!(strings(&["1"]), reveal_segments(&cs, &mut args));

    let cs = ControlStr::from(case).unwrap();
    let mut args = Args::new(vec![ints(&[1, 2])]);
    assert_eq!(strings(&["1 and 2"]), reveal_segments(&cs, &mut args));

    let cs = ControlStr::from(case).unwrap();
    let mut args = Args::new(vec![ints(&[1, 2, 3])]);
    assert_eq!(strings(&["1, 2, and 3"]), reveal_segments(&cs, &mut args));

    let cs = ControlStr::from(case).unwrap();
    let mut args = Args::new(vec![ints(&[1, 2, 3, 4])]);
    assert_eq!(strings(&["1, 2, 3, and 4"]), reveal_segments(&cs, &mut args));

    let cs = ControlStr::from(case).unwrap();
    let mut args = Args::new(vec![ints(&[1, 2, 3, 4, 5])]);
    assert_eq!(strings(&["1, 2, 3, 4, and 5"]), reveal_segments(&cs, &mut args));

    let case = "~{~#[empty~;~a~;~a and ~a~:;~@{~a~#[~;, and ~:;, ~]~}~]~}";
    let cs = ControlStr::from(case).unwrap();
    let mut args = Args::new(vec![ints(&[])]);
    assert_eq!(strings(&[""]), reveal_segments(&cs, &mut args));

    let case = "~{~#[empty~;~a~;~a and ~a~:;~@{~a~#[~;, and ~:;, ~]~}~]~:}";
    let cs = ControlStr::from(case).unwrap();
    let mut args = Args::new(vec![ints(&[])]);
    assert_eq!(strings(&["empty"]), reveal_segments(&cs, &mut args));
}

#[test]
fn test_reveal_star() {
    let case = "~d ~:*(~d)";
    let cs = ControlStr::from(case).unwrap();
    let mut args = Args::new(vec![Arg::Int(1)]);
    assert_eq!(strings(&["1", "", "1"]), reveal_segments(&cs, &mut args));

    let case = "~{~d~*~^ ~}";
    let cs = ControlStr::from(case).unwrap();
    let mut args = Args::new(vec![Arg::List(vec![
        Arg::Int(1),
        Arg::Int(2),
        Arg::Int(3),
        Arg::Int(4),
    ])]);
    assert_eq!(strings(&["1 3"]), reveal_segments(&cs, &mut args));
}

#[test]
fn test_reveal_char() {
    let case = "~c ~C ~@c";
    let cs = ControlStr::from(case).unwrap();
    let mut args = Args::new(vec![Arg::Ch('a'), Arg::Ch('b'), Arg::Ch('c')]);
    assert_eq!(strings(&["a", "b", "'c'"]), reveal_segments(&cs, &mut args));
}

#[test]
fn test_reveal_standard() {
    let case = "~d ~s";
    let cs = ControlStr::from(case).unwrap();
    let mut args = Args::new(vec![Arg::Int(1), Arg::Text(String::from("hello"))]);
    assert_eq!(strings(&["1", "\"hello\""]), reveal_segments(&cs, &mut args));
}

#[test]
fn test_reveal_radix() {
    let cs = ControlStr::from("~R").unwrap();
    assert_eq!(
        "one".to_string(),
        cs.render(Args::new(vec![Arg::Int(1)])).unwrap()
    );
    assert_eq!(
        "sixty-four".to_string(),
        cs.render(Args::new(vec![Arg::Int(64)])).unwrap()
    );

    let cs = ControlStr::from("~:R").unwrap();
    assert_eq!(
        "first".to_string(),
        cs.render(Args::new(vec![Arg::Int(1)])).unwrap()
    );
    assert_eq!(
        "sixty-fourth".to_string(),
        cs.render(Args::new(vec![Arg::Int(64)])).unwrap()
    );
    assert_eq!(
        "negative sixty-fourth".to_string(),
        cs.render(Args::new(vec![Arg::Int(-64)])).unwrap()
    );

    let cs = ControlStr::from("~3,,, ,2:R").unwrap();
    assert_eq!(
        "1 22".to_string(),
        cs.render(Args::new(vec![Arg::Int(17)])).unwrap()
    );

    assert_eq!(
        "000001101 0000 0101".to_string(),
        ControlStr::from("~2,19,0, ,4:R")
            .unwrap()
            .render(Args::new(vec![Arg::Int(3333)]))
            .unwrap()
    );

    assert_eq!(
        "1101 0000 0101".to_string(),
        ControlStr::from("~2,8,0, ,4:R")
            .unwrap()
            .render(Args::new(vec![Arg::Int(3333)]))
            .unwrap()
    );

    assert_eq!(
        "6|55|35".to_string(),
        ControlStr::from("~10,,,|,2:R")
            .unwrap()
            .render(Args::new(vec![Arg::Int(65535)]))
            .unwrap()
    );
}

#[test]
fn test_reveal() {
    let case = "~a, ~a, ~a";
    let cs = ControlStr::from(case).unwrap();
    assert_eq!(
        "1, 2, 3".to_string(),
        cs.render(Args::new(vec![Arg::Int(1), Arg::Int(2), Arg::Int(3)]))
            .unwrap()
    );
    assert_eq!(
        "4, 5, 6".to_string(),
        cs.render(Args::new(vec![Arg::Int(4), Arg::Int(5), Arg::Int(6)]))
            .unwrap()
    );
}
