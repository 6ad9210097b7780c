use cl_format::Arg;
use cl_format::Args;
use cl_format::ControlStr;

fn run(control: &str, args: Vec<Arg>) -> Result<String, cl_format::TildeError> {
    ControlStr::from(control).unwrap().render(Args::new(args))
}

fn int_list(ns: &[i64]) -> Arg {
    Arg::List(ns.iter().map(|n| Arg::Int(*n)).collect())
}

#[test]
fn play_groud_with_macro_0() {
    let a = run("~a, ~a, ~a", vec![Arg::Int(1), Arg::Int(2), Arg::Int(3)]);
    assert_eq!(String::from("1, 2, 3"), a.unwrap());

    let s = String::from("abc");
    let a = run(
        "~a, ~a, ~a, ~S",
        vec![Arg::Int(1), Arg::Int(2), Arg::Int(3), Arg::Text(s.clone())],
    );
    assert_eq!(String::from("1, 2, 3, \"abc\""), a.unwrap());

    let a = run(
        "start ~a, ~a, ~a, ~a, here",
        vec![Arg::Int(1), Arg::Int(2), Arg::Int(3), Arg::Text(s)],
    );
    assert_eq!(String::from("start 1, 2, 3, abc, here"), a.unwrap());

    let a = run(
        "~a, ~a, ~a, ~{~a,~}",
        vec![Arg::Int(1), Arg::Int(2), Arg::Int(3), int_list(&[1, 2, 3])],
    );
    assert_eq!(String::from("1, 2, 3, 1,2,3,"), a.unwrap());

    let a = run(
        "~a, ~a, ~a, ~{~a~^,~}",
        vec![Arg::Int(1), Arg::Int(2), Arg::Int(3), int_list(&[1, 2, 3])],
    );
    assert_eq!(String::from("1, 2, 3, 1,2,3"), a.unwrap());
}

#[test]
fn play_groud_with_macro_1() {
    let a = run("The value is: ~a", vec![Arg::Int(1)]);
    assert_eq!(String::from("The value is: 1"), a.unwrap());

    let a = run("The value is: ~a", vec![Arg::Text(String::from("foo"))]);
    assert_eq!(String::from("The value is: foo"), a.unwrap());

    let a = run("The value is:\n ~a", vec![int_list(&[1, 2, 3])]);
    assert_eq!(String::from("The value is:\n [1, 2, 3]"), a.unwrap());

    let a = run("The value is:\n ~a", vec![int_list(&[1, 2, 3])]);
    assert_eq!(String::from("The value is:\n [1, 2, 3]"), a.unwrap());

    let a = run("~@{~a~^, ~}", vec![Arg::Int(1), Arg::Int(2), Arg::Int(3)]);
    assert_eq!(String::from("1, 2, 3"), a.unwrap());

    let a = run("~{~a~#[~;, and ~:;, ~]~}", vec![int_list(&[1, 2, 3])]);
    assert_eq!(String::from("1, 2, and 3"), a.unwrap());

    let a = run("~{~a~#[~;, and ~:;, ~]~}", vec![int_list(&[1, 2, 3, 4])]);
    assert_eq!(String::from("1, 2, 3, and 4"), a.unwrap());

    let a = run("~@{~a~#[~;, and ~:;, ~]~}", vec![Arg::Int(1)]);
    assert_eq!(String::from("1"), a.unwrap());

    let a = run("~@{~a~#[~;, and ~:;, ~]~}", vec![Arg::Int(1), Arg::Int(2)]);
    assert_eq!(String::from("1, and 2"), a.unwrap());

    let a = run(
        "~@{~a~#[~;, and ~:;, ~]~}",
        vec![Arg::Int(1), Arg::Int(2), Arg::Int(3), Arg::Int(4)],
    );
    assert_eq!(String::from("1, 2, 3, and 4"), a.unwrap());

    let a = run(
        "~{~#[empty~;~a~;~a and ~a~:;~@{~a~#[~;, and ~:;, ~]~}~]~}",
        vec![int_list(&[])],
    );
    assert_eq!(String::from(""), a.unwrap());

    let a = run(
        "~{~#[empty~;~a~;~a and ~a~:;~@{~a~#[~;, and ~:;, ~]~}~]~:}",
        vec![int_list(&[])],
    );
    assert_eq!(String::from("empty"), a.unwrap());
}

#[test]
fn play_around_with_hands() {
    let cs = ControlStr::from("~{~#[~;~a~;~a and ~a~:;~@{~a~#[~;, and ~:;, ~]~}~]~}").unwrap();

    let mut list: Vec<i64> = vec![];
    assert_eq!(
        cs.render(Args::new(vec![int_list(&list)])).unwrap(),
        "".to_string()
    );

    list.push(1);
    assert_eq!(
        cs.render(Args::new(vec![int_list(&list)])).unwrap(),
        "1".to_string()
    );

    list.push(2);
    assert_eq!(
        cs.render(Args::new(vec![int_list(&list)])).unwrap(),
        "1 and 2".to_string()
    );

    list.push(3);
    assert_eq!(
        cs.render(Args::new(vec![int_list(&list)])).unwrap(),
        "1, 2, and 3".to_string()
    );

    list.push(4);
    assert_eq!(
        cs.render(Args::new(vec![int_list(&list)])).unwrap(),
        "1, 2, 3, and 4".to_string()
    );

    let cs = ControlStr::from(
        "print the list: ~{~#[<empty>~;~a~;~a and ~a~:;~@{~a~#[~;, and ~:;, ~]~}~]~:};",
    )
    .unwrap();
    assert_eq!(
        cs.render(Args::new(vec![int_list(&list)])).unwrap(),
        "print the list: 1, 2, 3, and 4;".to_string()
    );

    list.clear();
    assert_eq!(
        cs.render(Args::new(vec![int_list(&list)])).unwrap(),
        "print the list: <empty>;".to_string()
    );
}
