use cl_format::Arg;
use cl_format::Args;
use cl_format::ControlStr;

fn render_one(control: &str, args: Vec<Arg>) -> String {
    ControlStr::from(control)
        .unwrap()
        .render(Args::new(args))
        .unwrap()
}

#[test]
fn test_radix_0() {
    let my_team = String::from("STeam");
    let my_stars = vec![
        String::from("Adam Lambert"),
        String::from("Queen"),
        String::from("snoop dogg"),
    ];
    let stars = Arg::List(my_stars.iter().map(|s| Arg::Text(s.clone())).collect());

    assert_eq!(
        String::from("my favorite team \"STeam\" will win the superbowl LVIII. And Adam Lambert, Queen, snoop dogg will in half time show"),
        render_one(
            "my favorite team ~S will win the superbowl ~@R. And ~{~a~^, ~} will in half time show",
            vec![Arg::Text(my_team.clone()), Arg::Int(58), stars.clone()],
        )
    );

    assert_eq!(
        String::from("my favorite team \"STeam\" will win the superbowl LVIII. And Adam Lambert, Queen, and snoop dogg will in half time show"),
        render_one(
            "my favorite team ~S will win the superbowl ~@R. And ~{~#[~;~a~;~a and ~a~:;~@{~a~#[~;, and ~:;, ~]~}~]~} will in half time show",
            vec![Arg::Text(my_team.clone()), Arg::Int(58), stars.clone()],
        )
    );

    assert_eq!(
        String::from("my favorite team \"STeam\" will win the superbowl LVIII. And Adam Lambert, Queen, and snoop dogg will in half time show. And the scores should be 38:35"),
        render_one(
            "my favorite team ~S will win the superbowl ~@R. And ~{~#[~;~a~;~a and ~a~:;~@{~a~#[~;, and ~:;, ~]~}~]~} will in half time show. And the scores should be ~d:~d",
            vec![
                Arg::Text(my_team),
                Arg::Int(58),
                stars,
                Arg::Int(38),
                Arg::Int(35),
            ],
        )
    );
}

#[test]
fn test_radix_1() {
    assert_eq!(
        render_one("this is binary: ~2R", vec![Arg::Int(8)]),
        "this is binary: 1000"
    );

    assert_eq!(
        render_one("this is hex: ~16R", vec![Arg::Int(8)]),
        "this is hex: 8"
    );

    assert_eq!(render_one("~7R", vec![Arg::Int(8)]), "11");

    assert_eq!(
        render_one("~2,19,0,,R", vec![Arg::Int(3333)]),
        "0000000110100000101"
    );

    assert_eq!(render_one("~2,7,0,,R", vec![Arg::Int(5)]), "0000101");

    assert_eq!(render_one("~2,,, ,4:R", vec![Arg::Int(20)]), "1 0100");
}
