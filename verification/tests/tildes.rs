use cl_format::CharKind;
use cl_format::RadixFlag;
use cl_format::RadixParams;
use cl_format::StarKind;
use cl_format::Tilde;
use cl_format::TildeKind;
use cl_format::TildeCondKind;
use cl_format::TildeLoopKind;
use cl_format::tildes::to_chars;

fn parse_at_start(text: &str) -> Tilde {
    let chars = to_chars(text);
    Tilde::parse(&chars, 0).unwrap().0
}

fn radix_params(
    radix: Option<u32>,
    mincol: Option<usize>,
    padchar: Option<char>,
    commachar: Option<char>,
    comma_interval: Option<usize>,
    flag: Option<RadixFlag>,
) -> RadixParams {
    RadixParams { radix, mincol, padchar, commachar, comma_interval, flag }
}

#[test]
fn test_parse_va() {
    assert_eq!(parse_at_start("~a"), Tilde::new(2, TildeKind::Va));
    assert_eq!(parse_at_start("~A"), Tilde::new(2, TildeKind::Va));
}

#[test]
fn test_scan_for_kind() {
    assert_eq!(Tilde::new(2, TildeKind::Va), parse_at_start("~a"));
}

#[test]
fn test_parse_loop() {
    assert_eq!(
        parse_at_start("~{~}"),
        Tilde::new(4, TildeKind::Loop(Vec::new(), TildeLoopKind::Nil))
    );

    assert_eq!(
        parse_at_start("~{a bc~}"),
        Tilde::new(
            8,
            TildeKind::Loop(
                vec![Tilde::new(4, TildeKind::Text(String::from("a bc")))],
                TildeLoopKind::Nil
            )
        )
    );

    assert_eq!(
        parse_at_start("~{a bc~a~}"),
        Tilde::new(
            10,
            TildeKind::Loop(
                vec![
                    Tilde::new(4, TildeKind::Text(String::from("a bc"))),
                    Tilde::new(2, TildeKind::Va),
                ],
                TildeLoopKind::Nil
            )
        )
    );

    assert_eq!(
        parse_at_start("~{~aa bc~a~}"),
        Tilde::new(
            12,
            TildeKind::Loop(
                vec![
                    Tilde::new(2, TildeKind::Va),
                    Tilde::new(4, TildeKind::Text(String::from("a bc"))),
                    Tilde::new(2, TildeKind::Va),
                ],
                TildeLoopKind::Nil
            )
        )
    );

    assert_eq!(
        parse_at_start("~@{~a~}"),
        Tilde::new(
            7,
            TildeKind::Loop(vec![Tilde::new(2, TildeKind::Va)], TildeLoopKind::At)
        )
    );

    assert_eq!(
        parse_at_start("~@{~a~^, ~}"),
        Tilde::new(
            11,
            TildeKind::Loop(
                vec![
                    Tilde::new(2, TildeKind::Va),
                    Tilde::new(2, TildeKind::LoopEnd),
                    Tilde::new(2, TildeKind::Text(", ".to_string())),
                ],
                TildeLoopKind::At
            )
        )
    );

    assert_eq!(
        parse_at_start("~{~a~:}"),
        Tilde::new(
            7,
            TildeKind::Loop(vec![Tilde::new(2, TildeKind::Va)], TildeLoopKind::NilColon)
        )
    );
}

#[test]
fn test_parse_float() {
    assert_eq!(
        parse_at_start("~$"),
        Tilde::new(2, TildeKind::Float(Some(String::new())))
    );
    assert_eq!(
        parse_at_start("~5$"),
        Tilde::new(3, TildeKind::Float(Some("5".to_string())))
    );
    assert_eq!(
        parse_at_start("~,5f"),
        Tilde::new(4, TildeKind::Float(Some(",5".to_string())))
    );
}

#[test]
fn test_parse_cond() {
    assert_eq!(
        parse_at_start("~[~]"),
        Tilde::new(
            4,
            TildeKind::Cond(
                vec![Tilde::new(0, TildeKind::VecTilde(vec![]))],
                TildeCondKind::Nil(false)
            )
        )
    );

    assert_eq!(
        parse_at_start("~[cero~]"),
        Tilde::new(
            8,
            TildeKind::Cond(
                vec![Tilde::new(
                    4,
                    TildeKind::VecTilde(vec![Tilde::new(
                        4,
                        TildeKind::Text(String::from("cero"))
                    )])
                )],
                TildeCondKind::Nil(false)
            )
        )
    );

    assert_eq!(
        parse_at_start("~[cero~;uno~;dos~]"),
        Tilde::new(
            18,
            TildeKind::Cond(
                vec![
                    Tilde::new(
                        4,
                        TildeKind::VecTilde(vec![Tilde::new(
                            4,
                            TildeKind::Text(String::from("cero"))
                        )])
                    ),
                    Tilde::new(
                        3,
                        TildeKind::VecTilde(vec![Tilde::new(
                            3,
                            TildeKind::Text(String::from("uno"))
                        )])
                    ),
                    Tilde::new(
                        3,
                        TildeKind::VecTilde(vec![Tilde::new(
                            3,
                            TildeKind::Text(String::from("dos"))
                        )])
                    ),
                ],
                TildeCondKind::Nil(false)
            )
        )
    );

    assert_eq!(
        parse_at_start("~[cero~;uno~;~]"),
        Tilde::new(
            15,
            TildeKind::Cond(
                vec![
                    Tilde::new(
                        4,
                        TildeKind::VecTilde(vec![Tilde::new(
                            4,
                            TildeKind::Text(String::from("cero"))
                        )])
                    ),
                    Tilde::new(
                        3,
                        TildeKind::VecTilde(vec![Tilde::new(
                            3,
                            TildeKind::Text(String::from("uno"))
                        )])
                    ),
                    Tilde::new(0, TildeKind::VecTilde(vec![])),
                ],
                TildeCondKind::Nil(false)
            )
        )
    );

    assert_eq!(
        parse_at_start("~:[cero~;uno~]"),
        Tilde::new(
            14,
            TildeKind::Cond(
                vec![
                    Tilde::new(
                        4,
                        TildeKind::VecTilde(vec![Tilde::new(
                            4,
                            TildeKind::Text(String::from("cero"))
                        )])
                    ),
                    Tilde::new(
                        3,
                        TildeKind::VecTilde(vec![Tilde::new(
                            3,
                            TildeKind::Text(String::from("uno"))
                        )])
                    ),
                ],
                TildeCondKind::Colon
            )
        )
    );

    assert_eq!(
        parse_at_start("~[cero~;uno~:;dos~]"),
        Tilde::new(
            19,
            TildeKind::Cond(
                vec![
                    Tilde::new(
                        4,
                        TildeKind::VecTilde(vec![Tilde::new(
                            4,
                            TildeKind::Text(String::from("cero"))
                        )])
                    ),
                    Tilde::new(
                        3,
                        TildeKind::VecTilde(vec![Tilde::new(
                            3,
                            TildeKind::Text(String::from("uno"))
                        )])
                    ),
                    Tilde::new(
                        3,
                        TildeKind::VecTilde(vec![Tilde::new(
                            3,
                            TildeKind::Text(String::from("dos"))
                        )])
                    ),
                ],
                TildeCondKind::Nil(true)
            )
        )
    );

    assert_eq!(
        parse_at_start("~#[NONE~;~a~;~a and ~a~:;~a, ~a~]"),
        Tilde::new(
            33,
            TildeKind::Cond(
                vec![
                    Tilde::new(
                        4,
                        TildeKind::VecTilde(vec![Tilde::new(
                            4,
                            TildeKind::Text(String::from("NONE"))
                        )])
                    ),
                    Tilde::new(
                        2,
                        TildeKind::VecTilde(vec![Tilde::new(2, TildeKind::Va)])
                    ),
                    Tilde::new(
                        9,
                        TildeKind::VecTilde(vec![
                            Tilde::new(2, TildeKind::Va),
                            Tilde::new(5, TildeKind::Text(String::from(" and "))),
                            Tilde::new(2, TildeKind::Va),
                        ])
                    ),
                    Tilde::new(
                        6,
                        TildeKind::VecTilde(vec![
                            Tilde::new(2, TildeKind::Va),
                            Tilde::new(2, TildeKind::Text(String::from(", "))),
                            Tilde::new(2, TildeKind::Va),
                        ])
                    ),
                ],
                TildeCondKind::Sharp
            )
        )
    );

    let chars = to_chars("~@[x = ~a ~]~@[y = ~a~]");
    let (first, next) = Tilde::parse(&chars, 0).unwrap();
    assert_eq!(
        first,
        Tilde::new(
            12,
            TildeKind::Cond(
                vec![Tilde::new(
                    7,
                    TildeKind::VecTilde(vec![
                        Tilde::new(4, TildeKind::Text("x = ".into())),
                        Tilde::new(2, TildeKind::Va),
                        Tilde::new(1, TildeKind::Text(" ".into())),
                    ])
                )],
                TildeCondKind::At
            )
        )
    );
    let (second, _) = Tilde::parse(&chars, next).unwrap();
    assert_eq!(
        second,
        Tilde::new(
            11,
            TildeKind::Cond(
                vec![Tilde::new(
                    6,
                    TildeKind::VecTilde(vec![
                        Tilde::new(4, TildeKind::Text("y = ".into())),
                        Tilde::new(2, TildeKind::Va),
                    ])
                )],
                TildeCondKind::At
            )
        )
    );
}

#[test]
fn test_parse_star() {
    assert_eq!(
        parse_at_start("~:*"),
        Tilde::new(3, TildeKind::Star(StarKind::Hop))
    );
    assert_eq!(
        parse_at_start("~*"),
        Tilde::new(2, TildeKind::Star(StarKind::Skip))
    );
}

#[test]
fn test_parse_tildes() {
    assert_eq!(parse_at_start("~9~"), Tilde::new(3, TildeKind::Tildes(9)));
    assert_eq!(parse_at_start("~0~"), Tilde::new(3, TildeKind::Tildes(0)));
}

#[test]
fn test_parse_standard() {
    assert_eq!(parse_at_start("~s"), Tilde::new(2, TildeKind::Standard));
    assert_eq!(parse_at_start("~S"), Tilde::new(2, TildeKind::Standard));
}

#[test]
fn test_parse_char() {
    assert_eq!(
        parse_at_start("~c"),
        Tilde::new(2, TildeKind::Char(CharKind::Nil))
    );
    assert_eq!(
        parse_at_start("~@c"),
        Tilde::new(3, TildeKind::Char(CharKind::At))
    );
}

#[test]
fn test_parse_radix() {
    assert_eq!(
        parse_at_start("~2,8,0, ,R"),
        Tilde::new(
            10,
            TildeKind::Radix(radix_params(Some(2), Some(8), Some('0'), Some(' '), None, None))
        )
    );

    assert_eq!(
        parse_at_start("~,,,,R"),
        Tilde::new(6, TildeKind::Radix(radix_params(None, None, None, None, None, None)))
    );

    assert_eq!(
        parse_at_start("~2,8,0, ,4:R"),
        Tilde::new(
            12,
            TildeKind::Radix(radix_params(
                Some(2),
                Some(8),
                Some('0'),
                Some(' '),
                Some(4),
                Some(RadixFlag::Colon)
            ))
        )
    );

    assert_eq!(
        parse_at_start("~2,8,0, ,10:R"),
        Tilde::new(
            13,
            TildeKind::Radix(radix_params(
                Some(2),
                Some(8),
                Some('0'),
                Some(' '),
                Some(10),
                Some(RadixFlag::Colon)
            ))
        )
    );

    assert_eq!(
        parse_at_start("~3,,, ,2:R"),
        Tilde::new(
            10,
            TildeKind::Radix(radix_params(
                Some(3),
                None,
                None,
                Some(' '),
                Some(2),
                Some(RadixFlag::Colon)
            ))
        )
    );

    assert_eq!(
        parse_at_start("~2:R"),
        Tilde::new(
            4,
            TildeKind::Radix(radix_params(Some(2), None, None, None, None, Some(RadixFlag::Colon)))
        )
    );

    assert_eq!(
        parse_at_start("~2R"),
        Tilde::new(3, TildeKind::Radix(radix_params(Some(2), None, None, None, None, None)))
    );

    assert_eq!(
        parse_at_start("~R"),
        Tilde::new(2, TildeKind::Radix(radix_params(None, None, None, None, None, None)))
    );

    assert_eq!(
        parse_at_start("~:R"),
        Tilde::new(
            3,
            TildeKind::Radix(radix_params(None, None, None, None, None, Some(RadixFlag::Colon)))
        )
    );

    assert_eq!(
        parse_at_start("~@R"),
        Tilde::new(
            3,
            TildeKind::Radix(radix_params(None, None, None, None, None, Some(RadixFlag::At)))
        )
    );

    assert_eq!(
        parse_at_start("~:@R"),
        Tilde::new(
            4,
            TildeKind::Radix(radix_params(None, None, None, None, None, Some(RadixFlag::AtColon)))
        )
    );
}
