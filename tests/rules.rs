use pen_template::{block, conditional, interpolation, multi, parse, Node};

#[test]
fn interpolation_works() {
    let r = interpolation("đź”¤defghđź”¤h".as_bytes());
    assert_eq!(r, Some(("h".as_bytes(), "defgh".as_bytes())));
}

#[test]
fn block_works() {
    assert_eq!(
        block("wooot".as_bytes()),
        Some(("".as_bytes(), Node::Literal { contents: "wooot".as_bytes() }))
    );
}

#[test]
fn parse_works() {
    assert_eq!(
        parse("woootđź”¤dangđź”¤oooo".as_bytes()),
        (
            "".as_bytes(),
            vec![
                Node::Literal { contents: "wooot".as_bytes() },
                Node::Interpolation { identifier: "dang".as_bytes() },
                Node::Literal { contents: "oooo".as_bytes() },
            ]
        )
    );
}

#[test]
fn conditional_works() {
    assert_eq!(
        conditional("đź‘Ťfooâś’ď¸Źđź–‹".as_bytes()),
        Some(("".as_bytes(), ("đź‘Ť".as_bytes(), "foo".as_bytes(), vec![])))
    );
    assert_eq!(
        conditional("đź‘Ťfooâś’ď¸Źhello worldđź–‹".as_bytes()),
        Some((
            "".as_bytes(),
            (
                "đź‘Ť".as_bytes(),
                "foo".as_bytes(),
                vec![Node::Literal { contents: "hello world".as_bytes() }]
            )
        ))
    );
}

#[test]
fn nested_works() {
    assert_eq!(
        multi("blahblahđź‘Ťfooâś’ď¸Źhello đź”¤nameđź”¤!đź–‹".as_bytes()),
        (
            "".as_bytes(),
            vec![
                Node::Literal { contents: "blahblah".as_bytes() },
                Node::Conditional {
                    identifier: "foo".as_bytes(),
                    children: vec![
                        Node::Literal { contents: "hello ".as_bytes() },
                        Node::Interpolation { identifier: "name".as_bytes() },
                        Node::Literal { contents: "!".as_bytes() },
                    ]
                },
            ]
        )
    );
}
