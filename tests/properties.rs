use pen_template::{
    block, conditional, interpolation, parse, Node, BLOCK_CLOSE, BLOCK_OPEN, INTERP, POSITIVE,
};

fn render(nodes: &[Node]) -> Vec<u8> {
    let mut out = Vec::new();
    for n in nodes {
        match n {
            Node::Literal { contents } => out.extend_from_slice(contents),
            Node::Interpolation { identifier } => {
                out.extend_from_slice(&INTERP);
                out.extend_from_slice(identifier);
                out.extend_from_slice(&INTERP);
            }
            Node::Conditional { identifier, children } => {
                out.extend_from_slice(&POSITIVE);
                out.extend_from_slice(identifier);
                out.extend_from_slice(&BLOCK_OPEN);
                out.extend(render(children));
                out.extend_from_slice(&BLOCK_CLOSE);
            }
        }
    }
    out
}

#[test]
fn markers_are_the_reserved_byte_sequences() {
    assert_eq!(&POSITIVE[..], "đź‘Ť".as_bytes());
    assert_eq!(&BLOCK_OPEN[..], "âś’ď¸Ź".as_bytes());
    assert_eq!(&BLOCK_CLOSE[..], "đź–‹".as_bytes());
    assert_eq!(&INTERP[..], "đź”¤".as_bytes());
}

#[test]
fn marker_free_input_is_one_literal() {
    let input = "plain text, 123 & more: ümlaut!".as_bytes();
    assert_eq!(parse(input), ("".as_bytes(), vec![Node::Literal { contents: input }]));
}

#[test]
fn partial_marker_bytes_are_literal_text() {
    let input: Vec<u8> = vec![b'a', 0xc4, 0x91, 0xc5, 0xba, b'b'];
    assert_eq!(parse(&input), ("".as_bytes(), vec![Node::Literal { contents: &input[..] }]));
}

#[test]
fn empty_input_gives_no_nodes() {
    assert_eq!(parse(b""), ("".as_bytes(), vec![]));
    assert_eq!(block(b""), None);
}

#[test]
fn round_trip_reproduces_input() {
    let input = [
        &b"blah"[..], &POSITIVE, b"foo", &BLOCK_OPEN, b"hi ", &INTERP, b"name", &INTERP,
        &POSITIVE, b"bar", &BLOCK_OPEN, &BLOCK_CLOSE, &BLOCK_CLOSE, b"tail", &BLOCK_CLOSE, b"x",
    ]
    .concat();
    let (rest, nodes) = parse(&input);
    let mut back = render(&nodes);
    back.extend_from_slice(rest);
    assert_eq!(back, input);
    assert_eq!(rest, &[&BLOCK_CLOSE[..], b"x"].concat()[..]);
}

#[test]
fn interpolation_with_non_alphabetic_identifier_fails() {
    let input = [&INTERP[..], b"ab1", &INTERP, b"rest"].concat();
    assert_eq!(interpolation(&input), None);
    assert_eq!(block(&input), None);
    assert_eq!(parse(&input), (&input[..], vec![]));
}

#[test]
fn interpolation_with_empty_identifier_fails() {
    let input = [&INTERP[..], &INTERP].concat();
    assert_eq!(interpolation(&input), None);
    assert_eq!(block(&input), None);
}

#[test]
fn unterminated_interpolation_fails() {
    let input = [&INTERP[..], b"name"].concat();
    assert_eq!(interpolation(&input), None);
}

#[test]
fn nesting_depth_is_preserved() {
    let input = [
        &POSITIVE[..], b"outer", &BLOCK_OPEN, &POSITIVE, b"inner", &BLOCK_OPEN, b"deep",
        &BLOCK_CLOSE, &BLOCK_CLOSE,
    ]
    .concat();
    assert_eq!(
        parse(&input),
        (
            "".as_bytes(),
            vec![Node::Conditional {
                identifier: b"outer",
                children: vec![Node::Conditional {
                    identifier: b"inner",
                    children: vec![Node::Literal { contents: b"deep" }],
                }],
            }]
        )
    );
}

#[test]
fn scenario_literal_only() {
    assert_eq!(parse(b"wooot"), ("".as_bytes(), vec![Node::Literal { contents: b"wooot" }]));
}

#[test]
fn scenario_literal_and_interpolation() {
    let input = [&b"wooot"[..], &INTERP, b"dang", &INTERP, b"oooo"].concat();
    assert_eq!(
        parse(&input),
        (
            "".as_bytes(),
            vec![
                Node::Literal { contents: b"wooot" },
                Node::Interpolation { identifier: b"dang" },
                Node::Literal { contents: b"oooo" },
            ]
        )
    );
}

#[test]
fn scenario_empty_conditional() {
    let input = [&POSITIVE[..], b"foo", &BLOCK_OPEN, &BLOCK_CLOSE].concat();
    assert_eq!(
        parse(&input),
        ("".as_bytes(), vec![Node::Conditional { identifier: b"foo", children: vec![] }])
    );
}

#[test]
fn scenario_conditional_with_text() {
    let input = [&POSITIVE[..], b"foo", &BLOCK_OPEN, b"hello world", &BLOCK_CLOSE].concat();
    assert_eq!(
        parse(&input),
        (
            "".as_bytes(),
            vec![Node::Conditional {
                identifier: b"foo",
                children: vec![Node::Literal { contents: b"hello world" }],
            }]
        )
    );
}

#[test]
fn scenario_text_then_conditional() {
    let input = [
        &b"blahblah"[..], &POSITIVE, b"foo", &BLOCK_OPEN, b"hello ", &INTERP, b"name", &INTERP,
        b"!", &BLOCK_CLOSE,
    ]
    .concat();
    assert_eq!(
        parse(&input),
        (
            "".as_bytes(),
            vec![
                Node::Literal { contents: b"blahblah" },
                Node::Conditional {
                    identifier: b"foo",
                    children: vec![
                        Node::Literal { contents: b"hello " },
                        Node::Interpolation { identifier: b"name" },
                        Node::Literal { contents: b"!" },
                    ],
                },
            ]
        )
    );
}

#[test]
fn unclosed_conditional_is_left_unparsed() {
    let input = [&b"ab"[..], &POSITIVE, b"foo", &BLOCK_OPEN, b"x"].concat();
    let (rest, nodes) = parse(&input);
    assert_eq!(nodes, vec![Node::Literal { contents: b"ab" }]);
    assert_eq!(rest, &input[2..]);
    assert_eq!(conditional(&input[2..]), None);
}

#[test]
fn conditional_without_identifier_fails() {
    let input = [&POSITIVE[..], &BLOCK_OPEN, &BLOCK_CLOSE].concat();
    assert_eq!(conditional(&input), None);
    assert_eq!(block(&input), None);
}

#[test]
fn stray_close_marker_is_left_over() {
    let input = [&b"ab"[..], &BLOCK_CLOSE, b"cd"].concat();
    assert_eq!(parse(&input), (&input[2..], vec![Node::Literal { contents: b"ab" }]));
}

#[test]
fn block_open_at_start_is_no_node() {
    let input = [&BLOCK_OPEN[..], b"x"].concat();
    assert_eq!(block(&input), None);
    assert_eq!(parse(&input), (&input[..], vec![]));
}

#[test]
fn interpolation_leaves_following_bytes() {
    let input = [&INTERP[..], b"Name", &INTERP, &INTERP].concat();
    assert_eq!(interpolation(&input), Some((&INTERP[..], &b"Name"[..])));
}
