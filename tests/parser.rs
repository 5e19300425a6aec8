use projectasiago_mish::ast::{BinaryOperation, ErrorKind, Expression, ParseError};
use projectasiago_mish::grammar::expression;
use projectasiago_mish::letters::letter;
use projectasiago_mish::numeral::{binnumber, decnumber, hexnumber, octnumber};

#[test]
pub fn test_numbers() {
    // single digits
    assert_eq!(decnumber(b"1x"), Ok((&b"x"[..], Expression::DecNumber(vec!['1'], vec![]))));
    assert_eq!(hexnumber(b"0x1x"), Ok((&b"x"[..], Expression::HexNumber(vec!['1'], vec![]))));
    assert_eq!(octnumber(b"0o1x"), Ok((&b"x"[..], Expression::OctNumber(vec!['1'], vec![]))));
    assert_eq!(binnumber(b"0b1x"), Ok((&b"x"[..], Expression::BinNumber(vec!['1'], vec![]))));

    // double digits
    assert_eq!(decnumber(b"11x"), Ok((&b"x"[..], Expression::DecNumber(vec!['1', '1'], vec![]))));
    assert_eq!(hexnumber(b"0x11x"), Ok((&b"x"[..], Expression::HexNumber(vec!['1', '1'], vec![]))));
    assert_eq!(octnumber(b"0o11x"), Ok((&b"x"[..], Expression::OctNumber(vec!['1', '1'], vec![]))));
    assert_eq!(binnumber(b"0b11x"), Ok((&b"x"[..], Expression::BinNumber(vec!['1', '1'], vec![]))));

    // decimal places
    assert_eq!(decnumber(b"11.1x"), Ok((&b"x"[..], Expression::DecNumber(vec!['1', '1'], vec!['1']))));
    assert_eq!(hexnumber(b"0x11.1x"), Ok((&b"x"[..], Expression::HexNumber(vec!['1', '1'], vec!['1']))));
    assert_eq!(octnumber(b"0o11.1x"), Ok((&b"x"[..], Expression::OctNumber(vec!['1', '1'], vec!['1']))));
    assert_eq!(binnumber(b"0b11.1x"), Ok((&b"x"[..], Expression::BinNumber(vec!['1', '1'], vec!['1']))));

    // underscores
    assert_eq!(decnumber(b"1_1.1x"), Ok((&b"x"[..], Expression::DecNumber(vec!['1', '1'], vec!['1']))));
    assert_eq!(hexnumber(b"0x1_1.1x"), Ok((&b"x"[..], Expression::HexNumber(vec!['1', '1'], vec!['1']))));
    assert_eq!(octnumber(b"0o1_1.1x"), Ok((&b"x"[..], Expression::OctNumber(vec!['1', '1'], vec!['1']))));
    assert_eq!(binnumber(b"0b1_1.1x"), Ok((&b"x"[..], Expression::BinNumber(vec!['1', '1'], vec!['1']))));
    assert_eq!(decnumber(b"1_.1x"), Ok((&b"x"[..], Expression::DecNumber(vec!['1'], vec!['1']))));
    assert_eq!(hexnumber(b"0x1_.1x"), Ok((&b"x"[..], Expression::HexNumber(vec!['1'], vec!['1']))));
    assert_eq!(octnumber(b"0o1_.1x"), Ok((&b"x"[..], Expression::OctNumber(vec!['1'], vec!['1']))));
    assert_eq!(binnumber(b"0b1_.1x"), Ok((&b"x"[..], Expression::BinNumber(vec!['1'], vec!['1']))));
    assert_eq!(decnumber(b"1._1x"), Ok((&b"x"[..], Expression::DecNumber(vec!['1'], vec!['1']))));
    assert_eq!(hexnumber(b"0x1._1x"), Ok((&b"x"[..], Expression::HexNumber(vec!['1'], vec!['1']))));
    assert_eq!(octnumber(b"0o1._1x"), Ok((&b"x"[..], Expression::OctNumber(vec!['1'], vec!['1']))));
    assert_eq!(binnumber(b"0b1._1x"), Ok((&b"x"[..], Expression::BinNumber(vec!['1'], vec!['1']))));
    assert_eq!(decnumber(b"1.1_x"), Ok((&b"x"[..], Expression::DecNumber(vec!['1'], vec!['1']))));
    assert_eq!(hexnumber(b"0x1.1_x"), Ok((&b"x"[..], Expression::HexNumber(vec!['1'], vec!['1']))));
    assert_eq!(octnumber(b"0o1.1_x"), Ok((&b"x"[..], Expression::OctNumber(vec!['1'], vec!['1']))));
    assert_eq!(binnumber(b"0b1.1_x"), Ok((&b"x"[..], Expression::BinNumber(vec!['1'], vec!['1']))));

    // other tests
    assert_eq!(decnumber(b"12.x"), Ok((&b".x"[..], Expression::DecNumber(vec!['1', '2'], vec![]))));
    assert_eq!(decnumber(b"1 2x"), Ok((&b" 2x"[..], Expression::DecNumber(vec!['1'], vec![]))));
    assert_eq!(decnumber(b"ax"), Err(ParseError::Error(0, ErrorKind::OneOf)));

    // hex gets capitalized
    assert_eq!(hexnumber(b"0xax"), Ok((&b"x"[..], Expression::HexNumber(vec!['A'], vec![]))));
    assert_eq!(hexnumber(b"0xAx"), Ok((&b"x"[..], Expression::HexNumber(vec!['A'], vec![]))));
    assert_eq!(hexnumber(b"0x5x"), Ok((&b"x"[..], Expression::HexNumber(vec!['5'], vec![]))));
}

#[test]
pub fn test_letters() {
    assert_eq!(letter(b"a"), Ok((&b""[..], 'a')));
    assert_eq!(letter(b"0"), Err(ParseError::Error(0, ErrorKind::Alt)));
}

#[test]
pub fn test_expression() {
    assert_eq!(expression(b"12x"), Ok((&b"x"[..], Expression::DecNumber(vec!['1', '2'], vec![]))));
    assert_eq!(expression(b"(12)x"), Ok((&b"x"[..], Expression::DecNumber(vec!['1', '2'], vec![]))));
    assert_eq!(expression(b" 12 x"), Ok((&b"x"[..], Expression::DecNumber(vec!['1', '2'], vec![]))));
    assert_eq!(expression(b" ( 12 ) x"), Ok((&b"x"[..], Expression::DecNumber(vec!['1', '2'], vec![]))));
    assert_eq!(expression(b"0x12x"), Ok((&b"x"[..], Expression::HexNumber(vec!['1', '2'], vec![]))));
    assert_eq!(expression(b"(0x12)x"), Ok((&b"x"[..], Expression::HexNumber(vec!['1', '2'], vec![]))));
    assert_eq!(expression(b"(5"), Err(ParseError::Incomplete(1)));

    // adding
    assert_eq!(expression(b"2+4x"), Ok((&b"x"[..], Expression::BinaryOperation(
        Box::new(Expression::DecNumber(vec!['2'], vec![])),
        vec![BinaryOperation::Add(Expression::DecNumber(vec!['4'], vec![]))],
    ))));
    assert_eq!(expression(b" 2 + 4 x"), Ok((&b"x"[..], Expression::BinaryOperation(
        Box::new(Expression::DecNumber(vec!['2'], vec![])),
        vec![BinaryOperation::Add(Expression::DecNumber(vec!['4'], vec![]))],
    ))));

    // multiplying
    assert_eq!(expression(b"2*4x"), Ok((&b"x"[..], Expression::BinaryOperation(
        Box::new(Expression::DecNumber(vec!['2'], vec![])),
        vec![BinaryOperation::Multiply(Expression::DecNumber(vec!['4'], vec![]))],
    ))));
    assert_eq!(expression(b" 2 * 4 x"), Ok((&b"x"[..], Expression::BinaryOperation(
        Box::new(Expression::DecNumber(vec!['2'], vec![])),
        vec![BinaryOperation::Multiply(Expression::DecNumber(vec!['4'], vec![]))],
    ))));

    // multi
    assert_eq!(expression(b"2+4+8x"), Ok((&b"x"[..], Expression::BinaryOperation(
        Box::new(Expression::DecNumber(vec!['2'], vec![])),
        vec![
            BinaryOperation::Add(Expression::DecNumber(vec!['4'], vec![])),
            BinaryOperation::Add(Expression::DecNumber(vec!['8'], vec![])),
        ],
    ))));
    assert_eq!(expression(b"2*4*8x"), Ok((&b"x"[..], Expression::BinaryOperation(
        Box::new(Expression::DecNumber(vec!['2'], vec![])),
        vec![
            BinaryOperation::Multiply(Expression::DecNumber(vec!['4'], vec![])),
            BinaryOperation::Multiply(Expression::DecNumber(vec!['8'], vec![])),
        ],
    ))));

    // add and multiply
    assert_eq!(expression(b"2+4*8x"), Ok((&b"x"[..], Expression::BinaryOperation(
        Box::new(Expression::DecNumber(vec!['2'], vec![])),
        vec![BinaryOperation::Add(Expression::BinaryOperation(
            Box::new(Expression::DecNumber(vec!['4'], vec![])),
            vec![
                BinaryOperation::Multiply(Expression::DecNumber(vec!['8'], vec![])),
            ],
        ))],
    ))));
    assert_eq!(expression(b"2*4+8x"), Ok((&b"x"[..], Expression::BinaryOperation(
        Box::new(Expression::BinaryOperation(
            Box::new(Expression::DecNumber(vec!['2'], vec![])),
            vec![
                BinaryOperation::Multiply(Expression::DecNumber(vec!['4'], vec![])),
            ],
        )),
        vec![BinaryOperation::Add(Expression::DecNumber(vec!['8'], vec![]))],
    ))));
    assert_eq!(expression(b"2*4+8*16x"), Ok((&b"x"[..], Expression::BinaryOperation(
        Box::new(Expression::BinaryOperation(
            Box::new(Expression::DecNumber(vec!['2'], vec![])),
            vec![
                BinaryOperation::Multiply(Expression::DecNumber(vec!['4'], vec![])),
            ],
        )),
        vec![
            BinaryOperation::Add(Expression::BinaryOperation(
                Box::new(Expression::DecNumber(vec!['8'], vec![])),
                vec![
                    BinaryOperation::Multiply(Expression::DecNumber(vec!['1', '6'], vec![])),
                ],
            ))
        ],
    ))));
    assert_eq!(expression(b"2+4*8+16x"), Ok((&b"x"[..], Expression::BinaryOperation(
        Box::new(Expression::DecNumber(vec!['2'], vec![])),
        vec![
            BinaryOperation::Add(Expression::BinaryOperation(
                Box::new(Expression::DecNumber(vec!['4'], vec![])),
                vec![
                    BinaryOperation::Multiply(Expression::DecNumber(vec!['8'], vec![])),
                ],
            )),
            BinaryOperation::Add(Expression::DecNumber(vec!['1', '6'], vec![]))
        ],
    ))));
}
