use clickhouse_sql_parser::{
    column_comment, correct_identifier, delim_digit, is_sql_identifier, raw_string_quoted,
    sql_identifier, sql_keyword, statement_terminator, ws_sep_comma,
};
use nom::bytes::complete::{tag, tag_no_case, take_until, take_while1};
use nom::character::complete::{digit1, multispace0, multispace1};
use nom::sequence::{delimited, tuple};
use nom::IResult;

const ALPHABET: [u8; 12] =
    [b' ', b'\n', b'\r', b',', b'(', b')', b'1', b'a', b'Z', b'`', b'\'', b';'];

fn inputs(max: usize) -> Vec<Vec<u8>> {
    let mut all: Vec<Vec<u8>> = vec![Vec::new()];
    let mut last: Vec<Vec<u8>> = vec![Vec::new()];
    for _ in 0..max {
        let mut next = Vec::new();
        for prefix in &last {
            for b in ALPHABET {
                let mut s = prefix.clone();
                s.push(b);
                next.push(s);
            }
        }
        all.extend(next.iter().cloned());
        last = next;
    }
    all
}

fn same<E>(input: &[u8], ours: Result<(&[u8], &[u8]), E>, theirs: IResult<&[u8], &[u8]>) {
    match (ours, theirs) {
        (Ok(a), Ok(b)) => assert_eq!(a, b, "on {:?}", input),
        (Err(_), Err(_)) => {}
        _ => panic!("one reads {:?} and the other does not", input),
    }
}

#[test]
fn comma_as_the_recognisers_read_it() {
    for input in inputs(4) {
        let theirs = delimited(multispace0, tag(","), multispace0)(&input[..]);
        same(&input, ws_sep_comma(&input), theirs);
    }
}

#[test]
fn digits_in_brackets_as_the_recognisers_read_them() {
    for input in inputs(4) {
        let theirs = delimited(tag("("), digit1, tag(")"))(&input[..]);
        same(&input, delim_digit(&input), theirs);
    }
}

#[test]
fn quoted_identifiers_as_the_recognisers_read_them() {
    for input in inputs(4) {
        if input.first() != Some(&b'`') {
            continue;
        }
        let theirs = delimited(tag("`"), take_while1(|c| c != b'`'), tag("`"))(&input[..]);
        same(&input, sql_identifier(&input), theirs);
    }
}

#[test]
fn bare_identifiers_as_the_recognisers_read_them() {
    for input in inputs(4) {
        if sql_keyword(&input).is_ok() {
            assert!(correct_identifier(&input).is_err());
            continue;
        }
        let theirs = take_while1(is_sql_identifier)(&input[..]);
        same(&input, correct_identifier(&input), theirs);
    }
}

#[test]
fn comments_as_the_recognisers_read_them() {
    for tail in inputs(3) {
        let mut input = b"comment '".to_vec();
        input.extend(&tail);
        let theirs: IResult<&[u8], (&[u8], &[u8], &[u8])> = tuple((
            tag_no_case("COMMENT"),
            multispace0,
            delimited(tag("'"), take_until("'"), tag("'")),
        ))(&input[..]);
        match (column_comment(&input), theirs) {
            (Ok((rest, text)), Ok((r, (_, _, t)))) => {
                assert_eq!(rest, r);
                assert_eq!(text.as_bytes(), t);
            }
            (Err(_), Err(_)) => {}
            _ => panic!("one reads {:?} and the other does not", input),
        }
    }
}

#[test]
fn white_space_is_needed_where_the_recognisers_need_it() {
    for input in inputs(3) {
        let theirs: IResult<&[u8], &[u8]> = multispace1(&input[..]);
        let mut text = b"`x`".to_vec();
        text.extend(&input);
        text.extend(b"Int8");
        let ours = clickhouse_sql_parser::field_specification(&text);
        if theirs.is_ok() && theirs.unwrap().0.is_empty() {
            assert!(ours.is_ok(), "on {:?}", text);
        } else {
            assert!(ours.is_err(), "on {:?}", text);
        }
    }
}

#[test]
fn terminators() {
    assert_eq!(statement_terminator(b" ; \n x").unwrap().0, b"x");
    assert_eq!(statement_terminator(b"\r\n").unwrap().0, b"");
    assert_eq!(statement_terminator(b"").unwrap().0, b"");
    assert!(statement_terminator(b"x").is_err());
}

#[test]
fn strings_end_at_the_first_lone_quote() {
    for body in inputs(3) {
        let mut input = b"'".to_vec();
        input.extend(&body);
        input.extend(b"'");
        let read = raw_string_quoted(&input, true);
        let lone = body.iter().filter(|b| **b == b'\'').count();
        if lone == 0 {
            let (rest, value) = read.unwrap();
            assert!(rest.is_empty());
            assert_eq!(value, body);
        }
    }
}
