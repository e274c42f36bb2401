use num_traits::ToPrimitive;
use synth::bignum::dec_cell_to_big_uint;
use synth::csv::is_cell_x;
use synth::csv::is_whitespace;
use synth::csv::parse_line;
use synth::csv::trim;

#[test]
fn test_trim() {
    assert_eq!(trim(b"1234"), b"1234");
    assert_eq!(trim(b" 1234"), b"1234");
    assert_eq!(trim(b"1234  "), b"1234");
    assert_eq!(trim(b"   1234   "), b"1234");
    assert_eq!(trim(b"   12 34   "), b"12 34");
    assert_eq!(trim(b"   12  34   "), b"12  34");
}

#[test]
fn test_big_uint_parse() {
    let inp = b"13476";
    let big = dec_cell_to_big_uint(inp).unwrap();
    assert_eq!(big.to_u64().unwrap(), 13476);
}

#[test]
fn trim_of_spaces_only_is_empty() {
    assert_eq!(trim(b""), b"");
    assert_eq!(trim(b" "), b"");
    assert_eq!(trim(b"     "), b"");
}

#[test]
fn trim_keeps_tabs() {
    assert_eq!(trim(b"\t12\t"), b"\t12\t");
    assert!(is_whitespace(b' '));
    assert!(!is_whitespace(b'\t'));
}

#[test]
fn decimal_cells() {
    assert_eq!(dec_cell_to_big_uint(b"").unwrap().to_u64().unwrap(), 0);
    assert_eq!(dec_cell_to_big_uint(b"0").unwrap().to_u64().unwrap(), 0);
    assert_eq!(dec_cell_to_big_uint(b"007").unwrap().to_u64().unwrap(), 7);
    assert_eq!(
        dec_cell_to_big_uint(b"18446744073709551615").unwrap().to_u64().unwrap(),
        u64::MAX
    );
    assert_eq!(
        dec_cell_to_big_uint(b"18446744073709551616").unwrap().to_u64_digits(),
        vec![0, 1]
    );
    assert!(dec_cell_to_big_uint(b"12a").is_none());
    assert!(dec_cell_to_big_uint(b"-1").is_none());
    assert!(dec_cell_to_big_uint(b"1 2").is_none());
    assert!(dec_cell_to_big_uint(b"x").is_none());
    assert!(dec_cell_to_big_uint(b"/").is_none());
    assert!(dec_cell_to_big_uint(b":").is_none());
}

#[test]
fn cell_x() {
    assert!(is_cell_x(b"x"));
    assert!(is_cell_x(b"X"));
    assert!(!is_cell_x(b"xx"));
    assert!(!is_cell_x(b""));
    assert!(!is_cell_x(b"0"));
}

fn line(data: &[u8]) -> (Vec<Vec<u8>>, usize) {
    let mut tokens = Vec::new();
    let n = parse_line(data, &mut tokens);
    (tokens.iter().map(|t| t.to_vec()).collect(), n)
}

#[test]
fn parse_line_splits_and_trims() {
    let (tokens, n) = line(b"a, b ,c\nrest");
    assert_eq!(tokens, vec![b"a".to_vec(), b"b".to_vec(), b"c".to_vec()]);
    assert_eq!(n, 8);
}

#[test]
fn parse_line_two_byte_line_end() {
    let (tokens, n) = line(b"a,b\r\n1,2\r\n");
    assert_eq!(tokens, vec![b"a".to_vec(), b"b".to_vec()]);
    assert_eq!(n, 5);
    let (tokens, n) = line(b"1,2\r\n");
    assert_eq!(tokens, vec![b"1".to_vec(), b"2".to_vec()]);
    assert_eq!(n, 5);
}

#[test]
fn parse_line_without_line_end() {
    let (tokens, n) = line(b"1, 2");
    assert_eq!(tokens, vec![b"1".to_vec(), b"2".to_vec()]);
    assert_eq!(n, 4);
}

#[test]
fn parse_line_line_end_at_end_of_data() {
    let (tokens, n) = line(b"1,2\n");
    assert_eq!(tokens, vec![b"1".to_vec(), b"2".to_vec()]);
    assert_eq!(n, 4);
}

#[test]
fn parse_line_empty_cells() {
    let (tokens, n) = line(b",,\n");
    assert_eq!(tokens, vec![b"".to_vec(), b"".to_vec(), b"".to_vec()]);
    assert_eq!(n, 3);
    let (tokens, n) = line(b"");
    assert_eq!(tokens, vec![b"".to_vec()]);
    assert_eq!(n, 0);
    let (tokens, n) = line(b"\n\nx");
    assert_eq!(tokens, vec![b"".to_vec()]);
    assert_eq!(n, 2);
}
