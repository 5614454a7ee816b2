use magnetite::text::{parse_usize_token, split_bytes, trim_bytes, usize_to_bytes, usize_to_string};

#[test]
fn split_matches_std_split() {
    for s in [
        "", "a", "a b", "a  b", " a b ", "1 2 3", "\n", "x,y", "a b c d e",
    ] {
        let got: Vec<Vec<u8>> = split_bytes(&s.as_bytes().to_vec(), b' ');
        let expected: Vec<Vec<u8>> = s.split(' ').map(|t| t.as_bytes().to_vec()).collect();
        assert_eq!(got, expected, "split mismatch on {s:?}");
    }
}

#[test]
fn trim_matches_std_trim() {
    for s in ["", "a", "  a", "a  ", "\t a b \r\n", "   ", "a b"] {
        let got = trim_bytes(&s.as_bytes().to_vec());
        assert_eq!(got, s.trim().as_bytes().to_vec(), "trim mismatch on {s:?}");
    }
}

#[test]
fn parse_matches_std_parse() {
    for s in [
        "0", "7", "42", "007", "+3", "", "+", "-1", "1.5", "a", " 1", "1 ",
        "18446744073709551615", "18446744073709551616", "99999999999999999999999",
    ] {
        let got = parse_usize_token(&s.as_bytes().to_vec());
        let expected = s.parse::<usize>().ok();
        assert_eq!(got, expected, "parse mismatch on {s:?}");
    }
}

#[test]
fn decimal_rendering_matches_std() {
    for n in [0usize, 1, 9, 10, 99, 100, 12345, usize::MAX] {
        assert_eq!(usize_to_string(n), n.to_string());
        assert_eq!(usize_to_bytes(n), n.to_string().into_bytes());
    }
}
