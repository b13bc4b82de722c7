use zimple::config::{line_value, parse_config, split_lines};
use zimple::text::{parse_usize_range, push_decimal};

#[test]
fn default_config_is_read() {
    let text = b"ServerIP=localhost\nServerPort=8080\nHeaderSize=1024\nPageLoadCounter=F";
    let c = parse_config(text).expect("config");
    assert_eq!(c.address, b"localhost".to_vec());
    assert_eq!(c.port, b"8080".to_vec());
    assert_eq!(c.header_read_size, 1024);
    assert!(!c.page_counter_enabled);
}

#[test]
fn config_counter_switch_and_crlf() {
    let text = b"ServerIP=0.0.0.0\r\nServerPort=80\r\nHeaderSize=64\r\nPageLoadCounter=T\r\n";
    let c = parse_config(text).expect("config");
    assert_eq!(c.address, b"0.0.0.0".to_vec());
    assert_eq!(c.header_read_size, 64);
    assert!(c.page_counter_enabled);
    let other = b"a=b\nc=d\ne=5\nf=yes\nextra=line";
    assert!(!parse_config(other).unwrap().page_counter_enabled);
}

#[test]
fn config_errors() {
    assert_eq!(parse_config(b"a=b\nc=d\ne=5"), None);
    assert_eq!(parse_config(b"a=b\nc=d\ne=five\nf=T"), None);
    assert_eq!(parse_config(b"a=b\nc=d\ne=0\nf=T"), None);
    assert_eq!(parse_config(b"a=b\ncd\ne=5\nf=T"), None);
    assert_eq!(parse_config(b""), None);
    assert_eq!(parse_config(b"a=b\nc=d\ne=5\nf=T\nno equals here"), None);
    assert_eq!(parse_config(b"a=b\nc=d\n\ne=5\nf=T"), None);
}

#[test]
fn config_value_is_everything_after_first_equals() {
    assert_eq!(line_value(b"key=a=b"), Some(b"a=b".to_vec()));
    assert_eq!(line_value(b"key="), Some(Vec::new()));
    assert_eq!(line_value(b"key"), None);
}

#[test]
fn lines_are_split_like_a_reader() {
    assert_eq!(split_lines(b"a\r\nb\n\nc"), vec![b"a".to_vec(), b"b".to_vec(), Vec::new(), b"c".to_vec()]);
    assert_eq!(split_lines(b"a\n"), vec![b"a".to_vec()]);
    assert_eq!(split_lines(b""), Vec::<Vec<u8>>::new());
}

#[test]
fn decimal_round_trip() {
    for n in [0usize, 7, 10, 305, usize::MAX] {
        let mut out = b"x".to_vec();
        push_decimal(&mut out, n);
        assert_eq!(out, format!("x{}", n).into_bytes());
        assert_eq!(parse_usize_range(&out, 1, out.len()), Some(n));
    }
    let big = b"18446744073709551616";
    assert_eq!(parse_usize_range(big, 0, big.len()), None);
    assert_eq!(parse_usize_range(b"+", 0, 1), None);
    assert_eq!(parse_usize_range(b"12a", 0, 3), None);
    assert_eq!(parse_usize_range(b"12a", 0, 2), Some(12));
}
