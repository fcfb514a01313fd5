use std::collections::HashMap;

use sicmulador::norm_n;
use sicmulador::parsing::ParseError;

#[test]
fn test_norm() {
    let pairs = HashMap::from([
        ("0x0000", 0),
        ("0x0001", 1),
        ("0x0010", 16),
        ("0x0015", 21),
        ("0x0020", 16 * 2),
        ("0", 0),
        ("1", 1),
        ("10", 10),
        ("15", 15),
        ("20", 20),
    ]);
    for (k, v) in pairs {
        assert_eq!(norm_n(k), Ok(v));
    }
}

#[test]
fn norm_negative_and_commas() {
    assert_eq!(norm_n("-1"), Ok(0xFFFF));
    assert_eq!(norm_n("-32768"), Ok(0x8000));
    assert_eq!(norm_n("1,000"), Ok(1000));
    assert_eq!(norm_n("0xFFFF"), Ok(0xFFFF));
    assert_eq!(norm_n("0xabCD"), Ok(0xABCD));
}

#[test]
fn norm_rejects_malformed() {
    assert_eq!(norm_n(""), Err(ParseError::ParseInt));
    assert_eq!(norm_n("0x"), Err(ParseError::ParseInt));
    assert_eq!(norm_n("12a"), Err(ParseError::ParseInt));
    assert_eq!(norm_n("-"), Err(ParseError::ParseInt));
    assert_eq!(norm_n("65536"), Err(ParseError::ParseInt));
    assert_eq!(norm_n("0x10000"), Err(ParseError::ParseInt));
    assert_eq!(norm_n("--5"), Err(ParseError::ParseInt));
}
