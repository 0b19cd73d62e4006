use conduit::numstr::{parse_u64, u64_to_string};
use conduit::query::{param_value, parse_query};

#[test]
fn decimal_round_trip_test() {
    assert_eq!(u64_to_string(0), "0");
    assert_eq!(u64_to_string(7), "7");
    assert_eq!(u64_to_string(12345), "12345");
    assert_eq!(u64_to_string(u64::MAX), "18446744073709551615");
    for n in [0u64, 1, 9, 10, 42, 1000, u64::MAX] {
        assert_eq!(parse_u64(&u64_to_string(n)), Some(n));
    }
}

#[test]
fn parse_u64_rejects_test() {
    assert_eq!(parse_u64(""), None);
    assert_eq!(parse_u64("12a"), None);
    assert_eq!(parse_u64("-3"), None);
    assert_eq!(parse_u64("18446744073709551616"), None);
    assert_eq!(parse_u64("00042"), Some(42));
}

#[test]
fn query_pairs_test() {
    let ps = parse_query("tag=dragons&limit=7&offset=2");
    assert_eq!(ps.len(), 3);
    assert_eq!(ps[0], ("tag".to_string(), "dragons".to_string()));
    assert_eq!(ps[1], ("limit".to_string(), "7".to_string()));
    assert_eq!(ps[2], ("offset".to_string(), "2".to_string()));
}

#[test]
fn query_last_value_wins_test() {
    let ps = parse_query("a=1&b=2&a=3");
    assert_eq!(param_value(&ps, &"a".to_string()), Some("3".to_string()));
    assert_eq!(param_value(&ps, &"b".to_string()), Some("2".to_string()));
    assert_eq!(param_value(&ps, &"c".to_string()), None);
}

#[test]
fn query_odd_shapes_test() {
    let ps = parse_query("flag&x=a=b");
    assert_eq!(param_value(&ps, &"flag".to_string()), Some("".to_string()));
    assert_eq!(param_value(&ps, &"x".to_string()), Some("a=b".to_string()));

    let empty = parse_query("");
    assert_eq!(empty.len(), 1);
    assert_eq!(empty[0], ("".to_string(), "".to_string()));
}
