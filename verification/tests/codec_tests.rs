use short_link::codec::{decode_base62, encode_base62, format_usize};
use short_link::errors::{AppError, ErrorKind};
use short_link::hashing::calculate_sha256;

#[test]
fn sha_to_256() {
    let result = calculate_sha256("abcd");
    assert_eq!(result, "iNQmb9TmM40TuEX88olXnSCciXgjuSF9o-Fhk28DFYk");
}

#[test]
fn encode_zero_and_63() {
    assert_eq!(encode_base62(63), "11");
    assert_eq!(encode_base62(0), "0");
}

#[test]
fn encode_known_values() {
    assert_eq!(encode_base62(1), "1");
    assert_eq!(encode_base62(61), "z");
    assert_eq!(encode_base62(62), "10");
    assert_eq!(encode_base62(1687704559678), "TiCiKz8");
}

#[test]
fn decode_known_values() {
    assert_eq!(decode_base62("GW"), Ok(1024));
    assert_eq!(decode_base62("abcd"), Ok(8724431));
    assert_eq!(decode_base62("0"), Ok(0));
    assert_eq!(decode_base62("z"), Ok(61));
    assert_eq!(decode_base62(""), Ok(0));
}

#[test]
fn round_trip_decode_of_encode() {
    for n in [0usize, 1, 5, 61, 62, 63, 3843, 3844, 8724431, 1687704559678, usize::MAX] {
        let code = encode_base62(n);
        assert_eq!(decode_base62(&code), Ok(n));
    }
}

#[test]
fn round_trip_encode_of_decode() {
    for s in ["0", "z", "10", "11", "GW", "abcd", "TiCiKz8"] {
        let n = decode_base62(s).unwrap();
        assert_eq!(encode_base62(n), s);
    }
}

#[test]
fn decode_rejects_foreign_characters() {
    assert_eq!(
        decode_base62("ab!"),
        Err(AppError { kind: ErrorKind::InvalidCode('!') })
    );
    // the rightmost offending character is the one named
    assert_eq!(
        decode_base62("a!b@c"),
        Err(AppError { kind: ErrorKind::InvalidCode('@') })
    );
    assert_eq!(
        decode_base62("-1"),
        Err(AppError { kind: ErrorKind::InvalidCode('-') })
    );
    assert_eq!(
        decode_base62("caf\u{e9}"),
        Err(AppError { kind: ErrorKind::InvalidCode('\u{e9}') })
    );
}

#[test]
fn decode_rejects_overflow() {
    // twelve of the highest symbol exceeds the machine word
    assert_eq!(
        decode_base62("zzzzzzzzzzzz"),
        Err(AppError { kind: ErrorKind::CodeOverflow })
    );
    // the largest representable value still parses
    let max_code = encode_base62(usize::MAX);
    assert_eq!(decode_base62(&max_code), Ok(usize::MAX));
}

#[test]
fn decimal_rendering() {
    assert_eq!(format_usize(0), "0");
    assert_eq!(format_usize(5432), "5432");
    assert_eq!(format_usize(6379), "6379");
    assert_eq!(format_usize(18446744073709551615), "18446744073709551615");
}
