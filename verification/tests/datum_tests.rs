//! Round trips and null semantics of the value-marshaling layer.

use pg_extend::pg_alloc::MemPool;
use pg_extend::pg_datum::{
    make_array_datum, ConversionError, Float4, Float8, PgDatum, TryFromPgDatum,
};
use pg_extend::bytea::ByteA;
use pg_extend::text::Text;

#[test]
fn test_i16_round_trip() {
    let mut pool = MemPool::startup();
    for v in [0i16, 1, -1, i16::MIN, i16::MAX, 1234, -4321] {
        let d = PgDatum::from(v);
        assert_eq!(<i16 as TryFromPgDatum>::try_from(&mut pool, d), Ok(v));
    }
}

#[test]
fn test_i32_round_trip() {
    let mut pool = MemPool::startup();
    for v in [0i32, 1, -1, i32::MIN, i32::MAX, 2147483647, -77] {
        let d = PgDatum::from(v);
        assert_eq!(<i32 as TryFromPgDatum>::try_from(&mut pool, d), Ok(v));
    }
}

#[test]
fn test_i64_round_trip() {
    let mut pool = MemPool::startup();
    for v in [0i64, 1, -1, i64::MIN, i64::MAX, 1 << 40] {
        let d = PgDatum::from(v);
        assert_eq!(<i64 as TryFromPgDatum>::try_from(&mut pool, d), Ok(v));
    }
}

#[test]
fn test_float_round_trip() {
    let mut pool = MemPool::startup();
    for f in [0.0f32, 1.5, -2.25, f32::INFINITY, f32::MIN_POSITIVE] {
        let v = Float4 { bits: f.to_bits() };
        let d = PgDatum::from(v);
        let back = <Float4 as TryFromPgDatum>::try_from(&mut pool, d).unwrap();
        assert_eq!(f32::from_bits(back.bits), f);
    }
    for f in [0.0f64, 6.6, -1e300] {
        let v = Float8 { bits: f.to_bits() };
        let d = PgDatum::from(v);
        let back = <Float8 as TryFromPgDatum>::try_from(&mut pool, d).unwrap();
        assert_eq!(f64::from_bits(back.bits), f);
    }
}

#[test]
fn test_null_word_fails_non_optional() {
    let mut pool = MemPool::startup();
    let null = PgDatum::from_raw(0, true);
    assert_eq!(<i16 as TryFromPgDatum>::try_from(&mut pool, null), Err(ConversionError::Null));
    assert_eq!(<i32 as TryFromPgDatum>::try_from(&mut pool, null), Err(ConversionError::Null));
    assert_eq!(<i64 as TryFromPgDatum>::try_from(&mut pool, null), Err(ConversionError::Null));
    assert_eq!(<Float4 as TryFromPgDatum>::try_from(&mut pool, null), Err(ConversionError::Null));
    assert_eq!(<Float8 as TryFromPgDatum>::try_from(&mut pool, null), Err(ConversionError::Null));
    assert_eq!(<String as TryFromPgDatum>::try_from(&mut pool, null), Err(ConversionError::Null));
    assert_eq!(
        <Vec<i32> as TryFromPgDatum>::try_from(&mut pool, null),
        Err(ConversionError::Null)
    );
}

#[test]
fn test_null_word_is_absent_for_optional() {
    let mut pool = MemPool::startup();
    let null = PgDatum::from_raw(7, true);
    assert_eq!(<Option<i32> as TryFromPgDatum>::try_from(&mut pool, null), Ok(None));
    assert_eq!(<Option<i64> as TryFromPgDatum>::try_from(&mut pool, null), Ok(None));
    let d = PgDatum::from(5i32);
    assert_eq!(<Option<i32> as TryFromPgDatum>::try_from(&mut pool, d), Ok(Some(5)));
}

#[test]
fn test_i32_max_round_trips_exactly() {
    let mut pool = MemPool::startup();
    let d = PgDatum::from(2147483647i32);
    assert_eq!(<i32 as TryFromPgDatum>::try_from(&mut pool, d), Ok(2147483647));
}

#[test]
fn test_datum_null_flag() {
    let d = PgDatum::from_raw(42, false);
    assert!(!d.is_null());
    assert_eq!(d.into_datum(), 42);
    let n = PgDatum::from_raw(42, true);
    assert!(n.is_null());
    assert_eq!(n.into_datum(), 0);
    assert_eq!(PgDatum::from_option(Some(9)).into_datum(), 9);
    assert!(PgDatum::from_option(None).is_null());
}

#[test]
fn test_text_round_trip() {
    let mut pool = MemPool::startup();
    let text = Text::from_string(&mut pool, "hello world!");
    let d = text.into_datum();
    let s = <String as TryFromPgDatum>::try_from(&mut pool, d).unwrap();
    assert_eq!(s, "hello world!");
}

#[test]
fn test_text_empty_and_len() {
    let mut pool = MemPool::startup();
    let text = Text::from_string(&mut pool, "");
    assert!(text.is_empty(&pool));
    assert_eq!(text.len(&pool), 0);
    let text2 = Text::from_string(&mut pool, "abc");
    assert!(!text2.is_empty(&pool));
    assert_eq!(text2.len(&pool), 3);
}

#[test]
fn test_string_invalid_utf8() {
    let mut pool = MemPool::startup();
    // A lone continuation byte is not valid UTF-8.
    let b = ByteA::from_bytes(&mut pool, &vec![0x80u8, 0x41]);
    let d = PgDatum(Some(b.into_ptr() as u64));
    assert_eq!(<String as TryFromPgDatum>::try_from(&mut pool, d), Err(ConversionError::Utf8));
}

#[test]
fn test_int_array_round_trip() {
    let mut pool = MemPool::startup();
    let words = vec![1u64, 2, 3];
    let nulls = vec![false, false, false];
    let d = make_array_datum(&mut pool, 23, 1, &words, &nulls);
    let v = <Vec<i32> as TryFromPgDatum>::try_from(&mut pool, d).unwrap();
    assert_eq!(v, vec![1, 2, 3]);
}

#[test]
fn test_big_and_small_int_arrays() {
    let mut pool = MemPool::startup();
    let words = vec![10u64, (-7i64) as u64];
    let nulls = vec![false, false];
    let d = make_array_datum(&mut pool, 20, 1, &words, &nulls);
    let v = <Vec<i64> as TryFromPgDatum>::try_from(&mut pool, d).unwrap();
    assert_eq!(v, vec![10, -7]);

    let words = vec![1u64, 2, 3];
    let nulls = vec![false, false, false];
    let d = make_array_datum(&mut pool, 21, 1, &words, &nulls);
    let v = <Vec<i16> as TryFromPgDatum>::try_from(&mut pool, d).unwrap();
    assert_eq!(v, vec![1, 2, 3]);
}

#[test]
fn test_float_array_sums() {
    let mut pool = MemPool::startup();
    let values = [1.1f32, 2.2, 3.3];
    let words: Vec<u64> = values.iter().map(|f| f.to_bits() as u64).collect();
    let nulls = vec![false; 3];
    let d = make_array_datum(&mut pool, 700, 1, &words, &nulls);
    let v = <Vec<Float4> as TryFromPgDatum>::try_from(&mut pool, d).unwrap();
    let sum: f32 = v.iter().map(|x| f32::from_bits(x.bits)).sum();
    assert_eq!(format!("{:.1}", sum), "6.6");

    let values = [1.1f64, 2.2, 3.3];
    let words: Vec<u64> = values.iter().map(|f| f.to_bits()).collect();
    let d = make_array_datum(&mut pool, 701, 1, &words, &nulls);
    let v = <Vec<Float8> as TryFromPgDatum>::try_from(&mut pool, d).unwrap();
    let sum: f64 = v.iter().map(|x| f64::from_bits(x.bits)).sum();
    assert_eq!(format!("{:.1}", sum), "6.6");
}

#[test]
fn test_two_dimensional_array_rejected() {
    let mut pool = MemPool::startup();
    let words = vec![1u64, 2, 3, 4];
    let nulls = vec![false; 4];
    let d = make_array_datum(&mut pool, 23, 2, &words, &nulls);
    assert_eq!(
        <Vec<i32> as TryFromPgDatum>::try_from(&mut pool, d),
        Err(ConversionError::UnsupportedDimensionality)
    );
}

#[test]
fn test_unknown_element_type_rejected() {
    let mut pool = MemPool::startup();
    let words = vec![1u64];
    let nulls = vec![false];
    let d = make_array_datum(&mut pool, 600, 1, &words, &nulls);
    assert_eq!(
        <Vec<i32> as TryFromPgDatum>::try_from(&mut pool, d),
        Err(ConversionError::InvalidEncoding)
    );
}

#[test]
fn test_empty_array() {
    let mut pool = MemPool::startup();
    let d = make_array_datum(&mut pool, 23, 1, &vec![], &vec![]);
    let v = <Vec<i32> as TryFromPgDatum>::try_from(&mut pool, d).unwrap();
    assert!(v.is_empty());
}
