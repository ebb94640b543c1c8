//! Type names, declaration options, logging levels, booleans, and the
//! load-time descriptor.

use pg_extend::pg_bool::Bool;
use pg_extend::pg_datum::PgDatum;
use pg_extend::pg_error::{log, Level, LogSink};
use pg_extend::pg_type::{sql_function_options, sql_param_list, usize_to_string, PgType};
use pg_extend::{get_args, pg_magic};

#[test]
fn test_type_names() {
    assert_eq!(PgType::Int2.as_str(), "int2");
    assert_eq!(PgType::Int4.as_str(), "int4");
    assert_eq!(PgType::Int8.as_str(), "int8");
    assert_eq!(PgType::Text.as_str(), "text");
    assert_eq!(PgType::DoublePrecision.as_str(), "double precision");
    assert_eq!(PgType::Void.as_str(), "void");
    assert_eq!(PgType::TransactionId.as_str(), "xid");
}

#[test]
fn test_from_rust_and_return_stmt() {
    assert_eq!(PgType::from_rust::<i16>(), PgType::Int2);
    assert_eq!(PgType::from_rust::<i32>(), PgType::Int4);
    assert_eq!(PgType::from_rust::<i64>(), PgType::Int8);
    assert_eq!(PgType::from_rust::<String>(), PgType::Text);
    assert_eq!(PgType::from_rust::<Option<i32>>(), PgType::Int4);
    assert_eq!(PgType::Int4.return_stmt(), "RETURNS int4");
}

#[test]
fn test_function_options() {
    assert_eq!(sql_function_options(&vec![]), Ok(""));
    assert_eq!(sql_function_options(&vec![false, false]), Ok(" STRICT"));
    assert_eq!(sql_function_options(&vec![true, true]), Ok(""));
    assert!(sql_function_options(&vec![true, false]).is_err());
}

#[test]
fn test_decimal_spelling() {
    assert_eq!(usize_to_string(0), "0");
    assert_eq!(usize_to_string(7), "7");
    assert_eq!(usize_to_string(10), "10");
    assert_eq!(usize_to_string(120345), "120345");
}

#[test]
fn test_param_list() {
    assert_eq!(sql_param_list(0), "");
    assert_eq!(sql_param_list(1), "{sql_0}");
    assert_eq!(sql_param_list(3), "{sql_0},{sql_1},{sql_2}");
}

#[test]
fn test_level_codes_are_ordered() {
    let levels = [
        Level::Debug5,
        Level::Debug4,
        Level::Debug3,
        Level::Debug2,
        Level::Debug1,
        Level::Log,
        Level::LogServerOnly,
        Level::Info,
        Level::Notice,
        Level::Warning,
        Level::Error,
        Level::Fatal,
        Level::Panic,
    ];
    for pair in levels.windows(2) {
        assert!(pair[0].code() < pair[1].code());
    }
    assert_eq!(Level::Debug5.code(), 10);
    assert_eq!(Level::Error.code(), 20);
}

#[test]
fn test_error_and_above_abort() {
    assert!(!Level::Warning.aborts());
    assert!(!Level::Notice.aborts());
    assert!(Level::Error.aborts());
    assert!(Level::Fatal.aborts());
    assert!(Level::Panic.aborts());
}

#[test]
fn test_log_records_and_signals() {
    let mut sink = LogSink::new();
    let r = log(&mut sink, Level::Info, "file.rs", 12, "module", "This is an info message");
    assert!(r.is_none());
    let r = log(&mut sink, Level::Error, "file.rs", 13, "module", "No you dont!");
    assert!(r.is_some());
    assert_eq!(sink.records.len(), 2);
    assert_eq!(sink.records[0].msg, "This is an info message");
    assert_eq!(sink.records[1].level, Level::Error);
    assert_eq!(sink.records[1].line, 13);
}

#[test]
fn test_bool_conversions() {
    assert_eq!(Bool::from_raw(1).into_bool(), true);
    assert_eq!(Bool::from_raw(0).into_bool(), false);
    assert_eq!(Bool::from_raw(2).into_bool(), false);
    assert_eq!(Bool::from_bool(true).to_u8(), Bool::from_raw(1).to_u8());
    assert_eq!(Bool::from_bool(false).to_u8(), Bool::from_raw(0).to_u8());
    assert_eq!(Bool::from_i8(1).to_i8(), 1);
    assert_eq!(Bool::from_char('\u{1}').to_char(), '\u{1}');
    assert_eq!(Bool::from_char('x').to_char(), '\u{0}');
}

#[test]
fn test_magic_descriptor() {
    let m = pg_magic(110000);
    assert_eq!(m.len, 28);
    assert_eq!(m.version, 1100);
    assert_eq!(m.funcmaxargs, 100);
    assert_eq!(m.indexmaxkeys, 32);
    assert_eq!(m.namedatalen, 64);
    assert!(m.float4byval && m.float8byval);
}

#[test]
fn test_get_args_pairs_words_with_null_flags() {
    let values = vec![5u64, 6, 7];
    let isnull = vec![false, true, false];
    let args = get_args(&values, &isnull, 3);
    assert_eq!(args, vec![PgDatum(Some(5)), PgDatum(None), PgDatum(Some(7))]);
    let fewer = get_args(&values, &isnull, 2);
    assert_eq!(fewer.len(), 2);
}
