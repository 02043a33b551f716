use zygiskd::apatch::{
    parse_config_table, query_granted_root, query_should_umount, uid_granted_root,
    uid_should_umount, TableError,
};
use zygiskd::num::parse_i32;

const HEADER: &[u8] = b"pkg,exclude,allow,uid,to_uid,sctx\n";

fn table(rows: &[&str]) -> Vec<u8> {
    let mut out = HEADER.to_vec();
    for row in rows {
        out.extend_from_slice(row.as_bytes());
        out.push(b'\n');
    }
    out
}

#[test]
fn granted_root_example() {
    let content = table(&["app.evil,0,1,10091,10091,u:r:untrusted:s0"]);
    assert_eq!(uid_granted_root(&content, 10091), true);
    assert_eq!(uid_granted_root(&content, 10092), false);
}

#[test]
fn first_match_wins() {
    let content = table(&[
        "app.first,1,0,10001,10001,ctx",
        "app.second,0,1,10001,10001,ctx",
    ]);
    assert_eq!(uid_granted_root(&content, 10001), false);
    assert_eq!(uid_should_umount(&content, 10001), true);
}

#[test]
fn exclude_and_allow_are_distinct_fields() {
    let content = table(&["app.a,1,0,10002,10002,ctx", "app.b,0,1,10003,10003,ctx"]);
    assert_eq!(uid_should_umount(&content, 10002), true);
    assert_eq!(uid_granted_root(&content, 10002), false);
    assert_eq!(uid_should_umount(&content, 10003), false);
    assert_eq!(uid_granted_root(&content, 10003), true);
}

#[test]
fn missing_field_is_a_parse_error_not_false() {
    let content = table(&["app.bad,0,1,10091,10091"]);
    assert!(matches!(
        query_granted_root(&content, 10091),
        Err(TableError::MalformedRow(1))
    ));
    assert!(matches!(
        query_should_umount(&content, 10091),
        Err(TableError::MalformedRow(1))
    ));
    // The degrading wrappers still answer false.
    assert_eq!(uid_granted_root(&content, 10091), false);
}

#[test]
fn absent_uid_is_ok_false_not_an_error() {
    let content = table(&["app.one,0,1,10001,10001,ctx"]);
    assert_eq!(query_granted_root(&content, 99999), Ok(false));
    assert_eq!(query_should_umount(&content, 99999), Ok(false));
}

#[test]
fn non_integer_uid_is_a_parse_error() {
    let content = table(&["app.bad,0,1,10x91,10091,ctx"]);
    assert!(query_granted_root(&content, 10091).is_err());
    let content = table(&["app.bad,0,1,10091,nope,ctx"]);
    assert!(query_granted_root(&content, 10091).is_err());
}

#[test]
fn error_names_first_bad_line() {
    let content = table(&[
        "app.good,0,1,10001,10001,ctx",
        "bad line",
        "also,bad",
    ]);
    assert!(matches!(
        parse_config_table(&content),
        Err(TableError::MalformedRow(2))
    ));
}

#[test]
fn empty_and_header_only_tables() {
    assert_eq!(parse_config_table(b"").unwrap().len(), 0);
    assert_eq!(parse_config_table(HEADER).unwrap().len(), 0);
    assert_eq!(parse_config_table(b"just a header, no newline").unwrap().len(), 0);
    assert_eq!(uid_granted_root(b"", 0), false);
}

#[test]
fn parsed_rows_carry_all_fields() {
    let content = table(&["com.example,1,0,10091,12345,u:r:untrusted:s0"]);
    let rows = parse_config_table(&content).unwrap();
    assert_eq!(rows.len(), 1);
    assert_eq!(rows[0].pkg, b"com.example".to_vec());
    assert_eq!(rows[0].exclude, true);
    assert_eq!(rows[0].allow, false);
    assert_eq!(rows[0].uid, 10091);
    assert_eq!(rows[0].to_uid, 12345);
    assert_eq!(rows[0].sctx, b"u:r:untrusted:s0".to_vec());
}

#[test]
fn carriage_returns_are_trimmed() {
    let content = b"hdr\r\napp.a,0,1,10005,10005,ctx\r\n";
    assert_eq!(uid_granted_root(content, 10005), true);
}

#[test]
fn flags_other_than_one_mean_false() {
    let content = table(&["app.a,2,yes,10006,10006,ctx"]);
    assert_eq!(uid_granted_root(&content, 10006), false);
    assert_eq!(uid_should_umount(&content, 10006), false);
}

#[test]
fn negative_uids_parse() {
    let content = table(&["app.a,0,1,-5,-5,ctx"]);
    assert_eq!(uid_granted_root(&content, -5), true);
}

#[test]
fn parse_i32_edge_cases() {
    assert_eq!(parse_i32(b"0"), Some(0));
    assert_eq!(parse_i32(b"+5"), Some(5));
    assert_eq!(parse_i32(b"-17"), Some(-17));
    assert_eq!(parse_i32(b"2147483647"), Some(i32::MAX));
    assert_eq!(parse_i32(b"-2147483648"), Some(i32::MIN));
    assert_eq!(parse_i32(b"2147483648"), None);
    assert_eq!(parse_i32(b"-2147483649"), None);
    assert_eq!(parse_i32(b"99999999999999999999"), None);
    assert_eq!(parse_i32(b""), None);
    assert_eq!(parse_i32(b"-"), None);
    assert_eq!(parse_i32(b"+"), None);
    assert_eq!(parse_i32(b"1 2"), None);
    assert_eq!(parse_i32(b"007"), Some(7));
}
