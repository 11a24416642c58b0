use testfixtures::{base_name, file_stem, i64_to_string, join_comma, u64_to_string};

#[test]
fn decimal_rendering() {
    assert_eq!(u64_to_string(0), "0");
    assert_eq!(u64_to_string(7), "7");
    assert_eq!(u64_to_string(1234567890123), "1234567890123");
    assert_eq!(u64_to_string(u64::MAX), "18446744073709551615");
    assert_eq!(i64_to_string(0), "0");
    assert_eq!(i64_to_string(42), "42");
    assert_eq!(i64_to_string(-5), "-5");
    assert_eq!(i64_to_string(i64::MIN), "-9223372036854775808");
    assert_eq!(i64_to_string(i64::MAX), "9223372036854775807");
}

#[test]
fn joining_names() {
    assert_eq!(join_comma(&vec![]), "");
    assert_eq!(join_comma(&vec!["id".to_string()]), "id");
    assert_eq!(
        join_comma(&vec!["id".to_string(), "name".to_string(), "done".to_string()]),
        "id, name, done"
    );
}

#[test]
fn stems_and_base_names() {
    assert_eq!(file_stem("test.yml"), "test");
    assert_eq!(file_stem("a.b.c"), "a.b");
    assert_eq!(file_stem(".bashrc"), ".bashrc");
    assert_eq!(file_stem("noext"), "noext");
    assert_eq!(base_name("fixtures/todos.yml"), "todos.yml");
    assert_eq!(base_name("/a/b/c.yml"), "c.yml");
    assert_eq!(base_name("plain.yml"), "plain.yml");
}
