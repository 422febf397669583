use cplex::text::i32_to_string;
use cplex::text::str_eq;
use cplex::text::str_lex_lt;
use cplex::text::u32_to_string;
use cplex::whitelist::check_ident;

#[test]
fn unsigned_decimal_rendering() {
    assert_eq!(u32_to_string(0), "0");
    assert_eq!(u32_to_string(7), "7");
    assert_eq!(u32_to_string(10), "10");
    assert_eq!(u32_to_string(42), "42");
    assert_eq!(u32_to_string(4294967295), "4294967295");
}

#[test]
fn signed_decimal_rendering() {
    assert_eq!(i32_to_string(0), "0");
    assert_eq!(i32_to_string(42), "42");
    assert_eq!(i32_to_string(-10), "-10");
    assert_eq!(i32_to_string(i32::MIN), "-2147483648");
    assert_eq!(i32_to_string(i32::MAX), "2147483647");
}

#[test]
fn lexicographic_order_on_strings() {
    assert!(str_lex_lt("a", "b"));
    assert!(!str_lex_lt("b", "a"));
    assert!(!str_lex_lt("a", "a"));
    assert!(str_lex_lt("", "a"));
    assert!(str_lex_lt("ab", "abc"));
    assert!(!str_lex_lt("abc", "ab"));
    assert!(str_lex_lt("CPLEX_Studio1210", "CPLEX_Studio128"));
}

#[test]
fn string_view_equality() {
    assert!(str_eq("", ""));
    assert!(str_eq("abc", "abc"));
    assert!(!str_eq("abc", "abd"));
    assert!(!str_eq("abc", "ab"));
}

#[test]
fn identifier_check() {
    assert!(check_ident("CPXENVptr"));
    assert!(check_ident("_x9"));
    assert!(!check_ident(""));
    assert!(!check_ident("9lives"));
    assert!(!check_ident("not a name"));
    assert!(!check_ident("dash-ed"));
}
