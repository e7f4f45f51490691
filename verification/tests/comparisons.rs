use filter_expr::FilterExpr;
use std::str::FromStr;

#[test]
fn parse_prefixes_select_operators() {
    assert!(matches!(
        FilterExpr::<usize>::parse(">=300").unwrap(),
        FilterExpr::Gte(300)
    ));
    assert!(matches!(
        FilterExpr::<usize>::parse("<=300").unwrap(),
        FilterExpr::Lte(300)
    ));
    assert!(matches!(
        FilterExpr::<usize>::parse(">300").unwrap(),
        FilterExpr::Gt(300)
    ));
    assert!(matches!(
        FilterExpr::<usize>::parse("<300").unwrap(),
        FilterExpr::Lt(300)
    ));
    assert!(matches!(
        FilterExpr::<usize>::parse("^=300").unwrap(),
        FilterExpr::Neq(300)
    ));
    assert!(matches!(
        FilterExpr::<usize>::parse("=300").unwrap(),
        FilterExpr::Eq(300)
    ));
    // no recognized prefix: the whole string is the operand of a `<` comparison
    assert!(matches!(
        FilterExpr::<usize>::parse("300").unwrap(),
        FilterExpr::Lt(300)
    ));
    assert!(matches!(
        FilterExpr::<usize>::parse("+300").unwrap(),
        FilterExpr::Lt(300)
    ));
}

#[test]
fn parse_signed_bool_and_string_operands() {
    assert!(matches!(
        FilterExpr::<i32>::parse(">=-2").unwrap(),
        FilterExpr::Gte(-2)
    ));
    assert!(matches!(
        FilterExpr::<i32>::parse("-7").unwrap(),
        FilterExpr::Lt(-7)
    ));
    assert!(matches!(
        FilterExpr::<i32>::parse("=-2147483648").unwrap(),
        FilterExpr::Eq(-2147483648)
    ));
    assert!(matches!(
        FilterExpr::<bool>::parse("=true").unwrap(),
        FilterExpr::Eq(true)
    ));
    assert!(matches!(
        FilterExpr::<bool>::parse("^=false").unwrap(),
        FilterExpr::Neq(false)
    ));
    assert!(matches!(
        FilterExpr::<String>::parse("=yes").unwrap(),
        FilterExpr::Eq(s) if s == "yes"
    ));
}

#[test]
fn parse_rejects_bad_operands() {
    assert!(FilterExpr::<usize>::parse(">=abc").is_err());
    assert!(FilterExpr::<usize>::parse("").is_err());
    assert!(FilterExpr::<usize>::parse(">= 300").is_err());
    assert!(FilterExpr::<usize>::parse(">=99999999999999999999999999").is_err());
    assert!(FilterExpr::<i32>::parse("=2147483648").is_err());
    assert!(FilterExpr::<i32>::parse("=--5").is_err());
    assert!(FilterExpr::<bool>::parse("=yes").is_err());
    let e = FilterExpr::<usize>::parse(">=abc").unwrap_err();
    assert_eq!(e.text, "abc");
    assert_eq!(e.message(), "cannot parse operand: abc");
}

#[test]
fn apply_follows_native_ordering() {
    let f = FilterExpr::<i32>::parse(">5").unwrap();
    assert!(f.apply(6));
    assert!(!f.apply(5));
    assert!(!f.apply(4));

    assert!(FilterExpr::<i32>::parse(">=5").unwrap().apply(5));
    assert!(!FilterExpr::<i32>::parse(">=5").unwrap().apply(4));
    assert!(FilterExpr::<i32>::parse("<=5").unwrap().apply(5));
    assert!(!FilterExpr::<i32>::parse("<=5").unwrap().apply(6));
    assert!(FilterExpr::<i32>::parse("<5").unwrap().apply(4));
    assert!(!FilterExpr::<i32>::parse("<5").unwrap().apply(5));
    assert!(FilterExpr::<i32>::parse("=5").unwrap().apply(5));
    assert!(!FilterExpr::<i32>::parse("=5").unwrap().apply(6));
    assert!(FilterExpr::<i32>::parse("^=5").unwrap().apply(6));
    assert!(!FilterExpr::<i32>::parse("^=5").unwrap().apply(5));
}

#[test]
fn apply_as_converts_the_candidate_first() {
    let f = FilterExpr::<i32>::parse(">=300").unwrap();
    assert!(f.apply_as(300u16));
    assert!(f.apply_as(301u16));
    assert!(!f.apply_as(299u16));
}

#[test]
fn from_str_uses_the_same_grammar() {
    let f = FilterExpr::<usize>::from_str(">2").unwrap();
    assert!(matches!(f, FilterExpr::Gt(2)));
    assert!(FilterExpr::<usize>::from_str(">x").is_err());
}
