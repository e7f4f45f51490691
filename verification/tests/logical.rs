use filter_expr::Context;
use filter_expr::EvalError;
use filter_expr::Filter;
use filter_expr::FilterExpr;
use filter_expr::ParseError;
use filter_expr::ParseOperand;
use std::cell::Cell;
use std::str::FromStr;

#[test]
fn parse_logical_expression_and_evaluate() {
    let sss = "a >= 300 | b == yes";
    let filter = Filter::from_str(sss).unwrap();

    struct Ctx;
    #[derive(PartialEq, PartialOrd)]
    struct MyBool(bool);

    impl ParseOperand for MyBool {
        fn parse_operand(s: &str) -> Result<Self, ParseError> {
            match s.to_lowercase().as_str() {
                "yes" => Ok(MyBool(true)),
                "true" => Ok(MyBool(true)),
                "ok" => Ok(MyBool(true)),
                _ => Ok(MyBool(false)),
            }
        }
    }
    impl Context for Ctx {
        fn evaluate(&self, key: &str, expression: &str) -> Result<bool, EvalError> {
            match key {
                "a" => {
                    let hardcoded_a = 300;
                    let f = FilterExpr::<usize>::from_str(expression).unwrap();
                    Ok(f.apply(hardcoded_a))
                }
                "b" => {
                    let hardcoded_b = MyBool(true);
                    let f = FilterExpr::<MyBool>::from_str(expression).unwrap();
                    Ok(f.apply(hardcoded_b))
                }
                x => {
                    panic!("Unexpected: `{x}`");
                }
            }
        }
    }
    assert!(filter.evaluate(&Ctx).unwrap());
}

/// A context that answers fixed values for `a`, `b`, `c` and counts how
/// often it is asked, so that tests can see which leaves were resolved.
struct Fixed {
    a: bool,
    b: bool,
    c: bool,
    calls: Cell<usize>,
    allow_b: bool,
}

impl Fixed {
    fn new(a: bool, b: bool, c: bool) -> Fixed {
        Fixed {
            a,
            b,
            c,
            calls: Cell::new(0),
            allow_b: true,
        }
    }
}

impl Context for Fixed {
    fn evaluate(&self, key: &str, _expression: &str) -> Result<bool, EvalError> {
        self.calls.set(self.calls.get() + 1);
        match key {
            "a" => Ok(self.a),
            "b" if self.allow_b => Ok(self.b),
            "c" => Ok(self.c),
            other => panic!("this leaf must not be resolved: `{other}`"),
        }
    }
}

#[test]
fn or_short_circuit_skips_right_resolver() {
    let filter = Filter::from_str("a=1 | b=1").unwrap();
    let ctx = Fixed {
        allow_b: false,
        ..Fixed::new(true, false, false)
    };
    assert!(filter.evaluate(&ctx).unwrap());
    assert_eq!(ctx.calls.get(), 1);
}

#[test]
fn and_short_circuit_skips_right_resolver() {
    let filter = Filter::from_str("a=1 & b=1").unwrap();
    let ctx = Fixed {
        allow_b: false,
        ..Fixed::new(false, true, true)
    };
    assert!(!filter.evaluate(&ctx).unwrap());
    assert_eq!(ctx.calls.get(), 1);
}

#[test]
fn round_trip_or_short_circuits_without_b() {
    struct Ctx;
    impl Context for Ctx {
        fn evaluate(&self, key: &str, expression: &str) -> Result<bool, EvalError> {
            match key {
                "a" => {
                    let f = FilterExpr::<usize>::from_str(expression).unwrap();
                    Ok(f.apply(300))
                }
                other => panic!("`{other}` must not be resolved"),
            }
        }
    }
    let filter = Filter::from_str("a >= 300 | b == yes").unwrap();
    assert!(filter.evaluate(&Ctx).unwrap());
}

#[test]
fn negation_complements_the_operand() {
    let filter = Filter::from_str("!a=1").unwrap();
    assert!(!filter.evaluate(&Fixed::new(true, false, false)).unwrap());
    assert!(filter.evaluate(&Fixed::new(false, false, false)).unwrap());
}

#[test]
fn grouping_is_stable_under_whitespace() {
    let variants = ["(a=1 | b=1) & c=1", "(a=1|b=1) &c=1", "( a=1 | b=1 ) & c=1"];
    for expr in variants {
        let filter = Filter::from_str(expr).unwrap();
        // picked so that the other association would give the other answer
        assert!(!filter.evaluate(&Fixed::new(true, false, false)).unwrap());
        assert!(filter.evaluate(&Fixed::new(false, true, true)).unwrap());
    }
    // without parentheses, composition is strictly by encounter order,
    // which here happens to match the grouped form
    for expr in ["a=1|b=1 &c=1", "a=1 | b=1 & c=1"] {
        let filter = Filter::from_str(expr).unwrap();
        assert!(!filter.evaluate(&Fixed::new(true, false, false)).unwrap());
        assert!(filter.evaluate(&Fixed::new(false, true, true)).unwrap());
    }
}

#[test]
fn atom_without_comparator_is_an_evaluation_error() {
    let filter = Filter::from_str("novalidcomparator").unwrap();
    let r = filter.evaluate(&Fixed::new(true, true, true));
    assert_eq!(r.unwrap_err(), EvalError::NoComparison);
}

#[test]
fn missing_operand_is_an_evaluation_error() {
    let filter = Filter::from_str("a=1 &").unwrap();
    let r = filter.evaluate(&Fixed::new(true, true, true));
    assert_eq!(r.unwrap_err(), EvalError::InvalidOperands);
}

#[test]
fn empty_expression_matches_everything() {
    let filter = Filter::from_str("").unwrap();
    assert!(filter.evaluate(&Fixed::new(false, false, false)).unwrap());
}

#[test]
fn context_error_is_propagated() {
    struct Failing;
    impl Context for Failing {
        fn evaluate(&self, key: &str, _expression: &str) -> Result<bool, EvalError> {
            Err(EvalError::Context(format!("cannot filter by `{key}`")))
        }
    }
    let filter = Filter::from_str("z=1").unwrap();
    let e = filter.evaluate(&Failing).unwrap_err();
    assert_eq!(e, EvalError::Context("cannot filter by `z`".to_string()));
    assert_eq!(e.message(), "cannot filter by `z`");
}

#[test]
fn atoms_accumulate_keys_and_expressions() {
    struct Checking;
    impl Context for Checking {
        fn evaluate(&self, key: &str, expression: &str) -> Result<bool, EvalError> {
            assert_eq!(key, "age");
            assert_eq!(expression, ">=18");
            Ok(true)
        }
    }
    // spaces are dropped by the tokenizer; tabs become atom text and are
    // trimmed away when the atom is split into key and comparison
    let filter = Filter::from_str("age\t >= 18").unwrap();
    assert!(filter.evaluate(&Checking).unwrap());
}

struct Person {
    name: &'static str,
    age: usize,
    has_dogs: bool,
}

impl Context for Person {
    fn evaluate(&self, key: &str, expression: &str) -> Result<bool, EvalError> {
        match key {
            "name" => FilterExpr::<String>::from_str(expression)
                .map(|f| f.apply(self.name.to_string()))
                .map_err(|e| EvalError::Context(e.message())),
            "age" => FilterExpr::<usize>::from_str(expression)
                .map(|f| f.apply(self.age))
                .map_err(|e| EvalError::Context(e.message())),
            "has-dogs" => FilterExpr::<bool>::from_str(expression)
                .map(|f| f.apply(self.has_dogs))
                .map_err(|e| EvalError::Context(e.message())),
            _ => Err(EvalError::Context(format!("cannot filter by `{key}`"))),
        }
    }
}

fn sample() -> Vec<Person> {
    vec![
        Person {
            name: "Mike",
            age: 40,
            has_dogs: false,
        },
        Person {
            name: "Jeff",
            age: 19,
            has_dogs: true,
        },
        Person {
            name: "Caren",
            age: 35,
            has_dogs: true,
        },
        Person {
            name: "Chelsea",
            age: 20,
            has_dogs: false,
        },
        Person {
            name: "Moa",
            age: 13,
            has_dogs: false,
        },
    ]
}

#[test]
fn filtering_records_by_age_keeps_order() {
    let filter = Filter::from_str("age>18").unwrap();
    let names: Vec<&str> = sample()
        .iter()
        .filter(|p| filter.evaluate(*p).unwrap())
        .map(|p| p.name)
        .collect();
    assert_eq!(names, vec!["Mike", "Jeff", "Caren", "Chelsea"]);
}

#[test]
fn filtering_records_by_flag() {
    let filter = Filter::from_str("has-dogs = true").unwrap();
    let names: Vec<&str> = sample()
        .iter()
        .filter(|p| filter.evaluate(*p).unwrap())
        .map(|p| p.name)
        .collect();
    assert_eq!(names, vec!["Jeff", "Caren"]);
}
