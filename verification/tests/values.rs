use neesy::evaluator::boolean::{
    compare, equals, greater_than, greater_than_equals, less_than, less_than_equals, Comparison,
};
use neesy::evaluator::errors::{EvalError, Operation};
use neesy::evaluator::scope::Variables;
use neesy::evaluator::Value;
use neesy::number::{Arithmetic, Number, Numerics, Order};
use neesy::text::{characters, string_of};

/// The doubles of the machine.
struct Doubles;

fn num(value: f64) -> Number {
    Number { bits: value.to_bits() }
}

fn float(number: Number) -> f64 {
    f64::from_bits(number.bits)
}

impl Numerics for Doubles {
    fn literal(&self, digits: &Vec<u8>, fraction_digits: usize) -> Option<Number> {
        let mut number = 0.0;
        for digit in digits {
            number = number * 10.0 + f64::from(*digit);
        }
        Some(num(number / (10.0 as f64).powf(fraction_digits as f64)))
    }

    fn arithmetic(&self, operation: Arithmetic, left: Number, right: Number) -> Number {
        let (x, y) = (float(left), float(right));
        num(match operation {
            Arithmetic::Add => x + y,
            Arithmetic::Sub => x - y,
            Arithmetic::Mul => x * y,
            Arithmetic::Div => x / y,
        })
    }

    fn order(&self, left: Number, right: Number) -> Option<Order> {
        let (x, y) = (float(left), float(right));
        if x < y {
            Some(Order::Less)
        } else if x > y {
            Some(Order::Greater)
        } else if x == y {
            Some(Order::Equal)
        } else {
            None
        }
    }

    fn truncate(&self, value: Number) -> usize {
        float(value) as usize
    }
}

fn number(value: f64) -> Value {
    Value::Number(num(value))
}

fn string(text: &str) -> Value {
    Value::Str(text.to_owned())
}

#[test]
fn text_is_taken_apart_and_put_together() {
    assert_eq!(characters("aé b"), vec!['a', 'é', ' ', 'b']);
    assert!(characters("").is_empty());
    assert_eq!(string_of(&['a', 'é', ' ', 'b']), "aé b");
    assert_eq!(string_of(&[]), "");
}

#[test]
fn numbers_are_added_subtracted_multiplied_and_divided() {
    assert!(matches!(number(2.0).add(number(3.0), &Doubles), Ok(Value::Number(n)) if n == num(5.0)));
    assert!(matches!(number(2.0).sub(number(3.0), &Doubles), Ok(Value::Number(n)) if n == num(-1.0)));
    assert!(matches!(number(2.0).mul(number(3.0), &Doubles), Ok(Value::Number(n)) if n == num(6.0)));
    assert!(matches!(number(3.0).div(number(2.0), &Doubles), Ok(Value::Number(n)) if n == num(1.5)));
}

#[test]
fn strings_are_added_and_multiplied() {
    assert!(matches!(string("a").add(string("b"), &Doubles), Ok(Value::Str(s)) if s == "ab"));
    assert!(matches!(string("").add(string(""), &Doubles), Ok(Value::Str(s)) if s.is_empty()));
    assert!(matches!(string("ab").mul(number(3.0), &Doubles), Ok(Value::Str(s)) if s == "ababab"));
    assert!(matches!(string("ab").mul(number(1.99), &Doubles), Ok(Value::Str(s)) if s == "ab"));
    assert!(matches!(string("ab").mul(number(-1.0), &Doubles), Ok(Value::Str(s)) if s.is_empty()));
    assert!(matches!(string("ab").mul(number(f64::NAN), &Doubles), Ok(Value::Str(s)) if s.is_empty()));
}

#[test]
fn other_pairs_are_invalid_operands() {
    assert!(matches!(
        string("a").sub(string("b"), &Doubles),
        Err(EvalError::InvalidOperands {
            operation: Operation::Subtract,
            left: Value::Str(left),
            right: Value::Str(right),
        }) if left == "a" && right == "b"
    ));
    assert!(matches!(
        number(1.0).add(string("b"), &Doubles),
        Err(EvalError::InvalidOperands {
            operation: Operation::Sum,
            left: Value::Number(_),
            right: Value::Str(_),
        })
    ));
    assert!(matches!(
        string("a").add(number(1.0), &Doubles),
        Err(EvalError::InvalidOperands { operation: Operation::Sum, .. })
    ));
    assert!(matches!(
        number(2.0).mul(string("a"), &Doubles),
        Err(EvalError::InvalidOperands { operation: Operation::Multiply, .. })
    ));
    assert!(matches!(
        string("a").mul(string("a"), &Doubles),
        Err(EvalError::InvalidOperands { operation: Operation::Multiply, .. })
    ));
    assert!(matches!(
        string("a").div(number(2.0), &Doubles),
        Err(EvalError::InvalidOperands { operation: Operation::Divide, .. })
    ));
    assert!(matches!(
        Value::Void.add(Value::Void, &Doubles),
        Err(EvalError::InvalidOperands { operation: Operation::Sum, left: Value::Void, .. })
    ));
    assert!(matches!(
        Value::Bool(true).div(number(1.0), &Doubles),
        Err(EvalError::InvalidOperands { operation: Operation::Divide, .. })
    ));
}

fn truth(result: Result<Value, EvalError>) -> bool {
    match result {
        Ok(Value::Bool(truth)) => truth,
        other => panic!("no boolean: {:?}", other),
    }
}

#[test]
fn every_comparison_of_numbers_follows_their_order() {
    let samples = [-1.5, 0.0, 2.0, f64::INFINITY];
    for x in samples {
        for y in samples {
            assert_eq!(truth(equals(number(x), number(y), &Doubles)), x == y);
            assert_eq!(truth(less_than(number(x), number(y), &Doubles)), x < y);
            assert_eq!(truth(less_than_equals(number(x), number(y), &Doubles)), x <= y);
            assert_eq!(truth(greater_than(number(x), number(y), &Doubles)), x > y);
            assert_eq!(truth(greater_than_equals(number(x), number(y), &Doubles)), x >= y);
        }
    }
}

#[test]
fn nothing_holds_of_what_is_not_a_number() {
    let nan = f64::NAN;
    assert!(!truth(equals(number(nan), number(nan), &Doubles)));
    assert!(!truth(less_than(number(nan), number(1.0), &Doubles)));
    assert!(!truth(less_than_equals(number(1.0), number(nan), &Doubles)));
    assert!(!truth(greater_than(number(nan), number(1.0), &Doubles)));
    assert!(!truth(greater_than_equals(number(nan), number(nan), &Doubles)));
}

#[test]
fn every_comparison_of_strings_follows_their_bytes() {
    let samples = ["", "a", "ab", "b", "B", "é", "z", "日本"];
    for x in samples {
        for y in samples {
            assert_eq!(truth(equals(string(x), string(y), &Doubles)), x == y);
            assert_eq!(truth(less_than(string(x), string(y), &Doubles)), x < y);
            assert_eq!(truth(less_than_equals(string(x), string(y), &Doubles)), x <= y);
            assert_eq!(truth(greater_than(string(x), string(y), &Doubles)), x > y);
            assert_eq!(truth(greater_than_equals(string(x), string(y), &Doubles)), x >= y);
            assert_eq!(
                truth(compare(Comparison::LessThan, string(x), string(y), &Doubles)),
                x < y
            );
        }
    }
}

#[test]
fn values_of_different_types_are_not_compared() {
    assert!(matches!(
        equals(number(1.0), string("1"), &Doubles),
        Err(EvalError::InvalidOperands {
            operation: Operation::Compare,
            left: Value::Number(_),
            right: Value::Str(_),
        })
    ));
    assert!(matches!(
        less_than(string("1"), number(1.0), &Doubles),
        Err(EvalError::InvalidOperands { operation: Operation::Compare, .. })
    ));
    assert!(matches!(
        greater_than(Value::Bool(true), Value::Bool(false), &Doubles),
        Err(EvalError::InvalidOperands { operation: Operation::Compare, .. })
    ));
    assert!(matches!(
        equals(Value::Void, Value::Void, &Doubles),
        Err(EvalError::InvalidOperands { operation: Operation::Compare, .. })
    ));
}

#[test]
fn variables_are_bound_and_bound_again() {
    let mut variables = Variables::new();
    assert!(variables.get(&"x".to_owned()).is_none());
    variables.insert("x".to_owned(), number(1.0));
    variables.insert("y".to_owned(), string("why"));
    assert!(matches!(variables.get(&"x".to_owned()), Some(Value::Number(n)) if n == num(1.0)));
    assert!(matches!(variables.get(&"y".to_owned()), Some(Value::Str(s)) if s == "why"));
    variables.insert("x".to_owned(), Value::Bool(true));
    assert!(matches!(variables.get(&"x".to_owned()), Some(Value::Bool(true))));
    assert!(matches!(variables.get(&"y".to_owned()), Some(Value::Str(s)) if s == "why"));
    assert!(variables.get(&"z".to_owned()).is_none());
}
