use neesy::evaluator::errors::{EvalError, Operation};
use neesy::evaluator::registry::Builtins;
use neesy::evaluator::{Evaluator, Host, Value};
use neesy::interpreter::{process, Failure};
use neesy::lexer::{LexError, Lexer, Operator, Token};
use neesy::number::{Arithmetic, Number, Numerics, Order};
use neesy::parser::operators::{InfixOperator, PrefixOperator};
use neesy::parser::{Expression, ParseError, Parser, Precedence};
use std::cell::RefCell;

/// Doubles of the machine, and two builtins: `pow` and a `puts_num` that
/// keeps what it would print.
struct Machine {
    printed: RefCell<Vec<String>>,
}

impl Machine {
    fn new() -> Self {
        Machine { printed: RefCell::new(Vec::new()) }
    }
}

fn num(value: f64) -> Number {
    Number { bits: value.to_bits() }
}

fn float(number: Number) -> f64 {
    f64::from_bits(number.bits)
}

impl Numerics for Machine {
    fn literal(&self, digits: &Vec<u8>, fraction_digits: usize) -> Option<Number> {
        let mut number = 0.0;
        for digit in digits {
            number = number * 10.0 + f64::from(*digit);
        }
        number *= (10.0 as f64).powf(-(fraction_digits as f64));
        if number.is_infinite() {
            None
        } else {
            Some(num(number))
        }
    }

    fn arithmetic(&self, operation: Arithmetic, left: Number, right: Number) -> Number {
        let (x, y) = (float(left), float(right));
        num(match operation {
            Arithmetic::Add => x + y,
            Arithmetic::Sub => x - y,
            Arithmetic::Mul => x * y,
            Arithmetic::Div => x / y,
        })
    }

    fn order(&self, left: Number, right: Number) -> Option<Order> {
        match float(left).partial_cmp(&float(right)) {
            Some(std::cmp::Ordering::Less) => Some(Order::Less),
            Some(std::cmp::Ordering::Equal) => Some(Order::Equal),
            Some(std::cmp::Ordering::Greater) => Some(Order::Greater),
            None => None,
        }
    }

    fn truncate(&self, value: Number) -> usize {
        float(value) as usize
    }
}

const POW: usize = 0;
const PUTS_NUM: usize = 1;

impl Host for Machine {
    fn call(&self, handle: usize, arguments: Vec<Value>) -> Result<Value, String> {
        match handle {
            POW => match (&arguments[0], &arguments[1]) {
                (Value::Number(x), Value::Number(y)) => {
                    Ok(Value::Number(num(float(*x).powf(float(*y)))))
                }
                _ => Err("Invalid type parameter".to_owned()),
            },
            PUTS_NUM => match &arguments[0] {
                Value::Number(x) => {
                    self.printed.borrow_mut().push(format!("{}", float(*x)));
                    Ok(Value::Void)
                }
                _ => Err("Invalid type parameter".to_owned()),
            },
            _ => Err("No such builtin".to_owned()),
        }
    }
}

fn builtins() -> Builtins<Machine> {
    let mut builtins = Builtins::new(Machine::new());
    assert_eq!(builtins.register("pow".to_owned(), 2), Some(POW));
    assert_eq!(builtins.register("puts_num".to_owned(), 1), Some(PUTS_NUM));
    builtins
}

fn lex(source: &str) -> Result<Vec<Token>, LexError> {
    let machine = Machine::new();
    let mut lexer = Lexer::new(source.to_owned(), &machine);
    lexer.collect()
}

fn parse(source: &str) -> Result<Vec<Expression>, ParseError> {
    let tokens = lex(source).expect("the source has tokens");
    let mut parser = Parser::new(&tokens);
    let mut program = Vec::new();
    while let Some(expression) = parser.parse_expression(Precedence::Lowest)? {
        program.push(expression);
    }
    Ok(program)
}

/// The value of the last statement of `source`.
fn eval(source: &str, evaluator: &mut Evaluator<Machine>) -> Result<Value, EvalError> {
    let program = parse(source).expect("the source is a program");
    evaluator.evaluate_block(&program)
}

fn eval_fresh(source: &str) -> Result<Value, EvalError> {
    let builtins = builtins();
    let mut evaluator = Evaluator::new(None, &builtins);
    eval(source, &mut evaluator)
}

fn number_of(value: Result<Value, EvalError>) -> f64 {
    match value {
        Ok(Value::Number(number)) => float(number),
        other => panic!("no number: {:?}", other),
    }
}

fn string_of(value: Result<Value, EvalError>) -> String {
    match value {
        Ok(Value::Str(string)) => string,
        other => panic!("no string: {:?}", other),
    }
}

fn bool_of(value: Result<Value, EvalError>) -> bool {
    match value {
        Ok(Value::Bool(truth)) => truth,
        other => panic!("no boolean: {:?}", other),
    }
}

fn same_tokens(found: &[Token], expected: &[Token]) -> bool {
    found.len() == expected.len() && found.iter().zip(expected).all(|(a, b)| a.same(b))
}

#[test]
fn lexes_every_kind_of_token() {
    let tokens = lex("( ) [ ] { } | , ; <- if else while true false void name \"text\" 1.5").unwrap();
    let expected = vec![
        Token::LParenthesis,
        Token::RParenthesis,
        Token::LBracket,
        Token::RBracket,
        Token::LBrace,
        Token::RBrace,
        Token::VBar,
        Token::Comma,
        Token::EOS,
        Token::Assign,
        Token::If,
        Token::Else,
        Token::While,
        Token::True,
        Token::False,
        Token::Void,
        Token::Id("name".to_owned()),
        Token::Str("text".to_owned()),
        Token::Num(num(1.5)),
    ];
    assert!(same_tokens(&tokens, &expected));
}

#[test]
fn lexes_every_operator() {
    let tokens = lex("+ - * / == >= <= > <").unwrap();
    let expected: Vec<Token> = vec![
        Operator::Add,
        Operator::Sub,
        Operator::Mul,
        Operator::Div,
        Operator::Equals,
        Operator::GreaterThanOrEquals,
        Operator::LessThanOrEquals,
        Operator::GreaterThan,
        Operator::LessThan,
    ]
    .into_iter()
    .map(Token::Op)
    .collect();
    assert!(same_tokens(&tokens, &expected));
}

#[test]
fn lexes_without_whitespace_between_tokens() {
    let tokens = lex("x<-5;y<-[pow x;2]").unwrap();
    let expected = vec![
        Token::Id("x".to_owned()),
        Token::Assign,
        Token::Num(num(5.0)),
        Token::EOS,
        Token::Id("y".to_owned()),
        Token::Assign,
        Token::LBracket,
        Token::Id("pow".to_owned()),
        Token::Id("x".to_owned()),
        Token::EOS,
        Token::Num(num(2.0)),
        Token::RBracket,
    ];
    assert!(same_tokens(&tokens, &expected));
}

#[test]
fn lexes_empty_and_blank_text_to_nothing() {
    assert!(lex("").unwrap().is_empty());
    assert!(lex(" \t\r\n").unwrap().is_empty());
}

#[test]
fn number_literals_have_their_decimal_value() {
    assert!(same_tokens(&lex("12").unwrap(), &[Token::Num(num(12.0))]));
    assert!(same_tokens(&lex("0.25").unwrap(), &[Token::Num(num(0.25))]));
    assert!(same_tokens(&lex(".5").unwrap(), &[Token::Num(num(0.5))]));
    assert!(same_tokens(&lex("7.").unwrap(), &[Token::Num(num(7.0))]));
    assert!(same_tokens(&lex(".").unwrap(), &[Token::Num(num(0.0))]));
}

#[test]
fn a_word_may_hold_digits_and_quotes() {
    assert!(same_tokens(&lex("a1 b\"c").unwrap(), &[
        Token::Id("a1".to_owned()),
        Token::Id("b\"c".to_owned()),
    ]));
    assert!(same_tokens(&lex("iffy whiled").unwrap(), &[
        Token::Id("iffy".to_owned()),
        Token::Id("whiled".to_owned()),
    ]));
}

#[test]
fn a_string_keeps_its_characters_unescaped() {
    assert!(same_tokens(&lex("\"a\\n + ;é\"").unwrap(), &[Token::Str("a\\n + ;é".to_owned())]));
    assert!(same_tokens(&lex("\"\"").unwrap(), &[Token::Str(String::new())]));
}

#[test]
fn a_second_dot_is_a_lexical_error() {
    assert!(matches!(lex("x <- 1.2.3"), Err(LexError::UnexpectedDot(fragment)) if fragment == "1.2."));
    assert!(matches!(lex(".."), Err(LexError::UnexpectedDot(fragment)) if fragment == ".."));
}

#[test]
fn an_unterminated_string_is_a_lexical_error() {
    assert!(matches!(lex("\"abc"), Err(LexError::UnterminatedString(fragment)) if fragment == "abc"));
    assert!(matches!(lex("\""), Err(LexError::UnterminatedString(fragment)) if fragment.is_empty()));
}

#[test]
fn an_unknown_operator_is_a_lexical_error() {
    assert!(matches!(lex("1 => 2"), Err(LexError::UnknownOperator(fragment)) if fragment == "=>"));
    assert!(matches!(lex("a <-- b"), Err(LexError::UnknownOperator(fragment)) if fragment == "<--"));
    assert!(matches!(lex("="), Err(LexError::UnknownOperator(fragment)) if fragment == "="));
}

#[test]
fn a_literal_beyond_the_doubles_is_a_lexical_error() {
    let literal = "9".repeat(400);
    assert!(matches!(lex(&literal), Err(LexError::NumberTooBig(fragment)) if fragment == literal));
    let large = format!("1{}", "0".repeat(300));
    assert!(matches!(
        lex(&large).unwrap().as_slice(),
        [Token::Num(n)] if (float(*n) / 1e300 - 1.0).abs() < 1e-9
    ));
}

#[test]
fn the_lexer_hands_out_tokens_one_by_one() {
    let machine = Machine::new();
    let mut lexer = Lexer::new("a 1".to_owned(), &machine);
    assert!(matches!(lexer.next(), Ok(Some(Token::Id(name))) if name == "a"));
    assert!(matches!(lexer.next(), Ok(Some(Token::Num(n))) if n == num(1.0)));
    assert!(matches!(lexer.next(), Ok(None)));
    assert!(matches!(lexer.next(), Ok(None)));
}

#[test]
fn lexing_twice_gives_the_same_tokens() {
    let source = "f <- |a, b| { a * b + 1.5 }; [f 2; \"x\"]";
    let first = lex(source).unwrap();
    let second = lex(source).unwrap();
    assert!(same_tokens(&first, &second));
    assert_eq!(first.len(), 21);
}

#[test]
fn operators_have_their_infix_and_prefix_meaning() {
    assert!(matches!(Operator::Add.to_infix(), Some(InfixOperator::Add)));
    assert!(matches!(Operator::Sub.to_infix(), Some(InfixOperator::Sub)));
    assert!(matches!(Operator::Mul.to_infix(), Some(InfixOperator::Mul)));
    assert!(matches!(Operator::Div.to_infix(), Some(InfixOperator::Div)));
    assert!(matches!(Operator::Equals.to_infix(), Some(InfixOperator::Equals)));
    assert!(matches!(Operator::LessThan.to_infix(), Some(InfixOperator::LessThan)));
    assert!(matches!(Operator::LessThanOrEquals.to_infix(), Some(InfixOperator::LessThanOrEquals)));
    assert!(matches!(Operator::GreaterThan.to_infix(), Some(InfixOperator::GreaterThan)));
    assert!(matches!(
        Operator::GreaterThanOrEquals.to_infix(),
        Some(InfixOperator::GreaterThanOrEquals)
    ));
    assert!(Operator::Not.to_infix().is_none());
    assert!(matches!(Operator::Add.to_prefix(), Some(PrefixOperator::Positive)));
    assert!(matches!(Operator::Sub.to_prefix(), Some(PrefixOperator::Negative)));
    assert!(Operator::Mul.to_prefix().is_none());
    assert!(Operator::Not.to_prefix().is_none());
}

#[test]
fn precedence_rises_from_comparison_to_prefix() {
    assert_eq!(Precedence::Lowest.level(), 0);
    assert_eq!(Precedence::Equals.level(), 1);
    assert_eq!(Precedence::Add.level(), 2);
    assert_eq!(Precedence::Mul.level(), 3);
    assert_eq!(Precedence::Prefix.level(), 4);
    assert_eq!(InfixOperator::Equals.precedence(), Precedence::Equals);
    assert_eq!(InfixOperator::LessThan.precedence(), Precedence::Equals);
    assert_eq!(InfixOperator::Sub.precedence(), Precedence::Add);
    assert_eq!(InfixOperator::Div.precedence(), Precedence::Mul);
    assert!(Precedence::Lowest < Precedence::Equals);
    assert!(Precedence::Equals < Precedence::Add);
    assert!(Precedence::Add < Precedence::Mul);
    assert!(Precedence::Mul < Precedence::Prefix);
    assert!(Precedence::Prefix >= Precedence::Prefix);
}

/// The expression written with a pair of brackets around every operator.
fn show(expression: &Expression) -> String {
    match expression {
        Expression::Void => "void".to_owned(),
        Expression::Id(name) => name.clone(),
        Expression::Assignment(name, value) => format!("({} <- {})", name, show(value)),
        Expression::Num(number) => format!("{}", float(*number)),
        Expression::Str(string) => format!("{:?}", string),
        Expression::Bool(truth) => format!("{}", truth),
        Expression::Function(parameters, body) => {
            let names: Vec<String> = parameters.iter().cloned().collect();
            format!("|{}| {}", names.join(", "), show_block(body))
        }
        Expression::FunctionCall(name, arguments) => {
            let shown: Vec<String> = arguments.iter().map(show).collect();
            format!("[{} {}]", name, shown.join("; "))
        }
        Expression::If(condition, consequence, alternative) => match alternative {
            Some(block) => format!(
                "if {} {} else {}",
                show(condition),
                show_block(consequence),
                show_block(block)
            ),
            None => format!("if {} {}", show(condition), show_block(consequence)),
        },
        Expression::While(condition, body) => {
            format!("while {} {}", show(condition), show_block(body))
        }
        Expression::Infix(operator, left, right) => {
            format!("({} {:?} {})", show(left), operator, show(right))
        }
        Expression::Prefix(operator, operand) => format!("({:?} {})", operator, show(operand)),
    }
}

fn show_block(block: &[Expression]) -> String {
    let shown: Vec<String> = block.iter().map(show).collect();
    format!("{{ {} }}", shown.join("; "))
}

fn shape(source: &str) -> String {
    let program = parse(source).unwrap();
    let shown: Vec<String> = program.iter().map(show).collect();
    shown.join(" ;; ")
}

#[test]
fn a_product_binds_tighter_than_a_sum() {
    assert_eq!(shape("2 + 3 * 4"), "(2 Add (3 Mul 4))");
    assert_eq!(shape("2 * 3 + 4"), "((2 Mul 3) Add 4)");
    assert_eq!(shape("1 < 2 + 3"), "(1 LessThan (2 Add 3))");
    assert_eq!(shape("1 + 2 == 3 / 4"), "((1 Add 2) Equals (3 Div 4))");
}

#[test]
fn operators_of_one_precedence_group_from_the_left() {
    assert_eq!(shape("10 - 3 - 2"), "((10 Sub 3) Sub 2)");
    assert_eq!(shape("8 / 4 * 2"), "((8 Div 4) Mul 2)");
}

#[test]
fn a_prefix_operator_takes_the_next_operand_only() {
    assert_eq!(shape("-a + b"), "((Negative a) Add b)");
    assert_eq!(shape("+ 1"), "(Positive 1)");
    assert_eq!(shape("- - 1"), "(Negative (Negative 1))");
}

#[test]
fn parentheses_group() {
    assert_eq!(shape("(1 + 2) * 3"), "((1 Add 2) Mul 3)");
    assert_eq!(shape("2 * (1 + 2)"), "(2 Mul (1 Add 2))");
    assert_eq!(shape("2 * (1 + 2) + 3"), "((2 Mul (1 Add 2)) Add 3)");
    assert_eq!(shape("2 * (3 + 4) + 1"), "((2 Mul (3 Add 4)) Add 1)");
    assert_eq!(shape("(1) + 2"), "(1 Add 2)");
    assert_eq!(shape("( 3 ) + 4; 5"), "(3 Add 4) ;; 5");
    assert_eq!(shape("((1 + 2)) * ((3))"), "((1 Add 2) Mul 3)");
    assert_eq!(shape("10 - (3 - 2)"), "(10 Sub (3 Sub 2))");
    assert_eq!(shape("x <- (1 + 2) * 3"), "(x <- ((1 Add 2) Mul 3))");
    assert_eq!(shape("[f (1 + 2) * 3; (4)]"), "[f ((1 Add 2) Mul 3); 4]");
    assert_eq!(shape("if (a < b) { (a) } else { (b) + 1 }"), "if (a LessThan b) { a } else { (b Add 1) }");
}

#[test]
fn a_group_needs_its_closing_parenthesis() {
    assert!(matches!(parse("(1 + 2"), Err(ParseError::Expected(Token::RParenthesis, None))));
    assert!(matches!(
        parse("(1 + 2 ; 3"),
        Err(ParseError::Expected(Token::RParenthesis, Some(Token::EOS)))
    ));
    assert!(matches!(
        parse("[f (1 ]"),
        Err(ParseError::Expected(Token::RParenthesis, Some(Token::RBracket)))
    ));
    assert!(matches!(parse("("), Err(ParseError::ExpectedExpression)));
    assert!(matches!(parse("()"), Err(ParseError::UnexpectedToken(Token::RParenthesis))));
    assert!(matches!(parse("1 )"), Err(ParseError::UnexpectedToken(Token::RParenthesis))));
    assert!(matches!(parse("(1))"), Err(ParseError::UnexpectedToken(Token::RParenthesis))));
}

#[test]
fn an_expression_is_copied_with_its_shape() {
    let program = parse("f <- |a, b| { if a < b { [g a; \"s\"] } else { while true { + b } } }").unwrap();
    let copy = program[0].clone();
    assert_eq!(show(&copy), show(&program[0]));
    match (&program[0], &copy) {
        (Expression::Assignment(_, first), Expression::Assignment(_, second)) => {
            match (first.as_ref(), second.as_ref()) {
                (Expression::Function(names, body), Expression::Function(same_names, same_body)) => {
                    assert!(std::rc::Rc::ptr_eq(names, same_names));
                    assert!(std::rc::Rc::ptr_eq(body, same_body));
                }
                _ => panic!("no function"),
            }
        }
        _ => panic!("no assignment"),
    }
    let block = parse("[g a + 1; void]; x <- 2").unwrap();
    let copies: Vec<Expression> = block.iter().cloned().collect();
    assert_eq!(show_block(&copies), "{ [g (a Add 1); void]; (x <- 2) }");
}

#[test]
fn an_assignment_takes_what_follows() {
    assert_eq!(shape("x <- 1 + 2"), "(x <- (1 Add 2))");
    assert_eq!(shape("x <- y <- 3"), "(x <- (y <- 3))");
    assert_eq!(shape("x <- 5; y <- x"), "(x <- 5) ;; (y <- x)");
}

#[test]
fn statements_are_parsed_one_by_one() {
    assert_eq!(shape(""), "");
    assert_eq!(shape(";;"), "");
    assert_eq!(shape("a; ; b"), "a ;; b");
    assert_eq!(shape("true; false; void; \"s\""), "true ;; false ;; void ;; \"s\"");
}

#[test]
fn a_function_literal_has_parameters_and_a_body() {
    assert_eq!(shape("|| { }"), "|| {  }");
    assert_eq!(shape("|a| { a }"), "|a| { a }");
    assert_eq!(shape("|b, a, c| { a; b + c }"), "|b, a, c| { a; (b Add c) }");
    assert_eq!(shape("f <- |a,| { a }"), "(f <- |a| { a })");
}

#[test]
fn a_call_has_a_name_and_arguments() {
    assert_eq!(shape("[f]"), "[f ]");
    assert_eq!(shape("[f 1]"), "[f 1]");
    assert_eq!(shape("[f 1; a + 2; [g]]"), "[f 1; (a Add 2); [g ]]");
    assert_eq!(shape("[f 1] + 2"), "([f 1] Add 2)");
}

#[test]
fn conditionals_and_loops_have_blocks() {
    assert_eq!(shape("if a { 1 }"), "if a { 1 }");
    assert_eq!(shape("if a == 1 { 1; 2 } else { 3 }"), "if (a Equals 1) { 1; 2 } else { 3 }");
    assert_eq!(shape("while i < 3 { i <- i + 1 }"), "while (i LessThan 3) { (i <- (i Add 1)) }");
    assert_eq!(shape("if a { if b { 1 } } else { }"), "if a { if b { 1 } } else {  }");
}

#[test]
fn parsing_twice_gives_the_same_shape() {
    let source = "f <- |a, b| { if a < b { a } else { b } }; [f 1; 2] * 3";
    assert_eq!(shape(source), shape(source));
    assert_eq!(
        shape(source),
        "(f <- |a, b| { if (a LessThan b) { a } else { b } }) ;; ([f 1; 2] Mul 3)"
    );
}

#[test]
fn a_repeated_parameter_is_a_parse_error() {
    assert!(matches!(parse("|a, b, a| { a }"), Err(ParseError::DuplicateParameter(name)) if name == "a"));
}

#[test]
fn malformed_parameter_lists_are_parse_errors() {
    assert!(matches!(parse("|"), Err(ParseError::MissingParameters)));
    assert!(matches!(parse("|a"), Err(ParseError::MissingSeparator)));
    assert!(matches!(parse("|a,"), Err(ParseError::MissingParameters)));
    assert!(matches!(parse("|1| { }"), Err(ParseError::ExpectedParameterName)));
    assert!(matches!(
        parse("|a b| { }"),
        Err(ParseError::UnexpectedInParameters(Token::Id(name))) if name == "b"
    ));
    assert!(matches!(
        parse("|a| 1"),
        Err(ParseError::Expected(Token::LBrace, Some(Token::Num(_))))
    ));
    assert!(matches!(parse("|a|"), Err(ParseError::Expected(Token::LBrace, None))));
}

#[test]
fn malformed_expressions_are_parse_errors() {
    assert!(matches!(parse("* 2"), Err(ParseError::InvalidPrefixOperator(Operator::Mul))));
    assert!(matches!(parse("-"), Err(ParseError::MissingOperand(PrefixOperator::Negative))));
    assert!(matches!(parse("1 +"), Err(ParseError::ExpectedExpression)));
    assert!(matches!(parse("x <-"), Err(ParseError::ExpectedExpression)));
    assert!(matches!(parse("1 <- 2"), Err(ParseError::NotAnIdentifier(Expression::Num(_)))));
    assert!(matches!(parse("a b"), Err(ParseError::ExpectedOperator(Token::Id(name))) if name == "b"));
    assert!(matches!(parse("}"), Err(ParseError::UnexpectedToken(Token::RBrace))));
    assert!(matches!(parse("else"), Err(ParseError::UnexpectedToken(Token::Else))));
    assert!(matches!(parse("if"), Err(ParseError::ExpectedExpression)));
    assert!(matches!(parse("while a"), Err(ParseError::Expected(Token::LBrace, None))));
    assert!(matches!(parse("if a { 1 } else 2"), Err(ParseError::Expected(Token::LBrace, Some(_)))));
}

#[test]
fn malformed_calls_and_blocks_are_parse_errors() {
    assert!(matches!(parse("["), Err(ParseError::MissingFunctionName)));
    assert!(matches!(parse("[1]"), Err(ParseError::ExpectedIdentifier(Token::Num(_)))));
    assert!(matches!(parse("[f 1"), Err(ParseError::Unterminated)));
    assert!(matches!(parse("if a { 1"), Err(ParseError::Unterminated)));
    assert!(matches!(parse("[f ;"), Err(ParseError::Unterminated)));
    assert!(matches!(parse("[f 1;"), Err(ParseError::Unterminated)));
    assert!(matches!(parse("[f"), Err(ParseError::Unterminated)));
    assert!(matches!(parse("if a { 1 ;"), Err(ParseError::Unterminated)));
    assert!(matches!(parse("|a| { a ; ;"), Err(ParseError::Unterminated)));
    assert!(matches!(parse("while a {"), Err(ParseError::Unterminated)));
    assert!(matches!(parse("[f 1;]"), Err(ParseError::UnexpectedToken(Token::RBracket))));
}

#[test]
fn precedence_decides_the_value() {
    assert_eq!(number_of(eval_fresh("2 + 3 * 4")), 14.0);
    assert_eq!(number_of(eval_fresh("2 * 3 + 4")), 10.0);
    assert_eq!(number_of(eval_fresh("(2 + 3) * 4")), 20.0);
    assert_eq!(number_of(eval_fresh("2 * (3 + 4) + 1")), 15.0);
    assert_eq!(number_of(eval_fresh("(3) + 4")), 7.0);
    assert_eq!(number_of(eval_fresh("10 - (3 - 2)")), 9.0);
}

#[test]
fn subtraction_goes_from_left_to_right() {
    assert_eq!(number_of(eval_fresh("10 - 3 - 2")), 5.0);
    assert_eq!(number_of(eval_fresh("16 / 4 / 2")), 2.0);
}

#[test]
fn literals_are_their_values() {
    assert_eq!(number_of(eval_fresh("1.5")), 1.5);
    assert_eq!(string_of(eval_fresh("\"text\"")), "text");
    assert!(bool_of(eval_fresh("true")));
    assert!(!bool_of(eval_fresh("false")));
    assert!(matches!(eval_fresh("void"), Ok(Value::Void)));
    assert!(matches!(eval_fresh(""), Ok(Value::Void)));
    assert_eq!(number_of(eval_fresh("+ 4")), 4.0);
    assert!(matches!(eval_fresh("|a| { a }"), Ok(Value::Function(..))));
}

#[test]
fn a_negation_is_not_evaluated() {
    assert!(matches!(
        eval_fresh("- 4"),
        Err(EvalError::UnsupportedPrefix(PrefixOperator::Negative))
    ));
}

#[test]
fn arithmetic_is_that_of_doubles() {
    assert_eq!(number_of(eval_fresh("0.1 + 0.2")), 0.1 + 0.2);
    assert_eq!(number_of(eval_fresh("7 / 2")), 3.5);
    assert_eq!(number_of(eval_fresh("1 / 0")), f64::INFINITY);
    assert_eq!(number_of(eval_fresh("3 - 5")), -2.0);
}

#[test]
fn strings_are_joined_and_repeated() {
    assert_eq!(string_of(eval_fresh("\"a\" + \"b\"")), "ab");
    assert_eq!(string_of(eval_fresh("\"ab\" * 3")), "ababab");
    assert_eq!(string_of(eval_fresh("\"ab\" * 2.9")), "abab");
    assert_eq!(string_of(eval_fresh("\"ab\" * 0")), "");
    assert_eq!(string_of(eval_fresh("\"ab\" * (0 - 2)")), "");
}

#[test]
fn operands_of_the_wrong_type_are_refused() {
    assert!(matches!(
        eval_fresh("\"a\" - \"b\""),
        Err(EvalError::InvalidOperands {
            operation: Operation::Subtract,
            left: Value::Str(left),
            right: Value::Str(right),
        }) if left == "a" && right == "b"
    ));
    assert!(matches!(
        eval_fresh("1 + \"b\""),
        Err(EvalError::InvalidOperands { operation: Operation::Sum, .. })
    ));
    assert!(matches!(
        eval_fresh("3 * \"ab\""),
        Err(EvalError::InvalidOperands { operation: Operation::Multiply, .. })
    ));
    assert!(matches!(
        eval_fresh("\"a\" / 2"),
        Err(EvalError::InvalidOperands { operation: Operation::Divide, .. })
    ));
    assert!(matches!(
        eval_fresh("true + true"),
        Err(EvalError::InvalidOperands { operation: Operation::Sum, left: Value::Bool(true), .. })
    ));
    assert!(matches!(
        eval_fresh("1 < \"a\""),
        Err(EvalError::InvalidOperands { operation: Operation::Compare, .. })
    ));
    assert!(matches!(
        eval_fresh("true == true"),
        Err(EvalError::InvalidOperands { operation: Operation::Compare, .. })
    ));
}

#[test]
fn numbers_compare_as_doubles() {
    assert!(bool_of(eval_fresh("1 < 2")));
    assert!(!bool_of(eval_fresh("2 < 2")));
    assert!(bool_of(eval_fresh("2 <= 2")));
    assert!(bool_of(eval_fresh("3 > 2")));
    assert!(bool_of(eval_fresh("2 >= 2")));
    assert!(!bool_of(eval_fresh("1 >= 2")));
    assert!(bool_of(eval_fresh("2 == 2")));
    assert!(!bool_of(eval_fresh("2 == 3")));
    assert!(!bool_of(eval_fresh("0 / 0 == 0 / 0")));
    assert!(!bool_of(eval_fresh("0 / 0 <= 1")));
}

#[test]
fn strings_compare_in_dictionary_order() {
    assert!(bool_of(eval_fresh("\"a\" < \"b\"")));
    assert!(bool_of(eval_fresh("\"a\" < \"ab\"")));
    assert!(!bool_of(eval_fresh("\"b\" < \"ab\"")));
    assert!(bool_of(eval_fresh("\"abc\" == \"abc\"")));
    assert!(!bool_of(eval_fresh("\"abc\" == \"abd\"")));
    assert!(bool_of(eval_fresh("\"abc\" <= \"abc\"")));
    assert!(bool_of(eval_fresh("\"b\" > \"a\"")));
    assert!(bool_of(eval_fresh("\"b\" >= \"b\"")));
    assert!(bool_of(eval_fresh("\"z\" < \"é\"")));
    assert_eq!(bool_of(eval_fresh("\"Z\" < \"a\"")), "Z" < "a");
}

#[test]
fn assignment_binds_and_yields_the_value() {
    let builtins = builtins();
    let mut evaluator = Evaluator::new(None, &builtins);
    assert_eq!(number_of(eval("x <- 5", &mut evaluator)), 5.0);
    assert_eq!(number_of(eval("x", &mut evaluator)), 5.0);
    assert_eq!(number_of(eval("x <- x + 1; x", &mut evaluator)), 6.0);
    assert!(matches!(
        evaluator.get_value(&"x".to_owned()),
        Ok(Value::Number(n)) if n == num(6.0)
    ));
    assert!(matches!(
        evaluator.get_value(&"y".to_owned()),
        Err(EvalError::UnresolvedVariable(name)) if name == "y"
    ));
    assert!(matches!(
        evaluator.get_value(&"pow".to_owned()),
        Ok(Value::BuiltinFunction(2, POW))
    ));
}

#[test]
fn an_unknown_name_is_unresolved() {
    assert!(matches!(
        eval_fresh("nothing"),
        Err(EvalError::UnresolvedVariable(name)) if name == "nothing"
    ));
    assert!(matches!(
        eval_fresh("[nothing 1]"),
        Err(EvalError::UnresolvedVariable(name)) if name == "nothing"
    ));
}

#[test]
fn void_is_not_assigned() {
    assert!(matches!(
        eval_fresh("x <- if false { 1 }"),
        Err(EvalError::AssignVoid(name)) if name == "x"
    ));
    assert!(matches!(eval_fresh("x <- void"), Err(EvalError::AssignVoid(_))));
    assert!(matches!(eval_fresh("x <- while false { 1 }"), Err(EvalError::AssignVoid(_))));
}

#[test]
fn a_builtin_is_not_assigned_to() {
    assert!(matches!(
        eval_fresh("pow <- 1"),
        Err(EvalError::AssignToBuiltin(name)) if name == "pow"
    ));
}

#[test]
fn a_conditional_takes_one_branch() {
    assert_eq!(number_of(eval_fresh("if 1 < 2 { 10 } else { 20 }")), 10.0);
    assert_eq!(number_of(eval_fresh("if 2 < 1 { 10 } else { 20 }")), 20.0);
    assert!(matches!(eval_fresh("if 2 < 1 { 10 }"), Ok(Value::Void)));
    assert!(matches!(eval_fresh("if true { }"), Ok(Value::Void)));
    assert_eq!(number_of(eval_fresh("if true { x <- 1 }; x")), 1.0);
}

#[test]
fn a_condition_must_be_a_boolean() {
    assert!(matches!(
        eval_fresh("if 1 { 2 }"),
        Err(EvalError::ConditionNotBoolean(Value::Number(_)))
    ));
    assert!(matches!(
        eval_fresh("while \"yes\" { 2 }"),
        Err(EvalError::ConditionNotBoolean(Value::Str(_)))
    ));
}

#[test]
fn a_loop_runs_while_its_condition_holds() {
    assert_eq!(
        number_of(eval_fresh("i <- 0; s <- 0; while i < 5 { s <- s + i; i <- i + 1 }; s")),
        10.0
    );
    assert!(matches!(eval_fresh("while false { 1 }"), Ok(Value::Void)));
    assert!(matches!(eval_fresh("i <- 0; while i < 2 { i <- i + 1 }"), Ok(Value::Void)));
}

#[test]
fn a_variable_of_a_loop_body_stays_after_the_loop() {
    assert_eq!(number_of(eval_fresh("i <- 0; while i < 3 { x <- i; i <- i + 1 }; x")), 2.0);
}

#[test]
fn a_variable_of_a_function_body_is_gone_after_the_call() {
    assert!(matches!(
        eval_fresh("f <- || { z <- 1 }; [f]; z"),
        Err(EvalError::UnresolvedVariable(name)) if name == "z"
    ));
    assert_eq!(number_of(eval_fresh("z <- 7; f <- || { z <- 1 }; [f]; z")), 7.0);
}

#[test]
fn a_function_resolves_names_where_it_was_defined() {
    assert_eq!(
        number_of(eval_fresh("a <- 1; f <- || { a }; g <- |a| { [f] }; [g 5]")),
        1.0
    );
    assert_eq!(
        number_of(eval_fresh("make <- || { |n| { n * 2 } }; double <- [make]; [double 21]")),
        42.0
    );
}

#[test]
fn a_function_binds_its_parameters_in_order() {
    assert_eq!(number_of(eval_fresh("f <- |a, b| { a - b }; [f 10; 3]")), 7.0);
    assert_eq!(number_of(eval_fresh("f <- |b, a| { a - b }; [f 10; 3]")), -7.0);
    assert!(matches!(eval_fresh("f <- || { }; [f]"), Ok(Value::Void)));
    assert_eq!(
        number_of(eval_fresh(
            "fact <- |n| { if n < 2 { 1 } else { n * [fact n - 1] } }; [fact 5]"
        )),
        120.0
    );
}

#[test]
fn a_user_function_takes_exactly_its_parameters() {
    assert!(matches!(
        eval_fresh("f <- |a| { a }; [f]"),
        Err(EvalError::ArityMismatch { name, expected: 1, given: 0 }) if name == "f"
    ));
    assert!(matches!(
        eval_fresh("f <- |a| { a }; [f 1; 2]"),
        Err(EvalError::ArityMismatch { name, expected: 1, given: 2 }) if name == "f"
    ));
    assert_eq!(number_of(eval_fresh("f <- |a| { a }; [f 1]")), 1.0);
}

#[test]
fn a_builtin_takes_at_least_its_minimum() {
    assert!(matches!(
        eval_fresh("[pow 2]"),
        Err(EvalError::ArityMismatch { name, expected: 2, given: 1 }) if name == "pow"
    ));
    assert_eq!(number_of(eval_fresh("[pow 2; 3]")), 8.0);
    assert_eq!(number_of(eval_fresh("[pow 2; 3; 4]")), 8.0);
}

#[test]
fn the_failure_of_a_builtin_is_passed_on() {
    assert!(matches!(
        eval_fresh("[pow \"a\"; 2]"),
        Err(EvalError::Native(message)) if message == "Invalid type parameter"
    ));
}

#[test]
fn only_functions_are_called() {
    assert!(matches!(
        eval_fresh("x <- 1; [x 2]"),
        Err(EvalError::NotAFunction(name)) if name == "x"
    ));
}

#[test]
fn arguments_are_evaluated_from_left_to_right_in_the_caller() {
    assert_eq!(number_of(eval_fresh("f <- |a, b| { a * 10 + b }; [f x <- 1; x + 1]")), 12.0);
    assert_eq!(number_of(eval_fresh("f <- |a| { a }; [f x <- 3]; x")), 3.0);
}

#[test]
fn the_budget_bounds_the_steps() {
    let builtins = builtins();
    let mut evaluator = Evaluator::new(None, &builtins).with_budget(1000);
    assert!(matches!(
        eval("while true { 1 }", &mut evaluator),
        Err(EvalError::BudgetExhausted)
    ));
    assert_eq!(evaluator.budget(), 0);
    let mut evaluator = Evaluator::new(None, &builtins).with_budget(3);
    assert_eq!(number_of(eval("1 + 2", &mut evaluator)), 3.0);
    assert_eq!(evaluator.budget(), 0);
    let mut evaluator = Evaluator::new(None, &builtins).with_budget(2);
    assert!(matches!(eval("1 + 2", &mut evaluator), Err(EvalError::BudgetExhausted)));
    let evaluator = Evaluator::new(None, &builtins);
    assert_eq!(evaluator.budget(), u64::MAX);
}

#[test]
fn a_scope_inside_another_sees_its_variables() {
    let builtins = builtins();
    let mut outer = Evaluator::new(None, &builtins);
    assert_eq!(number_of(eval("a <- 1; b <- 2", &mut outer)), 2.0);
    let mut inner = Evaluator::new(Some(&outer), &builtins);
    assert_eq!(number_of(eval("a <- 10; a + b", &mut inner)), 12.0);
    assert_eq!(number_of(eval("a", &mut outer)), 1.0);
}

#[test]
fn builtins_are_registered_once() {
    let mut builtins = Builtins::new(Machine::new());
    assert!(builtins.get(&"pow".to_owned()).is_none());
    assert_eq!(builtins.register("pow".to_owned(), 2), Some(0));
    assert_eq!(builtins.register("puts_num".to_owned(), 1), Some(1));
    assert_eq!(builtins.register("pow".to_owned(), 5), None);
    assert!(matches!(builtins.get(&"pow".to_owned()), Some(Value::BuiltinFunction(2, 0))));
    assert!(matches!(builtins.get(&"puts_num".to_owned()), Some(Value::BuiltinFunction(1, 1))));
    assert!(builtins.unit().printed.borrow().is_empty());
}

#[test]
fn a_program_runs_from_text_to_values() {
    let builtins = builtins();
    let mut evaluator = Evaluator::new(None, &builtins);
    let run = process("x <- 5; y <- [pow x; 2]; [puts_num y]".to_owned(), &mut evaluator);
    assert!(run.is_ok());
    assert_eq!(*builtins.unit().printed.borrow(), vec!["25".to_owned()]);
    assert!(matches!(evaluator.get_value(&"x".to_owned()), Ok(Value::Number(n)) if n == num(5.0)));
    assert!(matches!(evaluator.get_value(&"y".to_owned()), Ok(Value::Number(n)) if n == num(25.0)));
    assert!(matches!(eval("[puts_num y]", &mut evaluator), Ok(Value::Void)));
}

#[test]
fn a_program_stops_at_its_first_failure() {
    let builtins = builtins();
    let mut evaluator = Evaluator::new(None, &builtins);
    assert!(matches!(
        process("x <- 1; \"open".to_owned(), &mut evaluator),
        Err(Failure::Lex(LexError::UnterminatedString(_)))
    ));
    assert!(matches!(
        evaluator.get_value(&"x".to_owned()),
        Err(EvalError::UnresolvedVariable(_))
    ));
    assert!(matches!(
        process("x <- 1; ] ; y <- 2".to_owned(), &mut evaluator),
        Err(Failure::Parse(ParseError::UnexpectedToken(Token::RBracket)))
    ));
    assert!(matches!(evaluator.get_value(&"x".to_owned()), Ok(Value::Number(_))));
    assert!(matches!(
        process("z <- 3; [puts_num missing]; w <- 4".to_owned(), &mut evaluator),
        Err(Failure::Eval(EvalError::UnresolvedVariable(name))) if name == "missing"
    ));
    assert!(matches!(evaluator.get_value(&"z".to_owned()), Ok(Value::Number(_))));
    assert!(matches!(
        evaluator.get_value(&"w".to_owned()),
        Err(EvalError::UnresolvedVariable(_))
    ));
    assert!(builtins.unit().printed.borrow().is_empty());
}

#[test]
fn two_runs_of_a_text_end_alike() {
    let source = "i <- 0; s <- \"\"; while i < 3 { s <- s + \"ab\" * i; i <- i + 1 }; [puts_num [pow i; 2]]; t <- s";
    let first_builtins = builtins();
    let second_builtins = builtins();
    let mut first = Evaluator::new(None, &first_builtins);
    let mut second = Evaluator::new(None, &second_builtins);
    assert!(process(source.to_owned(), &mut first).is_ok());
    assert!(process(source.to_owned(), &mut second).is_ok());
    assert_eq!(first.budget(), second.budget());
    assert_eq!(string_of(first.get_value(&"t".to_owned())), "ababab");
    assert_eq!(string_of(second.get_value(&"t".to_owned())), "ababab");
    assert_eq!(*first_builtins.unit().printed.borrow(), vec!["9".to_owned()]);
    assert_eq!(*second_builtins.unit().printed.borrow(), *first_builtins.unit().printed.borrow());
    let failing = "x <- 1; [pow x]; y <- 2";
    let one = process(failing.to_owned(), &mut first);
    let two = process(failing.to_owned(), &mut second);
    assert!(matches!(
        one,
        Err(Failure::Eval(EvalError::ArityMismatch { expected: 2, given: 1, .. }))
    ));
    assert!(matches!(
        two,
        Err(Failure::Eval(EvalError::ArityMismatch { expected: 2, given: 1, .. }))
    ));
    assert_eq!(first.budget(), second.budget());
}

#[test]
fn values_are_copied_whole() {
    let value = eval_fresh("\"text\"").unwrap();
    assert!(matches!(value.clone(), Value::Str(string) if string == "text"));
    let function = eval_fresh("|a, b| { a }").unwrap();
    match (function.clone(), function) {
        (Value::Function(names, body), Value::Function(same_names, same_body)) => {
            assert_eq!(names.iter().cloned().collect::<Vec<_>>(), vec!["a", "b"]);
            assert!(std::rc::Rc::ptr_eq(&names, &same_names));
            assert!(std::rc::Rc::ptr_eq(&body, &same_body));
        }
        _ => panic!("no function"),
    }
}
