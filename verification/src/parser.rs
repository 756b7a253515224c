//! The parser: from tokens to expressions, by precedence climbing.
//!
//! [`grammar`] states, as functions of the tokens alone, what every part of
//! the parser yields. The methods of [`Parser`] are proved to compute
//! exactly that.

pub mod grammar;
pub mod laws;
pub mod operators;
pub mod parameters;

use crate::lexer::{tokens_view, Token, TokenView};
use parameters::{add_name, has_name, no_names};
use crate::number::Number;
use crate::shared::share;
use linked_hash_set::LinkedHashSet;
use operators::{InfixOperator, PrefixOperator};
use parameters::names_of;
use std::rc::Rc;
use vstd::prelude::*;

verus! {

/// How tightly an operator binds, from loosest to tightest.
#[derive(PartialOrd, PartialEq, Eq, Structural, Copy, Clone, Debug)]
pub enum Precedence {
    Lowest,
    Equals,
    Add,
    Mul,
    Prefix,
}

impl Precedence {
    /// The rank of the precedence: a tighter one has a higher rank.
    pub open spec fn rank(self) -> nat {
        match self {
            Precedence::Lowest => 0,
            Precedence::Equals => 1,
            Precedence::Add => 2,
            Precedence::Mul => 3,
            Precedence::Prefix => 4,
        }
    }

    /// The rank, computed.
    pub fn level(&self) -> (level: u8)
        ensures
            level == self.rank(),
    {
        match self {
            Precedence::Lowest => 0,
            Precedence::Equals => 1,
            Precedence::Add => 2,
            Precedence::Mul => 3,
            Precedence::Prefix => 4,
        }
    }
}

/// The precedence of an infix operator: comparisons bind loosest, then
/// the additive operators, then the multiplicative ones.
pub open spec fn precedence_of(operator: InfixOperator) -> Precedence {
    match operator {
        InfixOperator::Add | InfixOperator::Sub => Precedence::Add,
        InfixOperator::Mul | InfixOperator::Div => Precedence::Mul,
        InfixOperator::Equals
        | InfixOperator::GreaterThan
        | InfixOperator::LessThan
        | InfixOperator::LessThanOrEquals
        | InfixOperator::GreaterThanOrEquals => Precedence::Equals,
    }
}

impl InfixOperator {
    /// How tightly the operator binds.
    pub fn precedence(&self) -> (precedence: Precedence)
        ensures
            precedence == precedence_of(*self),
    {
        match self {
            InfixOperator::Add | InfixOperator::Sub => Precedence::Add,
            InfixOperator::Mul | InfixOperator::Div => Precedence::Mul,
            InfixOperator::Equals
            | InfixOperator::GreaterThan
            | InfixOperator::LessThan
            | InfixOperator::LessThanOrEquals
            | InfixOperator::GreaterThanOrEquals => Precedence::Equals,
        }
    }
}

/// A node of the syntax tree.
///
/// The parameters and the body of a function literal are shared: the
/// function values made from the literal hold the same two.
#[derive(Debug)]
pub enum Expression {
    Void,
    Id(String),
    Assignment(String, Box<Expression>),
    Num(Number),
    Str(String),
    Bool(bool),
    Function(Rc<LinkedHashSet<String>>, Rc<Vec<Expression>>),
    FunctionCall(String, Vec<Expression>),
    If(Box<Expression>, Vec<Expression>, Option<Vec<Expression>>),
    While(Box<Expression>, Vec<Expression>),
    Infix(InfixOperator, Box<Expression>, Box<Expression>),
    Prefix(PrefixOperator, Box<Expression>),
}

/// The shape of an expression: names and strings as sequences of
/// characters, parameters as the sequence of their names, blocks as
/// sequences of shapes.
pub enum ExpressionView {
    Void,
    Id(Seq<char>),
    Assignment(Seq<char>, Box<ExpressionView>),
    Num(Number),
    Str(Seq<char>),
    Bool(bool),
    Function(Seq<Seq<char>>, Seq<ExpressionView>),
    FunctionCall(Seq<char>, Seq<ExpressionView>),
    If(Box<ExpressionView>, Seq<ExpressionView>, Option<Seq<ExpressionView>>),
    While(Box<ExpressionView>, Seq<ExpressionView>),
    Infix(InfixOperator, Box<ExpressionView>, Box<ExpressionView>),
    Prefix(PrefixOperator, Box<ExpressionView>),
}

/// The shapes of the expressions of a block.
pub open spec fn block_view(block: Seq<Expression>) -> Seq<ExpressionView>
    decreases block,
{
    Seq::new(
        block.len(),
        |i: int|
            if 0 <= i < block.len() {
                expression_view(block[i])
            } else {
                ExpressionView::Void
            },
    )
}

/// The shape of an expression.
pub open spec fn expression_view(expression: Expression) -> ExpressionView
    decreases expression,
{
    match expression {
        Expression::Void => ExpressionView::Void,
        Expression::Id(name) => ExpressionView::Id(name@),
        Expression::Assignment(name, value) => ExpressionView::Assignment(
            name@,
            Box::new(expression_view(*value)),
        ),
        Expression::Num(number) => ExpressionView::Num(number),
        Expression::Str(string) => ExpressionView::Str(string@),
        Expression::Bool(truth) => ExpressionView::Bool(truth),
        Expression::Function(parameters, body) => ExpressionView::Function(
            names_of(*parameters),
            block_view(body@),
        ),
        Expression::FunctionCall(name, arguments) => ExpressionView::FunctionCall(
            name@,
            block_view(arguments@),
        ),
        Expression::If(condition, consequence, alternative) => ExpressionView::If(
            Box::new(expression_view(*condition)),
            block_view(consequence@),
            match alternative {
                Some(block) => Some(block_view(block@)),
                None => None,
            },
        ),
        Expression::While(condition, body) => ExpressionView::While(
            Box::new(expression_view(*condition)),
            block_view(body@),
        ),
        Expression::Infix(operator, left, right) => ExpressionView::Infix(
            operator,
            Box::new(expression_view(*left)),
            Box::new(expression_view(*right)),
        ),
        Expression::Prefix(operator, operand) => ExpressionView::Prefix(
            operator,
            Box::new(expression_view(*operand)),
        ),
    }
}

impl View for Expression {
    type V = ExpressionView;

    open spec fn view(&self) -> ExpressionView {
        expression_view(*self)
    }
}

/// A copy of a block: a copy of each of its expressions, in order.
fn copy_block(block: &Vec<Expression>) -> (copy: Vec<Expression>)
    ensures
        block_view(copy@) == block_view(block@),
    decreases block,
{
    let mut copy: Vec<Expression> = Vec::new();
    let mut at: usize = 0;
    while at < block.len()
        invariant
            at <= block.len(),
            copy@.len() == at,
            forall|i: int| 0 <= i < at ==> (#[trigger] copy@[i])@ == block@[i]@,
        decreases block.len() - at,
    {
        copy.push(copy_expression(&block[at]));
        at += 1;
    }
    assert(block_view(copy@) =~= block_view(block@));
    copy
}

/// A copy of an expression. The parameters and the body of a function
/// literal are shared with the copy.
fn copy_expression(expression: &Expression) -> (copy: Expression)
    ensures
        copy@ == expression@,
    decreases expression,
{
    match expression {
        Expression::Void => Expression::Void,
        Expression::Id(name) => Expression::Id(name.clone()),
        Expression::Assignment(name, value) => Expression::Assignment(
            name.clone(),
            Box::new(copy_expression(value)),
        ),
        Expression::Num(number) => Expression::Num(*number),
        Expression::Str(string) => Expression::Str(string.clone()),
        Expression::Bool(truth) => Expression::Bool(*truth),
        Expression::Function(parameters, body) => Expression::Function(
            share(parameters),
            share(body),
        ),
        Expression::FunctionCall(name, arguments) => Expression::FunctionCall(
            name.clone(),
            copy_block(arguments),
        ),
        Expression::If(condition, consequence, alternative) => Expression::If(
            Box::new(copy_expression(condition)),
            copy_block(consequence),
            match alternative {
                Some(block) => Some(copy_block(block)),
                None => None,
            },
        ),
        Expression::While(condition, body) => Expression::While(
            Box::new(copy_expression(condition)),
            copy_block(body),
        ),
        Expression::Infix(operator, left, right) => Expression::Infix(
            *operator,
            Box::new(copy_expression(left)),
            Box::new(copy_expression(right)),
        ),
        Expression::Prefix(operator, operand) => Expression::Prefix(
            *operator,
            Box::new(copy_expression(operand)),
        ),
    }
}

impl Clone for Expression {
    fn clone(&self) -> (copy: Self)
        ensures
            copy@ == self@,
    {
        copy_expression(self)
    }
}

/// Appending an expression to a block appends its shape to the block's shapes.
pub proof fn block_view_push(block: Seq<Expression>, expression: Expression)
    ensures
        block_view(block.push(expression)) == block_view(block).push(expression@),
{
    assert(block_view(block.push(expression)) =~= block_view(block).push(expression@));
}

/// Why a sequence of tokens is no program.
#[derive(Debug)]
pub enum ParseError {
    /// An operator that cannot stand before an operand stands where an
    /// expression starts.
    InvalidPrefixOperator(crate::lexer::Operator),
    /// An operator that cannot stand between operands follows an expression.
    InvalidInfixOperator(crate::lexer::Operator),
    /// The tokens end after a prefix operator.
    MissingOperand(PrefixOperator),
    /// The tokens end where an expression is needed.
    ExpectedExpression,
    /// The left-hand side of an assignment is not an identifier.
    NotAnIdentifier(Expression),
    /// One token was needed and another, or none, was found.
    Expected(Token, Option<Token>),
    /// The name of a called function is not an identifier.
    ExpectedIdentifier(Token),
    /// The tokens end where the name of a called function is needed.
    MissingFunctionName,
    /// The tokens end inside a block or an argument list.
    Unterminated,
    /// The tokens end inside a parameter list, where a name is needed.
    MissingParameters,
    /// A parameter name occurs twice in one parameter list.
    DuplicateParameter(String),
    /// Something other than a name stands where a parameter name is needed.
    ExpectedParameterName,
    /// Something other than `,` or `|` follows a parameter name.
    UnexpectedInParameters(Token),
    /// The tokens end after a parameter name.
    MissingSeparator,
    /// A token that starts no expression stands where one is needed.
    UnexpectedToken(Token),
    /// A token that continues no expression follows one.
    ExpectedOperator(Token),
}

/// A parse error, with its tokens and expressions as shapes.
pub enum ParseErrorView {
    InvalidPrefixOperator(crate::lexer::Operator),
    InvalidInfixOperator(crate::lexer::Operator),
    MissingOperand(PrefixOperator),
    ExpectedExpression,
    NotAnIdentifier(ExpressionView),
    Expected(TokenView, Option<TokenView>),
    ExpectedIdentifier(TokenView),
    MissingFunctionName,
    Unterminated,
    MissingParameters,
    DuplicateParameter(Seq<char>),
    ExpectedParameterName,
    UnexpectedInParameters(TokenView),
    MissingSeparator,
    UnexpectedToken(TokenView),
    ExpectedOperator(TokenView),
}

impl View for ParseError {
    type V = ParseErrorView;

    open spec fn view(&self) -> ParseErrorView {
        match self {
            ParseError::InvalidPrefixOperator(operator) => ParseErrorView::InvalidPrefixOperator(
                *operator,
            ),
            ParseError::InvalidInfixOperator(operator) => ParseErrorView::InvalidInfixOperator(
                *operator,
            ),
            ParseError::MissingOperand(operator) => ParseErrorView::MissingOperand(*operator),
            ParseError::ExpectedExpression => ParseErrorView::ExpectedExpression,
            ParseError::NotAnIdentifier(expression) => ParseErrorView::NotAnIdentifier(
                expression@,
            ),
            ParseError::Expected(expected, found) => ParseErrorView::Expected(
                expected@,
                match found {
                    Some(token) => Some(token@),
                    None => None,
                },
            ),
            ParseError::ExpectedIdentifier(token) => ParseErrorView::ExpectedIdentifier(token@),
            ParseError::MissingFunctionName => ParseErrorView::MissingFunctionName,
            ParseError::Unterminated => ParseErrorView::Unterminated,
            ParseError::MissingParameters => ParseErrorView::MissingParameters,
            ParseError::DuplicateParameter(name) => ParseErrorView::DuplicateParameter(name@),
            ParseError::ExpectedParameterName => ParseErrorView::ExpectedParameterName,
            ParseError::UnexpectedInParameters(token) => ParseErrorView::UnexpectedInParameters(
                token@,
            ),
            ParseError::MissingSeparator => ParseErrorView::MissingSeparator,
            ParseError::UnexpectedToken(token) => ParseErrorView::UnexpectedToken(token@),
            ParseError::ExpectedOperator(token) => ParseErrorView::ExpectedOperator(token@),
        }
    }
}

/// The shape of what parsing an expression, if one is there, returns.
pub open spec fn optional_view(parsed: Result<Option<Expression>, ParseError>) -> Result<
    Option<ExpressionView>,
    ParseErrorView,
> {
    match parsed {
        Ok(Some(expression)) => Ok(Some(expression@)),
        Ok(None) => Ok(None),
        Err(error) => Err(error@),
    }
}

/// The shape of what parsing one expression returns.
pub open spec fn single_view(parsed: Result<Expression, ParseError>) -> Result<
    ExpressionView,
    ParseErrorView,
> {
    match parsed {
        Ok(expression) => Ok(expression@),
        Err(error) => Err(error@),
    }
}

/// The shape of what parsing a block returns.
pub open spec fn sequence_view(parsed: Result<Vec<Expression>, ParseError>) -> Result<
    Seq<ExpressionView>,
    ParseErrorView,
> {
    match parsed {
        Ok(block) => Ok(block_view(block@)),
        Err(error) => Err(error@),
    }
}

/// The shape of what parsing a parameter list returns.
pub open spec fn names_view(parsed: Result<LinkedHashSet<String>, ParseError>) -> Result<
    Seq<Seq<char>>,
    ParseErrorView,
> {
    match parsed {
        Ok(set) => Ok(names_of(set)),
        Err(error) => Err(error@),
    }
}

/// The shape of what parsing a condition and its block returns.
pub open spec fn guarded_view(parsed: Result<(Expression, Vec<Expression>), ParseError>) -> Result<
    (ExpressionView, Seq<ExpressionView>),
    ParseErrorView,
> {
    match parsed {
        Ok((test, body)) => Ok((test@, block_view(body@))),
        Err(error) => Err(error@),
    }
}

/// A parser over a sequence of tokens, which it reads from left to right.
pub struct Parser<'a> {
    tokens: &'a Vec<Token>,
    position: usize,
}

impl<'a> Parser<'a> {
    #[verifier::type_invariant]
    spec fn within_tokens(self) -> bool {
        self.position <= self.tokens.len()
    }

    /// The tokens that are being read.
    pub closed spec fn tokens(&self) -> Seq<TokenView> {
        tokens_view(self.tokens@)
    }

    /// The position of the next token to read.
    pub closed spec fn position(&self) -> int {
        self.position as int
    }

    /// A parser at the first of `tokens`.
    pub fn new(tokens: &'a Vec<Token>) -> (parser: Self)
        ensures
            parser.tokens() == tokens_view(tokens@),
            parser.position() == 0,
    {
        Parser { tokens, position: 0 }
    }

    /// The next token, which stays unread.
    fn peek(&self) -> (token: Option<&'a Token>)
        ensures
            0 <= self.position() <= self.tokens().len(),
            self.position() < self.tokens().len() ==> token.is_some() && token.unwrap()@
                == self.tokens()[self.position()],
            self.position() >= self.tokens().len() ==> token.is_none(),
    {
        proof {
            use_type_invariant(self);
        }
        if self.position < self.tokens.len() {
            Some(&self.tokens[self.position])
        } else {
            None
        }
    }

    /// Reads one token.
    fn skip(&mut self)
        requires
            old(self).position() < old(self).tokens().len(),
        ensures
            final(self).tokens() == old(self).tokens(),
            final(self).position() == old(self).position() + 1,
    {
        let length = self.tokens.len();
        self.position = self.position + 1;
    }

    fn parse_prefix_expression(&mut self, op: PrefixOperator) -> (parsed: Result<
        Expression,
        ParseError,
    >)
        ensures
            final(self).tokens() == old(self).tokens(),
            grammar::parsed(single_view(parsed), final(self).position()) == grammar::prefixed(old(self).tokens(), old(self).position(), op),
            old(self).position() <= final(self).position() <= old(self).tokens().len(),
            parsed is Ok ==> old(self).position() < final(self).position(),
        decreases old(self).tokens().len() - old(self).position(), 2int,
    {
        match self.parse_expression(Precedence::Prefix) {
            Ok(Some(expr)) => Ok(Expression::Prefix(op, Box::new(expr))),
            Ok(None) => Err(ParseError::MissingOperand(op)),
            Err(err) => Err(err),
        }
    }

    fn parse_infix_expression(&mut self, lhs: Expression, op: InfixOperator, prec: Precedence) -> (parsed:
        Result<Expression, ParseError>)
        requires
            old(self).position() < old(self).tokens().len(),
        ensures
            final(self).tokens() == old(self).tokens(),
            grammar::parsed(single_view(parsed), final(self).position()) == grammar::combined(old(self).tokens(), old(self).position(), lhs@, op, prec),
            old(self).position() < final(self).position() <= old(self).tokens().len(),
        decreases old(self).tokens().len() - old(self).position(), 0int,
    {
        self.skip();
        match self.parse_expression(prec) {
            Ok(Some(rhs)) => Ok(Expression::Infix(op, Box::new(lhs), Box::new(rhs))),
            Ok(None) => Err(ParseError::ExpectedExpression),
            Err(err) => Err(err),
        }
    }

    fn parse_assign(&mut self, lhs: Expression, prec: Precedence) -> (parsed: Result<
        Expression,
        ParseError,
    >)
        requires
            old(self).position() < old(self).tokens().len(),
        ensures
            final(self).tokens() == old(self).tokens(),
            grammar::parsed(single_view(parsed), final(self).position()) == grammar::assigned(old(self).tokens(), old(self).position(), lhs@, prec),
            old(self).position() <= final(self).position() <= old(self).tokens().len(),
            parsed is Ok ==> old(self).position() < final(self).position(),
        decreases old(self).tokens().len() - old(self).position(), 0int,
    {
        if let Expression::Id(id) = lhs {
            self.skip();
            match self.parse_expression(prec) {
                Ok(Some(expr)) => Ok(Expression::Assignment(id, Box::new(expr))),
                Ok(None) => Err(ParseError::ExpectedExpression),
                Err(err) => Err(err),
            }
        } else {
            Err(ParseError::NotAnIdentifier(lhs))
        }
    }

    /// Whether `token` is the next one.
    fn is_next(&self, token: Token) -> (yes: bool)
        ensures
            yes == (self.position() < self.tokens().len() && self.tokens()[self.position()]
                == token@),
    {
        match self.peek() {
            Some(next_token) => token.same(next_token),
            None => false,
        }
    }

    /// Fails unless `token` is the next one. Nothing is read.
    fn expect_next(&self, token: Token) -> (met: Result<(), ParseError>)
        ensures
            match met {
                Ok(_) => grammar::expected(self.tokens(), self.position(), token@).result is Ok,
                Err(error) => grammar::expected(self.tokens(), self.position(), token@).result
                    == Err::<(), ParseErrorView>(error@),
            },
    {
        match self.peek() {
            Some(next_token) => {
                if token.same(next_token) {
                    Ok(())
                } else {
                    Err(ParseError::Expected(token, Some(next_token.clone())))
                }
            },
            None => Err(ParseError::Expected(token, None)),
        }
    }

    /// The expressions up to `closer`, which is read.
    fn parse_sequence(&mut self, closer: Token) -> (parsed: Result<Vec<Expression>, ParseError>)
        ensures
            final(self).tokens() == old(self).tokens(),
            grammar::parsed(sequence_view(parsed), final(self).position()) == grammar::sequence(
                old(self).tokens(),
                old(self).position(),
                closer@,
                Seq::empty(),
            ),
            old(self).position() <= final(self).position() <= old(self).tokens().len(),
            parsed is Ok ==> old(self).position() < final(self).position(),
        decreases old(self).tokens().len() - old(self).position(), 2int,
    {
        let mut expressions: Vec<Expression> = Vec::new();
        let ghost tokens = self.tokens();
        let ghost start = self.position();
        proof {
            use_type_invariant(&*self);
            assert(block_view(expressions@) =~= Seq::<ExpressionView>::empty());
        }
        loop
            invariant
                tokens == old(self).tokens(),
                start == old(self).position(),
                self.tokens() == tokens,
                start <= self.position() <= tokens.len(),
                expressions@.len() > 0 ==> start < self.position(),
                grammar::sequence(tokens, self.position(), closer@, block_view(expressions@))
                    == grammar::sequence(tokens, start, closer@, Seq::empty()),
            decreases tokens.len() - self.position(),
        {
            let ghost at = self.position();
            match self.peek() {
                None => {
                    return Err(ParseError::Unterminated);
                },
                Some(next_token) => {
                    if next_token.same(&closer) {
                        self.skip();
                        return Ok(expressions);
                    }
                    if let Token::EOS = next_token {
                        self.skip();
                    }
                },
            }
            match self.parse_expression(Precedence::Lowest) {
                Ok(Some(expr)) => {
                    proof {
                        block_view_push(expressions@, expr);
                    }
                    expressions.push(expr);
                },
                Ok(None) => {
                    return Err(ParseError::Unterminated);
                },
                Err(err) => {
                    return Err(err);
                },
            }
        }
    }

    fn parse_block(&mut self) -> (parsed: Result<Vec<Expression>, ParseError>)
        ensures
            final(self).tokens() == old(self).tokens(),
            grammar::parsed(sequence_view(parsed), final(self).position()) == grammar::sequence(
                old(self).tokens(),
                old(self).position(),
                TokenView::RBrace,
                Seq::empty(),
            ),
            old(self).position() <= final(self).position() <= old(self).tokens().len(),
            parsed is Ok ==> old(self).position() < final(self).position(),
        decreases old(self).tokens().len() - old(self).position(), 3int,
    {
        self.parse_sequence(Token::RBrace)
    }

    /// The block whose opening brace must come next.
    fn parse_braced(&mut self) -> (parsed: Result<Vec<Expression>, ParseError>)
        ensures
            final(self).tokens() == old(self).tokens(),
            grammar::parsed(sequence_view(parsed), final(self).position()) == grammar::braced(old(self).tokens(), old(self).position()),
            old(self).position() <= final(self).position() <= old(self).tokens().len(),
            parsed is Ok ==> old(self).position() < final(self).position(),
        decreases old(self).tokens().len() - old(self).position(), 4int,
    {
        match self.expect_next(Token::LBrace) {
            Ok(_) => {
                self.skip();
                self.parse_block()
            },
            Err(err) => {
                proof {
                    use_type_invariant(&*self);
                }
                Err(err)
            },
        }
    }

    /// The parameter names up to the closing bar, which is read.
    fn parse_parameters(&mut self) -> (parsed: Result<LinkedHashSet<String>, ParseError>)
        ensures
            final(self).tokens() == old(self).tokens(),
            grammar::parsed(names_view(parsed), final(self).position()) == grammar::parameters(old(self).tokens(), old(self).position(), Seq::empty()),
            old(self).position() <= final(self).position() <= old(self).tokens().len(),
            parsed is Ok ==> old(self).position() < final(self).position(),
    {
        let mut parameters = no_names();
        let ghost tokens = self.tokens();
        let ghost start = self.position();
        proof {
            use_type_invariant(&*self);
        }
        loop
            invariant
                tokens == old(self).tokens(),
                start == old(self).position(),
                self.tokens() == tokens,
                start <= self.position() <= tokens.len(),
                grammar::parameters(tokens, self.position(), names_of(parameters))
                    == grammar::parameters(tokens, start, Seq::empty()),
            decreases tokens.len() - self.position(),
        {
            let next_token = match self.peek() {
                Some(token) => token,
                None => {
                    return Err(ParseError::MissingParameters);
                },
            };
            self.skip();
            match next_token {
                Token::Id(id) => {
                    let name = id.clone();
                    if has_name(&parameters, &name) {
                        return Err(ParseError::DuplicateParameter(name));
                    }
                    let separator = match self.peek() {
                        Some(token) => token,
                        None => {
                            return Err(ParseError::MissingSeparator);
                        },
                    };
                    self.skip();
                    add_name(&mut parameters, name);
                    match separator {
                        Token::Comma => {},
                        Token::VBar => {
                            return Ok(parameters);
                        },
                        other => {
                            return Err(ParseError::UnexpectedInParameters(other.clone()));
                        },
                    }
                },
                Token::VBar => {
                    return Ok(parameters);
                },
                _ => {
                    return Err(ParseError::ExpectedParameterName);
                },
            }
        }
    }

    fn parse_function(&mut self) -> (parsed: Result<Expression, ParseError>)
        ensures
            final(self).tokens() == old(self).tokens(),
            grammar::parsed(single_view(parsed), final(self).position()) == grammar::function(old(self).tokens(), old(self).position()),
            old(self).position() <= final(self).position() <= old(self).tokens().len(),
            parsed is Ok ==> old(self).position() < final(self).position(),
        decreases old(self).tokens().len() - old(self).position(), 5int,
    {
        let parameters = match self.parse_parameters() {
            Ok(parameters) => parameters,
            Err(err) => {
                return Err(err);
            },
        };
        match self.parse_braced() {
            Ok(block) => Ok(Expression::Function(Rc::new(parameters), Rc::new(block))),
            Err(err) => Err(err),
        }
    }

    fn parse_function_call(&mut self) -> (parsed: Result<Expression, ParseError>)
        ensures
            final(self).tokens() == old(self).tokens(),
            grammar::parsed(single_view(parsed), final(self).position()) == grammar::call(old(self).tokens(), old(self).position()),
            old(self).position() <= final(self).position() <= old(self).tokens().len(),
            parsed is Ok ==> old(self).position() < final(self).position(),
        decreases old(self).tokens().len() - old(self).position(), 3int,
    {
        let token = match self.peek() {
            Some(token) => token,
            None => {
                return Err(ParseError::MissingFunctionName);
            },
        };
        self.skip();
        let f_name = match token {
            Token::Id(id) => id.clone(),
            _ => {
                return Err(ParseError::ExpectedIdentifier(token.clone()));
            },
        };
        match self.parse_sequence(Token::RBracket) {
            Ok(params) => Ok(Expression::FunctionCall(f_name, params)),
            Err(err) => Err(err),
        }
    }

    /// A condition and the block in braces after it.
    fn parse_guarded(&mut self) -> (parsed: Result<(Expression, Vec<Expression>), ParseError>)
        ensures
            final(self).tokens() == old(self).tokens(),
            grammar::parsed(guarded_view(parsed), final(self).position()) == grammar::guarded(
                old(self).tokens(),
                old(self).position(),
            ),
            old(self).position() <= final(self).position() <= old(self).tokens().len(),
            parsed is Ok ==> old(self).position() < final(self).position(),
        decreases old(self).tokens().len() - old(self).position(), 5int,
    {
        let condition = match self.parse_expression(Precedence::Lowest) {
            Ok(Some(condition)) => condition,
            Ok(None) => {
                return Err(ParseError::ExpectedExpression);
            },
            Err(err) => {
                return Err(err);
            },
        };
        match self.parse_braced() {
            Ok(block) => Ok((condition, block)),
            Err(err) => Err(err),
        }
    }

    fn parse_while_expression(&mut self) -> (parsed: Result<Expression, ParseError>)
        ensures
            final(self).tokens() == old(self).tokens(),
            grammar::parsed(single_view(parsed), final(self).position()) == grammar::repetition(old(self).tokens(), old(self).position()),
            old(self).position() <= final(self).position() <= old(self).tokens().len(),
            parsed is Ok ==> old(self).position() < final(self).position(),
        decreases old(self).tokens().len() - old(self).position(), 6int,
    {
        match self.parse_guarded() {
            Ok((condition, block)) => Ok(Expression::While(Box::new(condition), block)),
            Err(err) => Err(err),
        }
    }

    fn parse_if_expression(&mut self) -> (parsed: Result<Expression, ParseError>)
        ensures
            final(self).tokens() == old(self).tokens(),
            grammar::parsed(single_view(parsed), final(self).position()) == grammar::conditional(old(self).tokens(), old(self).position()),
            old(self).position() <= final(self).position() <= old(self).tokens().len(),
            parsed is Ok ==> old(self).position() < final(self).position(),
        decreases old(self).tokens().len() - old(self).position(), 6int,
    {
        let (condition, block) = match self.parse_guarded() {
            Ok(head) => head,
            Err(err) => {
                return Err(err);
            },
        };
        if self.is_next(Token::Else) {
            self.skip();
            match self.parse_braced() {
                Ok(else_block) => Ok(
                    Expression::If(Box::new(condition), block, Some(else_block)),
                ),
                Err(err) => Err(err),
            }
        } else {
            Ok(Expression::If(Box::new(condition), block, None))
        }
    }

    /// The group whose opening parenthesis was read: the expression up to
    /// the closing parenthesis, which is read.
    fn parse_group(&mut self) -> (parsed: Result<Expression, ParseError>)
        ensures
            final(self).tokens() == old(self).tokens(),
            grammar::parsed(single_view(parsed), final(self).position()) == grammar::group(
                old(self).tokens(),
                old(self).position(),
            ),
            old(self).position() <= final(self).position() <= old(self).tokens().len(),
            parsed is Ok ==> old(self).position() < final(self).position(),
        decreases old(self).tokens().len() - old(self).position(), 2int,
    {
        let inner = match self.parse_expression(Precedence::Lowest) {
            Ok(Some(inner)) => inner,
            Ok(None) => {
                return Err(ParseError::ExpectedExpression);
            },
            Err(err) => {
                return Err(err);
            },
        };
        match self.expect_next(Token::RParenthesis) {
            Ok(_) => {
                self.skip();
                Ok(inner)
            },
            Err(err) => Err(err),
        }
    }

    /// The operand that starts with the next token.
    fn parse_operand(&mut self) -> (parsed: Result<Expression, ParseError>)
        requires
            old(self).position() < old(self).tokens().len(),
        ensures
            final(self).tokens() == old(self).tokens(),
            grammar::parsed(single_view(parsed), final(self).position()) == grammar::operand(old(self).tokens(), old(self).position()),
            old(self).position() < final(self).position() <= old(self).tokens().len(),
        decreases old(self).tokens().len() - old(self).position(), 0int,
    {
        let token = &self.tokens[self.position];
        self.skip();
        match token {
            Token::Op(op) => {
                match op.to_prefix() {
                    Some(p_op) => self.parse_prefix_expression(p_op),
                    None => Err(ParseError::InvalidPrefixOperator(*op)),
                }
            },
            Token::LParenthesis => self.parse_group(),
            Token::VBar => self.parse_function(),
            Token::LBracket => self.parse_function_call(),
            Token::While => self.parse_while_expression(),
            Token::If => self.parse_if_expression(),
            Token::True => Ok(Expression::Bool(true)),
            Token::False => Ok(Expression::Bool(false)),
            Token::Void => Ok(Expression::Void),
            Token::Num(num) => Ok(Expression::Num(*num)),
            Token::Str(string) => Ok(Expression::Str(string.clone())),
            Token::Id(id) => Ok(Expression::Id(id.clone())),
            _ => Err(ParseError::UnexpectedToken(token.clone())),
        }
    }

    /// The next expression, read with the binding strength `prec` to its
    /// left: `Ok(None)` where the tokens have ended, and the reason where
    /// the tokens are no expression.
    pub fn parse_expression(&mut self, prec: Precedence) -> (parsed: Result<
        Option<Expression>,
        ParseError,
    >)
        ensures
            final(self).tokens() == old(self).tokens(),
            grammar::parsed(optional_view(parsed), final(self).position()) == grammar::expression(old(self).tokens(), old(self).position(), prec),
            old(self).position() <= final(self).position() <= old(self).tokens().len(),
            parsed matches Ok(Some(_)) ==> old(self).position() < final(self).position(),
            parsed matches Ok(None) ==> final(self).position() == old(self).tokens().len(),
        decreases old(self).tokens().len() - old(self).position(), 1int,
    {
        let ghost tokens = self.tokens();
        let ghost start = self.position();
        match self.peek() {
            None => {
                return Ok(None);
            },
            Some(Token::EOS) => {
                self.skip();
                return self.parse_expression(prec);
            },
            Some(_) => {},
        }
        let mut lhs = match self.parse_operand() {
            Ok(operand) => operand,
            Err(err) => {
                return Err(err);
            },
        };
        loop
            invariant
                tokens == old(self).tokens(),
                start == old(self).position(),
                self.tokens() == tokens,
                start < self.position() <= tokens.len(),
                grammar::continued(tokens, self.position(), lhs@, prec) == grammar::expression(
                    tokens,
                    start,
                    prec,
                ),
            decreases tokens.len() - self.position(),
        {
            let next_token = match self.peek() {
                Some(token) => token,
                None => {
                    return Ok(Some(lhs));
                },
            };
            match next_token {
                Token::EOS
                | Token::LBrace
                | Token::RBrace
                | Token::RBracket
                | Token::RParenthesis => {
                    return Ok(Some(lhs));
                },
                Token::Assign => {
                    lhs = match self.parse_assign(lhs, prec) {
                        Ok(grown) => grown,
                        Err(err) => {
                            return Err(err);
                        },
                    };
                },
                Token::Op(op) => {
                    let nop = match op.to_infix() {
                        Some(nop) => nop,
                        None => {
                            return Err(ParseError::InvalidInfixOperator(*op));
                        },
                    };
                    let nop_prec = nop.precedence();
                    if prec.level() >= nop_prec.level() {
                        return Ok(Some(lhs));
                    }
                    lhs = match self.parse_infix_expression(lhs, nop, nop_prec) {
                        Ok(grown) => grown,
                        Err(err) => {
                            return Err(err);
                        },
                    };
                },
                _ => {
                    return Err(ParseError::ExpectedOperator(next_token.clone()));
                },
            }
        }
    }
}

} // verus!
