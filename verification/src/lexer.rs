//! The lexer: from source text to a flat sequence of tokens.
//!
//! What the lexer makes of a text is stated over the characters alone by
//! [`lexeme_at`]; only the value of a number literal is asked of the numeric
//! unit, and [`resolves`] says what becomes of each answer.

use crate::number::{literal_gives, literal_is_determined, Number, Numerics};
use crate::text::string_of;
use vstd::prelude::*;
use vstd::slice::slice_subrange;

verus! {

/// An operator as it is written in the source.
#[derive(Clone, Copy, PartialEq, Eq, Structural, Debug)]
pub enum Operator {
    Add,
    Sub,
    Mul,
    Div,
    Not,
    Equals,
    LessThan,
    LessThanOrEquals,
    GreaterThan,
    GreaterThanOrEquals,
}

/// The smallest lexical unit.
#[derive(Debug)]
pub enum Token {
    Num(Number),
    Str(String),
    Id(String),
    Op(Operator),
    VBar,
    LBrace,
    RBrace,
    LParenthesis,
    RParenthesis,
    LBracket,
    RBracket,
    Comma,
    Assign,
    If,
    Else,
    While,
    True,
    False,
    Void,
    EOS,
}

/// A token, with its text as a sequence of characters.
pub enum TokenView {
    Num(Number),
    Str(Seq<char>),
    Id(Seq<char>),
    Op(Operator),
    VBar,
    LBrace,
    RBrace,
    LParenthesis,
    RParenthesis,
    LBracket,
    RBracket,
    Comma,
    Assign,
    If,
    Else,
    While,
    True,
    False,
    Void,
    EOS,
}

impl View for Token {
    type V = TokenView;

    open spec fn view(&self) -> TokenView {
        match self {
            Token::Num(n) => TokenView::Num(*n),
            Token::Str(s) => TokenView::Str(s@),
            Token::Id(s) => TokenView::Id(s@),
            Token::Op(op) => TokenView::Op(*op),
            Token::VBar => TokenView::VBar,
            Token::LBrace => TokenView::LBrace,
            Token::RBrace => TokenView::RBrace,
            Token::LParenthesis => TokenView::LParenthesis,
            Token::RParenthesis => TokenView::RParenthesis,
            Token::LBracket => TokenView::LBracket,
            Token::RBracket => TokenView::RBracket,
            Token::Comma => TokenView::Comma,
            Token::Assign => TokenView::Assign,
            Token::If => TokenView::If,
            Token::Else => TokenView::Else,
            Token::While => TokenView::While,
            Token::True => TokenView::True,
            Token::False => TokenView::False,
            Token::Void => TokenView::Void,
            Token::EOS => TokenView::EOS,
        }
    }
}

impl Clone for Token {
    fn clone(&self) -> (copy: Self)
        ensures
            copy@ == self@,
    {
        match self {
            Token::Num(n) => Token::Num(*n),
            Token::Str(s) => Token::Str(s.clone()),
            Token::Id(s) => Token::Id(s.clone()),
            Token::Op(op) => Token::Op(*op),
            Token::VBar => Token::VBar,
            Token::LBrace => Token::LBrace,
            Token::RBrace => Token::RBrace,
            Token::LParenthesis => Token::LParenthesis,
            Token::RParenthesis => Token::RParenthesis,
            Token::LBracket => Token::LBracket,
            Token::RBracket => Token::RBracket,
            Token::Comma => Token::Comma,
            Token::Assign => Token::Assign,
            Token::If => Token::If,
            Token::Else => Token::Else,
            Token::While => Token::While,
            Token::True => Token::True,
            Token::False => Token::False,
            Token::Void => Token::Void,
            Token::EOS => Token::EOS,
        }
    }
}

impl Token {
    /// Whether two tokens are the same: of one kind and with one content.
    pub fn same(&self, other: &Token) -> (yes: bool)
        ensures
            yes == (self@ == other@),
    {
        match self {
            Token::Num(a) => match other {
                Token::Num(b) => a.bits == b.bits,
                _ => false,
            },
            Token::Str(a) => match other {
                Token::Str(b) => *a == *b,
                _ => false,
            },
            Token::Id(a) => match other {
                Token::Id(b) => *a == *b,
                _ => false,
            },
            Token::Op(a) => match other {
                Token::Op(b) => *a == *b,
                _ => false,
            },
            Token::VBar => matches!(other, Token::VBar),
            Token::LBrace => matches!(other, Token::LBrace),
            Token::RBrace => matches!(other, Token::RBrace),
            Token::LParenthesis => matches!(other, Token::LParenthesis),
            Token::RParenthesis => matches!(other, Token::RParenthesis),
            Token::LBracket => matches!(other, Token::LBracket),
            Token::RBracket => matches!(other, Token::RBracket),
            Token::Comma => matches!(other, Token::Comma),
            Token::Assign => matches!(other, Token::Assign),
            Token::If => matches!(other, Token::If),
            Token::Else => matches!(other, Token::Else),
            Token::While => matches!(other, Token::While),
            Token::True => matches!(other, Token::True),
            Token::False => matches!(other, Token::False),
            Token::Void => matches!(other, Token::Void),
            Token::EOS => matches!(other, Token::EOS),
        }
    }
}

/// Why a text could not be cut into tokens. Each error carries the
/// fragment of the text that caused it.
#[derive(Debug)]
pub enum LexError {
    /// A run of operator characters that is no operator.
    UnknownOperator(String),
    /// A number literal with a second `.`; the fragment ends with that dot.
    UnexpectedDot(String),
    /// A number literal too large for a finite number.
    NumberTooBig(String),
    /// A string literal without its closing quote; the fragment is what
    /// follows the opening quote.
    UnterminatedString(String),
}

/// A lexical error, with its fragment as a sequence of characters.
pub enum LexErrorView {
    UnknownOperator(Seq<char>),
    UnexpectedDot(Seq<char>),
    NumberTooBig(Seq<char>),
    UnterminatedString(Seq<char>),
}

impl View for LexError {
    type V = LexErrorView;

    open spec fn view(&self) -> LexErrorView {
        match self {
            LexError::UnknownOperator(s) => LexErrorView::UnknownOperator(s@),
            LexError::UnexpectedDot(s) => LexErrorView::UnexpectedDot(s@),
            LexError::NumberTooBig(s) => LexErrorView::NumberTooBig(s@),
            LexError::UnterminatedString(s) => LexErrorView::UnterminatedString(s@),
        }
    }
}

/// Space, tab, carriage return and line feed separate tokens.
pub open spec fn whitespace(c: char) -> bool {
    c == ' ' || c == '\n' || c == '\r' || c == '\t'
}

/// The characters that operators are made of.
pub open spec fn operator_sign(c: char) -> bool {
    c == '+' || c == '-' || c == '*' || c == '=' || c == '/' || c == '<' || c == '>'
}

/// The characters that are a token each.
pub open spec fn delimiter(c: char) -> bool {
    c == '(' || c == ')' || c == ',' || c == '|' || c == '{' || c == '}' || c == '[' || c == ']'
        || c == ';'
}

/// A decimal digit.
pub open spec fn digit(c: char) -> bool {
    '0' <= c <= '9'
}

/// The characters that identifiers and keywords are made of.
pub open spec fn word_part(c: char) -> bool {
    !operator_sign(c) && !whitespace(c) && !delimiter(c)
}

/// The classes of characters that the lexer reads in runs.
#[derive(Clone, Copy, PartialEq, Eq, Structural, Debug)]
pub enum Class {
    /// What separates tokens.
    Whitespace,
    /// What operators are made of.
    Sign,
    /// What words are made of.
    Word,
    /// What a string literal may hold: anything but the double quote.
    Quoted,
}

/// Whether `c` is of class `class`.
pub open spec fn belongs(class: Class, c: char) -> bool {
    match class {
        Class::Whitespace => whitespace(c),
        Class::Sign => operator_sign(c),
        Class::Word => word_part(c),
        Class::Quoted => c != '"',
    }
}

/// The end of the longest run of characters of one class that starts at `from`.
pub open spec fn run_end(s: Seq<char>, from: int, class: Class) -> int
    decreases s.len() - from,
{
    if 0 <= from < s.len() && belongs(class, s[from]) {
        run_end(s, from + 1, class)
    } else {
        from
    }
}

/// Where the number literal that holds position `from` stops, and whether
/// it stops at a second dot. `dotted` says that a dot lies before `from`.
pub open spec fn number_end(s: Seq<char>, from: int, dotted: bool) -> (int, bool)
    decreases s.len() - from,
{
    if 0 <= from < s.len() && digit(s[from]) {
        number_end(s, from + 1, dotted)
    } else if 0 <= from < s.len() && s[from] == '.' {
        if dotted {
            (from, true)
        } else {
            number_end(s, from + 1, true)
        }
    } else {
        (from, false)
    }
}

/// The value of a digit character.
pub open spec fn digit_value(c: char) -> u8 {
    (c as u8 - 48) as u8
}

/// The digits of a literal, most significant first, without its dot.
pub open spec fn digits_of(text: Seq<char>) -> Seq<u8>
    decreases text.len(),
{
    if text.len() == 0 {
        Seq::empty()
    } else if digit(text.last()) {
        digits_of(text.drop_last()).push(digit_value(text.last()))
    } else {
        digits_of(text.drop_last())
    }
}

/// How many characters of a literal follow its last dot; zero without a dot.
pub open spec fn fraction_digits(text: Seq<char>) -> nat
    decreases text.len(),
{
    if text.len() == 0 || text.last() == '.' || !text.drop_last().contains('.') {
        0
    } else {
        fraction_digits(text.drop_last()) + 1
    }
}

/// What one step of the lexer finds before the numeric unit is asked.
pub enum Lexeme {
    /// A token that the characters determine.
    Token(TokenView),
    /// A number literal: its digits, how many of them follow the dot, and
    /// its text.
    Literal { digits: Seq<u8>, fraction: nat, text: Seq<char> },
    /// Malformed text.
    Failure(LexErrorView),
}

/// The token of a delimiter character.
pub open spec fn delimiter_token(c: char) -> TokenView {
    if c == '(' {
        TokenView::LParenthesis
    } else if c == ')' {
        TokenView::RParenthesis
    } else if c == '[' {
        TokenView::LBracket
    } else if c == ']' {
        TokenView::RBracket
    } else if c == '{' {
        TokenView::LBrace
    } else if c == '}' {
        TokenView::RBrace
    } else if c == '|' {
        TokenView::VBar
    } else if c == ',' {
        TokenView::Comma
    } else {
        TokenView::EOS
    }
}

/// The keyword or identifier that a word is.
pub open spec fn word_token(word: Seq<char>) -> TokenView {
    if word == seq!['i', 'f'] {
        TokenView::If
    } else if word == seq!['e', 'l', 's', 'e'] {
        TokenView::Else
    } else if word == seq!['w', 'h', 'i', 'l', 'e'] {
        TokenView::While
    } else if word == seq!['t', 'r', 'u', 'e'] {
        TokenView::True
    } else if word == seq!['f', 'a', 'l', 's', 'e'] {
        TokenView::False
    } else if word == seq!['v', 'o', 'i', 'd'] {
        TokenView::Void
    } else {
        TokenView::Id(word)
    }
}

/// The operator table: what a run of operator characters stands for.
pub open spec fn operator_lexeme(run: Seq<char>) -> Lexeme {
    if run == seq!['+'] {
        Lexeme::Token(TokenView::Op(Operator::Add))
    } else if run == seq!['-'] {
        Lexeme::Token(TokenView::Op(Operator::Sub))
    } else if run == seq!['*'] {
        Lexeme::Token(TokenView::Op(Operator::Mul))
    } else if run == seq!['/'] {
        Lexeme::Token(TokenView::Op(Operator::Div))
    } else if run == seq!['=', '='] {
        Lexeme::Token(TokenView::Op(Operator::Equals))
    } else if run == seq!['>', '='] {
        Lexeme::Token(TokenView::Op(Operator::GreaterThanOrEquals))
    } else if run == seq!['<', '='] {
        Lexeme::Token(TokenView::Op(Operator::LessThanOrEquals))
    } else if run == seq!['>'] {
        Lexeme::Token(TokenView::Op(Operator::GreaterThan))
    } else if run == seq!['<'] {
        Lexeme::Token(TokenView::Op(Operator::LessThan))
    } else if run == seq!['<', '-'] {
        Lexeme::Token(TokenView::Assign)
    } else {
        Lexeme::Failure(LexErrorView::UnknownOperator(run))
    }
}

/// The lexeme that starts at position `at`, and the position after it.
/// `at` is the position of a character that is no whitespace.
pub open spec fn lexeme_at(s: Seq<char>, at: int) -> (Lexeme, int)
    recommends
        0 <= at < s.len(),
        !whitespace(s[at]),
{
    let c = s[at];
    if delimiter(c) {
        (Lexeme::Token(delimiter_token(c)), at + 1)
    } else if c == '"' {
        let close = run_end(s, at + 1, Class::Quoted);
        if close < s.len() {
            (Lexeme::Token(TokenView::Str(s.subrange(at + 1, close))), close + 1)
        } else {
            (
                Lexeme::Failure(LexErrorView::UnterminatedString(s.subrange(at + 1, close))),
                close,
            )
        }
    } else if digit(c) || c == '.' {
        let (end, failed) = number_end(s, at, false);
        if failed {
            (Lexeme::Failure(LexErrorView::UnexpectedDot(s.subrange(at, end + 1))), end)
        } else {
            let text = s.subrange(at, end);
            (
                Lexeme::Literal { digits: digits_of(text), fraction: fraction_digits(text), text },
                end,
            )
        }
    } else if operator_sign(c) {
        let end = run_end(s, at, Class::Sign);
        (operator_lexeme(s.subrange(at, end)), end)
    } else {
        let end = run_end(s, at, Class::Word);
        (Lexeme::Token(word_token(s.subrange(at, end))), end)
    }
}

/// What a step of the lexer returns for a lexeme: a token or a failure as
/// it stands, and for a literal the number that the unit gives, or
/// [`LexError::NumberTooBig`] where it gives none.
pub open spec fn resolves<N: Numerics>(
    unit: &N,
    lexeme: Lexeme,
    outcome: Result<Option<TokenView>, LexErrorView>,
) -> bool {
    match lexeme {
        Lexeme::Token(token) => outcome == Ok::<Option<TokenView>, LexErrorView>(Some(token)),
        Lexeme::Failure(error) => outcome == Err::<Option<TokenView>, LexErrorView>(error),
        Lexeme::Literal { digits, fraction, text } => match outcome {
            Ok(Some(TokenView::Num(number))) => literal_gives(
                unit,
                digits,
                fraction,
                Some(number),
            ),
            Err(LexErrorView::NumberTooBig(fragment)) => fragment == text && literal_gives(
                unit,
                digits,
                fraction,
                None,
            ),
            _ => false,
        },
    }
}

/// One step of the lexer on text `s` from position `from`: whitespace is
/// skipped, then either the text has ended (`Ok(None)`), or the lexeme found
/// there is resolved. `after` is the position that the lexer is left at.
pub open spec fn next_token<N: Numerics>(
    unit: &N,
    s: Seq<char>,
    from: int,
    outcome: Result<Option<TokenView>, LexErrorView>,
    after: int,
) -> bool {
    let at = run_end(s, from, Class::Whitespace);
    if at >= s.len() {
        outcome == Ok::<Option<TokenView>, LexErrorView>(None) && after == at
    } else {
        let (lexeme, end) = lexeme_at(s, at);
        after == end && resolves(unit, lexeme, outcome)
    }
}

/// Repeated steps from position `from`, with the tokens `found` so far:
/// the first failure, or all the tokens up to the end of the text.
pub open spec fn collects<N: Numerics>(
    unit: &N,
    s: Seq<char>,
    from: int,
    found: Seq<TokenView>,
    outcome: Result<Seq<TokenView>, LexErrorView>,
) -> bool
    decreases s.len() - from,
{
    exists|step: Result<Option<TokenView>, LexErrorView>, after: int|
        #[trigger] next_token(unit, s, from, step, after) && match step {
            Err(error) => outcome == Err::<Seq<TokenView>, LexErrorView>(error),
            Ok(None) => outcome == Ok::<Seq<TokenView>, LexErrorView>(found),
            Ok(Some(token)) => from < after <= s.len() && collects(
                unit,
                s,
                after,
                found.push(token),
                outcome,
            ),
        }
}

/// A run ends between its start and the end of the text.
pub proof fn run_end_bounds(s: Seq<char>, from: int, class: Class)
    requires
        0 <= from <= s.len(),
    ensures
        from <= run_end(s, from, class) <= s.len(),
        from < s.len() && belongs(class, s[from]) ==> from < run_end(s, from, class),
        run_end(s, from, class) < s.len() ==> !belongs(class, s[run_end(s, from, class)]),
    decreases s.len() - from,
{
    if from < s.len() && belongs(class, s[from]) {
        run_end_bounds(s, from + 1, class);
    }
}

/// A number literal ends between its start and the end of the text.
pub proof fn number_end_bounds(s: Seq<char>, from: int, dotted: bool)
    requires
        0 <= from <= s.len(),
    ensures
        from <= number_end(s, from, dotted).0 <= s.len(),
        number_end(s, from, dotted).1 ==> number_end(s, from, dotted).0 < s.len(),
        from < s.len() && (digit(s[from]) || (s[from] == '.' && !dotted)) ==> from < number_end(
            s,
            from,
            dotted,
        ).0,
    decreases s.len() - from,
{
    if from < s.len() && digit(s[from]) {
        number_end_bounds(s, from + 1, dotted);
    } else if from < s.len() && s[from] == '.' && !dotted {
        number_end_bounds(s, from + 1, true);
    }
}

/// Every lexeme takes at least one character, and none reaches past the
/// end of the text unless it is a failure.
pub proof fn lexeme_advances(s: Seq<char>, at: int)
    requires
        0 <= at < s.len(),
        !whitespace(s[at]),
    ensures
        at < lexeme_at(s, at).1 <= s.len(),
{
    run_end_bounds(s, at + 1, Class::Quoted);
    run_end_bounds(s, at, Class::Sign);
    run_end_bounds(s, at, Class::Word);
    number_end_bounds(s, at, false);
    if s[at] == '.' {
        number_end_bounds(s, at + 1, true);
    }
}

/// With a unit that values every literal in one way only, a step of the
/// lexer from one position of one text has one outcome.
pub proof fn step_is_deterministic<N: Numerics>(
    unit: &N,
    s: Seq<char>,
    from: int,
    first: Result<Option<TokenView>, LexErrorView>,
    first_after: int,
    second: Result<Option<TokenView>, LexErrorView>,
    second_after: int,
)
    requires
        literal_is_determined(unit),
        next_token(unit, s, from, first, first_after),
        next_token(unit, s, from, second, second_after),
    ensures
        first == second,
        first_after == second_after,
{
}

/// Lexing is deterministic: with a unit that values every literal in one
/// way only, running the lexer twice on one text from one position yields
/// one sequence of tokens, or one failure.
pub proof fn lexing_is_deterministic<N: Numerics>(
    unit: &N,
    s: Seq<char>,
    from: int,
    found: Seq<TokenView>,
    first: Result<Seq<TokenView>, LexErrorView>,
    second: Result<Seq<TokenView>, LexErrorView>,
)
    requires
        literal_is_determined(unit),
        collects(unit, s, from, found, first),
        collects(unit, s, from, found, second),
    ensures
        first == second,
    decreases s.len() - from,
{
    let (step_a, after_a) = choose|step: Result<Option<TokenView>, LexErrorView>, after: int|
        #[trigger] next_token(unit, s, from, step, after) && match step {
            Err(error) => first == Err::<Seq<TokenView>, LexErrorView>(error),
            Ok(None) => first == Ok::<Seq<TokenView>, LexErrorView>(found),
            Ok(Some(token)) => from < after <= s.len() && collects(
                unit,
                s,
                after,
                found.push(token),
                first,
            ),
        };
    let (step_b, after_b) = choose|step: Result<Option<TokenView>, LexErrorView>, after: int|
        #[trigger] next_token(unit, s, from, step, after) && match step {
            Err(error) => second == Err::<Seq<TokenView>, LexErrorView>(error),
            Ok(None) => second == Ok::<Seq<TokenView>, LexErrorView>(found),
            Ok(Some(token)) => from < after <= s.len() && collects(
                unit,
                s,
                after,
                found.push(token),
                second,
            ),
        };
    step_is_deterministic(unit, s, from, step_a, after_a, step_b, after_b);
    if let Ok(Some(token)) = step_a {
        lexing_is_deterministic(unit, s, after_a, found.push(token), first, second);
    }
}

/// The view of what a step of the lexer returns.
pub open spec fn step_view(step: Result<Option<Token>, LexError>) -> Result<
    Option<TokenView>,
    LexErrorView,
> {
    match step {
        Ok(Some(token)) => Ok(Some(token@)),
        Ok(None) => Ok(None),
        Err(error) => Err(error@),
    }
}

/// The views of a sequence of tokens.
pub open spec fn tokens_view(tokens: Seq<Token>) -> Seq<TokenView> {
    tokens.map_values(|token: Token| token@)
}

/// The view of what collecting the tokens returns.
pub open spec fn collected_view(collected: Result<Vec<Token>, LexError>) -> Result<
    Seq<TokenView>,
    LexErrorView,
> {
    match collected {
        Ok(tokens) => Ok(tokens_view(tokens@)),
        Err(error) => Err(error@),
    }
}

fn is_whitespace(c: char) -> (yes: bool)
    ensures
        yes == whitespace(c),
{
    c == ' ' || c == '\n' || c == '\r' || c == '\t'
}

fn is_operator(c: char) -> (yes: bool)
    ensures
        yes == operator_sign(c),
{
    c == '+' || c == '-' || c == '*' || c == '=' || c == '/' || c == '<' || c == '>'
}

fn is_delimiter(c: char) -> (yes: bool)
    ensures
        yes == delimiter(c),
{
    c == '(' || c == ')' || c == ',' || c == '|' || c == '{' || c == '}' || c == '[' || c == ']'
        || c == ';'
}

fn is_of(class: Class, c: char) -> (yes: bool)
    ensures
        yes == belongs(class, c),
{
    match class {
        Class::Whitespace => is_whitespace(c),
        Class::Sign => is_operator(c),
        Class::Word => !is_operator(c) && !is_whitespace(c) && !is_delimiter(c),
        Class::Quoted => c != '"',
    }
}

/// Whether `run` spells exactly the characters of `word`, which are those of `text`.
fn spells(run: &[char], word: &[char], Ghost(text): Ghost<Seq<char>>) -> (yes: bool)
    requires
        word@ =~= text,
    ensures
        yes == (run@ == text),
{
    if run.len() != word.len() {
        return false;
    }
    let mut i: usize = 0;
    while i < run.len()
        invariant
            run.len() == word.len(),
            word@ == text,
            i <= run.len(),
            run@.subrange(0, i as int) == word@.subrange(0, i as int),
        decreases run.len() - i,
    {
        if run[i] != word[i] {
            assert(run@[i as int] != text[i as int]);
            return false;
        }
        assert(run@.subrange(0, i + 1) == run@.subrange(0, i as int).push(run@[i as int]));
        assert(word@.subrange(0, i + 1) == word@.subrange(0, i as int).push(word@[i as int]));
        i += 1;
    }
    assert(run@ == run@.subrange(0, i as int));
    assert(word@ == word@.subrange(0, i as int));
    true
}

/// A lexer over one text, with the numeric unit that values its literals.
pub struct Lexer<'n, N: Numerics> {
    chars: Vec<char>,
    index: usize,
    numerics: &'n N,
}

impl<'n, N: Numerics> Lexer<'n, N> {
    #[verifier::type_invariant]
    spec fn within_text(self) -> bool {
        self.index <= self.chars.len()
    }

    /// The text that is being read.
    pub closed spec fn text(&self) -> Seq<char> {
        self.chars@
    }

    /// The position of the next character to read.
    pub closed spec fn position(&self) -> int {
        self.index as int
    }

    /// The numeric unit that values the literals.
    pub closed spec fn unit(&self) -> &N {
        self.numerics
    }

    /// A lexer at the start of `buf`.
    pub fn new(buf: String, numerics: &'n N) -> (lexer: Self)
        ensures
            lexer.text() == buf@,
            lexer.position() == 0,
            lexer.unit() == numerics,
    {
        Lexer { chars: crate::text::characters(buf.as_str()), index: 0, numerics }
    }

    /// Moves over a run of characters of one class.
    fn read_run(&mut self, class: Class)
        ensures
            final(self).text() == old(self).text(),
            final(self).unit() == old(self).unit(),
            final(self).position() == run_end(old(self).text(), old(self).position(), class),
            old(self).position() <= final(self).position() <= old(self).text().len(),
    {
        proof {
            use_type_invariant(&*self);
        }
        while self.index < self.chars.len() && is_of(class, self.chars[self.index])
            invariant
                self.chars == old(self).chars,
                self.numerics == old(self).numerics,
                old(self).index <= self.index <= self.chars.len(),
                run_end(self.chars@, old(self).index as int, class) == run_end(
                    self.chars@,
                    self.index as int,
                    class,
                ),
            decreases self.chars.len() - self.index,
        {
            self.index += 1;
        }
    }

    fn skip_whitespaces(&mut self)
        ensures
            final(self).text() == old(self).text(),
            final(self).unit() == old(self).unit(),
            final(self).position() == run_end(
                old(self).text(),
                old(self).position(),
                Class::Whitespace,
            ),
            old(self).position() <= final(self).position() <= old(self).text().len(),
    {
        self.read_run(Class::Whitespace)
    }

    /// The characters from `from` up to `to`, as a string.
    fn fragment(&self, from: usize, to: usize) -> (out: String)
        requires
            from <= to <= self.text().len(),
        ensures
            out@ == self.text().subrange(from as int, to as int),
    {
        string_of(slice_subrange(self.chars.as_slice(), from, to))
    }

    fn read_literal(&mut self) -> (token: Token)
        requires
            old(self).position() < old(self).text().len(),
        ensures
            final(self).text() == old(self).text(),
            final(self).unit() == old(self).unit(),
            final(self).position() == run_end(old(self).text(), old(self).position(), Class::Word),
            token@ == word_token(
                old(self).text().subrange(old(self).position(), final(self).position()),
            ),
    {
        let start = self.index;
        self.read_run(Class::Word);
        let word = slice_subrange(self.chars.as_slice(), start, self.index);
        let ghost text = seq!['i', 'f'];
        let found = spells(word, &['i', 'f'], Ghost(text));
        if found {
            return Token::If;
        }
        let ghost text = seq!['e', 'l', 's', 'e'];
        let found = spells(word, &['e', 'l', 's', 'e'], Ghost(text));
        if found {
            return Token::Else;
        }
        let ghost text = seq!['w', 'h', 'i', 'l', 'e'];
        let found = spells(word, &['w', 'h', 'i', 'l', 'e'], Ghost(text));
        if found {
            return Token::While;
        }
        let ghost text = seq!['t', 'r', 'u', 'e'];
        let found = spells(word, &['t', 'r', 'u', 'e'], Ghost(text));
        if found {
            return Token::True;
        }
        let ghost text = seq!['f', 'a', 'l', 's', 'e'];
        let found = spells(word, &['f', 'a', 'l', 's', 'e'], Ghost(text));
        if found {
            return Token::False;
        }
        let ghost text = seq!['v', 'o', 'i', 'd'];
        let found = spells(word, &['v', 'o', 'i', 'd'], Ghost(text));
        if found {
            return Token::Void;
        }
        Token::Id(string_of(word))
    }

    fn read_operator(&mut self) -> (read: Result<Token, LexError>)
        ensures
            final(self).text() == old(self).text(),
            final(self).unit() == old(self).unit(),
            final(self).position() == run_end(old(self).text(), old(self).position(), Class::Sign),
            operator_lexeme(
                old(self).text().subrange(old(self).position(), final(self).position()),
            ) == match read {
                Ok(token) => Lexeme::Token(token@),
                Err(error) => Lexeme::Failure(error@),
            },
    {
        let start = self.index;
        self.read_run(Class::Sign);
        let run = slice_subrange(self.chars.as_slice(), start, self.index);
        let ghost text = seq!['+'];
        let found = spells(run, &['+'], Ghost(text));
        if found {
            return Ok(Token::Op(Operator::Add));
        }
        let ghost text = seq!['-'];
        let found = spells(run, &['-'], Ghost(text));
        if found {
            return Ok(Token::Op(Operator::Sub));
        }
        let ghost text = seq!['*'];
        let found = spells(run, &['*'], Ghost(text));
        if found {
            return Ok(Token::Op(Operator::Mul));
        }
        let ghost text = seq!['/'];
        let found = spells(run, &['/'], Ghost(text));
        if found {
            return Ok(Token::Op(Operator::Div));
        }
        let ghost text = seq!['=', '='];
        let found = spells(run, &['=', '='], Ghost(text));
        if found {
            return Ok(Token::Op(Operator::Equals));
        }
        let ghost text = seq!['>', '='];
        let found = spells(run, &['>', '='], Ghost(text));
        if found {
            return Ok(Token::Op(Operator::GreaterThanOrEquals));
        }
        let ghost text = seq!['<', '='];
        let found = spells(run, &['<', '='], Ghost(text));
        if found {
            return Ok(Token::Op(Operator::LessThanOrEquals));
        }
        let ghost text = seq!['>'];
        let found = spells(run, &['>'], Ghost(text));
        if found {
            return Ok(Token::Op(Operator::GreaterThan));
        }
        let ghost text = seq!['<'];
        let found = spells(run, &['<'], Ghost(text));
        if found {
            return Ok(Token::Op(Operator::LessThan));
        }
        let ghost text = seq!['<', '-'];
        let found = spells(run, &['<', '-'], Ghost(text));
        if found {
            return Ok(Token::Assign);
        }
        Err(LexError::UnknownOperator(string_of(run)))
    }

    fn read_number(&mut self) -> (read: Result<Token, LexError>)
        ensures
            final(self).text() == old(self).text(),
            final(self).unit() == old(self).unit(),
            old(self).position() <= final(self).position() <= old(self).text().len(),
            final(self).position() == number_end(
                old(self).text(),
                old(self).position(),
                false,
            ).0,
            number_end(old(self).text(), old(self).position(), false).1 ==> read == Err::<
                Token,
                LexError,
            >(read->Err_0) && read->Err_0@ == LexErrorView::UnexpectedDot(
                old(self).text().subrange(old(self).position(), final(self).position() + 1),
            ),
            !number_end(old(self).text(), old(self).position(), false).1 ==> resolves(
                old(self).unit(),
                Lexeme::Literal {
                    digits: digits_of(
                        old(self).text().subrange(old(self).position(), final(self).position()),
                    ),
                    fraction: fraction_digits(
                        old(self).text().subrange(old(self).position(), final(self).position()),
                    ),
                    text: old(self).text().subrange(old(self).position(), final(self).position()),
                },
                step_view(
                    match read {
                        Ok(token) => Ok(Some(token)),
                        Err(error) => Err(error),
                    },
                ),
            ),
    {
        proof {
            use_type_invariant(&*self);
        }
        let start = self.index;
        let mut digits: Vec<u8> = Vec::new();
        let mut dotted = false;
        let mut fraction: usize = 0;
        while self.index < self.chars.len()
            invariant
                self.chars == old(self).chars,
                self.numerics == old(self).numerics,
                start == old(self).index,
                start <= self.index <= self.chars.len(),
                number_end(self.chars@, start as int, false) == number_end(
                    self.chars@,
                    self.index as int,
                    dotted,
                ),
                digits@ == digits_of(self.chars@.subrange(start as int, self.index as int)),
                fraction == fraction_digits(self.chars@.subrange(start as int, self.index as int)),
                fraction <= self.index - start,
                dotted == self.chars@.subrange(start as int, self.index as int).contains('.'),
            ensures
                start <= self.index <= self.chars.len(),
                self.chars == old(self).chars,
                self.numerics == old(self).numerics,
                number_end(self.chars@, start as int, false) == (self.index as int, false),
                digits@ == digits_of(self.chars@.subrange(start as int, self.index as int)),
                fraction == fraction_digits(self.chars@.subrange(start as int, self.index as int)),
            decreases self.chars.len() - self.index,
        {
            let c = self.chars[self.index];
            let ghost before = self.chars@.subrange(start as int, self.index as int);
            let ghost longer = self.chars@.subrange(start as int, self.index + 1);
            proof {
                assert(longer.drop_last() == before);
                assert(longer.last() == c);
                assert(longer.contains('.') == (before.contains('.') || c == '.')) by {
                    if before.contains('.') {
                        let i = choose|i: int| 0 <= i < before.len() && before[i] == '.';
                        assert(longer[i] == '.');
                    }
                    if c == '.' {
                        assert(longer[longer.len() - 1] == '.');
                    }
                    if longer.contains('.') {
                        let i = choose|i: int| 0 <= i < longer.len() && longer[i] == '.';
                        if i < before.len() {
                            assert(before[i] == '.');
                        }
                    }
                }
            }
            if '0' <= c && c <= '9' {
                digits.push(c as u8 - 48);
                if dotted {
                    fraction += 1;
                }
            } else if c == '.' {
                if dotted {
                    let fragment = self.fragment(start, self.index + 1);
                    return Err(LexError::UnexpectedDot(fragment));
                }
                dotted = true;
            } else {
                break ;
            }
            self.index += 1;
        }
        let answer = self.numerics.literal(&digits, fraction);
        let ghost text = self.chars@.subrange(start as int, self.index as int);
        assert(literal_gives(self.numerics, digits_of(text), fraction_digits(text), answer));
        match answer {
            Some(number) => Ok(Token::Num(number)),
            None => Err(LexError::NumberTooBig(self.fragment(start, self.index))),
        }
    }

    fn read_string(&mut self) -> (read: Result<Token, LexError>)
        requires
            old(self).position() < old(self).text().len(),
        ensures
            final(self).text() == old(self).text(),
            final(self).unit() == old(self).unit(),
            ({
                let s = old(self).text();
                let at = old(self).position();
                let close = run_end(s, at + 1, Class::Quoted);
                if close < s.len() {
                    &&& final(self).position() == close + 1
                    &&& read == Ok::<Token, LexError>(read->Ok_0)
                    &&& read->Ok_0@ == TokenView::Str(s.subrange(at + 1, close))
                } else {
                    &&& final(self).position() == close
                    &&& read == Err::<Token, LexError>(read->Err_0)
                    &&& read->Err_0@ == LexErrorView::UnterminatedString(s.subrange(at + 1, close))
                }
            }),
    {
        let end = self.chars.len();
        let start = self.index + 1;
        self.index = start;
        self.read_run(Class::Quoted);
        let contents = self.fragment(start, self.index);
        proof {
            use_type_invariant(&*self);
        }
        if self.index < self.chars.len() {
            self.index += 1;
            Ok(Token::Str(contents))
        } else {
            Err(LexError::UnterminatedString(contents))
        }
    }

    fn parse_token(&mut self) -> (read: Result<Token, LexError>)
        requires
            old(self).position() < old(self).text().len(),
            !whitespace(old(self).text()[old(self).position()]),
        ensures
            final(self).text() == old(self).text(),
            final(self).unit() == old(self).unit(),
            final(self).position() == lexeme_at(old(self).text(), old(self).position()).1,
            resolves(
                old(self).unit(),
                lexeme_at(old(self).text(), old(self).position()).0,
                step_view(
                    match read {
                        Ok(token) => Ok(Some(token)),
                        Err(error) => Err(error),
                    },
                ),
            ),
    {
        let end = self.chars.len();
        let c = self.chars[self.index];
        if is_delimiter(c) {
            let next = self.index + 1;
            self.index = next;
            if c == '(' {
                Ok(Token::LParenthesis)
            } else if c == ')' {
                Ok(Token::RParenthesis)
            } else if c == '[' {
                Ok(Token::LBracket)
            } else if c == ']' {
                Ok(Token::RBracket)
            } else if c == '{' {
                Ok(Token::LBrace)
            } else if c == '}' {
                Ok(Token::RBrace)
            } else if c == '|' {
                Ok(Token::VBar)
            } else if c == ',' {
                Ok(Token::Comma)
            } else {
                Ok(Token::EOS)
            }
        } else if c == '"' {
            self.read_string()
        } else if ('0' <= c && c <= '9') || c == '.' {
            self.read_number()
        } else if is_operator(c) {
            self.read_operator()
        } else {
            Ok(self.read_literal())
        }
    }

    /// The next token of the text, `Ok(None)` at its end, or the reason
    /// why the text is malformed at this place.
    pub fn next(&mut self) -> (step: Result<Option<Token>, LexError>)
        ensures
            final(self).text() == old(self).text(),
            final(self).unit() == old(self).unit(),
            next_token(
                old(self).unit(),
                old(self).text(),
                old(self).position(),
                step_view(step),
                final(self).position(),
            ),
            old(self).position() <= final(self).position() <= old(self).text().len(),
            step matches Ok(Some(_)) ==> old(self).position() < final(self).position(),
    {
        self.skip_whitespaces();
        proof {
            use_type_invariant(&*self);
            run_end_bounds(old(self).text(), old(self).position(), Class::Whitespace);
            if self.index < self.chars.len() {
                lexeme_advances(self.chars@, self.index as int);
            }
        }
        if self.index < self.chars.len() {
            match self.parse_token() {
                Ok(token) => Ok(Some(token)),
                Err(error) => Err(error),
            }
        } else {
            Ok(None)
        }
    }

    /// All the tokens from the current position to the end of the text,
    /// or the first reason why the text is malformed.
    pub fn collect(&mut self) -> (collected: Result<Vec<Token>, LexError>)
        ensures
            final(self).text() == old(self).text(),
            final(self).unit() == old(self).unit(),
            collects(
                old(self).unit(),
                old(self).text(),
                old(self).position(),
                Seq::empty(),
                collected_view(collected),
            ),
    {
        let mut tokens: Vec<Token> = Vec::new();
        let ghost s = self.text();
        let ghost unit = self.unit();
        let ghost start = self.position();
        assert(tokens_view(tokens@) == Seq::<TokenView>::empty());
        proof {
            use_type_invariant(&*self);
        }
        loop
            invariant
                s == old(self).text(),
                unit == old(self).unit(),
                start == old(self).position(),
                self.text() == s,
                self.unit() == unit,
                start <= self.position() <= s.len(),
                forall|outcome: Result<Seq<TokenView>, LexErrorView>|
                    collects(unit, s, self.position(), tokens_view(tokens@), outcome) ==> collects(
                        unit,
                        s,
                        start,
                        Seq::empty(),
                        outcome,
                    ),
            decreases s.len() - self.position(),
        {
            let ghost before = self.position();
            let ghost found = tokens_view(tokens@);
            let step = self.next();
            match step {
                Ok(Some(token)) => {
                    tokens.push(token);
                    assert(tokens_view(tokens@) == found.push(token@));
                    assert forall|outcome: Result<Seq<TokenView>, LexErrorView>|
                        collects(
                            unit,
                            s,
                            self.position(),
                            tokens_view(tokens@),
                            outcome,
                        ) implies collects(unit, s, start, Seq::empty(), outcome) by {
                        assert(next_token(unit, s, before, step_view(step), self.position()));
                        assert(collects(unit, s, before, found, outcome));
                    }
                },
                Ok(None) => {
                    let collected = Ok(tokens);
                    assert(next_token(unit, s, before, step_view(step), self.position()));
                    assert(collects(unit, s, before, found, collected_view(collected)));
                    return collected;
                },
                Err(error) => {
                    let collected = Err(error);
                    assert(next_token(unit, s, before, step_view(step), self.position()));
                    assert(collects(unit, s, before, found, collected_view(collected)));
                    return collected;
                },
            }
        }
    }
}

} // verus!
