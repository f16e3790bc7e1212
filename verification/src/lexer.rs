//! The source language: its syntax tree, its lexer and its parser.

use vstd::prelude::*;
use vstd::string::StrSliceExecFns;
use crate::text::push_char;

verus! {

/// A statement.
#[derive(Debug, PartialEq)]
pub enum Stmt {
    Assign { name: String, expr: Expr },
    ExprStmt(Expr),
}

/// An expression.
#[derive(Debug, PartialEq)]
pub enum Expr {
    Int(i64),
    Str(String),
    Ident(String),
    Binary { left: Box<Expr>, op: BinOp, right: Box<Expr> },
    Call { func: Box<Expr>, args: Vec<Expr> },
    InterpolatedString(Vec<StringPart>),
}

/// A binary operator.
#[derive(Debug, PartialEq)]
pub enum BinOp {
    Add,
}

/// A part of an interpolated string: literal text, or an embedded
/// expression.
#[derive(Debug, PartialEq)]
pub enum StringPart {
    Text(String),
    Expr(Box<Expr>),
}

/// An expression as a mathematical value.
pub enum ExprModel {
    Int(i64),
    Str(Seq<char>),
    Ident(Seq<char>),
    Binary { left: Box<ExprModel>, right: Box<ExprModel> },
    Call { func: Box<ExprModel>, args: Seq<ExprModel> },
    InterpolatedString(Seq<PartModel>),
}

/// A part of an interpolated string as a mathematical value.
pub enum PartModel {
    Text(Seq<char>),
    Expr(Box<ExprModel>),
}

/// The value of an expression.
pub open spec fn expr_model(e: Expr) -> ExprModel
    decreases e,
{
    match e {
        Expr::Int(n) => ExprModel::Int(n),
        Expr::Str(s) => ExprModel::Str(s@),
        Expr::Ident(s) => ExprModel::Ident(s@),
        Expr::Binary { left, op: _, right } => ExprModel::Binary {
            left: Box::new(expr_model(*left)),
            right: Box::new(expr_model(*right)),
        },
        Expr::Call { func, args } => ExprModel::Call {
            func: Box::new(expr_model(*func)),
            args: Seq::new(
                args@.len(),
                |i: int|
                    if 0 <= i < args@.len() {
                        expr_model(args@[i])
                    } else {
                        ExprModel::Int(0)
                    },
            ),
        },
        Expr::InterpolatedString(parts) => ExprModel::InterpolatedString(
            Seq::new(
                parts@.len(),
                |i: int|
                    if 0 <= i < parts@.len() {
                        part_model(parts@[i])
                    } else {
                        PartModel::Text(Seq::empty())
                    },
            ),
        ),
    }
}

/// The value of a part of an interpolated string.
pub open spec fn part_model(p: StringPart) -> PartModel
    decreases p,
{
    match p {
        StringPart::Text(s) => PartModel::Text(s@),
        StringPart::Expr(e) => PartModel::Expr(Box::new(expr_model(*e))),
    }
}

/// Why a source text is no program.
#[derive(Debug, Clone, Copy, PartialEq, Eq, Structural)]
pub enum ParseError {
    /// A token stands where an expression must start.
    UnexpectedToken,
    /// A closing parenthesis is missing.
    MissingClosingParen,
    /// An integer literal does not fit 64 bits.
    IntegerOverflow,
}

/// A token.
#[derive(Debug, PartialEq)]
pub enum Token {
    Int(i64),
    Str(String),
    Ident(String),
    Plus,
    Equal,
    LParen,
    RParen,
    Comma,
    Newline,
    EOF,
    InterpolatedString(Vec<StringPart>),
}

/// A token as a mathematical value.
pub enum TokenModel {
    Int(i64),
    Str(Seq<char>),
    Ident(Seq<char>),
    Plus,
    Equal,
    LParen,
    RParen,
    Comma,
    Newline,
    EOF,
    InterpolatedString(Seq<PartModel>),
}

/// A statement as a mathematical value.
pub enum StmtModel {
    Assign { name: Seq<char>, expr: ExprModel },
    ExprStmt(ExprModel),
}

/// The values of the parts of an interpolated string.
pub open spec fn parts_model(parts: Seq<StringPart>) -> Seq<PartModel> {
    Seq::new(parts.len(), |i: int| part_model(parts[i]))
}

/// The values of expressions.
pub open spec fn exprs_model(exprs: Seq<Expr>) -> Seq<ExprModel> {
    Seq::new(exprs.len(), |i: int| expr_model(exprs[i]))
}

/// The value of a token.
pub open spec fn token_model(t: Token) -> TokenModel {
    match t {
        Token::Int(n) => TokenModel::Int(n),
        Token::Str(s) => TokenModel::Str(s@),
        Token::Ident(s) => TokenModel::Ident(s@),
        Token::Plus => TokenModel::Plus,
        Token::Equal => TokenModel::Equal,
        Token::LParen => TokenModel::LParen,
        Token::RParen => TokenModel::RParen,
        Token::Comma => TokenModel::Comma,
        Token::Newline => TokenModel::Newline,
        Token::EOF => TokenModel::EOF,
        Token::InterpolatedString(parts) => TokenModel::InterpolatedString(parts_model(parts@)),
    }
}

/// The value of a statement.
pub open spec fn stmt_model(s: Stmt) -> StmtModel {
    match s {
        Stmt::Assign { name, expr } => StmtModel::Assign { name: name@, expr: expr_model(expr) },
        Stmt::ExprStmt(expr) => StmtModel::ExprStmt(expr_model(expr)),
    }
}

/// The values of statements.
pub open spec fn stmts_model(stmts: Seq<Stmt>) -> Seq<StmtModel> {
    Seq::new(stmts.len(), |i: int| stmt_model(stmts[i]))
}

/// Space, tab and carriage return separate tokens; a line feed is a token.
pub open spec fn is_blank(c: char) -> bool {
    c == ' ' || c == '\t' || c == '\r'
}

/// A decimal digit.
pub open spec fn is_digit(c: char) -> bool {
    '0' <= c <= '9'
}

/// A character that can start a name: an ASCII letter or an underscore.
pub open spec fn is_ident_start(c: char) -> bool {
    'a' <= c <= 'z' || 'A' <= c <= 'Z' || c == '_'
}

/// A character that can continue a name: an ASCII letter, a digit or an
/// underscore.
pub open spec fn is_ident_part(c: char) -> bool {
    is_ident_start(c) || is_digit(c)
}

/// The classes of characters that form runs.
#[derive(Debug, Clone, Copy)]
pub enum CharClass {
    Blank,
    Digit,
    IdentPart,
    /// Every character but the given one.
    Until(char),
}

/// Whether `c` belongs to `class`.
pub open spec fn in_class(class: CharClass, c: char) -> bool {
    match class {
        CharClass::Blank => is_blank(c),
        CharClass::Digit => is_digit(c),
        CharClass::IdentPart => is_ident_part(c),
        CharClass::Until(stop) => c != stop,
    }
}

/// The end of the run of characters of `class` that starts at `pos`.
pub open spec fn run_end(chars: Seq<char>, pos: int, class: CharClass) -> int
    decreases chars.len() - pos,
{
    if 0 <= pos < chars.len() && in_class(class, chars[pos]) {
        run_end(chars, pos + 1, class)
    } else {
        pos
    }
}

/// The number that a sequence of decimal digits denotes.
pub open spec fn digits_value(digits: Seq<char>) -> nat
    decreases digits.len(),
{
    if digits.len() == 0 {
        0
    } else {
        (digits_value(digits.drop_last()) * 10 + (digits.last() as int - '0' as int)) as nat
    }
}

/// The position behind a delimiter that was searched from some position
/// and found, or not found, at `end`.
pub open spec fn behind(chars: Seq<char>, end: int) -> int {
    if end < chars.len() {
        end + 1
    } else {
        end
    }
}

/// The first token of `rest`; behind the last token, the end marker.
pub open spec fn head(rest: Seq<TokenModel>) -> TokenModel {
    if rest.len() > 0 {
        rest[0]
    } else {
        TokenModel::EOF
    }
}

/// The arguments of a call that follow the first: each stands behind a
/// comma.
pub open spec fn parse_more_args_model(args: Seq<ExprModel>, rest: Seq<TokenModel>) -> Result<
    (Seq<ExprModel>, Seq<TokenModel>),
    ParseError,
>
    decreases rest.len(), 0nat,
{
    if head(rest) is Comma {
        match parse_expr_model(rest.skip(1)) {
            Err(e) => Err(e),
            Ok((arg, r1)) => if r1.len() >= rest.len() {
                Err(ParseError::UnexpectedToken)
            } else {
                parse_more_args_model(args.push(arg), r1)
            },
        }
    } else {
        Ok((args, rest))
    }
}

/// The calls that are applied to `expr`: each is a parenthesised list of
/// arguments.
pub open spec fn parse_call_model(expr: ExprModel, rest: Seq<TokenModel>) -> Result<
    (ExprModel, Seq<TokenModel>),
    ParseError,
>
    decreases rest.len(), 0nat,
{
    if head(rest) is LParen {
        let listed = if head(rest.skip(1)) is RParen {
            Ok((Seq::<ExprModel>::empty(), rest.skip(1)))
        } else {
            match parse_expr_model(rest.skip(1)) {
                Err(e) => Err(e),
                Ok((arg, r1)) => if r1.len() >= rest.len() {
                    Err(ParseError::UnexpectedToken)
                } else {
                    parse_more_args_model(seq![arg], r1)
                },
            }
        };
        match listed {
            Err(e) => Err(e),
            Ok((args, r2)) => if !(head(r2) is RParen) {
                Err(ParseError::MissingClosingParen)
            } else if r2.len() >= rest.len() {
                Err(ParseError::UnexpectedToken)
            } else {
                parse_call_model(ExprModel::Call { func: Box::new(expr), args }, r2.skip(1))
            },
        }
    } else {
        Ok((expr, rest))
    }
}

/// A primary expression: a literal, a name with its calls, or a
/// parenthesised expression with its calls.
pub open spec fn parse_primary_model(rest: Seq<TokenModel>) -> Result<
    (ExprModel, Seq<TokenModel>),
    ParseError,
>
    decreases rest.len(), 1nat,
{
    match head(rest) {
        TokenModel::Int(n) => Ok((ExprModel::Int(n), rest.skip(1))),
        TokenModel::Str(s) => Ok((ExprModel::Str(s), rest.skip(1))),
        TokenModel::Ident(s) => parse_call_model(ExprModel::Ident(s), rest.skip(1)),
        TokenModel::InterpolatedString(parts) => Ok(
            (ExprModel::InterpolatedString(parts), rest.skip(1)),
        ),
        TokenModel::LParen => match parse_expr_model(rest.skip(1)) {
            Err(e) => Err(e),
            Ok((inner, r1)) => if !(head(r1) is RParen) {
                Err(ParseError::MissingClosingParen)
            } else if r1.len() >= rest.len() {
                Err(ParseError::UnexpectedToken)
            } else {
                parse_call_model(inner, r1.skip(1))
            },
        },
        _ => Err(ParseError::UnexpectedToken),
    }
}

/// The operands that are added to `left`: each stands behind a plus sign.
pub open spec fn parse_sum_model(left: ExprModel, rest: Seq<TokenModel>) -> Result<
    (ExprModel, Seq<TokenModel>),
    ParseError,
>
    decreases rest.len(), 2nat,
{
    if head(rest) is Plus {
        match parse_primary_model(rest.skip(1)) {
            Err(e) => Err(e),
            Ok((right, r1)) => if r1.len() >= rest.len() {
                Err(ParseError::UnexpectedToken)
            } else {
                parse_sum_model(
                    ExprModel::Binary { left: Box::new(left), right: Box::new(right) },
                    r1,
                )
            },
        }
    } else {
        Ok((left, rest))
    }
}

/// An expression: primary expressions joined by plus signs, grouped from
/// the left.
pub open spec fn parse_expr_model(rest: Seq<TokenModel>) -> Result<
    (ExprModel, Seq<TokenModel>),
    ParseError,
>
    decreases rest.len(), 3nat,
{
    match parse_primary_model(rest) {
        Err(e) => Err(e),
        Ok((left, r1)) => if r1.len() > rest.len() {
            Err(ParseError::UnexpectedToken)
        } else {
            parse_sum_model(left, r1)
        },
    }
}

/// The tokens behind the line feeds at the front of `rest`.
pub open spec fn skip_newlines_model(rest: Seq<TokenModel>) -> Seq<TokenModel>
    decreases rest.len(),
{
    if head(rest) is Newline {
        skip_newlines_model(rest.skip(1))
    } else {
        rest
    }
}

/// A statement: a name, an equals sign and an expression; or an
/// expression.
pub open spec fn parse_stmt_model(rest: Seq<TokenModel>) -> Result<
    (StmtModel, Seq<TokenModel>),
    ParseError,
> {
    if head(rest) is Ident && rest.len() > 1 && rest[1] is Equal {
        match parse_expr_model(rest.skip(2)) {
            Err(e) => Err(e),
            Ok((expr, r1)) => Ok((StmtModel::Assign { name: head(rest)->Ident_0, expr }, r1)),
        }
    } else {
        match parse_expr_model(rest) {
            Err(e) => Err(e),
            Ok((expr, r1)) => Ok((StmtModel::ExprStmt(expr), r1)),
        }
    }
}

/// The statements of `rest`, which stand between line feeds, up to the
/// end marker.
pub open spec fn parse_program_model(rest: Seq<TokenModel>) -> Result<Seq<StmtModel>, ParseError>
    decreases rest.len(),
{
    let start = skip_newlines_model(rest);
    if head(start) is EOF {
        Ok(Seq::empty())
    } else {
        match parse_stmt_model(start) {
            Err(e) => Err(e),
            Ok((stmt, r1)) => if r1.len() >= rest.len() || r1.len() >= start.len() {
                Err(ParseError::UnexpectedToken)
            } else {
                match parse_program_model(r1) {
                    Err(e) => Err(e),
                    Ok(stmts) => Ok(seq![stmt] + stmts),
                }
            },
        }
    }
}

/// The expression between the braces of an interpolated string.
pub open spec fn embedded_model(src: Seq<char>) -> Result<ExprModel, ParseError>
    decreases src.len(), 3nat, 0nat,
{
    match tokens_model(src, 0) {
        Err(e) => Err(e),
        Ok(tokens) => match parse_expr_model(tokens) {
            Err(e) => Err(e),
            Ok((expr, _)) => Ok(expr),
        },
    }
}

/// The interpolated string whose characters follow from `pos`, after the
/// parts `parts`: text goes to the last part, which is text; an expression
/// in braces becomes a part of its own and is followed by a new text part.
/// The string ends at a quotation mark, or with the input.
pub open spec fn fstring_model(chars: Seq<char>, pos: int, parts: Seq<PartModel>) -> Result<
    (TokenModel, int),
    ParseError,
>
    decreases chars.len(), 0nat, chars.len() - pos,
{
    if pos < 0 || pos >= chars.len() {
        Ok((TokenModel::InterpolatedString(parts), pos))
    } else if chars[pos] == '"' {
        Ok((TokenModel::InterpolatedString(parts), pos + 1))
    } else if chars[pos] == '{' {
        let end = run_end(chars, pos + 1, CharClass::Until('}'));
        if end < pos + 1 || end > chars.len() {
            Err(ParseError::UnexpectedToken)
        } else {
            match embedded_model(chars.subrange(pos + 1, end)) {
                Err(e) => Err(e),
                Ok(expr) => fstring_model(
                    chars,
                    behind(chars, end),
                    parts.push(PartModel::Expr(Box::new(expr))).push(PartModel::Text(Seq::empty())),
                ),
            }
        }
    } else {
        let text = match parts.last() {
            PartModel::Text(t) => t,
            _ => Seq::empty(),
        };
        fstring_model(
            chars,
            pos + 1,
            parts.drop_last().push(PartModel::Text(text.push(chars[pos]))),
        )
    }
}

/// The token that starts at or behind `pos`, and the position behind it.
/// A character that starts no token ends the token stream.
pub open spec fn next_token_model(chars: Seq<char>, pos: int) -> Result<
    (TokenModel, int),
    ParseError,
>
    decreases chars.len(), 1nat, 0nat,
{
    let p = run_end(chars, pos, CharClass::Blank);
    if p < 0 || p >= chars.len() {
        Ok((TokenModel::EOF, p))
    } else {
        let c = chars[p];
        if c == '\n' {
            Ok((TokenModel::Newline, p + 1))
        } else if c == '=' {
            Ok((TokenModel::Equal, p + 1))
        } else if c == '+' {
            Ok((TokenModel::Plus, p + 1))
        } else if c == '(' {
            Ok((TokenModel::LParen, p + 1))
        } else if c == ')' {
            Ok((TokenModel::RParen, p + 1))
        } else if c == ',' {
            Ok((TokenModel::Comma, p + 1))
        } else if is_digit(c) {
            let end = run_end(chars, p, CharClass::Digit);
            let value = digits_value(chars.subrange(p, end));
            if value > i64::MAX {
                Err(ParseError::IntegerOverflow)
            } else {
                Ok((TokenModel::Int(value as i64), end))
            }
        } else if is_ident_start(c) {
            if c == 'f' && p + 1 < chars.len() && chars[p + 1] == '"' {
                fstring_model(chars, p + 2, seq![PartModel::Text(Seq::empty())])
            } else {
                let end = run_end(chars, p, CharClass::IdentPart);
                Ok((TokenModel::Ident(chars.subrange(p, end)), end))
            }
        } else if c == '"' {
            let end = run_end(chars, p + 1, CharClass::Until('"'));
            Ok((TokenModel::Str(chars.subrange(p + 1, end)), behind(chars, end)))
        } else {
            Ok((TokenModel::EOF, p + 1))
        }
    }
}

/// The tokens of `chars` from `pos` on, up to and with the first end
/// marker.
pub open spec fn tokens_model(chars: Seq<char>, pos: int) -> Result<Seq<TokenModel>, ParseError>
    decreases chars.len(), 2nat, chars.len() - pos,
{
    match next_token_model(chars, pos) {
        Err(e) => Err(e),
        Ok((token, next)) => if token is EOF {
            Ok(seq![token])
        } else if next <= pos || next > chars.len() {
            Err(ParseError::UnexpectedToken)
        } else {
            match tokens_model(chars, next) {
                Err(e) => Err(e),
                Ok(rest) => Ok(seq![token] + rest),
            }
        },
    }
}

/// The program that a source text denotes from `pos` on.
pub open spec fn program_model_from(chars: Seq<char>, pos: int) -> Result<
    Seq<StmtModel>,
    ParseError,
> {
    match tokens_model(chars, pos) {
        Err(e) => Err(e),
        Ok(tokens) => parse_program_model(tokens),
    }
}

/// The program that a source text denotes.
pub open spec fn program_model(chars: Seq<char>) -> Result<Seq<StmtModel>, ParseError> {
    program_model_from(chars, 0)
}

/// Every character of a run belongs to the class of the run, and the
/// character behind the run does not.
pub proof fn run_members(chars: Seq<char>, pos: int, class: CharClass)
    requires
        0 <= pos <= chars.len(),
    ensures
        pos <= run_end(chars, pos, class) <= chars.len(),
        forall|j: int| pos <= j < run_end(chars, pos, class) ==> in_class(class, #[trigger] chars[j]),
        run_end(chars, pos, class) < chars.len() ==> !in_class(
            class,
            chars[run_end(chars, pos, class)],
        ),
    decreases chars.len() - pos,
{
    if pos < chars.len() && in_class(class, chars[pos]) {
        run_members(chars, pos + 1, class);
    }
}

/// Further digits do not make a number smaller.
pub proof fn digits_grow(digits: Seq<char>, n: int)
    requires
        0 <= n <= digits.len(),
        forall|j: int| 0 <= j < digits.len() ==> is_digit(#[trigger] digits[j]),
    ensures
        digits_value(digits.take(n)) <= digits_value(digits),
    decreases digits.len() - n,
{
    if n < digits.len() {
        assert(digits.take(n + 1).drop_last() =~= digits.take(n));
        digits_grow(digits, n + 1);
    } else {
        assert(digits.take(n) =~= digits);
    }
}

fn class_holds(class: CharClass, c: char) -> (r: bool)
    ensures
        r == in_class(class, c),
{
    let letter: bool = ('a' <= c && c <= 'z') || ('A' <= c && c <= 'Z') || c == '_';
    let digit: bool = '0' <= c && c <= '9';
    match class {
        CharClass::Blank => c == ' ' || c == '\t' || c == '\r',
        CharClass::Digit => digit,
        CharClass::IdentPart => letter || digit,
        CharClass::Until(stop) => c != stop,
    }
}

fn text_of(chars: &Vec<char>, from: usize, to: usize) -> (s: String)
    requires
        from <= to <= chars@.len(),
    ensures
        s@ == chars@.subrange(from as int, to as int),
{
    let mut s = String::new();
    let mut i: usize = from;
    assert(s@ =~= chars@.subrange(from as int, from as int));
    while i < to
        invariant
            from <= i <= to <= chars@.len(),
            s@ == chars@.subrange(from as int, i as int),
        decreases to - i,
    {
        push_char(&mut s, chars[i]);
        assert(s@ =~= chars@.subrange(from as int, i + 1));
        i = i + 1;
    }
    s
}

fn chars_of(chars: &Vec<char>, from: usize, to: usize) -> (v: Vec<char>)
    requires
        from <= to <= chars@.len(),
    ensures
        v@ == chars@.subrange(from as int, to as int),
{
    let mut v: Vec<char> = Vec::new();
    let mut i: usize = from;
    assert(v@ =~= chars@.subrange(from as int, from as int));
    while i < to
        invariant
            from <= i <= to <= chars@.len(),
            v@ == chars@.subrange(from as int, i as int),
        decreases to - i,
    {
        v.push(chars[i]);
        assert(v@ =~= chars@.subrange(from as int, i + 1));
        i = i + 1;
    }
    v
}

/// The values of tokens.
pub open spec fn tokens_seq_model(tokens: Seq<Token>) -> Seq<TokenModel> {
    Seq::new(tokens.len(), |i: int| token_model(tokens[i]))
}

/// `rest` behind the tokens `front`; an error stays as it is.
pub open spec fn behind_tokens(front: Seq<TokenModel>, rest: Result<Seq<TokenModel>, ParseError>) -> Result<
    Seq<TokenModel>,
    ParseError,
> {
    match rest {
        Ok(tokens) => Ok(front + tokens),
        Err(e) => Err(e),
    }
}

/// `rest` behind the statements `front`; an error stays as it is.
pub open spec fn behind_stmts(front: Seq<StmtModel>, rest: Result<Seq<StmtModel>, ParseError>) -> Result<
    Seq<StmtModel>,
    ParseError,
> {
    match rest {
        Ok(stmts) => Ok(front + stmts),
        Err(e) => Err(e),
    }
}

/// The lexer: a source text and a position in it.
pub struct Lexer {
    chars: Vec<char>,
    pos: usize,
}

impl Lexer {
    /// The source text.
    pub closed spec fn source(&self) -> Seq<char> {
        self.chars@
    }

    /// The position of the next character to read.
    pub closed spec fn position(&self) -> int {
        self.pos as int
    }

    /// The position lies inside the source text, or at its end.
    pub closed spec fn wf(&self) -> bool {
        self.pos <= self.chars@.len()
    }

    /// A lexer at the start of `input`.
    pub fn new(input: &str) -> (lexer: Self)
        ensures
            lexer.wf(),
            lexer.source() == input@,
            lexer.position() == 0,
    {
        let mut chars: Vec<char> = Vec::new();
        let n: usize = input.unicode_len();
        let mut i: usize = 0;
        while i < n
            invariant
                i <= n,
                n == input@.len(),
                chars@ == input@.take(i as int),
            decreases n - i,
        {
            chars.push(input.get_char(i));
            assert(chars@ =~= input@.take(i + 1));
            i = i + 1;
        }
        assert(input@.take(n as int) =~= input@);
        Lexer { chars, pos: 0 }
    }

    fn from_chars(chars: Vec<char>) -> (lexer: Self)
        ensures
            lexer.wf(),
            lexer.chars@ == chars@,
            lexer.pos == 0,
    {
        Lexer { chars, pos: 0 }
    }

    fn scan(&self, from: usize, class: CharClass) -> (end: usize)
        requires
            from <= self.chars@.len(),
        ensures
            end == run_end(self.chars@, from as int, class),
            from <= end <= self.chars@.len(),
    {
        let mut i: usize = from;
        while i < self.chars.len() && class_holds(class, self.chars[i])
            invariant
                from <= i <= self.chars@.len(),
                run_end(self.chars@, from as int, class) == run_end(self.chars@, i as int, class),
            decreases self.chars@.len() - i,
        {
            i = i + 1;
        }
        i
    }

    fn skip_whitespace(&mut self)
        requires
            old(self).wf(),
        ensures
            final(self).wf(),
            final(self).chars == old(self).chars,
            final(self).pos == run_end(old(self).chars@, old(self).pos as int, CharClass::Blank),
            final(self).pos >= old(self).pos,
    {
        self.pos = self.scan(self.pos, CharClass::Blank);
    }

    fn lex_number(&mut self) -> (res: Result<Token, ParseError>)
        requires
            old(self).wf(),
            old(self).pos < old(self).chars@.len(),
            is_digit(old(self).chars@[old(self).pos as int]),
        ensures
            final(self).wf(),
            final(self).chars == old(self).chars,
            final(self).pos > old(self).pos,
            ({
                let end = run_end(old(self).chars@, old(self).pos as int, CharClass::Digit);
                let value = digits_value(old(self).chars@.subrange(old(self).pos as int, end));
                if value > i64::MAX {
                    res == Err::<Token, ParseError>(ParseError::IntegerOverflow)
                } else {
                    res == Ok::<Token, ParseError>(Token::Int(value as i64)) && final(self).pos
                        == end
                }
            }),
    {
        let start: usize = self.pos;
        let end: usize = self.scan(start, CharClass::Digit);
        let ghost digits = self.chars@.subrange(start as int, end as int);
        proof {
            run_members(self.chars@, start as int, CharClass::Digit);
            run_members(self.chars@, start + 1, CharClass::Digit);
        }
        self.pos = end;
        let mut value: u64 = 0;
        let mut i: usize = start;
        assert(digits.take(0) =~= Seq::<char>::empty());
        while i < end
            invariant
                start <= i <= end <= self.chars@.len(),
                start < end,
                start == old(self).pos,
                end == run_end(old(self).chars@, old(self).pos as int, CharClass::Digit),
                self.pos == end,
                self.chars == old(self).chars,
                digits == self.chars@.subrange(start as int, end as int),
                forall|j: int| 0 <= j < digits.len() ==> is_digit(#[trigger] digits[j]),
                value == digits_value(digits.take(i - start)),
                value <= i64::MAX,
            decreases end - i,
        {
            let c: char = self.chars[i];
            assert(c == digits[i - start]);
            let d: u128 = (c as u32 - '0' as u32) as u128;
            let next: u128 = (value as u128) * 10 + d;
            proof {
                assert(digits.take(i - start + 1).drop_last() =~= digits.take(i - start));
                assert(next == digits_value(digits.take(i - start + 1)));
            }
            if next > 0x7FFF_FFFF_FFFF_FFFF {
                proof {
                    digits_grow(digits, i - start + 1);
                }
                return Err(ParseError::IntegerOverflow);
            }
            value = next as u64;
            i = i + 1;
        }
        assert(digits.take(end - start) =~= digits);
        Ok(Token::Int(value as i64))
    }

    fn lex_ident(&mut self) -> (token: Token)
        requires
            old(self).wf(),
            old(self).pos < old(self).chars@.len(),
            is_ident_start(old(self).chars@[old(self).pos as int]),
        ensures
            final(self).wf(),
            final(self).chars == old(self).chars,
            final(self).pos > old(self).pos,
            final(self).pos == run_end(
                old(self).chars@,
                old(self).pos as int,
                CharClass::IdentPart,
            ),
            token_model(token) == TokenModel::Ident(
                old(self).chars@.subrange(old(self).pos as int, final(self).pos as int),
            ),
    {
        let start: usize = self.pos;
        let end: usize = self.scan(start, CharClass::IdentPart);
        proof {
            run_members(self.chars@, start + 1, CharClass::IdentPart);
        }
        self.pos = end;
        Token::Ident(text_of(&self.chars, start, end))
    }

    fn lex_string(&mut self) -> (token: Token)
        requires
            old(self).wf(),
            old(self).pos < old(self).chars@.len(),
        ensures
            final(self).wf(),
            final(self).chars == old(self).chars,
            final(self).pos > old(self).pos,
            ({
                let end = run_end(old(self).chars@, old(self).pos + 1, CharClass::Until('"'));
                &&& final(self).pos == behind(old(self).chars@, end)
                &&& token_model(token) == TokenModel::Str(
                    old(self).chars@.subrange(old(self).pos + 1, end),
                )
            }),
    {
        let len: usize = self.chars.len();
        let start: usize = self.pos + 1;
        let end: usize = self.scan(start, CharClass::Until('"'));
        self.pos = if end < len {
            end + 1
        } else {
            end
        };
        Token::Str(text_of(&self.chars, start, end))
    }

    fn lex_fstring(&mut self) -> (res: Result<Token, ParseError>)
        requires
            old(self).wf(),
            old(self).pos + 2 <= old(self).chars@.len(),
        ensures
            final(self).wf(),
            final(self).chars == old(self).chars,
            final(self).pos > old(self).pos,
            match fstring_model(
                old(self).chars@,
                old(self).pos + 2,
                seq![PartModel::Text(Seq::empty())],
            ) {
                Ok((t, p)) => res is Ok && token_model(res->Ok_0) == t && final(self).pos == p,
                Err(e) => res == Err::<Token, ParseError>(e),
            },
        decreases old(self).chars@.len(), 0nat, 0nat,
    {
        let len: usize = self.chars.len();
        self.pos = self.pos + 2;
        let mut parts: Vec<StringPart> = Vec::new();
        parts.push(StringPart::Text(String::new()));
        assert(parts_model(parts@) =~= seq![PartModel::Text(Seq::empty())]);
        while self.pos < len
            invariant
                self.wf(),
                len == self.chars@.len(),
                self.chars == old(self).chars,
                self.pos >= old(self).pos + 2,
                parts@.len() > 0,
                parts@.last() is Text,
                fstring_model(
                    old(self).chars@,
                    old(self).pos + 2,
                    seq![PartModel::Text(Seq::empty())],
                ) == fstring_model(self.chars@, self.pos as int, parts_model(parts@)),
            decreases self.chars@.len() - self.pos,
        {
            let c: char = self.chars[self.pos];
            let ghost before = parts_model(parts@);
            if c == '"' {
                self.pos = self.pos + 1;
                return Ok(Token::InterpolatedString(parts));
            } else if c == '{' {
                let start: usize = self.pos + 1;
                let end: usize = self.scan(start, CharClass::Until('}'));
                let src: Vec<char> = chars_of(&self.chars, start, end);
                let expr = match parse_embedded_expr(src) {
                    Err(e) => {
                        return Err(e);
                    },
                    Ok(expr) => expr,
                };
                parts.push(StringPart::Expr(Box::new(expr)));
                parts.push(StringPart::Text(String::new()));
                assert(parts_model(parts@) =~= before.push(
                    PartModel::Expr(Box::new(expr_model(expr))),
                ).push(PartModel::Text(Seq::empty())));
                self.pos = if end < len {
                    end + 1
                } else {
                    end
                };
            } else {
                let last = parts.pop();
                let mut text: String = match last {
                    Some(StringPart::Text(t)) => t,
                    _ => String::new(),
                };
                push_char(&mut text, c);
                parts.push(StringPart::Text(text));
                assert(parts_model(parts@) =~= before.drop_last().push(
                    PartModel::Text(
                        (match before.last() {
                            PartModel::Text(t) => t,
                            _ => Seq::empty(),
                        }).push(c),
                    ),
                ));
                self.pos = self.pos + 1;
            }
        }
        Ok(Token::InterpolatedString(parts))
    }

    fn next_token(&mut self) -> (res: Result<Token, ParseError>)
        requires
            old(self).wf(),
        ensures
            final(self).wf(),
            final(self).chars == old(self).chars,
            final(self).pos >= old(self).pos,
            res is Ok && !(res->Ok_0 is EOF) ==> final(self).pos > old(self).pos,
            match next_token_model(old(self).chars@, old(self).pos as int) {
                Ok((t, p)) => res is Ok && token_model(res->Ok_0) == t && final(self).pos == p,
                Err(e) => res == Err::<Token, ParseError>(e),
            },
        decreases old(self).chars@.len(), 1nat, 0nat,
    {
        self.skip_whitespace();
        if self.pos >= self.chars.len() {
            return Ok(Token::EOF);
        }
        let c: char = self.chars[self.pos];
        if c == '\n' {
            self.pos = self.pos + 1;
            Ok(Token::Newline)
        } else if c == '=' {
            self.pos = self.pos + 1;
            Ok(Token::Equal)
        } else if c == '+' {
            self.pos = self.pos + 1;
            Ok(Token::Plus)
        } else if c == '(' {
            self.pos = self.pos + 1;
            Ok(Token::LParen)
        } else if c == ')' {
            self.pos = self.pos + 1;
            Ok(Token::RParen)
        } else if c == ',' {
            self.pos = self.pos + 1;
            Ok(Token::Comma)
        } else if '0' <= c && c <= '9' {
            self.lex_number()
        } else if ('a' <= c && c <= 'z') || ('A' <= c && c <= 'Z') || c == '_' {
            if c == 'f' && self.pos + 1 < self.chars.len() && self.chars[self.pos + 1] == '"' {
                self.lex_fstring()
            } else {
                Ok(self.lex_ident())
            }
        } else if c == '"' {
            Ok(self.lex_string())
        } else {
            self.pos = self.pos + 1;
            Ok(Token::EOF)
        }
    }

    fn collect_tokens(&mut self) -> (res: Result<Vec<Token>, ParseError>)
        requires
            old(self).wf(),
        ensures
            final(self).wf(),
            match tokens_model(old(self).chars@, old(self).pos as int) {
                Ok(tokens) => res is Ok && tokens_seq_model(res->Ok_0@) == tokens,
                Err(e) => res == Err::<Vec<Token>, ParseError>(e),
            },
        decreases old(self).chars@.len(), 2nat, 0nat,
    {
        let mut tokens: Vec<Token> = Vec::new();
        assert(tokens_seq_model(tokens@) =~= Seq::<TokenModel>::empty());
        assert(behind_tokens(
            tokens_seq_model(tokens@),
            tokens_model(self.chars@, self.pos as int),
        ) == tokens_model(self.chars@, self.pos as int)) by {
            match tokens_model(self.chars@, self.pos as int) {
                Ok(all) => {
                    assert(Seq::<TokenModel>::empty() + all =~= all);
                },
                Err(_) => {},
            }
        }
        loop
            invariant
                self.wf(),
                self.chars == old(self).chars,
                tokens_model(old(self).chars@, old(self).pos as int) == behind_tokens(
                    tokens_seq_model(tokens@),
                    tokens_model(self.chars@, self.pos as int),
                ),
            decreases self.chars@.len() - self.pos,
        {
            let ghost front = tokens_seq_model(tokens@);
            let ghost at = self.pos as int;
            let tok = match self.next_token() {
                Err(e) => {
                    return Err(e);
                },
                Ok(tok) => tok,
            };
            let end: bool = match tok {
                Token::EOF => true,
                _ => false,
            };
            let ghost model = token_model(tok);
            tokens.push(tok);
            assert(tokens_seq_model(tokens@) =~= front + seq![model]);
            if end {
                return Ok(tokens);
            }
            proof {
                match tokens_model(self.chars@, self.pos as int) {
                    Ok(rest) => {
                        assert(front + (seq![model] + rest) =~= (front + seq![model]) + rest);
                    },
                    Err(_) => {},
                }
            }
        }
    }

    /// Reads the source text, from the lexer's position on, as a program.
    /// A text that is no program gives an error.
    pub fn tokenize(self) -> (res: Result<Vec<Stmt>, ParseError>)
        requires
            self.wf(),
        ensures
            match program_model_from(self.source(), self.position()) {
                Ok(stmts) => res is Ok && stmts_model(res->Ok_0@) == stmts,
                Err(e) => res == Err::<Vec<Stmt>, ParseError>(e),
            },
    {
        let mut lexer = self;
        let tokens = match lexer.collect_tokens() {
            Err(e) => {
                return Err(e);
            },
            Ok(tokens) => tokens,
        };
        let mut parser = Parser::new(tokens);
        parser.parse_program()
    }
}

fn parse_embedded_expr(src: Vec<char>) -> (res: Result<Expr, ParseError>)
    ensures
        match embedded_model(src@) {
            Ok(m) => res is Ok && expr_model(res->Ok_0) == m,
            Err(e) => res == Err::<Expr, ParseError>(e),
        },
    decreases src@.len(), 3nat, 0nat,
{
    let mut lexer = Lexer::from_chars(src);
    let tokens = match lexer.collect_tokens() {
        Err(e) => {
            return Err(e);
        },
        Ok(tokens) => tokens,
    };
    let mut parser = Parser::new(tokens);
    parser.parse_expr()
}

/// The kinds of tokens.
#[derive(Debug, Clone, Copy, PartialEq, Eq, Structural)]
enum Kind {
    Int,
    Str,
    Ident,
    Plus,
    Equal,
    LParen,
    RParen,
    Comma,
    Newline,
    EOF,
    InterpolatedString,
}

spec fn kind_of(t: TokenModel) -> Kind {
    match t {
        TokenModel::Int(_) => Kind::Int,
        TokenModel::Str(_) => Kind::Str,
        TokenModel::Ident(_) => Kind::Ident,
        TokenModel::Plus => Kind::Plus,
        TokenModel::Equal => Kind::Equal,
        TokenModel::LParen => Kind::LParen,
        TokenModel::RParen => Kind::RParen,
        TokenModel::Comma => Kind::Comma,
        TokenModel::Newline => Kind::Newline,
        TokenModel::EOF => Kind::EOF,
        TokenModel::InterpolatedString(_) => Kind::InterpolatedString,
    }
}

fn kind(t: &Token) -> (k: Kind)
    ensures
        k == kind_of(token_model(*t)),
{
    match t {
        Token::Int(_) => Kind::Int,
        Token::Str(_) => Kind::Str,
        Token::Ident(_) => Kind::Ident,
        Token::Plus => Kind::Plus,
        Token::Equal => Kind::Equal,
        Token::LParen => Kind::LParen,
        Token::RParen => Kind::RParen,
        Token::Comma => Kind::Comma,
        Token::Newline => Kind::Newline,
        Token::EOF => Kind::EOF,
        Token::InterpolatedString(_) => Kind::InterpolatedString,
    }
}

/// The parser. It holds the tokens that are still to be read, the next
/// one last.
struct Parser {
    tokens: Vec<Token>,
}

impl Parser {
    spec fn rest(&self) -> Seq<TokenModel> {
        Seq::new(
            self.tokens@.len(),
            |i: int| token_model(self.tokens@[self.tokens@.len() - 1 - i]),
        )
    }

    fn new(tokens: Vec<Token>) -> (parser: Self)
        ensures
            parser.rest() == tokens_seq_model(tokens@),
    {
        let mut source = tokens;
        let mut reversed: Vec<Token> = Vec::new();
        let ghost all = tokens_seq_model(tokens@);
        loop
            invariant
                all == tokens_seq_model(tokens@),
                tokens_seq_model(source@) + Seq::new(
                    reversed@.len(),
                    |i: int| token_model(reversed@[reversed@.len() - 1 - i]),
                ) == all,
            decreases source@.len(),
        {
            let ghost front = tokens_seq_model(source@);
            let ghost back = Seq::new(
                reversed@.len(),
                |i: int| token_model(reversed@[reversed@.len() - 1 - i]),
            );
            match source.pop() {
                None => {
                    assert(front + back =~= back);
                    let parser = Parser { tokens: reversed };
                    assert(parser.rest() =~= back);
                    return parser;
                },
                Some(token) => {
                    reversed.push(token);
                    assert(tokens_seq_model(source@) + Seq::new(
                        reversed@.len(),
                        |i: int| token_model(reversed@[reversed@.len() - 1 - i]),
                    ) =~= front + back);
                },
            }
        }
    }

    fn peek(&self) -> (k: Kind)
        ensures
            k == kind_of(head(self.rest())),
    {
        if self.tokens.len() == 0 {
            Kind::EOF
        } else {
            kind(&self.tokens[self.tokens.len() - 1])
        }
    }

    fn peek_next_is(&self, expected: Kind) -> (r: bool)
        ensures
            r == (self.rest().len() > 1 && kind_of(self.rest()[1]) == expected),
    {
        if self.tokens.len() < 2 {
            false
        } else {
            kind(&self.tokens[self.tokens.len() - 2]) == expected
        }
    }

    fn is_at_end(&self) -> (r: bool)
        ensures
            r == (head(self.rest()) is EOF),
    {
        self.peek() == Kind::EOF
    }

    fn advance(&mut self) -> (token: Token)
        ensures
            token_model(token) == head(old(self).rest()),
            final(self).rest() == if head(old(self).rest()) is EOF {
                old(self).rest()
            } else {
                old(self).rest().skip(1)
            },
    {
        if self.is_at_end() {
            Token::EOF
        } else {
            let token = self.tokens.pop();
            assert(self.rest() =~= old(self).rest().skip(1));
            match token {
                Some(token) => token,
                None => Token::EOF,
            }
        }
    }

    fn skip_newlines(&mut self)
        ensures
            final(self).rest() == skip_newlines_model(old(self).rest()),
            final(self).rest().len() <= old(self).rest().len(),
        decreases old(self).rest().len(),
    {
        if self.peek() == Kind::Newline {
            self.advance();
            self.skip_newlines();
        }
    }

    fn parse_more_args(&mut self, args: Vec<Expr>) -> (res: Result<Vec<Expr>, ParseError>)
        ensures
            final(self).rest().len() <= old(self).rest().len(),
            match parse_more_args_model(exprs_model(args@), old(self).rest()) {
                Ok((m, r)) => res is Ok && exprs_model(res->Ok_0@) == m && final(self).rest() == r,
                Err(e) => res == Err::<Vec<Expr>, ParseError>(e),
            },
        decreases old(self).rest().len(), 0nat,
    {
        if self.peek() == Kind::Comma {
            self.advance();
            let arg = match self.parse_expr() {
                Err(e) => {
                    return Err(e);
                },
                Ok(arg) => arg,
            };
            let mut args = args;
            let ghost before = exprs_model(args@);
            let ghost model = expr_model(arg);
            args.push(arg);
            assert(exprs_model(args@) =~= before.push(model));
            self.parse_more_args(args)
        } else {
            Ok(args)
        }
    }

    fn parse_call(&mut self, expr: Expr) -> (res: Result<Expr, ParseError>)
        ensures
            final(self).rest().len() <= old(self).rest().len(),
            match parse_call_model(expr_model(expr), old(self).rest()) {
                Ok((m, r)) => res is Ok && expr_model(res->Ok_0) == m && final(self).rest() == r,
                Err(e) => res == Err::<Expr, ParseError>(e),
            },
        decreases old(self).rest().len(), 0nat,
    {
        if self.peek() == Kind::LParen {
            self.advance();
            let mut args: Vec<Expr> = Vec::new();
            assert(exprs_model(args@) =~= Seq::<ExprModel>::empty());
            if self.peek() != Kind::RParen {
                let arg = match self.parse_expr() {
                    Err(e) => {
                        return Err(e);
                    },
                    Ok(arg) => arg,
                };
                let ghost model = expr_model(arg);
                args.push(arg);
                assert(exprs_model(args@) =~= seq![model]);
                args = match self.parse_more_args(args) {
                    Err(e) => {
                        return Err(e);
                    },
                    Ok(args) => args,
                };
            }
            if self.peek() != Kind::RParen {
                return Err(ParseError::MissingClosingParen);
            }
            self.advance();
            let ghost func = expr_model(expr);
            let ghost listed = exprs_model(args@);
            let call = Expr::Call { func: Box::new(expr), args };
            assert(expr_model(call) == ExprModel::Call { func: Box::new(func), args: listed }) by {
                assert(expr_model(call)->Call_args =~= listed);
            }
            self.parse_call(call)
        } else {
            Ok(expr)
        }
    }

    fn parse_primary(&mut self) -> (res: Result<Expr, ParseError>)
        ensures
            final(self).rest().len() <= old(self).rest().len(),
            res is Ok ==> final(self).rest().len() < old(self).rest().len(),
            match parse_primary_model(old(self).rest()) {
                Ok((m, r)) => res is Ok && expr_model(res->Ok_0) == m && final(self).rest() == r,
                Err(e) => res == Err::<Expr, ParseError>(e),
            },
        decreases old(self).rest().len(), 1nat,
    {
        match self.advance() {
            Token::Int(n) => Ok(Expr::Int(n)),
            Token::Str(s) => Ok(Expr::Str(s)),
            Token::Ident(s) => {
                let expr = Expr::Ident(s);
                self.parse_call(expr)
            },
            Token::InterpolatedString(parts) => {
                let ghost listed = parts_model(parts@);
                let expr = Expr::InterpolatedString(parts);
                assert(expr_model(expr) == ExprModel::InterpolatedString(listed)) by {
                    assert(expr_model(expr)->InterpolatedString_0 =~= listed);
                }
                Ok(expr)
            },
            Token::LParen => {
                let expr = match self.parse_expr() {
                    Err(e) => {
                        return Err(e);
                    },
                    Ok(expr) => expr,
                };
                if self.peek() != Kind::RParen {
                    return Err(ParseError::MissingClosingParen);
                }
                self.advance();
                self.parse_call(expr)
            },
            _ => Err(ParseError::UnexpectedToken),
        }
    }

    fn parse_sum(&mut self, left: Expr) -> (res: Result<Expr, ParseError>)
        ensures
            final(self).rest().len() <= old(self).rest().len(),
            match parse_sum_model(expr_model(left), old(self).rest()) {
                Ok((m, r)) => res is Ok && expr_model(res->Ok_0) == m && final(self).rest() == r,
                Err(e) => res == Err::<Expr, ParseError>(e),
            },
        decreases old(self).rest().len(), 2nat,
    {
        if self.peek() == Kind::Plus {
            self.advance();
            let right = match self.parse_primary() {
                Err(e) => {
                    return Err(e);
                },
                Ok(right) => right,
            };
            let sum = Expr::Binary { left: Box::new(left), op: BinOp::Add, right: Box::new(right) };
            self.parse_sum(sum)
        } else {
            Ok(left)
        }
    }

    fn parse_expr(&mut self) -> (res: Result<Expr, ParseError>)
        ensures
            final(self).rest().len() <= old(self).rest().len(),
            res is Ok ==> final(self).rest().len() < old(self).rest().len(),
            match parse_expr_model(old(self).rest()) {
                Ok((m, r)) => res is Ok && expr_model(res->Ok_0) == m && final(self).rest() == r,
                Err(e) => res == Err::<Expr, ParseError>(e),
            },
        decreases old(self).rest().len(), 3nat,
    {
        let left = match self.parse_primary() {
            Err(e) => {
                return Err(e);
            },
            Ok(left) => left,
        };
        self.parse_sum(left)
    }

    fn parse_stmt(&mut self) -> (res: Result<Stmt, ParseError>)
        ensures
            final(self).rest().len() <= old(self).rest().len(),
            res is Ok ==> final(self).rest().len() < old(self).rest().len(),
            match parse_stmt_model(old(self).rest()) {
                Ok((m, r)) => res is Ok && stmt_model(res->Ok_0) == m && final(self).rest() == r,
                Err(e) => res == Err::<Stmt, ParseError>(e),
            },
    {
        if self.peek() == Kind::Ident && self.peek_next_is(Kind::Equal) {
            let name = match self.advance() {
                Token::Ident(name) => name,
                _ => String::new(),
            };
            self.advance();
            assert(self.rest() =~= old(self).rest().skip(2));
            match self.parse_expr() {
                Err(e) => Err(e),
                Ok(expr) => Ok(Stmt::Assign { name, expr }),
            }
        } else {
            match self.parse_expr() {
                Err(e) => Err(e),
                Ok(expr) => Ok(Stmt::ExprStmt(expr)),
            }
        }
    }

    fn parse_program(&mut self) -> (res: Result<Vec<Stmt>, ParseError>)
        ensures
            match parse_program_model(old(self).rest()) {
                Ok(stmts) => res is Ok && stmts_model(res->Ok_0@) == stmts,
                Err(e) => res == Err::<Vec<Stmt>, ParseError>(e),
            },
    {
        let mut stmts: Vec<Stmt> = Vec::new();
        assert(stmts_model(stmts@) =~= Seq::<StmtModel>::empty());
        assert(behind_stmts(stmts_model(stmts@), parse_program_model(self.rest()))
            == parse_program_model(self.rest())) by {
            match parse_program_model(self.rest()) {
                Ok(all) => {
                    assert(Seq::<StmtModel>::empty() + all =~= all);
                },
                Err(_) => {},
            }
        }
        loop
            invariant
                parse_program_model(old(self).rest()) == behind_stmts(
                    stmts_model(stmts@),
                    parse_program_model(self.rest()),
                ),
            decreases self.rest().len(),
        {
            let ghost front = stmts_model(stmts@);
            let ghost before = self.rest();
            self.skip_newlines();
            if self.is_at_end() {
                assert(front + Seq::<StmtModel>::empty() =~= front);
                return Ok(stmts);
            }
            let stmt = match self.parse_stmt() {
                Err(e) => {
                    return Err(e);
                },
                Ok(stmt) => stmt,
            };
            let ghost model = stmt_model(stmt);
            stmts.push(stmt);
            assert(stmts_model(stmts@) =~= front + seq![model]);
            proof {
                match parse_program_model(self.rest()) {
                    Ok(rest) => {
                        assert(front + (seq![model] + rest) =~= (front + seq![model]) + rest);
                    },
                    Err(_) => {},
                }
            }
        }
    }
}

} // verus!