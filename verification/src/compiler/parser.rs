//! The parser of the scripting language: declarations, assignments, calls
//! and expressions, read token by token from the shared lexer. Problems are
//! collected and reading goes on behind them.
use vstd::prelude::*;
use vstd::string::*;
use crate::syntax::{is_datatype, is_keyword, datatype, reserved};
use crate::text::{chars_of, equal_chars};
use crate::utils::lexer::{Lexer, LexError, Cursor, scan, lex, no_lexeme};
use crate::utils::position::Position;
use crate::utils::token::{Token, TokenType, Kind, Lexeme};

verus! {

/// One expression or statement of a script.
#[derive(Debug)]
#[allow(inconsistent_fields)]
pub enum Expression {
    String(String),
    Number(u16),
    Negation(Box<Expression>),
    Boolean(String),
    Array(Vec<Expression>),
    Binary { left: Box<Expression>, op: String, right: Box<Expression> },
    Variable { name: String, dt: String, value: Option<Box<Expression>> },
    Assignment { variable: String, exp: Box<Expression> },
    ArgumentDefinition { name: String, dt: String, value: Option<Box<Expression>> },
    ArgumentPassing { name: String, value: Box<Expression> },
    FunctionDefinition { name: String, args: Vec<Expression>, rtype: Option<String>, body: Vec<Expression> },
    FunctionCall { name: String, args: Vec<Expression> },
    Nothing,
}

/// An expression as plain values.
#[allow(inconsistent_fields)]
pub enum Tree {
    Text(Seq<char>),
    Number(u16),
    Negation(Box<Tree>),
    Boolean(Seq<char>),
    Array(Seq<Tree>),
    Binary { left: Box<Tree>, op: Seq<char>, right: Box<Tree> },
    Variable { name: Seq<char>, dt: Seq<char>, value: Option<Box<Tree>> },
    Assignment { variable: Seq<char>, exp: Box<Tree> },
    ArgumentDefinition { name: Seq<char>, dt: Seq<char>, value: Option<Box<Tree>> },
    ArgumentPassing { name: Seq<char>, value: Box<Tree> },
    FunctionDefinition { name: Seq<char>, args: Seq<Tree>, rtype: Option<Seq<char>>, body: Seq<Tree> },
    FunctionCall { name: Seq<char>, args: Seq<Tree> },
    Nothing,
}

/// The plain value of an expression.
pub open spec fn tree(e: Expression) -> Tree
    decreases e,
{
    match e {
        Expression::String(s) => Tree::Text(s@),
        Expression::Number(n) => Tree::Number(n),
        Expression::Negation(inner) => Tree::Negation(Box::new(tree(*inner))),
        Expression::Boolean(s) => Tree::Boolean(s@),
        Expression::Array(items) => Tree::Array(
            Seq::new(
                items@.len(),
                |i: int| if 0 <= i < items@.len() { tree(items@[i]) } else { Tree::Nothing },
            ),
        ),
        Expression::Binary { left, op, right } => Tree::Binary {
            left: Box::new(tree(*left)),
            op: op@,
            right: Box::new(tree(*right)),
        },
        Expression::Variable { name, dt, value } => Tree::Variable {
            name: name@,
            dt: dt@,
            value: match value {
                Some(inner) => Some(Box::new(tree(*inner))),
                None => None,
            },
        },
        Expression::Assignment { variable, exp } => Tree::Assignment {
            variable: variable@,
            exp: Box::new(tree(*exp)),
        },
        Expression::ArgumentDefinition { name, dt, value } => Tree::ArgumentDefinition {
            name: name@,
            dt: dt@,
            value: match value {
                Some(inner) => Some(Box::new(tree(*inner))),
                None => None,
            },
        },
        Expression::ArgumentPassing { name, value } => Tree::ArgumentPassing {
            name: name@,
            value: Box::new(tree(*value)),
        },
        Expression::FunctionDefinition { name, args, rtype, body } => Tree::FunctionDefinition {
            name: name@,
            args: Seq::new(
                args@.len(),
                |i: int| if 0 <= i < args@.len() { tree(args@[i]) } else { Tree::Nothing },
            ),
            rtype: match rtype {
                Some(word) => Some(word@),
                None => None,
            },
            body: Seq::new(
                body@.len(),
                |i: int| if 0 <= i < body@.len() { tree(body@[i]) } else { Tree::Nothing },
            ),
        },
        Expression::FunctionCall { name, args } => Tree::FunctionCall {
            name: name@,
            args: Seq::new(
                args@.len(),
                |i: int| if 0 <= i < args@.len() { tree(args@[i]) } else { Tree::Nothing },
            ),
        },
        Expression::Nothing => Tree::Nothing,
    }
}

/// The plain values of a list of expressions.
pub open spec fn trees(items: Seq<Expression>) -> Seq<Tree> {
    Seq::new(items.len(), |i: int| if 0 <= i < items.len() { tree(items[i]) } else { Tree::Nothing })
}

/// A problem met while reading a script.
#[derive(Debug, Clone, Copy, PartialEq, Eq, Structural)]
pub enum Issue {
    /// A quoted text without its closing quote.
    Unclosed(LexError),
    /// A token that fits nowhere.
    Unexpected(Position),
    /// A statement that does not end in a semicolon.
    ExpectedSemicolon,
    /// A reserved word where a name (`name` true) or a data type was expected.
    Reserved { position: Position, name: bool },
    /// A reserved word as the name of an argument.
    ReservedArgument(Position),
    /// A comma where the colon behind an argument's name was expected.
    ExpectedColon(Position),
    /// A second name where the colon behind an argument's name was expected.
    ExpectedColumn(Position),
    /// A token where a text, a number, a truth value or an array was expected.
    ExpectedValue(Position),
    /// A token where a comma or the end of an array was expected.
    ExpectedSeparator(Position),
    /// A function body that runs to the end of the input.
    UnclosedBody,
}

/// The parser as plain values.
pub struct Script {
    pub cursor: Cursor,
    pub current: Lexeme,
    pub errors: Seq<Issue>,
}

/// A state after a request for a token, and whether there was one.
pub struct Advanced {
    pub state: Script,
    pub found: bool,
}

/// A state after something was read, with what was read.
pub struct Read {
    pub state: Script,
    pub tree: Tree,
}

/// A state after a list was read, with the list.
pub struct ReadMany {
    pub state: Script,
    pub trees: Seq<Tree>,
}

/// What is left to read: twice the characters behind the cursor, and one
/// more while there is a current token.
pub open spec fn fuel(data: Seq<char>, s: Script) -> int {
    2 * (data.len() - s.cursor.index) + (if s.current.kind is NoToken { 0int } else { 1int })
}

pub open spec fn with_issue(s: Script, issue: Issue) -> Script {
    Script { errors: s.errors.push(issue), ..s }
}

/// One request for a token. A token becomes the current one. At the end of
/// the input the current token becomes the one that stands for none; so it
/// does behind an unclosed text, which is noted as a problem.
pub open spec fn advance(data: Seq<char>, s: Script) -> Advanced {
    let ready = scan(data, s.cursor);
    if ready.index < data.len() {
        let lexed = lex(data, ready);
        match lexed.result {
            Ok(token) => Advanced { state: Script { cursor: lexed.cursor, current: token, ..s }, found: true },
            Err(error) => Advanced {
                state: Script {
                    cursor: lexed.cursor,
                    current: no_lexeme(),
                    errors: s.errors.push(Issue::Unclosed(error)),
                },
                found: false,
            },
        }
    } else {
        Advanced { state: Script { cursor: ready, current: no_lexeme(), ..s }, found: false }
    }
}

/// The state after the current token is given up for the next one.
pub open spec fn pop(data: Seq<char>, s: Script) -> Script {
    advance(data, s).state
}

/// Whether reading moved on from `before` to `after`.
pub open spec fn moved(data: Seq<char>, before: Script, after: Script) -> bool {
    0 <= fuel(data, after) < fuel(data, before)
}

/// The text of a name or of a quoted text; empty for any other token.
pub open spec fn text_of(kind: Kind) -> Seq<char> {
    match kind {
        Kind::Name(value) => value,
        Kind::Text(value) => value,
        _ => Seq::empty(),
    }
}

/// A value: a text, a truth value, a number or an array. Tokens that start
/// none of these are problems and are passed over.
pub open spec fn value(data: Seq<char>, s: Script) -> Read
    decreases fuel(data, s), 0int,
{
    match s.current.kind {
        Kind::NoToken => Read { state: s, tree: Tree::Nothing },
        Kind::Text(text) => Read { state: pop(data, s), tree: Tree::Text(text) },
        Kind::Boolean(text) => Read { state: pop(data, s), tree: Tree::Boolean(text) },
        Kind::Number(number) => Read { state: pop(data, s), tree: Tree::Number(number) },
        Kind::OpenSquareBracket => {
            let next = pop(data, s);
            if moved(data, s, next) {
                array(data, next, Seq::empty())
            } else {
                Read { state: next, tree: Tree::Nothing }
            }
        },
        _ => {
            let next = pop(data, with_issue(s, Issue::ExpectedValue(s.current.position)));
            if moved(data, s, next) {
                value(data, next)
            } else {
                Read { state: next, tree: Tree::Nothing }
            }
        },
    }
}

/// The items of an array behind its opening bracket, up to its closing
/// bracket or the end of the input, separated by commas.
pub open spec fn array(data: Seq<char>, s: Script, items: Seq<Tree>) -> Read
    decreases fuel(data, s), 1int,
{
    if s.current.kind is NoToken || s.current.kind is ClosingSquareBracket {
        Read { state: s, tree: Tree::Array(items) }
    } else {
        let item = value(data, s);
        let more = items.push(item.tree);
        if item.state.current.kind is ClosingSquareBracket {
            Read { state: pop(data, item.state), tree: Tree::Array(more) }
        } else {
            let next = if item.state.current.kind is Coma {
                pop(data, item.state)
            } else {
                with_issue(item.state, Issue::ExpectedSeparator(item.state.current.position))
            };
            if moved(data, s, next) {
                array(data, next, more)
            } else {
                Read { state: next, tree: Tree::Array(more) }
            }
        }
    }
}

/// A value, or a value, a factor sign and a condition.
pub open spec fn factor(data: Seq<char>, s: Script) -> Read
    decreases fuel(data, s), 1int,
{
    let left = value(data, s);
    match left.state.current.kind {
        Kind::Factor(sign) => {
            let next = pop(data, left.state);
            if moved(data, s, next) {
                let right = conditional(data, next);
                Read {
                    state: right.state,
                    tree: Tree::Binary { left: Box::new(left.tree), op: seq![sign], right: Box::new(right.tree) },
                }
            } else {
                Read { state: next, tree: left.tree }
            }
        },
        _ => left,
    }
}

/// A factor, or a factor, a term sign and a condition.
pub open spec fn term(data: Seq<char>, s: Script) -> Read
    decreases fuel(data, s), 2int,
{
    let left = factor(data, s);
    match left.state.current.kind {
        Kind::Term(sign) => {
            let next = pop(data, left.state);
            if moved(data, s, next) {
                let right = conditional(data, next);
                Read {
                    state: right.state,
                    tree: Tree::Binary { left: Box::new(left.tree), op: seq![sign], right: Box::new(right.tree) },
                }
            } else {
                Read { state: next, tree: left.tree }
            }
        },
        _ => left,
    }
}

/// A term, or a term, a condition word and a condition.
pub open spec fn conditional(data: Seq<char>, s: Script) -> Read
    decreases fuel(data, s), 3int,
{
    let left = term(data, s);
    match left.state.current.kind {
        Kind::Conditional(word) => {
            let next = pop(data, left.state);
            if moved(data, s, next) {
                let right = conditional(data, next);
                Read {
                    state: right.state,
                    tree: Tree::Binary { left: Box::new(left.tree), op: word, right: Box::new(right.tree) },
                }
            } else {
                Read { state: next, tree: left.tree }
            }
        },
        _ => left,
    }
}

/// The rest of `let name: type;` or `let name: type = value;` behind the
/// word `let`. `step` counts what was seen: 0 nothing, 1 the name, 2 the
/// colon, 3 the data type.
pub open spec fn declaration(data: Seq<char>, s: Script, step: int, name: Seq<char>, dt: Seq<char>) -> Read
    decreases fuel(data, s),
{
    let pulled = advance(data, s);
    let at = pulled.state;
    if !pulled.found || !moved(data, s, at) {
        Read { state: at, tree: Tree::Nothing }
    } else {
        match at.current.kind {
            Kind::Name(word) => {
                if reserved(word) && step == 0 {
                    declaration(
                        data,
                        with_issue(at, Issue::Reserved { position: at.current.position, name: true }),
                        step,
                        name,
                        dt,
                    )
                } else if step == 0 {
                    declaration(data, at, 1, word, dt)
                } else if step == 2 && datatype(word) {
                    declaration(data, at, 3, name, word)
                } else {
                    declaration(data, at, step, name, dt)
                }
            },
            Kind::Colon => declaration(data, at, if step == 1 { 2 } else { step }, name, dt),
            Kind::Equal => if step == 3 {
                let given = conditional(data, pop(data, at));
                if given.state.current.kind is SemiColon {
                    Read {
                        state: pop(data, given.state),
                        tree: Tree::Variable { name, dt, value: Some(Box::new(given.tree)) },
                    }
                } else if moved(data, s, given.state) {
                    declaration(data, given.state, step, name, dt)
                } else {
                    Read { state: given.state, tree: Tree::Nothing }
                }
            } else {
                declaration(data, at, step, name, dt)
            },
            Kind::SemiColon => if step == 3 {
                Read { state: pop(data, at), tree: Tree::Variable { name, dt, value: None } }
            } else {
                declaration(data, at, step, name, dt)
            },
            _ => declaration(data, at, step, name, dt),
        }
    }
}

/// The definition of one argument behind its name: a colon, a data type
/// and, if given, a value, up to a comma or a closing bracket.
pub open spec fn argument(
    data: Seq<char>,
    s: Script,
    name: Seq<char>,
    step: int,
    dt: Seq<char>,
    given: Option<Box<Tree>>,
) -> Read
    decreases fuel(data, s),
{
    let pulled = advance(data, s);
    let at = pulled.state;
    if !pulled.found || !moved(data, s, at) {
        Read { state: at, tree: Tree::Nothing }
    } else {
        match at.current.kind {
            Kind::Name(word) => {
                if step == 1 && datatype(word) {
                    argument(data, at, name, 2, word, given)
                } else if reserved(word) {
                    argument(
                        data,
                        with_issue(at, Issue::Reserved { position: at.current.position, name: step == 0 }),
                        name,
                        step,
                        dt,
                        given,
                    )
                } else {
                    argument(data, at, name, step, dt, given)
                }
            },
            Kind::Colon => argument(data, at, name, if step == 0 { 1 } else { step }, dt, given),
            Kind::Equal => if step == 2 {
                let read = conditional(data, at);
                if moved(data, s, read.state) {
                    argument(data, read.state, name, 3, dt, Some(Box::new(read.tree)))
                } else {
                    Read { state: read.state, tree: Tree::Nothing }
                }
            } else {
                argument(data, at, name, step, dt, given)
            },
            Kind::Coma => if step == 2 || step == 3 {
                Read { state: at, tree: Tree::ArgumentDefinition { name, dt, value: given } }
            } else {
                argument(data, at, name, step, dt, given)
            },
            Kind::ClosingBracket => if step == 2 || step == 3 {
                Read { state: at, tree: Tree::ArgumentDefinition { name, dt, value: given } }
            } else {
                argument(data, at, name, step, dt, given)
            },
            _ => argument(data, at, name, step, dt, given),
        }
    }
}

/// The arguments of a call behind its opening bracket, up to the closing
/// bracket. `step` is 1 behind the name of an argument, else 0.
pub open spec fn passing(data: Seq<char>, s: Script, step: int) -> Script
    decreases fuel(data, s),
{
    match s.current.kind {
        Kind::ClosingBracket => pop(data, s),
        Kind::NoToken => pop(data, s),
        Kind::Coma => {
            let next = pop(data, s);
            let noted = if step == 1 {
                with_issue(next, Issue::ExpectedColon(next.current.position))
            } else {
                next
            };
            if moved(data, s, noted) {
                passing(data, noted, 0)
            } else {
                noted
            }
        },
        Kind::Colon => {
            let next = pop(data, s);
            if moved(data, s, next) {
                passing(data, next, step)
            } else {
                next
            }
        },
        Kind::Name(word) => {
            let next = pop(data, s);
            if !moved(data, s, next) {
                next
            } else if step == 1 {
                passing(data, with_issue(next, Issue::ExpectedColumn(s.current.position)), step)
            } else if reserved(word) {
                passing(data, with_issue(next, Issue::ReservedArgument(s.current.position)), step)
            } else {
                passing(data, next, 1)
            }
        },
        _ => {
            let next = with_issue(pop(data, s), Issue::Unexpected(s.current.position));
            if moved(data, s, next) {
                passing(data, next, step)
            } else {
                next
            }
        },
    }
}

/// A statement that starts with a name: a call, an assignment, or a name alone.
pub open spec fn simple(data: Seq<char>, s: Script) -> Read {
    let name = text_of(s.current.kind);
    let next = pop(data, s);
    if next.current.kind is OpenBracket {
        Read {
            state: passing(data, pop(data, next), 0),
            tree: Tree::FunctionCall { name, args: Seq::empty() },
        }
    } else if next.current.kind is Equal {
        let given = conditional(data, pop(data, next));
        Read { state: given.state, tree: Tree::Assignment { variable: name, exp: Box::new(given.tree) } }
    } else if next.current.kind is SemiColon {
        Read { state: next, tree: Tree::Nothing }
    } else {
        Read { state: with_issue(next, Issue::ExpectedSemicolon), tree: Tree::Nothing }
    }
}

/// The statements of a function body, up to its closing bracket or the end
/// of the input.
pub open spec fn body(data: Seq<char>, s: Script, done: Seq<Tree>) -> ReadMany
    decreases fuel(data, s), 6int,
{
    if s.current.kind is ClosingCurlyBracket || s.current.kind is NoToken {
        ReadMany { state: s, trees: done }
    } else {
        let read = statement(data, s);
        if moved(data, s, read.state) {
            body(data, read.state, done.push(read.tree))
        } else {
            ReadMany { state: read.state, trees: done.push(read.tree) }
        }
    }
}

/// The rest of a function definition behind the word `fun`. `step` counts
/// what was seen: 0 nothing, 1 the name, 2 the opening bracket, 3 the
/// closing bracket, 4 the colon, 5 the result type.
pub open spec fn function(
    data: Seq<char>,
    s: Script,
    step: int,
    name: Seq<char>,
    rtype: Option<Seq<char>>,
    args: Seq<Tree>,
) -> Read
    decreases fuel(data, s), 4int,
{
    let pulled = advance(data, s);
    let at = pulled.state;
    if !pulled.found || !moved(data, s, at) {
        Read { state: at, tree: Tree::Nothing }
    } else {
        match at.current.kind {
            Kind::Name(word) => {
                if step == 0 && reserved(word) {
                    function(
                        data,
                        with_issue(at, Issue::Reserved { position: at.current.position, name: true }),
                        step,
                        name,
                        rtype,
                        args,
                    )
                } else if step == 0 {
                    function(data, at, 1, word, rtype, args)
                } else if step == 4 && datatype(word) {
                    function(data, at, 5, name, Some(word), args)
                } else if step == 2 {
                    let read = argument(data, at, word, 0, Seq::empty(), None);
                    if moved(data, s, read.state) {
                        function(data, read.state, step, name, rtype, args.push(read.tree))
                    } else {
                        Read { state: read.state, tree: Tree::Nothing }
                    }
                } else {
                    function(data, at, step, name, rtype, args)
                }
            },
            Kind::OpenBracket => function(data, at, if step == 1 { 2 } else { step }, name, rtype, args),
            Kind::ClosingBracket => function(data, at, if step == 2 { 3 } else { step }, name, rtype, args),
            Kind::Colon => function(data, at, if step == 3 { 4 } else { step }, name, rtype, args),
            Kind::OpenCurlyBracket => if step == 3 || step == 5 {
                let inside = pop(data, at);
                if moved(data, s, inside) {
                    let read = body(data, inside, Seq::empty());
                    Read {
                        state: if read.state.current.kind is NoToken {
                            with_issue(read.state, Issue::UnclosedBody)
                        } else {
                            read.state
                        },
                        tree: Tree::FunctionDefinition { name, args, rtype, body: read.trees },
                    }
                } else {
                    Read { state: inside, tree: Tree::Nothing }
                }
            } else {
                function(data, at, step, name, rtype, args)
            },
            _ => function(data, at, step, name, rtype, args),
        }
    }
}

/// The next statement: a declaration behind `let`, a function behind
/// `fun`, or a statement that starts with another name. Tokens that are no
/// names are problems and are passed over.
pub open spec fn statement(data: Seq<char>, s: Script) -> Read
    decreases fuel(data, s), 5int,
{
    match s.current.kind {
        Kind::NoToken => Read { state: s, tree: Tree::Nothing },
        Kind::Name(word) => {
            if word == "let"@ {
                declaration(data, s, 0, Seq::empty(), Seq::empty())
            } else if word == "fun"@ {
                function(data, s, 0, Seq::empty(), None, Seq::empty())
            } else {
                simple(data, s)
            }
        },
        _ => {
            let next = with_issue(pop(data, s), Issue::Unexpected(s.current.position));
            if moved(data, s, next) {
                statement(data, next)
            } else {
                Read { state: next, tree: Tree::Nothing }
            }
        },
    }
}


/// What kind of token a token is, without what it holds.
#[derive(Debug, Clone, Copy, PartialEq, Eq, Structural)]
pub enum Mark {
    Name,
    Text,
    Boolean,
    Number,
    Conditional,
    OpenSquareBracket,
    ClosingSquareBracket,
    Term,
    Factor,
    OpenCurlyBracket,
    ClosingCurlyBracket,
    OpenBracket,
    ClosingBracket,
    Colon,
    SemiColon,
    Coma,
    Equal,
    NoToken,
    Other,
}

pub open spec fn mark_of(kind: Kind) -> Mark {
    match kind {
        Kind::Name(_) => Mark::Name,
        Kind::Text(_) => Mark::Text,
        Kind::Boolean(_) => Mark::Boolean,
        Kind::Number(_) => Mark::Number,
        Kind::Conditional(_) => Mark::Conditional,
        Kind::OpenSquareBracket => Mark::OpenSquareBracket,
        Kind::ClosingSquareBracket => Mark::ClosingSquareBracket,
        Kind::Term(_) => Mark::Term,
        Kind::Factor(_) => Mark::Factor,
        Kind::OpenCurlyBracket => Mark::OpenCurlyBracket,
        Kind::ClosingCurlyBracket => Mark::ClosingCurlyBracket,
        Kind::OpenBracket => Mark::OpenBracket,
        Kind::ClosingBracket => Mark::ClosingBracket,
        Kind::Colon => Mark::Colon,
        Kind::SemiColon => Mark::SemiColon,
        Kind::Coma => Mark::Coma,
        Kind::Equal => Mark::Equal,
        Kind::NoToken => Mark::NoToken,
        _ => Mark::Other,
    }
}

/// The text that a token holds; empty for a token that holds none.
pub open spec fn payload_of(kind: Kind) -> Seq<char> {
    match kind {
        Kind::Name(value) => value,
        Kind::Text(value) => value,
        Kind::Boolean(value) => value,
        Kind::Conditional(value) => value,
        Kind::Term(sign) => seq![sign],
        Kind::Factor(sign) => seq![sign],
        _ => Seq::empty(),
    }
}

/// The number that a number token holds; zero for any other token.
pub open spec fn number_of(kind: Kind) -> u16 {
    match kind {
        Kind::Number(value) => value,
        _ => 0,
    }
}

/// The place of a token's kind among the kinds, whatever the token holds.
pub open spec fn variant(kind: Kind) -> int {
    match kind {
        Kind::Name(_) => 0,
        Kind::Text(_) => 1,
        Kind::Number(_) => 2,
        Kind::Boolean(_) => 3,
        Kind::Conditional(_) => 4,
        Kind::ForwardSlash => 5,
        Kind::OpenSquareBracket => 6,
        Kind::ClosingSquareBracket => 7,
        Kind::Term(_) => 8,
        Kind::Factor(_) => 9,
        Kind::OpenCurlyBracket => 10,
        Kind::ClosingCurlyBracket => 11,
        Kind::OpenBracket => 12,
        Kind::ClosingBracket => 13,
        Kind::Colon => 14,
        Kind::SemiColon => 15,
        Kind::Coma => 16,
        Kind::Equal => 17,
        Kind::Dot => 18,
        Kind::NoToken => 19,
        Kind::Unknown(_) => 20,
    }
}

fn variant_index(token: &TokenType) -> (out: u8)
    ensures
        out == variant(token@),
{
    match token {
        TokenType::Name(_) => 0,
        TokenType::String(_) => 1,
        TokenType::Number(_) => 2,
        TokenType::Boolean(_) => 3,
        TokenType::Conditional(_) => 4,
        TokenType::ForwardSlash => 5,
        TokenType::OpenSquareBracket => 6,
        TokenType::ClosingSquareBracket => 7,
        TokenType::Term(_) => 8,
        TokenType::Factor(_) => 9,
        TokenType::OpenCurlyBracket => 10,
        TokenType::ClosingCurlyBracket => 11,
        TokenType::OpenBracket => 12,
        TokenType::ClosingBracket => 13,
        TokenType::Colon => 14,
        TokenType::SemiColon => 15,
        TokenType::Coma => 16,
        TokenType::Equal => 17,
        TokenType::Dot => 18,
        TokenType::NoToken => 19,
        TokenType::Unknown(_) => 20,
    }
}

/// Whether two tokens are of the same kind, whatever they hold.
pub fn variant_equal(a: &Token, b: &Token) -> (out: bool)
    ensures
        out == (variant(a@.kind) == variant(b@.kind)),
{
    variant_index(&a.tokentype) == variant_index(&b.tokentype)
}

fn sign_text(sign: char) -> (out: String)
    ensures
        out@ == seq![sign],
{
    let mut out = String::new();
    out.push(sign);
    assert(out@ =~= seq![sign]);
    out
}

pub struct Parser {
    pub lexer: Lexer,
    pub errors: Vec<Issue>,
    pub current: Token,
}

impl View for Parser {
    type V = Script;

    open spec fn view(&self) -> Script {
        Script { cursor: self.lexer.cursor(), current: self.current@, errors: self.errors@ }
    }
}

impl Parser {
    /// The input.
    pub open spec fn text(&self) -> Seq<char> {
        self.lexer.text()
    }

    pub open spec fn well_formed(&self) -> bool {
        self.lexer.well_formed()
    }

    /// The input is the same and the parser is still well formed.
    pub open spec fn follows(&self, before: &Parser) -> bool {
        self.well_formed() && self.text() == before.text()
    }

    /// What is left to read.
    pub open spec fn rest(&self) -> int {
        fuel(self.text(), self@)
    }

    /// Whether there is a current token.
    pub open spec fn holds_token(&self) -> bool {
        !(self@.current.kind is NoToken)
    }

    /// A parser on `data` that looks at its first token.
    pub fn new(data: &str) -> (out: Self)
        ensures
            out.well_formed(),
            out.text() == data@,
            out@ == advance(
                data@,
                Script {
                    cursor: Cursor {
                        index: 0,
                        current: if data@.len() > 0 { data@[0] } else { ' ' },
                        to_newline: false,
                        column: 0,
                        row: 0,
                    },
                    current: no_lexeme(),
                    errors: Seq::empty(),
                },
            ).state,
    {
        let mut parser = Parser { lexer: Lexer::new(data), errors: Vec::new(), current: Token::none() };
        parser.next_token();
        parser
    }

    /// Moves the lexer to the start of the next token and says whether
    /// there is one. The current token stays.
    pub fn has_next(&mut self) -> (out: bool)
        requires
            old(self).well_formed(),
        ensures
            final(self).follows(old(self)),
            final(self)@ == (Script { cursor: scan(old(self).text(), old(self)@.cursor), ..old(self)@ }),
            out == (final(self)@.cursor.index < final(self).text().len()),
    {
        self.lexer.has_next()
    }

    fn next_token(&mut self) -> (out: bool)
        requires
            old(self).well_formed(),
        ensures
            final(self).follows(old(self)),
            final(self)@ == advance(old(self).text(), old(self)@).state,
            out == advance(old(self).text(), old(self)@).found,
            final(self).rest() <= old(self).rest(),
            out || old(self).holds_token() ==> final(self).rest() < old(self).rest(),
    {
        if self.lexer.has_next() {
            match self.lexer.get_next_token() {
                Err(error) => {
                    self.errors.push(Issue::Unclosed(error));
                },
                Ok(token) => {
                    self.current = token;
                    return true;
                },
            }
        }
        self.current = Token::none();
        false
    }

    fn pop_token(&mut self) -> (out: Token)
        requires
            old(self).well_formed(),
        ensures
            final(self).follows(old(self)),
            out@ == old(self)@.current,
            final(self)@ == pop(old(self).text(), old(self)@),
            final(self).rest() <= old(self).rest(),
            old(self).holds_token() ==> final(self).rest() < old(self).rest(),
    {
        let init = Token { tokentype: self.current.tokentype(), position: self.current.position() };
        self.next_token();
        init
    }

    fn mark(&self) -> (out: Mark)
        ensures
            out == mark_of(self@.current.kind),
    {
        match &self.current.tokentype {
            TokenType::Name(_) => Mark::Name,
            TokenType::String(_) => Mark::Text,
            TokenType::Boolean(_) => Mark::Boolean,
            TokenType::Number(_) => Mark::Number,
            TokenType::Conditional(_) => Mark::Conditional,
            TokenType::OpenSquareBracket => Mark::OpenSquareBracket,
            TokenType::ClosingSquareBracket => Mark::ClosingSquareBracket,
            TokenType::Term(_) => Mark::Term,
            TokenType::Factor(_) => Mark::Factor,
            TokenType::OpenCurlyBracket => Mark::OpenCurlyBracket,
            TokenType::ClosingCurlyBracket => Mark::ClosingCurlyBracket,
            TokenType::OpenBracket => Mark::OpenBracket,
            TokenType::ClosingBracket => Mark::ClosingBracket,
            TokenType::Colon => Mark::Colon,
            TokenType::SemiColon => Mark::SemiColon,
            TokenType::Coma => Mark::Coma,
            TokenType::Equal => Mark::Equal,
            TokenType::NoToken => Mark::NoToken,
            _ => Mark::Other,
        }
    }

    fn payload(&self) -> (out: String)
        ensures
            out@ == payload_of(self@.current.kind),
    {
        match &self.current.tokentype {
            TokenType::Name(value) => value.clone(),
            TokenType::String(value) => value.clone(),
            TokenType::Boolean(value) => value.clone(),
            TokenType::Conditional(value) => value.clone(),
            TokenType::Term(sign) => sign_text(*sign),
            TokenType::Factor(sign) => sign_text(*sign),
            _ => String::new(),
        }
    }

    fn number(&self) -> (out: u16)
        ensures
            out == number_of(self@.current.kind),
    {
        match &self.current.tokentype {
            TokenType::Number(value) => *value,
            _ => 0,
        }
    }

    /// The text of a name or of a quoted text; empty for any other token.
    fn unwrap(token: &Token) -> (out: String)
        ensures
            out@ == text_of(token@.kind),
    {
        match &token.tokentype {
            TokenType::Name(value) => value.clone(),
            TokenType::String(value) => value.clone(),
            _ => String::new(),
        }
    }

    fn note(&mut self, issue: Issue)
        ensures
            final(self)@ == with_issue(old(self)@, issue),
            final(self).lexer == old(self).lexer,
            final(self).current == old(self).current,
    {
        self.errors.push(issue);
    }

    fn word_is(&self, word: &str) -> (out: bool)
        ensures
            out == (payload_of(self@.current.kind) == word@),
    {
        let text = self.payload();
        let chars = chars_of(text.as_str());
        equal_chars(&chars, word)
    }

    /// Reads the next statement.
    pub fn get_next(&mut self) -> (out: Expression)
        requires
            old(self).well_formed(),
        ensures
            final(self).follows(old(self)),
            final(self)@ == statement(old(self).text(), old(self)@).state,
            tree(out) == statement(old(self).text(), old(self)@).tree,
            final(self).rest() <= old(self).rest(),
            old(self).holds_token() ==> final(self).rest() < old(self).rest(),
        decreases old(self).rest(), 5int,
    {
        loop
            invariant
                self.follows(old(self)),
                self.rest() <= old(self).rest(),
                self.holds_token() || old(self).holds_token() ==> self.holds_token() && old(self).holds_token()
                    || self.rest() < old(self).rest(),
                statement(self.text(), self@) == statement(old(self).text(), old(self)@),
            decreases self.rest(),
        {
            let mark = self.mark();
            if mark == Mark::NoToken {
                return Expression::Nothing;
            }
            if mark == Mark::Name {
                if self.word_is("let") {
                    return self.initilaization();
                } else if self.word_is("fun") {
                    return self.function_declaraton();
                } else {
                    return self.get();
                }
            }
            let token = self.pop_token();
            self.note(Issue::Unexpected(token.position()));
        }
    }

    fn get(&mut self) -> (out: Expression)
        requires
            old(self).well_formed(),
            old(self).holds_token(),
        ensures
            final(self).follows(old(self)),
            final(self)@ == simple(old(self).text(), old(self)@).state,
            tree(out) == simple(old(self).text(), old(self)@).tree,
            final(self).rest() < old(self).rest(),
    {
        let init = self.pop_token();
        let mark = self.mark();
        if mark == Mark::OpenBracket {
            self.pop_token();
            let args = self.get_argument_passing();
            let out = Expression::FunctionCall { name: Parser::unwrap(&init), args };
            assert(tree(out) == (Tree::FunctionCall { name: text_of(init@.kind), args: Seq::empty() })) by {
                assert(trees(args@) =~= Seq::<Tree>::empty());
                assert(tree(out)->FunctionCall_args =~= Seq::<Tree>::empty());
            }
            return out;
        } else if mark == Mark::Equal {
            self.pop_token();
            let exp = self.make_conditional();
            return Expression::Assignment { variable: Parser::unwrap(&init), exp: Box::new(exp) };
        }
        if mark != Mark::SemiColon {
            self.note(Issue::ExpectedSemicolon);
        }
        Expression::Nothing
    }

    fn initilaization(&mut self) -> (out: Expression)
        requires
            old(self).well_formed(),
            old(self).holds_token(),
        ensures
            final(self).follows(old(self)),
            final(self)@ == declaration(old(self).text(), old(self)@, 0, Seq::empty(), Seq::empty()).state,
            tree(out) == declaration(old(self).text(), old(self)@, 0, Seq::empty(), Seq::empty()).tree,
            final(self).rest() < old(self).rest(),
    {
        let mut name: String = String::new();
        let mut data_type: String = String::new();
        let mut step: u8 = 0;
        loop
            invariant
                self.follows(old(self)),
                self.rest() <= old(self).rest(),
                step <= 3,
                declaration(self.text(), self@, step as int, name@, data_type@) == declaration(
                    old(self).text(),
                    old(self)@,
                    0,
                    Seq::empty(),
                    Seq::empty(),
                ),
                self.holds_token() || self.rest() < old(self).rest(),
            decreases self.rest(),
        {
            if !self.next_token() {
                return Expression::Nothing;
            }
            let mark = self.mark();
            if mark == Mark::Name {
                let word = self.payload();
                if is_keyword(word.as_str()) && step == 0 {
                    self.note(Issue::Reserved { position: self.current.position(), name: true });
                } else if step == 0 {
                    name = word;
                    step = 1;
                } else if step == 2 && is_datatype(word.as_str()) {
                    data_type = word;
                    step = 3;
                }
            } else if mark == Mark::Colon {
                if step == 1 {
                    step = 2;
                }
            } else if mark == Mark::Equal {
                if step == 3 {
                    self.next_token();
                    let value = self.make_conditional();
                    if self.mark() == Mark::SemiColon {
                        self.next_token();
                        return Expression::Variable { name, dt: data_type, value: Some(Box::new(value)) };
                    }
                }
            } else if mark == Mark::SemiColon {
                if step == 3 {
                    self.next_token();
                    return Expression::Variable { name, dt: data_type, value: None };
                }
            }
        }
    }

    fn get_argument_definition(&mut self) -> (out: Expression)
        requires
            old(self).well_formed(),
            old(self).holds_token(),
        ensures
            final(self).follows(old(self)),
            final(self)@ == argument(
                old(self).text(),
                old(self)@,
                text_of(old(self)@.current.kind),
                0,
                Seq::empty(),
                None,
            ).state,
            tree(out) == argument(
                old(self).text(),
                old(self)@,
                text_of(old(self)@.current.kind),
                0,
                Seq::empty(),
                None,
            ).tree,
            final(self).rest() < old(self).rest(),
    {
        let name: String = Parser::unwrap(&self.current);
        let mut dt: String = String::new();
        let mut value: Option<Box<Expression>> = None;
        let mut step: u8 = 0;
        let ghost goal = argument(
            self.text(),
            self@,
            text_of(self@.current.kind),
            0,
            Seq::empty(),
            None,
        );
        loop
            invariant
                self.follows(old(self)),
                self.rest() <= old(self).rest(),
                step <= 3,
                argument(
                    self.text(),
                    self@,
                    name@,
                    step as int,
                    dt@,
                    match value {
                        Some(inner) => Some(Box::new(tree(*inner))),
                        None => None,
                    },
                ) == goal,
                goal == argument(
                    old(self).text(),
                    old(self)@,
                    text_of(old(self)@.current.kind),
                    0,
                    Seq::empty(),
                    None,
                ),
                self.holds_token() || self.rest() < old(self).rest(),
            decreases self.rest(),
        {
            if !self.next_token() {
                return Expression::Nothing;
            }
            let mark = self.mark();
            if mark == Mark::Name {
                let word = self.payload();
                if step == 1 && is_datatype(word.as_str()) {
                    dt = word;
                    step = 2;
                } else if is_keyword(word.as_str()) {
                    self.note(Issue::Reserved { position: self.current.position(), name: step == 0 });
                }
            } else if mark == Mark::Colon {
                if step == 0 {
                    step = 1;
                }
            } else if mark == Mark::Equal {
                if step == 2 {
                    value = Some(Box::new(self.make_conditional()));
                    step = 3;
                }
            } else if mark == Mark::Coma || mark == Mark::ClosingBracket {
                if step == 2 || step == 3 {
                    return Expression::ArgumentDefinition { name, dt, value };
                }
            }
        }
    }

    fn function_declaraton(&mut self) -> (out: Expression)
        requires
            old(self).well_formed(),
            old(self).holds_token(),
        ensures
            final(self).follows(old(self)),
            final(self)@ == function(old(self).text(), old(self)@, 0, Seq::empty(), None, Seq::empty()).state,
            tree(out) == function(old(self).text(), old(self)@, 0, Seq::empty(), None, Seq::empty()).tree,
            final(self).rest() < old(self).rest(),
        decreases old(self).rest(), 4int,
    {
        let mut args: Vec<Expression> = Vec::new();
        let mut name: String = String::new();
        let mut rtype: Option<String> = None;
        let mut step: u8 = 0;
        let ghost goal = function(self.text(), self@, 0, Seq::empty(), None, Seq::empty());
        assert(trees(args@) =~= Seq::<Tree>::empty());
        loop
            invariant
                self.follows(old(self)),
                self.rest() <= old(self).rest(),
                step <= 5,
                function(
                    self.text(),
                    self@,
                    step as int,
                    name@,
                    match rtype {
                        Some(word) => Some(word@),
                        None => None,
                    },
                    trees(args@),
                ) == goal,
                goal == function(old(self).text(), old(self)@, 0, Seq::empty(), None, Seq::empty()),
                self.holds_token() || self.rest() < old(self).rest(),
            decreases self.rest(),
        {
            if !self.next_token() {
                return Expression::Nothing;
            }
            let mark = self.mark();
            if mark == Mark::Name {
                let word = self.payload();
                if step == 0 && is_keyword(word.as_str()) {
                    self.note(Issue::Reserved { position: self.current.position(), name: true });
                } else if step == 0 {
                    name = word;
                    step = 1;
                } else if step == 4 && is_datatype(word.as_str()) {
                    rtype = Some(word);
                    step = 5;
                } else if step == 2 {
                    let ghost before = trees(args@);
                    let arg = self.get_argument_definition();
                    args.push(arg);
                    assert(trees(args@) =~= before.push(tree(arg)));
                }
            } else if mark == Mark::OpenBracket {
                if step == 1 {
                    step = 2;
                }
            } else if mark == Mark::ClosingBracket {
                if step == 2 {
                    step = 3;
                }
            } else if mark == Mark::Colon {
                if step == 3 {
                    step = 4;
                }
            } else if mark == Mark::OpenCurlyBracket {
                if step == 3 || step == 5 {
                    self.next_token();
                    let ghost inside = self@;
                    let mut body_items: Vec<Expression> = Vec::new();
                    assert(trees(body_items@) =~= Seq::<Tree>::empty());
                    loop
                        invariant
                            self.follows(old(self)),
                            self.rest() < old(self).rest(),
                            body(self.text(), self@, trees(body_items@)) == body(
                                self.text(),
                                inside,
                                Seq::empty(),
                            ),
                        ensures
                            self@.current.kind is ClosingCurlyBracket || self@.current.kind is NoToken,
                        decreases self.rest(),
                    {
                        let inner = self.mark();
                        if inner == Mark::ClosingCurlyBracket || inner == Mark::NoToken {
                            break ;
                        }
                        let ghost before = trees(body_items@);
                        let item = self.get_next();
                        body_items.push(item);
                        assert(trees(body_items@) =~= before.push(tree(item)));
                    }
                    if self.mark() == Mark::NoToken {
                        self.note(Issue::UnclosedBody);
                    }
                    let out = Expression::FunctionDefinition { name, args, rtype, body: body_items };
                    assert(tree(out)->FunctionDefinition_args =~= trees(args@));
                    assert(tree(out)->FunctionDefinition_body =~= trees(body_items@));
                    return out;
                }
            }
        }
    }

    fn get_argument_passing(&mut self) -> (out: Vec<Expression>)
        requires
            old(self).well_formed(),
        ensures
            final(self).follows(old(self)),
            final(self)@ == passing(old(self).text(), old(self)@, 0),
            out@.len() == 0,
            final(self).rest() <= old(self).rest(),
    {
        let args: Vec<Expression> = Vec::new();
        let mut step: u8 = 0;
        loop
            invariant
                self.follows(old(self)),
                self.rest() <= old(self).rest(),
                step <= 1,
                args@.len() == 0,
                passing(self.text(), self@, step as int) == passing(old(self).text(), old(self)@, 0),
            decreases self.rest(),
        {
            let mark = self.mark();
            if mark == Mark::Name || mark == Mark::Colon || mark == Mark::Coma {
                let word = self.payload();
                let token = self.pop_token();
                if mark == Mark::Coma {
                    if step == 1 {
                        self.note(Issue::ExpectedColon(self.current.position()));
                    }
                    step = 0;
                } else if mark == Mark::Name {
                    if step == 1 {
                        self.note(Issue::ExpectedColumn(token.position()));
                    } else if is_keyword(word.as_str()) {
                        self.note(Issue::ReservedArgument(token.position()));
                    } else {
                        step = 1;
                    }
                }
            } else if mark == Mark::ClosingBracket || mark == Mark::NoToken {
                self.next_token();
                return args;
            } else {
                let token = self.pop_token();
                self.note(Issue::Unexpected(token.position()));
            }
        }
    }

    /// Reads a condition: a term, or a term, a condition word and a condition.
    pub fn make_conditional(&mut self) -> (out: Expression)
        requires
            old(self).well_formed(),
        ensures
            final(self).follows(old(self)),
            final(self)@ == conditional(old(self).text(), old(self)@).state,
            tree(out) == conditional(old(self).text(), old(self)@).tree,
            final(self).rest() <= old(self).rest(),
            old(self).holds_token() ==> final(self).rest() < old(self).rest(),
        decreases old(self).rest(), 3int,
    {
        let left = self.make_term();
        if self.mark() == Mark::Conditional {
            let op = self.payload();
            self.next_token();
            let right = self.make_conditional();
            return Expression::Binary { left: Box::new(left), op, right: Box::new(right) };
        }
        left
    }

    /// Reads a term: a factor, or a factor, a term sign and a condition.
    pub fn make_term(&mut self) -> (out: Expression)
        requires
            old(self).well_formed(),
        ensures
            final(self).follows(old(self)),
            final(self)@ == term(old(self).text(), old(self)@).state,
            tree(out) == term(old(self).text(), old(self)@).tree,
            final(self).rest() <= old(self).rest(),
            old(self).holds_token() ==> final(self).rest() < old(self).rest(),
        decreases old(self).rest(), 2int,
    {
        let left = self.make_factor();
        if self.mark() == Mark::Term {
            let op = self.payload();
            self.next_token();
            let right = self.make_conditional();
            return Expression::Binary { left: Box::new(left), op, right: Box::new(right) };
        }
        left
    }

    /// Reads a factor: a value, or a value, a factor sign and a condition.
    pub fn make_factor(&mut self) -> (out: Expression)
        requires
            old(self).well_formed(),
        ensures
            final(self).follows(old(self)),
            final(self)@ == factor(old(self).text(), old(self)@).state,
            tree(out) == factor(old(self).text(), old(self)@).tree,
            final(self).rest() <= old(self).rest(),
            old(self).holds_token() ==> final(self).rest() < old(self).rest(),
        decreases old(self).rest(), 1int,
    {
        let left = self.make_value();
        if self.mark() == Mark::Factor {
            let op = self.payload();
            self.next_token();
            let right = self.make_conditional();
            return Expression::Binary { left: Box::new(left), op, right: Box::new(right) };
        }
        left
    }

    fn make_value(&mut self) -> (out: Expression)
        requires
            old(self).well_formed(),
        ensures
            final(self).follows(old(self)),
            final(self)@ == value(old(self).text(), old(self)@).state,
            tree(out) == value(old(self).text(), old(self)@).tree,
            final(self).rest() <= old(self).rest(),
            old(self).holds_token() ==> final(self).rest() < old(self).rest(),
        decreases old(self).rest(), 0int,
    {
        loop
            invariant
                self.follows(old(self)),
                self.rest() <= old(self).rest(),
                self.holds_token() || old(self).holds_token() ==> self.holds_token() && old(self).holds_token()
                    || self.rest() < old(self).rest(),
                value(self.text(), self@) == value(old(self).text(), old(self)@),
            decreases self.rest(),
        {
            let mark = self.mark();
            if mark == Mark::NoToken {
                return Expression::Nothing;
            } else if mark == Mark::Text {
                let out = Expression::String(self.payload());
                self.pop_token();
                return out;
            } else if mark == Mark::Boolean {
                let out = Expression::Boolean(self.payload());
                self.pop_token();
                return out;
            } else if mark == Mark::Number {
                let out = Expression::Number(self.number());
                self.pop_token();
                return out;
            } else if mark == Mark::OpenSquareBracket {
                self.next_token();
                return self.make_array();
            } else {
                self.note(Issue::ExpectedValue(self.current.position()));
                self.next_token();
            }
        }
    }

    fn make_array(&mut self) -> (out: Expression)
        requires
            old(self).well_formed(),
        ensures
            final(self).follows(old(self)),
            final(self)@ == array(old(self).text(), old(self)@, Seq::empty()).state,
            tree(out) == array(old(self).text(), old(self)@, Seq::empty()).tree,
            final(self).rest() <= old(self).rest(),
        decreases old(self).rest(), 1int,
    {
        let mut items: Vec<Expression> = Vec::new();
        assert(trees(items@) =~= Seq::<Tree>::empty());
        loop
            invariant
                self.follows(old(self)),
                self.rest() <= old(self).rest(),
                array(self.text(), self@, trees(items@)) == array(old(self).text(), old(self)@, Seq::empty()),
            decreases self.rest(),
        {
            let mark = self.mark();
            if mark == Mark::NoToken || mark == Mark::ClosingSquareBracket {
                let out = Expression::Array(items);
                assert(tree(out)->Array_0 =~= trees(items@));
                return out;
            }
            let ghost before = trees(items@);
            let item = self.make_value();
            items.push(item);
            assert(trees(items@) =~= before.push(tree(item)));
            let next = self.mark();
            if next == Mark::ClosingSquareBracket {
                self.next_token();
                let out = Expression::Array(items);
                assert(tree(out)->Array_0 =~= trees(items@));
                return out;
            }
            if next == Mark::Coma {
                self.next_token();
            } else {
                self.note(Issue::ExpectedSeparator(self.current.position()));
            }
        }
    }
}

} // verus!
