//! The tokenizer: it reads the source text one character at a time, hands
//! out tokens, records diagnostics, and offers the checked step over a token
//! on which the compiler's error recovery rests.
//!
//! Nothing is printed here.  Every diagnostic is recorded with the line and
//! the column at which it arose, so that a listing can be produced from the
//! source text and the record.
use vstd::prelude::*;
use vstd::string::{StrSliceExecFns, StringExecFns};
use crate::fault::Fatal;
use crate::table::KindT;

verus! {

/// `String::push` appends the character to the string: the characters that
/// were there stay, and the new one is the last.
pub assume_specification[ String::push ](s: &mut String, c: char)
    ensures
        final(s)@ == old(s)@.push(c),
;

/// The kinds of tokens; the last four are classes of characters only.
#[derive(Copy, Clone, Debug, PartialEq, Eq, Structural)]
pub enum KeyId {
    Begin,
    End,
    If,
    Then,
    While,
    Do,
    Ret,
    Func,
    Var,
    Const,
    Odd,
    Write,
    WriteLn,
    EndOfKeyWords,
    Plus,
    Minus,
    Mult,
    Div,
    Lparen,
    Rparen,
    Equal,
    Lss,
    Gtr,
    NotEq,
    LssEq,
    GtrEq,
    Comma,
    Period,
    Semicolon,
    Assign,
    EndOfKeySymbol,
    Id,
    Num,
    Nul,
    EndOfToken,
    Letter,
    Digit,
    Colon,
    Other,
}

impl KeyId {
    /// The kind is a reserved word.
    pub open spec fn key_word(self) -> bool {
        matches!(
            self,
            KeyId::Begin | KeyId::End | KeyId::If | KeyId::Then | KeyId::While | KeyId::Do
                | KeyId::Ret | KeyId::Func | KeyId::Var | KeyId::Const | KeyId::Odd | KeyId::Write
                | KeyId::WriteLn
        )
    }

    /// The kind is an operator or a delimiter.
    pub open spec fn key_symbol(self) -> bool {
        matches!(
            self,
            KeyId::Plus | KeyId::Minus | KeyId::Mult | KeyId::Div | KeyId::Lparen | KeyId::Rparen
                | KeyId::Equal | KeyId::Lss | KeyId::Gtr | KeyId::NotEq | KeyId::LssEq | KeyId::GtrEq
                | KeyId::Comma | KeyId::Period | KeyId::Semicolon | KeyId::Assign
        )
    }

    /// The kind begins a statement other than an assignment.
    pub open spec fn st_begin_key(self) -> bool {
        matches!(
            self,
            KeyId::If | KeyId::Begin | KeyId::Ret | KeyId::While | KeyId::Write | KeyId::WriteLn
        )
    }

    /// Is the kind a reserved word?
    pub fn is_key_word(&self) -> (b: bool)
        ensures
            b == self.key_word(),
    {
        match self {
            KeyId::Begin | KeyId::End | KeyId::If | KeyId::Then | KeyId::While | KeyId::Do
            | KeyId::Ret | KeyId::Func | KeyId::Var | KeyId::Const | KeyId::Odd | KeyId::Write
            | KeyId::WriteLn => true,
            _ => false,
        }
    }

    /// Is the kind an operator or a delimiter?
    pub fn is_key_symbol(&self) -> (b: bool)
        ensures
            b == self.key_symbol(),
    {
        match self {
            KeyId::Plus | KeyId::Minus | KeyId::Mult | KeyId::Div | KeyId::Lparen | KeyId::Rparen
            | KeyId::Equal | KeyId::Lss | KeyId::Gtr | KeyId::NotEq | KeyId::LssEq | KeyId::GtrEq
            | KeyId::Comma | KeyId::Period | KeyId::Semicolon | KeyId::Assign => true,
            _ => false,
        }
    }
}

/// The greatest number of diagnostics that compilation survives.
pub const MAX_ERROR: i32 = 30;

/// The number of columns a tab counts for.
pub const TAB: i32 = 5;

/// The greatest length of a name; what follows is cut off.
pub const MAXNAME: usize = 32;

/// The greatest number of digits of a number.
pub const MAXNUM: usize = 14;

/// The greatest length of a source text, in characters: the counters of
/// columns and blanks are 32 bits wide.
pub const MAXSOURCE: usize = 0x1000_0000;

/// What a token carries besides its kind.
#[derive(Debug)]
pub enum TokenContent {
    /// The spelling of a name.
    Id(String),
    /// The value of a number.
    Value(i32),
    Nothing,
}

/// The model of a [`TokenContent`].
pub enum ContentView {
    Id(Seq<char>),
    Value(i32),
    Nothing,
}

impl View for TokenContent {
    type V = ContentView;

    open spec fn view(&self) -> ContentView {
        match self {
            TokenContent::Id(s) => ContentView::Id(s@),
            TokenContent::Value(v) => ContentView::Value(*v),
            TokenContent::Nothing => ContentView::Nothing,
        }
    }
}

impl Clone for TokenContent {
    fn clone(&self) -> (r: Self)
        ensures
            r@ == self@,
    {
        match self {
            TokenContent::Id(s) => TokenContent::Id(s.clone()),
            TokenContent::Value(v) => TokenContent::Value(*v),
            TokenContent::Nothing => TokenContent::Nothing,
        }
    }
}

/// A token.
#[derive(Debug)]
pub struct Token {
    pub kind: KeyId,
    pub u: TokenContent,
}

/// The model of a [`Token`].
pub struct TokenView {
    pub kind: KeyId,
    pub u: ContentView,
}

impl View for Token {
    type V = TokenView;

    open spec fn view(&self) -> TokenView {
        TokenView { kind: self.kind, u: self.u@ }
    }
}

impl Clone for Token {
    fn clone(&self) -> (r: Self)
        ensures
            r@ == self@,
    {
        Token { kind: self.kind, u: self.u.clone() }
    }
}

impl Token {
    /// Does the token begin a statement other than an assignment?
    pub fn is_st_begin_key(&self) -> (b: bool)
        ensures
            b == self.kind.st_begin_key(),
    {
        match self.kind {
            KeyId::If | KeyId::Begin | KeyId::Ret | KeyId::While | KeyId::Write | KeyId::WriteLn => {
                true
            },
            _ => false,
        }
    }
}

/// `s` is spelled like a name: a letter, and letters and digits behind it.
pub open spec fn is_name(s: Seq<char>) -> bool {
    &&& s.len() >= 1
    &&& is_letter(s[0])
    &&& forall|i: int| 0 <= i < s.len() ==> is_letter(#[trigger] s[i]) || is_digit(s[i])
}

impl TokenView {
    /// The token carries what goes with its kind: a name carries its
    /// spelling, which is that of no reserved word and has `MAXNAME`
    /// characters at most, a number carries its value, and any other token
    /// carries nothing.
    pub open spec fn coherent(self) -> bool {
        match self.u {
            ContentView::Id(s) => self.kind == KeyId::Id && is_name(s) && s.len() <= MAXNAME
                && reserved(s) is None,
            ContentView::Value(v) => self.kind == KeyId::Num,
            ContentView::Nothing => self.kind != KeyId::Id && self.kind != KeyId::Num,
        }
    }
}

/// The token of kind `k` that carries nothing.
pub open spec fn plain(k: KeyId) -> TokenView {
    TokenView { kind: k, u: ContentView::Nothing }
}

/// What a diagnostic says.
#[derive(Copy, Clone, Debug, PartialEq, Eq, Structural)]
pub enum Message {
    /// The text ended inside the program.
    EndOfFile,
    /// A name is longer than `MAXNAME` characters.
    TooLong,
    /// A number has more than `MAXNUM` digits.
    TooLarge,
    /// A token of this kind is missing and taken as present.
    Insert(KeyId),
    /// A token of kind `deleted` stands where one of kind `inserted` belongs.
    DeleteInsert { deleted: KeyId, inserted: KeyId },
    /// A token of this kind is skipped.  This is a note: it does not count as
    /// an error.
    Delete(KeyId),
    /// A number is missing in a constant declaration.
    Number,
    /// A name is missing in a constant or variable declaration.
    MissingIdentifier,
    /// The name of a function is missing.
    MissingFunctionName,
    /// The target of an assignment is neither a variable nor a parameter.
    TypeVarPar,
    /// A relational operator is missing in a condition.
    TypeRelOp,
    /// A call has another number of arguments than the function has
    /// parameters.
    UnmatchedPar,
    /// Two factors follow one another; the second one begins with a token
    /// of this kind.
    MissingOperator(KeyId),
    /// A name is used that is not declared; it is taken for a variable.
    Undeclared,
}

/// A diagnostic with its place: the number of source lines read when it
/// arose and the column of the character read last (-1 before the first
/// character of a line).
#[derive(Copy, Clone, Debug, PartialEq, Eq, Structural)]
pub struct Diagnostic {
    pub line: usize,
    pub column: i32,
    pub message: Message,
}

/// `c` is an ASCII letter.
pub open spec fn is_letter(c: char) -> bool {
    ('a' <= c && c <= 'z') || ('A' <= c && c <= 'Z')
}

/// `c` is a decimal digit.
pub open spec fn is_digit(c: char) -> bool {
    '0' <= c && c <= '9'
}

/// `c` separates tokens.
pub open spec fn is_blank(c: char) -> bool {
    c == ' ' || c == '\t' || c == '\n'
}

/// The class of a character: `Letter`, `Digit`, `Colon`, the kind of the
/// one-character token it is or begins, or `Other`.
pub open spec fn class_of(c: char) -> KeyId {
    if is_digit(c) {
        KeyId::Digit
    } else if is_letter(c) {
        KeyId::Letter
    } else if c == '+' {
        KeyId::Plus
    } else if c == '-' {
        KeyId::Minus
    } else if c == '*' {
        KeyId::Mult
    } else if c == '/' {
        KeyId::Div
    } else if c == '(' {
        KeyId::Lparen
    } else if c == ')' {
        KeyId::Rparen
    } else if c == '=' {
        KeyId::Equal
    } else if c == '<' {
        KeyId::Lss
    } else if c == '>' {
        KeyId::Gtr
    } else if c == ',' {
        KeyId::Comma
    } else if c == '.' {
        KeyId::Period
    } else if c == ';' {
        KeyId::Semicolon
    } else if c == ':' {
        KeyId::Colon
    } else {
        KeyId::Other
    }
}

/// The class of the character `c`.
pub fn char_class(c: char) -> (k: KeyId)
    ensures
        k == class_of(c),
{
    if c >= '0' && c <= '9' {
        KeyId::Digit
    } else if (c >= 'a' && c <= 'z') || (c >= 'A' && c <= 'Z') {
        KeyId::Letter
    } else if c == '+' {
        KeyId::Plus
    } else if c == '-' {
        KeyId::Minus
    } else if c == '*' {
        KeyId::Mult
    } else if c == '/' {
        KeyId::Div
    } else if c == '(' {
        KeyId::Lparen
    } else if c == ')' {
        KeyId::Rparen
    } else if c == '=' {
        KeyId::Equal
    } else if c == '<' {
        KeyId::Lss
    } else if c == '>' {
        KeyId::Gtr
    } else if c == ',' {
        KeyId::Comma
    } else if c == '.' {
        KeyId::Period
    } else if c == ';' {
        KeyId::Semicolon
    } else if c == ':' {
        KeyId::Colon
    } else {
        KeyId::Other
    }
}

/// The reserved word that is spelled `name`, if there is one.
pub open spec fn reserved(name: Seq<char>) -> Option<KeyId> {
    if name == "begin"@ {
        Some(KeyId::Begin)
    } else if name == "end"@ {
        Some(KeyId::End)
    } else if name == "if"@ {
        Some(KeyId::If)
    } else if name == "then"@ {
        Some(KeyId::Then)
    } else if name == "while"@ {
        Some(KeyId::While)
    } else if name == "do"@ {
        Some(KeyId::Do)
    } else if name == "return"@ {
        Some(KeyId::Ret)
    } else if name == "function"@ {
        Some(KeyId::Func)
    } else if name == "var"@ {
        Some(KeyId::Var)
    } else if name == "const"@ {
        Some(KeyId::Const)
    } else if name == "odd"@ {
        Some(KeyId::Odd)
    } else if name == "write"@ {
        Some(KeyId::Write)
    } else if name == "writeln"@ {
        Some(KeyId::WriteLn)
    } else {
        None
    }
}

/// Is `name` spelled like `word`?
fn spelled(name: &String, word: &str) -> (b: bool)
    ensures
        b == (name@ == word@),
{
    let w = String::from_str(word);
    *name == w
}

/// The reserved word that is spelled `name`, if there is one.
pub fn key_word_of(name: &String) -> (r: Option<KeyId>)
    ensures
        r == reserved(name@),
{
    if spelled(name, "begin") {
        Some(KeyId::Begin)
    } else if spelled(name, "end") {
        Some(KeyId::End)
    } else if spelled(name, "if") {
        Some(KeyId::If)
    } else if spelled(name, "then") {
        Some(KeyId::Then)
    } else if spelled(name, "while") {
        Some(KeyId::While)
    } else if spelled(name, "do") {
        Some(KeyId::Do)
    } else if spelled(name, "return") {
        Some(KeyId::Ret)
    } else if spelled(name, "function") {
        Some(KeyId::Func)
    } else if spelled(name, "var") {
        Some(KeyId::Var)
    } else if spelled(name, "const") {
        Some(KeyId::Const)
    } else if spelled(name, "odd") {
        Some(KeyId::Odd)
    } else if spelled(name, "write") {
        Some(KeyId::Write)
    } else if spelled(name, "writeln") {
        Some(KeyId::WriteLn)
    } else {
        None
    }
}

/// The value of the decimal digit `c`.
pub open spec fn digit_value(c: char) -> i32 {
    (c as int - '0' as int) as i32
}

/// The tokenizer.
pub struct Lexer {
    /// The source text.
    pub src: Vec<char>,
    /// The index in `src` of the next character to read.
    pub pos: usize,
    /// The first line has been opened.
    pub started: bool,
    /// The number of lines opened so far.
    pub line: usize,
    /// The column of the character read last; -1 when a line was just opened.
    pub line_index: i32,
    /// The character read last.
    pub ch: char,
    /// The token read last.
    pub c_token: Token,
    /// The kind of name that the current token stands for.
    pub id_kind: KindT,
    /// The number of columns of blank space before the current token.
    pub spaces: i32,
    /// The number of line breaks before the current token.
    pub cr: i32,
    /// The number of errors so far.
    pub error_no: i32,
    /// The diagnostics so far, errors and notes, in the order they arose.
    pub diags: Vec<Diagnostic>,
}

/// The model of a [`Lexer`].
pub struct LexView {
    pub src: Seq<char>,
    pub pos: int,
    pub started: bool,
    pub line: int,
    pub line_index: int,
    pub ch: char,
    pub c_token: TokenView,
    pub id_kind: KindT,
    pub spaces: int,
    pub cr: int,
    pub error_no: int,
    pub diags: Seq<Diagnostic>,
}

impl View for Lexer {
    type V = LexView;

    open spec fn view(&self) -> LexView {
        LexView {
            src: self.src@,
            pos: self.pos as int,
            started: self.started,
            line: self.line as int,
            line_index: self.line_index as int,
            ch: self.ch,
            c_token: self.c_token@,
            id_kind: self.id_kind,
            spaces: self.spaces as int,
            cr: self.cr as int,
            error_no: self.error_no as int,
            diags: self.diags@,
        }
    }
}

impl LexView {
    /// The tokenizer before it has read anything of `src`.
    pub open spec fn initial(src: Seq<char>) -> LexView {
        LexView {
            src: src,
            pos: 0,
            started: false,
            line: 0,
            line_index: -1,
            ch: '\n',
            c_token: plain(KeyId::Nul),
            id_kind: KindT::VarId,
            spaces: 0,
            cr: 0,
            error_no: 0,
            diags: Seq::empty(),
        }
    }

    /// The counters are within the bounds that the length of the text sets,
    /// and no more errors were counted than compilation survives.
    pub open spec fn wf(self) -> bool {
        &&& self.src.len() <= MAXSOURCE
        &&& 0 <= self.pos <= self.src.len()
        &&& !self.started ==> self.pos == 0 && self.line == 0
        &&& 0 <= self.line <= self.pos + 1
        &&& -1 <= self.line_index <= self.pos
        &&& 0 <= self.spaces <= 5 * (self.pos + 3)
        &&& 0 <= self.cr <= self.pos + 3
        &&& 0 <= self.error_no <= MAX_ERROR
    }

    /// How much is left to read: the characters from `pos` on, and the
    /// opening of the first line.
    pub open spec fn remaining(self) -> nat {
        if self.pos <= self.src.len() {
            (self.src.len() - self.pos + if self.started { 0int } else { 1int }) as nat
        } else {
            0
        }
    }

    /// Recording the error `m` at the current place.  It fails when more
    /// than `MAX_ERROR` errors have been counted.
    pub open spec fn error(self, m: Message) -> (LexView, Result<(), Fatal>) {
        (
            LexView {
                diags: self.diags.push(
                    Diagnostic {
                        line: self.line as usize,
                        column: self.line_index as i32,
                        message: m,
                    },
                ),
                error_no: self.error_no + 1,
                ..self
            },
            if self.error_no + 1 > MAX_ERROR {
                Err(Fatal::TooManyErrors)
            } else {
                Ok(())
            },
        )
    }

    /// Recording the note `m` at the current place; the count of errors
    /// stays.
    pub open spec fn note(self, m: Message) -> LexView {
        LexView {
            diags: self.diags.push(
                Diagnostic { line: self.line as usize, column: self.line_index as i32, message: m },
            ),
            ..self
        }
    }

    /// A line break lies at `pos`: a line feed, or a carriage return and a
    /// line feed.
    pub open spec fn at_break(self) -> bool {
        &&& 0 <= self.pos < self.src.len()
        &&& self.src[self.pos] == '\n' || (self.src[self.pos] == '\r' && self.pos + 1
            < self.src.len() && self.src[self.pos + 1] == '\n')
    }

    /// The position behind the line break at `pos`.
    pub open spec fn after_break(self) -> int {
        if self.src[self.pos] == '\n' {
            self.pos + 1
        } else {
            self.pos + 2
        }
    }

    /// Another line can be opened: the first one of a text that is not
    /// empty, or the one behind a line break that does not end the text.
    pub open spec fn has_next_line(self) -> bool {
        if self.started {
            self.at_break() && self.after_break() < self.src.len()
        } else {
            self.src.len() > 0
        }
    }

    /// Reading one character.  Within a line it is the next character of the
    /// text.  At the end of a line the next line is opened and the character
    /// is a line feed; so it is when the first line is opened.  Where no line
    /// is left, the end of the file is recorded as an error and reading
    /// fails.
    pub open spec fn next_char(self) -> (LexView, Result<char, Fatal>) {
        if self.started && 0 <= self.pos < self.src.len() && !self.at_break() {
            (
                LexView { pos: self.pos + 1, line_index: self.line_index + 1, ..self },
                Ok(self.src[self.pos]),
            )
        } else if self.has_next_line() {
            (
                LexView {
                    pos: if self.started {
                        self.after_break()
                    } else {
                        self.pos
                    },
                    started: true,
                    line: self.line + 1,
                    line_index: -1,
                    ..self
                },
                Ok('\n'),
            )
        } else {
            let (l, r) = self.error(Message::EndOfFile);
            (
                l,
                Err(
                    if r is Err {
                        Fatal::TooManyErrors
                    } else {
                        Fatal::EndOfFile
                    },
                ),
            )
        }
    }

    /// Reading one character into `ch`.
    pub open spec fn advance(self) -> (LexView, Result<(), Fatal>) {
        let (l, r) = self.next_char();
        match r {
            Ok(c) => (LexView { ch: c, ..l }, Ok(())),
            Err(e) => (l, Err(e)),
        }
    }

    /// Counting the blank character in `ch`: a space is one column, a tab is
    /// `TAB` columns, a line feed is a line break that sets the columns back
    /// to 0.
    pub open spec fn count_blank(self) -> LexView {
        if self.ch == ' ' {
            LexView { spaces: self.spaces + 1, ..self }
        } else if self.ch == '\t' {
            LexView { spaces: self.spaces + TAB, ..self }
        } else {
            LexView { spaces: 0, cr: self.cr + 1, ..self }
        }
    }

    /// Reading on until `ch` is not blank.
    pub open spec fn skip_blanks(self) -> (LexView, Result<(), Fatal>)
        decreases self.remaining(),
    {
        if is_blank(self.ch) {
            let (l, r) = self.count_blank().advance();
            if r is Err {
                (l, r)
            } else if l.remaining() < self.remaining() {
                l.skip_blanks()
            } else {
                (l, r)
            }
        } else {
            (self, Ok(()))
        }
    }

    /// Reading a name whose next character is in `ch`; `name` holds the
    /// first `MAXNAME` at most of the `n` characters read before.  The result
    /// is the tokenizer behind the name, the name and its full length.
    pub open spec fn read_name(self, name: Seq<char>, n: int) -> (
        LexView,
        Seq<char>,
        int,
        Result<(), Fatal>,
    )
        decreases self.remaining(),
    {
        let name2 = if n < MAXNAME {
            name.push(self.ch)
        } else {
            name
        };
        let (l, r) = self.advance();
        if r is Err {
            (l, name2, n + 1, r)
        } else if (is_letter(l.ch) || is_digit(l.ch)) && l.remaining() < self.remaining() {
            l.read_name(name2, n + 1)
        } else {
            (l, name2, n + 1, r)
        }
    }

    /// Reading a number whose next digit is in `ch`; `num` is the value of
    /// the `n` digits read before.  The value is kept in 32 bits: what does
    /// not fit wraps around.
    pub open spec fn read_number(self, num: i32, n: int) -> (LexView, i32, int, Result<(), Fatal>)
        decreases self.remaining(),
    {
        let num2 = num.wrapping_mul(10).wrapping_add(digit_value(self.ch));
        let (l, r) = self.advance();
        if r is Err {
            (l, num2, n + 1, r)
        } else if is_digit(l.ch) && l.remaining() < self.remaining() {
            l.read_number(num2, n + 1)
        } else {
            (l, num2, n + 1, r)
        }
    }

    /// Handing out the token `t`.
    pub open spec fn deliver(self, t: TokenView) -> (LexView, Result<TokenView, Fatal>) {
        (LexView { c_token: t, ..self }, Ok(t))
    }

    /// The token that begins with the letter in `ch`: a reserved word or a
    /// name.  A name of more than `MAXNAME` characters is an error, and only
    /// its first `MAXNAME` characters count.
    pub open spec fn scan_name(self) -> (LexView, Result<TokenView, Fatal>) {
        let (l, name, n, r) = self.read_name(Seq::<char>::empty(), 0);
        if r is Err {
            (l, Err(r->Err_0))
        } else {
            let (l2, r2) = if n > MAXNAME {
                l.error(Message::TooLong)
            } else {
                (l, Ok(()))
            };
            if r2 is Err {
                (l2, Err(r2->Err_0))
            } else {
                l2.deliver(
                    match reserved(name) {
                        Some(k) => plain(k),
                        None => TokenView { kind: KeyId::Id, u: ContentView::Id(name) },
                    },
                )
            }
        }
    }

    /// The number that begins with the digit in `ch`.  More than `MAXNUM`
    /// digits are an error; the token is handed out all the same.
    pub open spec fn scan_number(self) -> (LexView, Result<TokenView, Fatal>) {
        let (l, num, n, r) = self.read_number(0, 0);
        if r is Err {
            (l, Err(r->Err_0))
        } else {
            let (l2, r2) = if n > MAXNUM {
                l.error(Message::TooLarge)
            } else {
                (l, Ok(()))
            };
            if r2 is Err {
                (l2, Err(r2->Err_0))
            } else {
                l2.deliver(TokenView { kind: KeyId::Num, u: ContentView::Value(num) })
            }
        }
    }

    /// The token of kind `k` that ends with the character in `ch`.
    pub open spec fn scan_one(self, k: KeyId) -> (LexView, Result<TokenView, Fatal>) {
        let (l, r) = self.advance();
        if r is Err {
            (l, Err(r->Err_0))
        } else {
            l.deliver(plain(k))
        }
    }

    /// The token that begins with the character in `ch` and has the kind
    /// `long` when `second` follows, else the kind `short`.
    pub open spec fn scan_pair(self, second: char, long: KeyId, short: KeyId) -> (
        LexView,
        Result<TokenView, Fatal>,
    ) {
        let (l, r) = self.advance();
        if r is Err {
            (l, Err(r->Err_0))
        } else if l.ch == second {
            l.scan_one(long)
        } else {
            l.deliver(plain(short))
        }
    }

    /// The token that begins with `<`: `<=`, `<>` or `<`.
    pub open spec fn scan_less(self) -> (LexView, Result<TokenView, Fatal>) {
        let (l, r) = self.advance();
        if r is Err {
            (l, Err(r->Err_0))
        } else if l.ch == '=' {
            l.scan_one(KeyId::LssEq)
        } else if l.ch == '>' {
            l.scan_one(KeyId::NotEq)
        } else {
            l.deliver(plain(KeyId::Lss))
        }
    }

    /// The token that begins with the character in `ch`, which is not blank.
    /// A period is handed out without reading on: nothing need follow it.
    pub open spec fn scan(self) -> (LexView, Result<TokenView, Fatal>) {
        match class_of(self.ch) {
            KeyId::Letter => self.scan_name(),
            KeyId::Digit => self.scan_number(),
            KeyId::Colon => self.scan_pair('=', KeyId::Assign, KeyId::Nul),
            KeyId::Lss => self.scan_less(),
            KeyId::Gtr => self.scan_pair('=', KeyId::GtrEq, KeyId::Gtr),
            KeyId::Period => self.deliver(plain(KeyId::Period)),
            k => self.scan_one(k),
        }
    }

    /// Reading the next token.
    #[verifier::opaque]
    pub open spec fn next_token(self) -> (LexView, Result<TokenView, Fatal>) {
        let (l, r) = (LexView { spaces: 0, cr: 0, ..self }).skip_blanks();
        if r is Err {
            (l, Err(r->Err_0))
        } else {
            l.scan()
        }
    }

    /// Stepping over the token `t`, which should be of kind `k`.  If it is,
    /// the next token is read.  If it is not, that is an error: where both
    /// are reserved words or both are symbols, `t` is taken for a misspelled
    /// `k` and the next token is read; else `k` is taken as missing, and `t`
    /// is kept.
    #[verifier::opaque]
    pub open spec fn check_get(self, t: TokenView, k: KeyId) -> (LexView, Result<TokenView, Fatal>) {
        if t.kind == k {
            self.next_token()
        } else if (k.key_word() && t.kind.key_word()) || (k.key_symbol() && t.kind.key_symbol()) {
            let (l, r) = self.error(
                Message::DeleteInsert { deleted: self.c_token.kind, inserted: k },
            );
            if r is Err {
                (l, Err(r->Err_0))
            } else {
                l.next_token()
            }
        } else {
            let (l, r) = self.error(Message::Insert(k));
            if r is Err {
                (l, Err(r->Err_0))
            } else {
                (l, Ok(t))
            }
        }
    }
}

/// The result of an operation that hands out a token agrees with its model.
pub open spec fn token_result(r: Result<Token, Fatal>, m: Result<TokenView, Fatal>) -> bool {
    match r {
        Ok(t) => m == Ok::<TokenView, Fatal>(t@),
        Err(e) => m == Err::<TokenView, Fatal>(e),
    }
}

impl Lexer {
    /// Is `program` short enough for a tokenizer?
    pub fn fits(program: &String) -> (b: bool)
        ensures
            b == (program@.len() <= MAXSOURCE),
    {
        program.as_str().unicode_len() <= MAXSOURCE
    }

    /// A tokenizer at the beginning of `program`.
    pub fn new(program: &String) -> (l: Lexer)
        requires
            program@.len() <= MAXSOURCE,
        ensures
            l@ == LexView::initial(program@),
            l@.wf(),
    {
        let mut src: Vec<char> = Vec::new();
        let text: &str = program.as_str();
        for c in it: text.chars()
            invariant
                src@ == it.seq().take(it.index() as int),
                it.seq() == text@,
        {
            src.push(c);
        }
        proof {
            assert(src@ =~= program@);
        }
        Lexer {
            src,
            pos: 0,
            started: false,
            line: 0,
            line_index: -1,
            ch: '\n',
            c_token: Token { kind: KeyId::Nul, u: TokenContent::Nothing },
            id_kind: KindT::VarId,
            spaces: 0,
            cr: 0,
            error_no: 0,
            diags: Vec::new(),
        }
    }

    /// Records the error `message` at the current place and counts it.  It
    /// fails when this was one error too many.
    pub fn error(&mut self, message: Message) -> (r: Result<(), Fatal>)
        requires
            old(self)@.wf(),
        ensures
            final(self)@ == old(self)@.error(message).0,
            r == old(self)@.error(message).1,
            r is Ok ==> final(self)@.wf(),
            r is Err <==> old(self)@.error_no == MAX_ERROR,
            r matches Err(e) ==> e != Fatal::Stalled,
    {
        self.diags.push(Diagnostic { line: self.line, column: self.line_index, message: message });
        self.error_no = self.error_no + 1;
        if self.error_no > MAX_ERROR {
            Err(Fatal::TooManyErrors)
        } else {
            Ok(())
        }
    }

    /// Records the note `message` at the current place.
    pub fn note(&mut self, message: Message)
        requires
            old(self)@.wf(),
        ensures
            final(self)@ == old(self)@.note(message),
            final(self)@.wf(),
    {
        self.diags.push(Diagnostic { line: self.line, column: self.line_index, message: message });
    }

    /// The number of errors so far.
    pub fn error_n(&self) -> (n: i32)
        ensures
            n == self@.error_no,
    {
        self.error_no
    }

    /// Does a line break lie at `pos`?
    fn at_break(&self) -> (b: bool)
        requires
            self@.wf(),
        ensures
            b == self@.at_break(),
    {
        self.pos < self.src.len() && (self.src[self.pos] == '\n' || (self.src[self.pos] == '\r'
            && self.pos + 1 < self.src.len() && self.src[self.pos + 1] == '\n'))
    }

    /// Reads one character.
    fn next_char(&mut self) -> (r: Result<char, Fatal>)
        requires
            old(self)@.wf(),
        ensures
            final(self)@ == old(self)@.next_char().0,
            r == old(self)@.next_char().1,
            r is Ok ==> final(self)@.wf() && final(self)@.remaining() < old(self)@.remaining(),
            r is Ok
                ==> final(self)@.spaces == old(self)@.spaces && final(self)@.cr == old(self)@.cr,
            final(self)@.error_no >= old(self)@.error_no,
            r matches Err(e) ==> e != Fatal::Stalled,
    {
        let brk = self.at_break();
        if self.started && self.pos < self.src.len() && !brk {
            let c = self.src[self.pos];
            self.pos = self.pos + 1;
            self.line_index = self.line_index + 1;
            return Ok(c);
        }
        if !self.started {
            if self.src.len() > 0 {
                self.started = true;
                self.line = self.line + 1;
                self.line_index = -1;
                return Ok('\n');
            }
        } else if brk {
            let after: usize = if self.src[self.pos] == '\n' {
                self.pos + 1
            } else {
                self.pos + 2
            };
            if after < self.src.len() {
                self.pos = after;
                self.line = self.line + 1;
                self.line_index = -1;
                return Ok('\n');
            }
        }
        match self.error(Message::EndOfFile) {
            Ok(()) => Err(Fatal::EndOfFile),
            Err(e) => Err(Fatal::TooManyErrors),
        }
    }

    /// Reads one character into `ch`.
    fn advance(&mut self) -> (r: Result<(), Fatal>)
        requires
            old(self)@.wf(),
        ensures
            final(self)@ == old(self)@.advance().0,
            r == old(self)@.advance().1,
            r is Ok ==> final(self)@.wf() && final(self)@.remaining() < old(self)@.remaining(),
            r is Ok
                ==> final(self)@.spaces == old(self)@.spaces && final(self)@.cr == old(self)@.cr,
            final(self)@.error_no >= old(self)@.error_no,
            r matches Err(e) ==> e != Fatal::Stalled,
    {
        let c = self.next_char()?;
        self.ch = c;
        Ok(())
    }

    /// Reads on until `ch` is not blank.
    fn skip_blanks(&mut self) -> (r: Result<(), Fatal>)
        requires
            old(self)@.wf(),
            old(self)@.spaces == 0,
            old(self)@.cr == 0,
        ensures
            final(self)@ == old(self)@.skip_blanks().0,
            r == old(self)@.skip_blanks().1,
            r is Ok ==> final(self)@.wf() && final(self)@.remaining() <= old(self)@.remaining()
                && !is_blank(final(self)@.ch),
            final(self)@.error_no >= old(self)@.error_no,
            r matches Err(e) ==> e != Fatal::Stalled,
    {
        loop
            invariant_except_break
                self@.wf(),
                self@.error_no >= old(self)@.error_no,
                self@.skip_blanks() == old(self)@.skip_blanks(),
                self@.remaining() <= old(self)@.remaining(),
                self@.spaces <= 5 * (self@.src.len() + 1 - self@.remaining() + 1),
                self@.cr <= self@.src.len() + 1 - self@.remaining() + 1,
            ensures
                self@.wf(),
                self@.error_no >= old(self)@.error_no,
                self@ == old(self)@.skip_blanks().0,
                old(self)@.skip_blanks().1 == Ok::<(), Fatal>(()),
                self@.remaining() <= old(self)@.remaining(),
                !is_blank(self@.ch),
            decreases self@.remaining(),
        {
            if self.ch == ' ' {
                self.spaces = self.spaces + 1;
            } else if self.ch == '\t' {
                self.spaces = self.spaces + TAB;
            } else if self.ch == '\n' {
                self.spaces = 0;
                self.cr = self.cr + 1;
            } else {
                break ;
            }
            self.advance()?;
        }
        Ok(())
    }

    /// Reads the name that begins with the letter in `ch`.
    fn scan_name(&mut self) -> (r: Result<Token, Fatal>)
        requires
            old(self)@.wf(),
            is_letter(old(self)@.ch),
        ensures
            final(self)@ == old(self)@.scan_name().0,
            token_result(r, old(self)@.scan_name().1),
            r is Ok ==> final(self)@.wf() && final(self)@.remaining() < old(self)@.remaining(),
            r matches Ok(t) ==> t@.coherent(),
            final(self)@.error_no >= old(self)@.error_no,
            r matches Err(e) ==> e != Fatal::Stalled,
    {
        let mut name = String::new();
        let mut n: usize = 0;
        loop
            invariant_except_break
                self@.wf(),
                self@.error_no >= old(self)@.error_no,
                self@.read_name(name@, n as int) == old(self)@.read_name(Seq::<char>::empty(), 0),
                n == 0 ==> self@ == old(self)@,
                n > 0 ==> self@.remaining() < old(self)@.remaining(),
                n <= self@.src.len() + 1 - self@.remaining(),
                name@.len() <= n,
                name@.len() <= MAXNAME,
                is_letter(self@.ch) || is_digit(self@.ch),
                n == 0 ==> is_letter(self@.ch),
                n > 0 ==> is_name(name@),
            ensures
                self@.wf(),
                self@.error_no >= old(self)@.error_no,
                old(self)@.read_name(Seq::<char>::empty(), 0) == (
                    self@,
                    name@,
                    n as int,
                    Ok::<(), Fatal>(()),
                ),
                self@.remaining() < old(self)@.remaining(),
                name@.len() <= MAXNAME,
                is_name(name@),
                n <= MAXSOURCE + 1,
            decreases self@.remaining(),
        {
            if n < MAXNAME {
                name.push(self.ch);
            }
            n = n + 1;
            self.advance()?;
            let more = match char_class(self.ch) {
                KeyId::Letter | KeyId::Digit => true,
                _ => false,
            };
            if !more {
                break ;
            }
        }
        if n > MAXNAME {
            self.error(Message::TooLong)?;
        }
        let t = match key_word_of(&name) {
            Some(k) => Token { kind: k, u: TokenContent::Nothing },
            None => Token { kind: KeyId::Id, u: TokenContent::Id(name) },
        };
        self.c_token = t.clone();
        Ok(t)
    }

    /// Reads the number that begins with the digit in `ch`.
    fn scan_number(&mut self) -> (r: Result<Token, Fatal>)
        requires
            old(self)@.wf(),
            is_digit(old(self)@.ch),
        ensures
            final(self)@ == old(self)@.scan_number().0,
            token_result(r, old(self)@.scan_number().1),
            r is Ok ==> final(self)@.wf() && final(self)@.remaining() < old(self)@.remaining(),
            r matches Ok(t) ==> t@.coherent(),
            final(self)@.error_no >= old(self)@.error_no,
            r matches Err(e) ==> e != Fatal::Stalled,
    {
        let mut num: i32 = 0;
        let mut n: usize = 0;
        loop
            invariant_except_break
                self@.wf(),
                self@.error_no >= old(self)@.error_no,
                is_digit(self@.ch),
                self@.read_number(num, n as int) == old(self)@.read_number(0, 0),
                n == 0 ==> self@ == old(self)@,
                n > 0 ==> self@.remaining() < old(self)@.remaining(),
                n <= self@.src.len() + 1 - self@.remaining(),
            ensures
                self@.wf(),
                self@.error_no >= old(self)@.error_no,
                old(self)@.read_number(0, 0) == (self@, num, n as int, Ok::<(), Fatal>(())),
                self@.remaining() < old(self)@.remaining(),
                n <= MAXSOURCE + 1,
            decreases self@.remaining(),
        {
            let d: i32 = (self.ch as u32 - 48) as i32;
            num = num.wrapping_mul(10).wrapping_add(d);
            n = n + 1;
            self.advance()?;
            let more = match char_class(self.ch) {
                KeyId::Digit => true,
                _ => false,
            };
            if !more {
                break ;
            }
        }
        if n > MAXNUM {
            self.error(Message::TooLarge)?;
        }
        let t = Token { kind: KeyId::Num, u: TokenContent::Value(num) };
        self.c_token = t.clone();
        Ok(t)
    }

    /// Reads the one-character token of kind `k`, or the last character of a
    /// longer one.
    fn scan_one(&mut self, k: KeyId) -> (r: Result<Token, Fatal>)
        requires
            old(self)@.wf(),
        ensures
            final(self)@ == old(self)@.scan_one(k).0,
            token_result(r, old(self)@.scan_one(k).1),
            r is Ok ==> final(self)@.wf() && final(self)@.remaining() < old(self)@.remaining(),
            r matches Ok(t) ==> t@ == plain(t@.kind),
            final(self)@.error_no >= old(self)@.error_no,
            r matches Err(e) ==> e != Fatal::Stalled,
    {
        self.advance()?;
        self.c_token = Token { kind: k, u: TokenContent::Nothing };
        Ok(Token { kind: k, u: TokenContent::Nothing })
    }

    /// Reads the token that is of kind `long` if `second` follows the
    /// character in `ch`, and of kind `short` if not.
    fn scan_pair(&mut self, second: char, long: KeyId, short: KeyId) -> (r: Result<Token, Fatal>)
        requires
            old(self)@.wf(),
        ensures
            final(self)@ == old(self)@.scan_pair(second, long, short).0,
            token_result(r, old(self)@.scan_pair(second, long, short).1),
            r is Ok ==> final(self)@.wf() && final(self)@.remaining() < old(self)@.remaining(),
            r matches Ok(t) ==> t@ == plain(t@.kind),
            final(self)@.error_no >= old(self)@.error_no,
            r matches Err(e) ==> e != Fatal::Stalled,
    {
        self.advance()?;
        if self.ch == second {
            self.scan_one(long)
        } else {
            self.c_token = Token { kind: short, u: TokenContent::Nothing };
            Ok(Token { kind: short, u: TokenContent::Nothing })
        }
    }

    /// Reads the token that begins with `<`.
    fn scan_less(&mut self) -> (r: Result<Token, Fatal>)
        requires
            old(self)@.wf(),
        ensures
            final(self)@ == old(self)@.scan_less().0,
            token_result(r, old(self)@.scan_less().1),
            r is Ok ==> final(self)@.wf() && final(self)@.remaining() < old(self)@.remaining(),
            r matches Ok(t) ==> t@ == plain(t@.kind),
            final(self)@.error_no >= old(self)@.error_no,
            r matches Err(e) ==> e != Fatal::Stalled,
    {
        self.advance()?;
        if self.ch == '=' {
            self.scan_one(KeyId::LssEq)
        } else if self.ch == '>' {
            self.scan_one(KeyId::NotEq)
        } else {
            self.c_token = Token { kind: KeyId::Lss, u: TokenContent::Nothing };
            Ok(Token { kind: KeyId::Lss, u: TokenContent::Nothing })
        }
    }

    /// Reads the next token and returns it.  Blank space before it is
    /// skipped and counted.  Every token but a period takes at least one
    /// character of the text.  The token carries what goes with its kind; a
    /// name has `MAXNAME` characters at most.
    pub fn next_token(&mut self) -> (r: Result<Token, Fatal>)
        requires
            old(self)@.wf(),
        ensures
            final(self)@ == old(self)@.next_token().0,
            token_result(r, old(self)@.next_token().1),
            r is Ok ==> final(self)@.wf() && final(self)@.remaining() <= old(self)@.remaining(),
            r matches Ok(t) ==> t@ == final(self)@.c_token,
            r matches Ok(t)
                ==> t@.kind != KeyId::Period ==> final(self)@.remaining() < old(self)@.remaining(),
            r matches Ok(t) ==> t@.coherent(),
            final(self)@.error_no >= old(self)@.error_no,
            r matches Err(e) ==> e != Fatal::Stalled,
    {
        proof {
            reveal(LexView::next_token);
        }
        self.spaces = 0;
        self.cr = 0;
        self.skip_blanks()?;
        match char_class(self.ch) {
            KeyId::Letter => self.scan_name(),
            KeyId::Digit => self.scan_number(),
            KeyId::Colon => self.scan_pair('=', KeyId::Assign, KeyId::Nul),
            KeyId::Lss => self.scan_less(),
            KeyId::Gtr => self.scan_pair('=', KeyId::GtrEq, KeyId::Gtr),
            KeyId::Period => {
                self.c_token = Token { kind: KeyId::Period, u: TokenContent::Nothing };
                Ok(Token { kind: KeyId::Period, u: TokenContent::Nothing })
            },
            k => self.scan_one(k),
        }
    }

    /// Steps over `t`, which should be of kind `k`, and returns the token to
    /// go on with: the next token where `t` is of kind `k` or is taken for a
    /// misspelled `k`, and `t` itself where `k` is taken as missing.
    pub fn check_get(&mut self, t: Token, k: KeyId) -> (r: Result<Token, Fatal>)
        requires
            old(self)@.wf(),
        ensures
            final(self)@ == old(self)@.check_get(t@, k).0,
            token_result(r, old(self)@.check_get(t@, k).1),
            r is Ok ==> final(self)@.wf() && final(self)@.remaining() <= old(self)@.remaining(),
            r matches Ok(t2) ==> (t@.coherent() ==> t2@.coherent()),
            r matches Ok(t2) ==> (t2@ == t@ && final(self)@.remaining() == old(self)@.remaining())
                || (t2@.kind != KeyId::Period ==> final(self)@.remaining() < old(self)@.remaining()),
            final(self)@.error_no >= old(self)@.error_no,
            r matches Err(e) ==> e != Fatal::Stalled,
    {
        proof {
            reveal(LexView::check_get);
        }
        if t.kind == k {
            return self.next_token();
        }
        if (k.is_key_word() && t.kind.is_key_word()) || (k.is_key_symbol() && t.kind.is_key_symbol()) {
            self.error(Message::DeleteInsert { deleted: self.c_token.kind, inserted: k })?;
            return self.next_token();
        }
        self.error(Message::Insert(k))?;
        Ok(t)
    }

    /// Sets the kind of name that the current token stands for.
    pub fn set_id_kind(&mut self, k: KindT)
        ensures
            final(self)@ == (LexView { id_kind: k, ..old(self)@ }),
    {
        self.id_kind = k;
    }
}

/// The smaller of `a` and `b`.
pub open spec fn least(a: int, b: int) -> int {
    if a <= b {
        a
    } else {
        b
    }
}

/// Reading a name keeps its first `MAXNAME` characters: the spelling that
/// comes out has the length of the name, or `MAXNAME` if the name is longer.
pub proof fn lemma_name_is_cut(l: LexView, name: Seq<char>, n: int)
    requires
        name.len() == least(n, MAXNAME as int),
        0 <= n,
    ensures
        l.read_name(name, n).1.len() == least(l.read_name(name, n).2, MAXNAME as int),
        l.read_name(name, n).2 > n,
    decreases l.remaining(),
{
    let name2 = if n < MAXNAME {
        name.push(l.ch)
    } else {
        name
    };
    let (k, r) = l.advance();
    if r is Ok && (is_letter(k.ch) || is_digit(k.ch)) && k.remaining() < l.remaining() {
        lemma_name_is_cut(k, name2, n + 1);
    }
}

/// A name that is too long: a name of more than `MAXNAME` characters comes
/// out with `MAXNAME` characters, and an error is recorded for it; for a
/// shorter name nothing is recorded.
pub proof fn lemma_long_name(l: LexView)
    requires
        l.read_name(Seq::<char>::empty(), 0).3 is Ok,
    ensures
        l.read_name(Seq::<char>::empty(), 0).2 > MAXNAME ==> l.read_name(
            Seq::<char>::empty(),
            0,
        ).1.len() == MAXNAME && l.scan_name().0.diags == l.read_name(
            Seq::<char>::empty(),
            0,
        ).0.diags.push(
            Diagnostic {
                line: l.read_name(Seq::<char>::empty(), 0).0.line as usize,
                column: l.read_name(Seq::<char>::empty(), 0).0.line_index as i32,
                message: Message::TooLong,
            },
        ),
        l.read_name(Seq::<char>::empty(), 0).2 <= MAXNAME ==> l.scan_name().0.diags == l.read_name(
            Seq::<char>::empty(),
            0,
        ).0.diags,
{
    lemma_name_is_cut(l, Seq::<char>::empty(), 0);
}

/// A number that is too long: more than `MAXNUM` digits are an error, and
/// the number is handed out as a token all the same, unless this was one
/// error too many.
pub proof fn lemma_long_number(l: LexView)
    requires
        l.read_number(0, 0).3 is Ok,
        l.read_number(0, 0).2 > MAXNUM,
    ensures
        l.scan_number().0.error_no == l.read_number(0, 0).0.error_no + 1,
        l.scan_number().0.diags.last().message == Message::TooLarge,
        l.read_number(0, 0).0.error_no < MAX_ERROR ==> l.scan_number().1 == Ok::<TokenView, Fatal>(
            TokenView { kind: KeyId::Num, u: ContentView::Value(l.read_number(0, 0).1) },
        ),
{
}

impl KeyId {
    /// The name of the kind, as it stands in a message.
    pub open spec fn name_text(self) -> Seq<char> {
        match self {
            KeyId::Begin => "Begin"@,
            KeyId::End => "End"@,
            KeyId::If => "If"@,
            KeyId::Then => "Then"@,
            KeyId::While => "While"@,
            KeyId::Do => "Do"@,
            KeyId::Ret => "Ret"@,
            KeyId::Func => "Func"@,
            KeyId::Var => "Var"@,
            KeyId::Const => "Const"@,
            KeyId::Odd => "Odd"@,
            KeyId::Write => "Write"@,
            KeyId::WriteLn => "WriteLn"@,
            KeyId::EndOfKeyWords => "EndOfKeyWords"@,
            KeyId::Plus => "Plus"@,
            KeyId::Minus => "Minus"@,
            KeyId::Mult => "Mult"@,
            KeyId::Div => "Div"@,
            KeyId::Lparen => "Lparen"@,
            KeyId::Rparen => "Rparen"@,
            KeyId::Equal => "Equal"@,
            KeyId::Lss => "Lss"@,
            KeyId::Gtr => "Gtr"@,
            KeyId::NotEq => "NotEq"@,
            KeyId::LssEq => "LssEq"@,
            KeyId::GtrEq => "GtrEq"@,
            KeyId::Comma => "Comma"@,
            KeyId::Period => "Period"@,
            KeyId::Semicolon => "Semicolon"@,
            KeyId::Assign => "Assign"@,
            KeyId::EndOfKeySymbol => "EndOfKeySymbol"@,
            KeyId::Id => "Id"@,
            KeyId::Num => "Num"@,
            KeyId::Nul => "Nul"@,
            KeyId::EndOfToken => "EndOfToken"@,
            KeyId::Letter => "Letter"@,
            KeyId::Digit => "Digit"@,
            KeyId::Colon => "Colon"@,
            KeyId::Other => "Other"@,
        }
    }

    /// The name of the kind, as it stands in a message.
    pub fn name(&self) -> (s: &'static str)
        ensures
            s@ == self.name_text(),
    {
        match self {
            KeyId::Begin => "Begin",
            KeyId::End => "End",
            KeyId::If => "If",
            KeyId::Then => "Then",
            KeyId::While => "While",
            KeyId::Do => "Do",
            KeyId::Ret => "Ret",
            KeyId::Func => "Func",
            KeyId::Var => "Var",
            KeyId::Const => "Const",
            KeyId::Odd => "Odd",
            KeyId::Write => "Write",
            KeyId::WriteLn => "WriteLn",
            KeyId::EndOfKeyWords => "EndOfKeyWords",
            KeyId::Plus => "Plus",
            KeyId::Minus => "Minus",
            KeyId::Mult => "Mult",
            KeyId::Div => "Div",
            KeyId::Lparen => "Lparen",
            KeyId::Rparen => "Rparen",
            KeyId::Equal => "Equal",
            KeyId::Lss => "Lss",
            KeyId::Gtr => "Gtr",
            KeyId::NotEq => "NotEq",
            KeyId::LssEq => "LssEq",
            KeyId::GtrEq => "GtrEq",
            KeyId::Comma => "Comma",
            KeyId::Period => "Period",
            KeyId::Semicolon => "Semicolon",
            KeyId::Assign => "Assign",
            KeyId::EndOfKeySymbol => "EndOfKeySymbol",
            KeyId::Id => "Id",
            KeyId::Num => "Num",
            KeyId::Nul => "Nul",
            KeyId::EndOfToken => "EndOfToken",
            KeyId::Letter => "Letter",
            KeyId::Digit => "Digit",
            KeyId::Colon => "Colon",
            KeyId::Other => "Other",
        }
    }
}

/// `n` blanks; none where `n` is not positive.
pub open spec fn blanks(n: int) -> Seq<char> {
    Seq::new(
        if n > 0 {
            n as nat
        } else {
            0nat
        },
        |i: int| ' ',
    )
}

impl Message {
    /// The message is a note: it tells of a token that was skipped, and it
    /// is not counted as an error.
    pub open spec fn is_note(self) -> bool {
        self is Delete
    }

    /// The text of the message.
    pub open spec fn text(self) -> Seq<char> {
        match self {
            Message::EndOfFile => "end of file"@,
            Message::TooLong => "too long"@,
            Message::TooLarge => "too large"@,
            Message::Insert(k) => "insert "@ + k.name_text(),
            Message::DeleteInsert { deleted, inserted } => "delete "@ + deleted.name_text()
                + ", and insert "@ + inserted.name_text(),
            Message::Delete(k) => "delete "@ + k.name_text(),
            Message::Number => "number"@,
            Message::MissingIdentifier => "missing Identifier"@,
            Message::MissingFunctionName => "missing identifier"@,
            Message::TypeVarPar => "type error: var/par"@,
            Message::TypeRelOp => "type error: rel-op"@,
            Message::UnmatchedPar => "unmatched par"@,
            Message::MissingOperator(k) => "missing operator: "@ + k.name_text(),
            Message::Undeclared => "undeclared"@,
        }
    }

    /// The text of the message.
    pub fn describe(&self) -> (s: String)
        ensures
            s@ == self.text(),
    {
        match self {
            Message::EndOfFile => String::from_str("end of file"),
            Message::TooLong => String::from_str("too long"),
            Message::TooLarge => String::from_str("too large"),
            Message::Insert(k) => String::from_str("insert ").concat(k.name()),
            Message::DeleteInsert { deleted, inserted } => String::from_str("delete ").concat(
                deleted.name(),
            ).concat(", and insert ").concat(inserted.name()),
            Message::Delete(k) => String::from_str("delete ").concat(k.name()),
            Message::Number => String::from_str("number"),
            Message::MissingIdentifier => String::from_str("missing Identifier"),
            Message::MissingFunctionName => String::from_str("missing identifier"),
            Message::TypeVarPar => String::from_str("type error: var/par"),
            Message::TypeRelOp => String::from_str("type error: rel-op"),
            Message::UnmatchedPar => String::from_str("unmatched par"),
            Message::MissingOperator(k) => String::from_str("missing operator: ").concat(k.name()),
            Message::Undeclared => String::from_str("undeclared"),
        }
    }
}

impl Diagnostic {
    /// The line that points at the place of an error: `***^` with its caret
    /// in the column of the error, or `^` alone where the column is not
    /// positive.  There are no blanks before it where the column is smaller
    /// than the four characters are wide.
    pub open spec fn caret_text(self) -> Seq<char> {
        if self.column > 0 {
            blanks(self.column - 4) + "***^"@
        } else {
            "^"@
        }
    }

    /// The lines of a listing that show the diagnostic: a note is its text;
    /// an error is the caret line and the text behind `*** error *** `.
    pub open spec fn rendered(self) -> Seq<Seq<char>> {
        if self.message.is_note() {
            seq![self.message.text()]
        } else {
            seq![self.caret_text(), "*** error *** "@ + self.message.text()]
        }
    }

    /// The line that points at the place of an error.
    pub fn caret(&self) -> (s: String)
        ensures
            s@ == self.caret_text(),
    {
        if self.column > 0 {
            let mut s = String::new();
            let mut i: i32 = 4;
            while i < self.column
                invariant
                    4 <= i,
                    i <= self.column || i == 4,
                    s@ == blanks(i - 4),
                decreases self.column - i,
            {
                s.push(' ');
                i = i + 1;
                proof {
                    assert(s@ =~= blanks(i - 4));
                }
            }
            proof {
                assert(s@ =~= blanks(self.column - 4));
            }
            s.concat("***^")
        } else {
            String::from_str("^")
        }
    }

    /// The lines of a listing that show the diagnostic.
    pub fn render(&self) -> (lines: Vec<String>)
        ensures
            lines@.len() == self.rendered().len(),
            forall|i: int| 0 <= i < lines@.len() ==> (#[trigger] lines@[i])@ == self.rendered()[i],
    {
        let mut lines: Vec<String> = Vec::new();
        match self.message {
            Message::Delete(_) => {
                lines.push(self.message.describe());
            },
            _ => {
                lines.push(self.caret());
                lines.push(String::from_str("*** error *** ").concat(self.message.describe().as_str()));
            },
        }
        lines
    }
}

} // verus!
