use vstd::prelude::*;
use crate::errors::{Diag, ErrorKind};
use crate::types::ValV;

verus! {

/// One lexical token. Literal values are carried as runtime values;
/// a float literal is already its bit pattern.
#[derive(Debug, Clone, PartialEq)]
pub enum Token {
    Ident(String),
    NumberValue(i64),
    FloatValue(u64),
    StringValue(String),
    BooleanValue(bool),

    Call,
    As,
    While,
    EndWhile,
    Var,
    Const,
    If,
    Else,
    EndIf,
    Echo,
    Exit,
    Delete,
    Proc,
    End,
    For,
    From,
    To,
    Step,
    EndFor,

    Number,
    Float,
    String,
    Bool,

    Plus,
    Minus,
    Multiply,
    Divide,
    Mod,
    Assign,
    PlusAssign,
    MinusAssign,
    MultiplyAssign,
    DivideAssign,
    ModAssign,

    Equal,
    NotEqual,
    Greater,
    Less,
    GreaterEqual,
    LessEqual,
    And,
    Or,
    Not,

    OpenParen,
    CloseParen,
    OpenBracket,
    CloseBracket,
    OpenBrace,
    CloseBrace,
    Comma,
    Colon,
}

/// The mathematical shadow of a token.
pub enum TokenV {
    Ident(Seq<char>),
    NumberValue(i64),
    FloatValue(u64),
    StringValue(Seq<char>),
    BooleanValue(bool),

    Call,
    As,
    While,
    EndWhile,
    Var,
    Const,
    If,
    Else,
    EndIf,
    Echo,
    Exit,
    Delete,
    Proc,
    End,
    For,
    From,
    To,
    Step,
    EndFor,

    Number,
    Float,
    String,
    Bool,

    Plus,
    Minus,
    Multiply,
    Divide,
    Mod,
    Assign,
    PlusAssign,
    MinusAssign,
    MultiplyAssign,
    DivideAssign,
    ModAssign,

    Equal,
    NotEqual,
    Greater,
    Less,
    GreaterEqual,
    LessEqual,
    And,
    Or,
    Not,

    OpenParen,
    CloseParen,
    OpenBracket,
    CloseBracket,
    OpenBrace,
    CloseBrace,
    Comma,
    Colon,
}

impl View for Token {
    type V = TokenV;

    open spec fn view(&self) -> TokenV {
        match self {
            Token::Ident(s) => TokenV::Ident(s@),
            Token::NumberValue(v) => TokenV::NumberValue(*v),
            Token::FloatValue(v) => TokenV::FloatValue(*v),
            Token::StringValue(s) => TokenV::StringValue(s@),
            Token::BooleanValue(b) => TokenV::BooleanValue(*b),
            Token::Call => TokenV::Call,
            Token::As => TokenV::As,
            Token::While => TokenV::While,
            Token::EndWhile => TokenV::EndWhile,
            Token::Var => TokenV::Var,
            Token::Const => TokenV::Const,
            Token::If => TokenV::If,
            Token::Else => TokenV::Else,
            Token::EndIf => TokenV::EndIf,
            Token::Echo => TokenV::Echo,
            Token::Exit => TokenV::Exit,
            Token::Delete => TokenV::Delete,
            Token::Proc => TokenV::Proc,
            Token::End => TokenV::End,
            Token::For => TokenV::For,
            Token::From => TokenV::From,
            Token::To => TokenV::To,
            Token::Step => TokenV::Step,
            Token::EndFor => TokenV::EndFor,
            Token::Number => TokenV::Number,
            Token::Float => TokenV::Float,
            Token::String => TokenV::String,
            Token::Bool => TokenV::Bool,
            Token::Plus => TokenV::Plus,
            Token::Minus => TokenV::Minus,
            Token::Multiply => TokenV::Multiply,
            Token::Divide => TokenV::Divide,
            Token::Mod => TokenV::Mod,
            Token::Assign => TokenV::Assign,
            Token::PlusAssign => TokenV::PlusAssign,
            Token::MinusAssign => TokenV::MinusAssign,
            Token::MultiplyAssign => TokenV::MultiplyAssign,
            Token::DivideAssign => TokenV::DivideAssign,
            Token::ModAssign => TokenV::ModAssign,
            Token::Equal => TokenV::Equal,
            Token::NotEqual => TokenV::NotEqual,
            Token::Greater => TokenV::Greater,
            Token::Less => TokenV::Less,
            Token::GreaterEqual => TokenV::GreaterEqual,
            Token::LessEqual => TokenV::LessEqual,
            Token::And => TokenV::And,
            Token::Or => TokenV::Or,
            Token::Not => TokenV::Not,
            Token::OpenParen => TokenV::OpenParen,
            Token::CloseParen => TokenV::CloseParen,
            Token::OpenBracket => TokenV::OpenBracket,
            Token::CloseBracket => TokenV::CloseBracket,
            Token::OpenBrace => TokenV::OpenBrace,
            Token::CloseBrace => TokenV::CloseBrace,
            Token::Comma => TokenV::Comma,
            Token::Colon => TokenV::Colon,
        }
    }
}

impl DeepView for Token {
    type V = TokenV;

    open spec fn deep_view(&self) -> TokenV {
        self@
    }
}


// ---------------------------------------------------------------------
// The scanner: one logical line in, one token run out.

/// Identifiers are ASCII letters, digits and underscores (brackets
/// are carried along for the vestigial index syntax).
pub open spec fn spec_is_alpha(c: char) -> bool {
    (97 <= c as int && c as int <= 122) || (65 <= c as int && c as int <= 90) || c == '_'
}

pub open spec fn spec_is_identch(c: char) -> bool {
    spec_is_alpha(c) || crate::numtext::spec_is_digit(c) || c == '[' || c == ']'
}

pub open spec fn spec_is_numch(c: char) -> bool {
    crate::numtext::spec_is_digit(c) || c == '.'
}

/// The first index from `j` that is not part of the numeric literal.
pub open spec fn scan_num_end(s: Seq<char>, j: int) -> int
    decreases s.len() - j,
{
    if 0 <= j < s.len() && spec_is_numch(s[j]) {
        scan_num_end(s, j + 1)
    } else {
        j
    }
}

/// The first index from `j` that is not part of the identifier.
pub open spec fn scan_ident_end(s: Seq<char>, j: int) -> int
    decreases s.len() - j,
{
    if 0 <= j < s.len() && spec_is_identch(s[j]) {
        scan_ident_end(s, j + 1)
    } else {
        j
    }
}

/// The index of the closing quote: the first unescaped `"` at or
/// after `j`, or the length when the string never closes.
pub open spec fn scan_str_end(s: Seq<char>, j: int) -> int
    decreases s.len() - j,
{
    if j < 1 || j >= s.len() {
        s.len() as int
    } else if s[j] == '"' && s[j - 1] != '\\' {
        j
    } else {
        scan_str_end(s, j + 1)
    }
}

/// The token of one word: a reserved word, a boolean literal, or an
/// identifier.
pub open spec fn spec_keyword(w: Seq<char>) -> TokenV {
    if w == "true"@ { TokenV::BooleanValue(true) }
    else if w == "false"@ { TokenV::BooleanValue(false) }
    else if w == "call"@ { TokenV::Call }
    else if w == "as"@ { TokenV::As }
    else if w == "var"@ { TokenV::Var }
    else if w == "const"@ { TokenV::Const }
    else if w == "if"@ { TokenV::If }
    else if w == "else"@ { TokenV::Else }
    else if w == "endif"@ { TokenV::EndIf }
    else if w == "endwhile"@ { TokenV::EndWhile }
    else if w == "echo"@ { TokenV::Echo }
    else if w == "exit"@ { TokenV::Exit }
    else if w == "delete"@ { TokenV::Delete }
    else if w == "proc"@ { TokenV::Proc }
    else if w == "end"@ { TokenV::End }
    else if w == "while"@ { TokenV::While }
    else if w == "not"@ { TokenV::Not }
    else if w == "and"@ { TokenV::And }
    else if w == "or"@ { TokenV::Or }
    else if w == "for"@ { TokenV::For }
    else if w == "from"@ { TokenV::From }
    else if w == "to"@ { TokenV::To }
    else if w == "step"@ { TokenV::Step }
    else if w == "endfor"@ { TokenV::EndFor }
    else if w == "number"@ { TokenV::Number }
    else if w == "float"@ { TokenV::Float }
    else if w == "string"@ { TokenV::String }
    else if w == "bool"@ { TokenV::Bool }
    else { TokenV::Ident(w) }
}

/// The token of a numeric run: an integer if it reads as one, else a
/// float if it reads as one, else the bare text.
pub open spec fn spec_num_token(w: Seq<char>) -> TokenV {
    match crate::numtext::spec_parse_i64(w) {
        Some(n) => TokenV::NumberValue(n),
        None => match crate::float::float_parse(w) {
            Some(b) => TokenV::FloatValue(b),
            None => TokenV::StringValue(w),
        },
    }
}

/// The whole scan of one line, from position `i`.
pub open spec fn lex_from(s: Seq<char>, i: int) -> Result<Seq<TokenV>, ErrorKind>
    decreases s.len() - i, 0int,
{
    if i < 0 || i >= s.len() {
        Ok(Seq::empty())
    } else {
        let c = s[i];
        if c == ' ' || c == '\t' {
            lex_from(s, i + 1)
        } else if c == '(' { lex_cons(TokenV::OpenParen, s, i + 1) }
        else if c == ')' { lex_cons(TokenV::CloseParen, s, i + 1) }
        else if c == '[' { lex_cons(TokenV::OpenBracket, s, i + 1) }
        else if c == ']' { lex_cons(TokenV::CloseBracket, s, i + 1) }
        else if c == '{' { lex_cons(TokenV::OpenBrace, s, i + 1) }
        else if c == '}' { lex_cons(TokenV::CloseBrace, s, i + 1) }
        else if c == ',' { lex_cons(TokenV::Comma, s, i + 1) }
        else if c == ':' { lex_cons(TokenV::Colon, s, i + 1) }
        else if c == '+' || c == '-' || c == '*' || c == '/' || c == '%' || c == '='
            || c == '>' || c == '<' {
            let eq = i + 1 < s.len() && s[i + 1] == '=';
            let tok = (if c == '+' { if eq { TokenV::PlusAssign } else { TokenV::Plus } }
                else if c == '-' { if eq { TokenV::MinusAssign } else { TokenV::Minus } }
                else if c == '*' { if eq { TokenV::MultiplyAssign } else { TokenV::Multiply } }
                else if c == '/' { if eq { TokenV::DivideAssign } else { TokenV::Divide } }
                else if c == '%' { if eq { TokenV::ModAssign } else { TokenV::Mod } }
                else if c == '=' { if eq { TokenV::Equal } else { TokenV::Assign } }
                else if c == '>' { if eq { TokenV::GreaterEqual } else { TokenV::Greater } }
                else { if eq { TokenV::LessEqual } else { TokenV::Less } });
            lex_cons(tok, s, if eq { i + 2 } else { i + 1 })
        } else if c == '!' {
            if i + 1 < s.len() && s[i + 1] == '=' {
                lex_cons(TokenV::NotEqual, s, i + 2)
            } else {
                Err(ErrorKind::InvalidExpression)
            }
        } else if c == '"' {
            let j0 = scan_str_end(s, i + 1);
            if j0 >= s.len() {
                Err(ErrorKind::UnclosedString)
            } else {
                let j = if i + 1 <= j0 < s.len() { j0 } else { i + 1 };
                lex_cons(TokenV::StringValue(s.subrange(i + 1, j)), s, j + 1)
            }
        } else if crate::numtext::spec_is_digit(c) {
            let j0 = scan_num_end(s, i);
            let j2 = if i < j0 <= s.len() { j0 } else { i + 1 };
            lex_cons(spec_num_token(s.subrange(i, j2)), s, j2)
        } else if spec_is_alpha(c) {
            let j0 = scan_ident_end(s, i);
            let j2 = if i < j0 <= s.len() { j0 } else { i + 1 };
            lex_cons(spec_keyword(s.subrange(i, j2)), s, j2)
        } else {
            Err(ErrorKind::InvalidExpression)
        }
    }
}

/// One token followed by the rest of the scan.
pub open spec fn lex_cons(t: TokenV, s: Seq<char>, j: int) -> Result<Seq<TokenV>, ErrorKind>
    decreases s.len() - j, 1int,
{
    if j <= 0 {
        Err(ErrorKind::InvalidExpression)
    } else {
        match lex_from(s, j) {
            Ok(rest) => Ok(seq![t] + rest),
            Err(k) => Err(k),
        }
    }
}

/// The token grid of the whole preprocessed file.
pub open spec fn spec_lex_lines(lines: Seq<Seq<char>>) -> Result<Seq<Seq<TokenV>>, Diag>
    decreases lines.len(),
{
    if lines.len() == 0 {
        Ok(Seq::empty())
    } else {
        match spec_lex_lines(lines.drop_last()) {
            Ok(grid) => match lex_from(lines.last(), 0) {
                Ok(toks) => Ok(grid.push(toks)),
                Err(k) => Err(Diag { line: (lines.len() - 1) as usize, kind: k }),
            },
            Err(d) => Err(d),
        }
    }
}


// ---------------------------------------------------------------------
// The scanner itself, proved to emit exactly the tokens above.

pub open spec fn toks_dv(s: Seq<Token>) -> Seq<TokenV> {
    Seq::new(s.len(), |i: int| s[i]@)
}

pub open spec fn grid_dv(g: Seq<Vec<Token>>) -> Seq<Seq<TokenV>> {
    Seq::new(g.len(), |i: int| toks_dv(g[i]@))
}

pub proof fn lemma_toks_dv_push(s: Seq<Token>, t: Token)
    ensures
        toks_dv(s.push(t)) == toks_dv(s).push(t@),
{
    assert(toks_dv(s.push(t)) =~= toks_dv(s).push(t@));
}

proof fn lemma_grid_dv_push(g: Seq<Vec<Token>>, v: Vec<Token>)
    ensures
        grid_dv(g.push(v)) == grid_dv(g).push(toks_dv(v@)),
{
    assert(grid_dv(g.push(v)) =~= grid_dv(g).push(toks_dv(v@)));
}

fn keyword_exec(w: String) -> (t: Token)
    ensures
        t@ == spec_keyword(w@),
{
    if crate::textops::str_eq(w.as_str(), "true") { Token::BooleanValue(true) }
    else if crate::textops::str_eq(w.as_str(), "false") { Token::BooleanValue(false) }
    else if crate::textops::str_eq(w.as_str(), "call") { Token::Call }
    else if crate::textops::str_eq(w.as_str(), "as") { Token::As }
    else if crate::textops::str_eq(w.as_str(), "var") { Token::Var }
    else if crate::textops::str_eq(w.as_str(), "const") { Token::Const }
    else if crate::textops::str_eq(w.as_str(), "if") { Token::If }
    else if crate::textops::str_eq(w.as_str(), "else") { Token::Else }
    else if crate::textops::str_eq(w.as_str(), "endif") { Token::EndIf }
    else if crate::textops::str_eq(w.as_str(), "endwhile") { Token::EndWhile }
    else if crate::textops::str_eq(w.as_str(), "echo") { Token::Echo }
    else if crate::textops::str_eq(w.as_str(), "exit") { Token::Exit }
    else if crate::textops::str_eq(w.as_str(), "delete") { Token::Delete }
    else if crate::textops::str_eq(w.as_str(), "proc") { Token::Proc }
    else if crate::textops::str_eq(w.as_str(), "end") { Token::End }
    else if crate::textops::str_eq(w.as_str(), "while") { Token::While }
    else if crate::textops::str_eq(w.as_str(), "not") { Token::Not }
    else if crate::textops::str_eq(w.as_str(), "and") { Token::And }
    else if crate::textops::str_eq(w.as_str(), "or") { Token::Or }
    else if crate::textops::str_eq(w.as_str(), "for") { Token::For }
    else if crate::textops::str_eq(w.as_str(), "from") { Token::From }
    else if crate::textops::str_eq(w.as_str(), "to") { Token::To }
    else if crate::textops::str_eq(w.as_str(), "step") { Token::Step }
    else if crate::textops::str_eq(w.as_str(), "endfor") { Token::EndFor }
    else if crate::textops::str_eq(w.as_str(), "number") { Token::Number }
    else if crate::textops::str_eq(w.as_str(), "float") { Token::Float }
    else if crate::textops::str_eq(w.as_str(), "string") { Token::String }
    else if crate::textops::str_eq(w.as_str(), "bool") { Token::Bool }
    else { Token::Ident(w) }
}

fn exec_is_numch(c: char) -> (r: bool)
    ensures
        r == spec_is_numch(c),
{
    let n = c as u32;
    (48 <= n && n <= 57) || c == '.'
}

fn exec_is_alpha(c: char) -> (r: bool)
    ensures
        r == spec_is_alpha(c),
{
    let n = c as u32;
    (97 <= n && n <= 122) || (65 <= n && n <= 90) || c == '_'
}

fn exec_is_identch(c: char) -> (r: bool)
    ensures
        r == spec_is_identch(c),
{
    let n = c as u32;
    exec_is_alpha(c) || (48 <= n && n <= 57) || c == '[' || c == ']'
}

/// The run of characters `from..to` of the line, as a vector.
fn slice_chars(cs: &Vec<char>, from: usize, to: usize) -> (r: Vec<char>)
    requires
        from <= to <= cs@.len(),
    ensures
        r@ == cs@.subrange(from as int, to as int),
{
    let mut out: Vec<char> = Vec::new();
    let mut k: usize = from;
    while k < to
        invariant
            from <= k <= to <= cs@.len(),
            out@ == cs@.subrange(from as int, k as int),
        decreases to - k,
    {
        out.push(cs[k]);
        k = k + 1;
        proof {
            assert(out@ =~= cs@.subrange(from as int, k as int));
        }
    }
    out
}

/// Scans one preprocessed line into its tokens.
#[verifier::rlimit(100)]
pub fn tokenize_line(cs: &Vec<char>) -> (r: Result<Vec<Token>, ErrorKind>)
    ensures
        r is Ok ==> lex_from(cs@, 0) == Ok::<Seq<TokenV>, ErrorKind>(toks_dv(r->Ok_0@)),
        r is Err ==> lex_from(cs@, 0) == Err::<Seq<TokenV>, ErrorKind>(r->Err_0),
{
    let len = cs.len();
    let mut out: Vec<Token> = Vec::new();
    let mut i: usize = 0;
    proof {
        match lex_from(cs@, 0) {
            Ok(rest) => {
                assert(toks_dv(out@) + rest =~= rest);
            },
            Err(_) => {},
        }
    }
    while i < len
        invariant
            i <= len == cs@.len(),
            (match lex_from(cs@, i as int) {
                Ok(rest) => lex_from(cs@, 0) == Ok::<Seq<TokenV>, ErrorKind>(
                    toks_dv(out@) + rest,
                ),
                Err(k) => lex_from(cs@, 0) == Err::<Seq<TokenV>, ErrorKind>(k),
            }),
        decreases len - i,
    {
        let c = cs[i];
        let ghost outpre = out@;
        if c == ' ' || c == '\t' {
            i = i + 1;
            continue;
        }
        // Single- and double-character punctuators.
        let single: Option<Token> = match c {
            '(' => Some(Token::OpenParen),
            ')' => Some(Token::CloseParen),
            '[' => Some(Token::OpenBracket),
            ']' => Some(Token::CloseBracket),
            '{' => Some(Token::OpenBrace),
            '}' => Some(Token::CloseBrace),
            ',' => Some(Token::Comma),
            ':' => Some(Token::Colon),
            _ => None,
        };
        match single {
            Some(t) => {
                proof {
                    lemma_toks_dv_push(outpre, t);
                    push_step(toks_dv(outpre), t@, cs@, i as int, i + 1);
                }
                out.push(t);
                i = i + 1;
                continue;
            },
            None => {},
        }
        if c == '+' || c == '-' || c == '*' || c == '/' || c == '%' || c == '=' || c == '>'
            || c == '<' {
            let eq = i + 1 < len && cs[i + 1] == '=';
            let t = (if c == '+' { if eq { Token::PlusAssign } else { Token::Plus } }
                else if c == '-' { if eq { Token::MinusAssign } else { Token::Minus } }
                else if c == '*' { if eq { Token::MultiplyAssign } else { Token::Multiply } }
                else if c == '/' { if eq { Token::DivideAssign } else { Token::Divide } }
                else if c == '%' { if eq { Token::ModAssign } else { Token::Mod } }
                else if c == '=' { if eq { Token::Equal } else { Token::Assign } }
                else if c == '>' { if eq { Token::GreaterEqual } else { Token::Greater } }
                else { if eq { Token::LessEqual } else { Token::Less } });
            let next = if eq { i + 2 } else { i + 1 };
            proof {
                lemma_toks_dv_push(outpre, t);
                push_step(toks_dv(outpre), t@, cs@, i as int, next as int);
            }
            out.push(t);
            i = next;
            continue;
        }
        if c == '!' {
            if i + 1 < len && cs[i + 1] == '=' {
                proof {
                    lemma_toks_dv_push(outpre, Token::NotEqual);
                    push_step(toks_dv(outpre), TokenV::NotEqual, cs@, i as int, i + 2);
                }
                out.push(Token::NotEqual);
                i = i + 2;
                continue;
            } else {
                return Err(ErrorKind::InvalidExpression);
            }
        }
        if c == '"' {
            let mut k: usize = i + 1;
            while k < len && !(cs[k] == '"' && cs[k - 1] != '\\')
                invariant
                    i + 1 <= k <= len == cs@.len(),
                    scan_str_end(cs@, i + 1) == scan_str_end(cs@, k as int),
                decreases len - k,
            {
                k = k + 1;
            }
            if k >= len {
                proof {
                    assert(scan_str_end(cs@, k as int) == cs@.len());
                }
                return Err(ErrorKind::UnclosedString);
            }
            proof {
                assert(scan_str_end(cs@, k as int) == k as int);
            }
            let content = slice_chars(cs, i + 1, k);
            let t = Token::StringValue(crate::textops::string_from_chars(&content));
            proof {
                lemma_toks_dv_push(outpre, t);
                push_step(toks_dv(outpre), t@, cs@, i as int, k + 1);
            }
            out.push(t);
            i = k + 1;
            continue;
        }
        if crate::numtext::exec_is_digit_pub(c) {
            let mut k: usize = i;
            while k < len && exec_is_numch(cs[k])
                invariant
                    i <= k <= len == cs@.len(),
                    scan_num_end(cs@, i as int) == scan_num_end(cs@, k as int),
                decreases len - k,
            {
                k = k + 1;
            }
            proof {
                assert(scan_num_end(cs@, k as int) == k as int);
            }
            let word = slice_chars(cs, i, k);
            let t = (match crate::numtext::parse_i64(&word) {
                Some(n) => Token::NumberValue(n),
                None => {
                    let text = crate::textops::string_from_chars(&word);
                    match crate::float::apf_parse(text.as_str()) {
                        Some(b) => Token::FloatValue(b),
                        None => Token::StringValue(text),
                    }
                },
            });
            proof {
                lemma_toks_dv_push(outpre, t);
                push_step(toks_dv(outpre), t@, cs@, i as int, k as int);
            }
            out.push(t);
            i = k;
            continue;
        }
        if exec_is_alpha(c) {
            let mut k: usize = i;
            while k < len && exec_is_identch(cs[k])
                invariant
                    i <= k <= len == cs@.len(),
                    scan_ident_end(cs@, i as int) == scan_ident_end(cs@, k as int),
                decreases len - k,
            {
                k = k + 1;
            }
            proof {
                assert(scan_ident_end(cs@, k as int) == k as int);
            }
            let word = slice_chars(cs, i, k);
            let t = keyword_exec(crate::textops::string_from_chars(&word));
            proof {
                lemma_toks_dv_push(outpre, t);
                push_step(toks_dv(outpre), t@, cs@, i as int, k as int);
            }
            out.push(t);
            i = k;
            continue;
        }
        return Err(ErrorKind::InvalidExpression);
    }
    proof {
        assert(toks_dv(out@) + Seq::<TokenV>::empty() =~= toks_dv(out@));
    }
    Ok(out)
}

/// The shape of every token step: consuming up to `j` turns the
/// pending scan from position `i` into the emitted token plus the
/// scan from `j`.
proof fn push_step(acc: Seq<TokenV>, t: TokenV, s: Seq<char>, i: int, j: int)
    requires
        lex_from(s, i) == lex_cons(t, s, j),
        0 <= i,
        i < j,
    ensures
        (match lex_from(s, j) {
            Ok(rest) => (match lex_from(s, i) {
                Ok(all) => acc + all == (acc.push(t)) + rest,
                Err(_) => false,
            }),
            Err(k) => lex_from(s, i) == Err::<Seq<TokenV>, ErrorKind>(k),
        }),
{
    match lex_from(s, j) {
        Ok(rest) => {
            assert(lex_from(s, i) == Ok::<Seq<TokenV>, ErrorKind>(seq![t] + rest));
            assert(acc + (seq![t] + rest) =~= (acc.push(t)) + rest);
        },
        Err(_) => {},
    }
}

/// Scans the whole preprocessed file into the token grid.
pub fn tokenize_file(handler: &crate::file_handler::FileHandler) -> (r: Result<
    Vec<Vec<Token>>,
    Diag,
>)
    ensures
        (match r {
            Ok(g) => spec_lex_lines(handler.ready_view()) == Ok::<Seq<Seq<TokenV>>, Diag>(
                grid_dv(g@),
            ),
            Err(d) => spec_lex_lines(handler.ready_view()) == Err::<Seq<Seq<TokenV>>, Diag>(d),
        }),
{
    let mut grid: Vec<Vec<Token>> = Vec::new();
    let mut i: usize = 0;
    proof {
        assert(handler.ready_view().subrange(0, 0) =~= Seq::<Seq<char>>::empty());
        assert(grid_dv(grid@) =~= Seq::<Seq<TokenV>>::empty());
    }
    while i < handler.ready_file.len()
        invariant
            i <= handler.ready_file@.len(),
            spec_lex_lines(handler.ready_view().subrange(0, i as int)) == Ok::<
                Seq<Seq<TokenV>>,
                Diag,
            >(grid_dv(grid@)),
        decreases handler.ready_file@.len() - i,
    {
        let ghost done = handler.ready_view().subrange(0, i as int);
        proof {
            assert(handler.ready_view().subrange(0, i + 1).drop_last() =~= done);
            assert(handler.ready_view().subrange(0, i + 1).last()
                == handler.ready_view()[i as int]);
        }
        let cs = crate::textops::chars_of_str(handler.ready_file[i].as_str());
        match tokenize_line(&cs) {
            Ok(toks) => {
                proof {
                    lemma_grid_dv_push(grid@, toks);
                }
                grid.push(toks);
            },
            Err(k) => {
                proof {
                    lemma_lex_lines_prefix_err(handler.ready_view(), i + 1);
                }
                return Err(Diag { line: i, kind: k });
            },
        }
        i = i + 1;
    }
    proof {
        assert(handler.ready_view().subrange(0, handler.ready_view().len() as int)
            =~= handler.ready_view());
    }
    Ok(grid)
}

proof fn lemma_lex_lines_prefix_err(lines: Seq<Seq<char>>, j: int)
    requires
        0 <= j <= lines.len(),
        spec_lex_lines(lines.subrange(0, j)) is Err,
    ensures
        spec_lex_lines(lines) == spec_lex_lines(lines.subrange(0, j)),
    decreases lines.len() - j,
{
    if j == lines.len() {
        assert(lines.subrange(0, j) =~= lines);
    } else {
        assert(lines.subrange(0, j + 1).drop_last() =~= lines.subrange(0, j));
        lemma_lex_lines_prefix_err(lines, j + 1);
    }
}

} // verus!
