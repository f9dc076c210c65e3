use vstd::prelude::*;
use crate::arg_matcher::ArgMatcher;
use crate::arg_matcher::ArgMatcherView;
use crate::arg_matcher::matchers_view;
use crate::error::Error;
use crate::error::ErrorView;
use crate::exec_call::strings_view;
use crate::policy::Policy;
use crate::policy::ProgramPolicy;
use crate::policy::ProgramPolicyView;
use crate::policy::program_policies_view;

verus! {

// ---------------------------------------------------------------------------
// Tokens
// ---------------------------------------------------------------------------

/// One lexical token of the policy source.
#[derive(Debug, PartialEq, Eq)]
pub enum TokenKind {
    /// A bare identifier: a keyword or a symbolic matcher name.
    Ident(String),
    /// A double-quoted string, with the quotes stripped.
    StrLit(String),
    LParen,
    RParen,
    LBracket,
    RBracket,
    Comma,
    Equals,
}

/// Mathematical value of a `TokenKind`.
pub enum TokenKindView {
    Ident(Seq<char>),
    StrLit(Seq<char>),
    LParen,
    RParen,
    LBracket,
    RBracket,
    Comma,
    Equals,
}

impl View for TokenKind {
    type V = TokenKindView;

    open spec fn view(&self) -> TokenKindView {
        match self {
            TokenKind::Ident(s) => TokenKindView::Ident(s@),
            TokenKind::StrLit(s) => TokenKindView::StrLit(s@),
            TokenKind::LParen => TokenKindView::LParen,
            TokenKind::RParen => TokenKindView::RParen,
            TokenKind::LBracket => TokenKindView::LBracket,
            TokenKind::RBracket => TokenKindView::RBracket,
            TokenKind::Comma => TokenKindView::Comma,
            TokenKind::Equals => TokenKindView::Equals,
        }
    }
}

/// A token together with the character position where it starts, kept for
/// error reporting.
#[derive(Debug, PartialEq, Eq)]
pub struct Token {
    pub kind: TokenKind,
    pub pos: usize,
}

/// Mathematical value of a `Token`.
pub struct TokenView {
    pub kind: TokenKindView,
    pub pos: int,
}

impl View for Token {
    type V = TokenView;

    open spec fn view(&self) -> TokenView {
        TokenView { kind: self.kind@, pos: self.pos as int }
    }
}

/// Viewing a sequence of tokens elementwise.
pub open spec fn tokens_view(s: Seq<Token>) -> Seq<TokenView> {
    Seq::new(s.len(), |i: int| s[i]@)
}

// ---------------------------------------------------------------------------
// Tokenizer
// ---------------------------------------------------------------------------

/// Whitespace separates tokens and is otherwise ignored.
pub open spec fn is_ws_char(c: char) -> bool {
    c == ' ' || c == '\n' || c == '\t' || c == '\r'
}

/// Characters that may form an identifier.
pub open spec fn is_ident_char(c: char) -> bool {
    ('a' <= c && c <= 'z') || ('A' <= c && c <= 'Z') || ('0' <= c && c <= '9') || c == '_'
}

/// First position at or after `i` that does not hold an identifier
/// character.
pub open spec fn ident_end(s: Seq<char>, i: int) -> int
    decreases s.len() - i,
{
    if i < 0 || i >= s.len() || !is_ident_char(s[i]) {
        i
    } else {
        ident_end(s, i + 1)
    }
}

/// First position at or after `i` holding a closing double quote, or the
/// length of the source if there is none.
pub open spec fn quote_end(s: Seq<char>, i: int) -> int
    decreases s.len() - i,
{
    if i < 0 || i >= s.len() {
        s.len() as int
    } else if s[i] == '"' {
        i
    } else {
        quote_end(s, i + 1)
    }
}

/// Prepends one token to a tokenization result, passing an error through.
pub open spec fn cons_token(k: TokenKindView, pos: int, rest: Result<Seq<TokenView>, int>) -> Result<
    Seq<TokenView>,
    int,
> {
    match rest {
        Result::Ok(ts) => Result::Ok(seq![TokenView { kind: k, pos }] + ts),
        Result::Err(e) => Result::Err(e),
    }
}

/// The token sequence of the source from position `i` on, or the position of
/// the first offending character (an unterminated string is reported at its
/// opening quote).
pub open spec fn spec_tokens(s: Seq<char>, i: int) -> Result<Seq<TokenView>, int>
    decreases s.len() - i,
{
    if i < 0 || i >= s.len() {
        Result::Ok(Seq::empty())
    } else {
        let c = s[i];
        if is_ws_char(c) {
            spec_tokens(s, i + 1)
        } else if c == '(' {
            cons_token(TokenKindView::LParen, i, spec_tokens(s, i + 1))
        } else if c == ')' {
            cons_token(TokenKindView::RParen, i, spec_tokens(s, i + 1))
        } else if c == '[' {
            cons_token(TokenKindView::LBracket, i, spec_tokens(s, i + 1))
        } else if c == ']' {
            cons_token(TokenKindView::RBracket, i, spec_tokens(s, i + 1))
        } else if c == ',' {
            cons_token(TokenKindView::Comma, i, spec_tokens(s, i + 1))
        } else if c == '=' {
            cons_token(TokenKindView::Equals, i, spec_tokens(s, i + 1))
        } else if c == '"' {
            let e = quote_end(s, i + 1);
            if e >= s.len() || e <= i {
                Result::Err(i)
            } else {
                cons_token(
                    TokenKindView::StrLit(s.subrange(i + 1, e)),
                    i,
                    spec_tokens(s, e + 1),
                )
            }
        } else if is_ident_char(c) {
            let e = ident_end(s, i + 1);
            if e <= i || e > s.len() {
                Result::Err(i)
            } else {
                cons_token(TokenKindView::Ident(s.subrange(i, e)), i, spec_tokens(s, e))
            }
        } else {
            Result::Err(i)
        }
    }
}

/// The view of a tokenizer outcome.
pub open spec fn tokens_result_view(r: Result<Vec<Token>, usize>) -> Result<Seq<TokenView>, int> {
    match r {
        Result::Ok(v) => Result::Ok(tokens_view(v@)),
        Result::Err(e) => Result::Err(e as int),
    }
}

fn ws_char(c: char) -> (b: bool)
    ensures
        b == is_ws_char(c),
{
    c == ' ' || c == '\n' || c == '\t' || c == '\r'
}

fn ident_char(c: char) -> (b: bool)
    ensures
        b == is_ident_char(c),
{
    ('a' <= c && c <= 'z') || ('A' <= c && c <= 'Z') || ('0' <= c && c <= '9') || c == '_'
}

fn scan_ident_end(s: &str, i: usize, n: usize) -> (e: usize)
    requires
        n == s@.len(),
        i <= n,
    ensures
        e == ident_end(s@, i as int),
        i <= e <= n,
    decreases n - i,
{
    if i < n {
        let c = s.get_char(i);
        if ident_char(c) {
            return scan_ident_end(s, i + 1, n);
        }
    }
    i
}

fn scan_quote_end(s: &str, i: usize, n: usize) -> (e: usize)
    requires
        n == s@.len(),
        i <= n,
    ensures
        e == quote_end(s@, i as int),
        i <= e <= n,
    decreases n - i,
{
    if i < n {
        let c = s.get_char(i);
        if c == '"' {
            return i;
        }
        return scan_quote_end(s, i + 1, n);
    }
    n
}

fn cons_token_exec(t: Token, rest: Result<Vec<Token>, usize>) -> (r: Result<Vec<Token>, usize>)
    ensures
        tokens_result_view(r) == cons_token(t@.kind, t@.pos, tokens_result_view(rest)),
{
    match rest {
        Result::Ok(mut v) => {
            let ghost v0 = v@;
            let ghost tv = t@;
            v.insert(0, t);
            proof {
                assert(tokens_view(v@) =~= seq![tv] + tokens_view(v0));
            }
            Result::Ok(v)
        },
        Result::Err(e) => Result::Err(e),
    }
}

fn tokenize_from(s: &str, i: usize, n: usize) -> (r: Result<Vec<Token>, usize>)
    requires
        n == s@.len(),
        i <= n,
    ensures
        tokens_result_view(r) == spec_tokens(s@, i as int),
    decreases n - i,
{
    if i >= n {
        let v: Vec<Token> = Vec::new();
        proof {
            assert(tokens_view(v@) =~= Seq::<TokenView>::empty());
        }
        return Result::Ok(v);
    }
    let c = s.get_char(i);
    if ws_char(c) {
        tokenize_from(s, i + 1, n)
    } else if c == '(' {
        cons_token_exec(Token { kind: TokenKind::LParen, pos: i }, tokenize_from(s, i + 1, n))
    } else if c == ')' {
        cons_token_exec(Token { kind: TokenKind::RParen, pos: i }, tokenize_from(s, i + 1, n))
    } else if c == '[' {
        cons_token_exec(Token { kind: TokenKind::LBracket, pos: i }, tokenize_from(s, i + 1, n))
    } else if c == ']' {
        cons_token_exec(Token { kind: TokenKind::RBracket, pos: i }, tokenize_from(s, i + 1, n))
    } else if c == ',' {
        cons_token_exec(Token { kind: TokenKind::Comma, pos: i }, tokenize_from(s, i + 1, n))
    } else if c == '=' {
        cons_token_exec(Token { kind: TokenKind::Equals, pos: i }, tokenize_from(s, i + 1, n))
    } else if c == '"' {
        let e = scan_quote_end(s, i + 1, n);
        if e >= n {
            Result::Err(i)
        } else {
            let text = s.substring_char(i + 1, e).to_owned();
            cons_token_exec(
                Token { kind: TokenKind::StrLit(text), pos: i },
                tokenize_from(s, e + 1, n),
            )
        }
    } else if ident_char(c) {
        let e = scan_ident_end(s, i + 1, n);
        let text = s.substring_char(i, e).to_owned();
        cons_token_exec(Token { kind: TokenKind::Ident(text), pos: i }, tokenize_from(s, e, n))
    } else {
        Result::Err(i)
    }
}

// ---------------------------------------------------------------------------
// Token parser
// ---------------------------------------------------------------------------

/// The fields of one `define_program` declaration as they are being
/// collected.  A field that repeats overwrites its earlier value.
pub struct DeclFields {
    pub program: Option<String>,
    pub args: Vec<ArgMatcher>,
    pub flags: Vec<String>,
    pub system_path: Vec<String>,
}

/// Mathematical value of a `DeclFields`.
pub struct DeclFieldsView {
    pub program: Option<Seq<char>>,
    pub args: Seq<ArgMatcherView>,
    pub flags: Seq<Seq<char>>,
    pub system_path: Seq<Seq<char>>,
}

impl View for DeclFields {
    type V = DeclFieldsView;

    open spec fn view(&self) -> DeclFieldsView {
        DeclFieldsView {
            program: match self.program {
                Option::Some(ref s) => Option::Some(s@),
                Option::None => Option::None,
            },
            args: matchers_view(self.args@),
            flags: strings_view(self.flags@),
            system_path: strings_view(self.system_path@),
        }
    }
}

impl DeclFieldsView {
    /// No field seen yet.
    pub open spec fn empty() -> DeclFieldsView {
        DeclFieldsView {
            program: Option::None,
            args: Seq::empty(),
            flags: Seq::empty(),
            system_path: Seq::empty(),
        }
    }
}

impl DeclFields {
    fn empty() -> (r: DeclFields)
        ensures
            r@ == DeclFieldsView::empty(),
    {
        let r = DeclFields {
            program: Option::None,
            args: Vec::new(),
            flags: Vec::new(),
            system_path: Vec::new(),
        };
        proof {
            assert(r@.args =~= Seq::<ArgMatcherView>::empty());
            assert(r@.flags =~= Seq::<Seq<char>>::empty());
            assert(r@.system_path =~= Seq::<Seq<char>>::empty());
        }
        r
    }
}

/// Parses the elements of an `args=[...]` list: each is a quoted literal or
/// one of the symbolic matcher names.  `Ok` carries the matchers and the
/// token position just past the closing bracket; an unknown matcher name is
/// reported at its own position, an unexpected end at `end_pos`.
pub open spec fn spec_parse_matcher_list(
    toks: Seq<TokenView>,
    i: int,
    end_pos: int,
    acc: Seq<ArgMatcherView>,
) -> Result<(Seq<ArgMatcherView>, int), int>
    decreases toks.len() - i,
{
    if i < 0 || i >= toks.len() {
        Result::Err(end_pos)
    } else if toks[i].kind is RBracket {
        Result::Ok((acc, i + 1))
    } else {
        let m = match toks[i].kind {
            TokenKindView::StrLit(v) => Option::Some(ArgMatcherView::Literal(v)),
            TokenKindView::Ident(id) => if id == "ARG_RFILE"@ {
                Option::Some(ArgMatcherView::ReadableFile)
            } else if id == "ARG_WFILE"@ {
                Option::Some(ArgMatcherView::WriteableFile)
            } else if id == "ARG_RFILES"@ {
                Option::Some(ArgMatcherView::ReadableFiles)
            } else {
                Option::None
            },
            _ => Option::None,
        };
        match m {
            Option::None => Result::Err(toks[i].pos),
            Option::Some(mv) => {
                if i + 1 >= toks.len() {
                    Result::Err(end_pos)
                } else if toks[i + 1].kind is Comma {
                    spec_parse_matcher_list(toks, i + 2, end_pos, acc.push(mv))
                } else if toks[i + 1].kind is RBracket {
                    Result::Ok((acc.push(mv), i + 2))
                } else {
                    Result::Err(toks[i + 1].pos)
                }
            },
        }
    }
}

/// Parses the elements of a `flags=[...]` or `system_path=[...]` list: each
/// must be a quoted string.
pub open spec fn spec_parse_string_list(
    toks: Seq<TokenView>,
    i: int,
    end_pos: int,
    acc: Seq<Seq<char>>,
) -> Result<(Seq<Seq<char>>, int), int>
    decreases toks.len() - i,
{
    if i < 0 || i >= toks.len() {
        Result::Err(end_pos)
    } else if toks[i].kind is RBracket {
        Result::Ok((acc, i + 1))
    } else {
        match toks[i].kind {
            TokenKindView::StrLit(v) => {
                if i + 1 >= toks.len() {
                    Result::Err(end_pos)
                } else if toks[i + 1].kind is Comma {
                    spec_parse_string_list(toks, i + 2, end_pos, acc.push(v))
                } else if toks[i + 1].kind is RBracket {
                    Result::Ok((acc.push(v), i + 2))
                } else {
                    Result::Err(toks[i + 1].pos)
                }
            },
            _ => Result::Err(toks[i].pos),
        }
    }
}

/// Parses the `name=value` fields of one declaration up to and including the
/// closing parenthesis.  Fields may come in any order, a trailing comma is
/// allowed, and a repeated field overwrites the earlier value.  A sub-parse
/// that failed to advance is reported at `end_pos` so that the walk is
/// manifestly finite.
pub open spec fn spec_parse_fields(
    toks: Seq<TokenView>,
    i: int,
    end_pos: int,
    acc: DeclFieldsView,
) -> Result<(DeclFieldsView, int), int>
    decreases toks.len() - i,
{
    if i < 0 || i >= toks.len() {
        Result::Err(end_pos)
    } else if toks[i].kind is RParen {
        Result::Ok((acc, i + 1))
    } else {
        match toks[i].kind {
            TokenKindView::Ident(name) => {
                if i + 2 >= toks.len() {
                    Result::Err(end_pos)
                } else if !(toks[i + 1].kind is Equals) {
                    Result::Err(toks[i + 1].pos)
                } else if name == "program"@ {
                    match toks[i + 2].kind {
                        TokenKindView::StrLit(v) => {
                            let acc2 = DeclFieldsView {
                                program: Option::Some(v),
                                args: acc.args,
                                flags: acc.flags,
                                system_path: acc.system_path,
                            };
                            if i + 3 >= toks.len() {
                                Result::Err(end_pos)
                            } else if toks[i + 3].kind is Comma {
                                spec_parse_fields(toks, i + 4, end_pos, acc2)
                            } else if toks[i + 3].kind is RParen {
                                Result::Ok((acc2, i + 4))
                            } else {
                                Result::Err(toks[i + 3].pos)
                            }
                        },
                        _ => Result::Err(toks[i + 2].pos),
                    }
                } else if name == "args"@ {
                    match toks[i + 2].kind {
                        TokenKindView::LBracket => {
                            match spec_parse_matcher_list(toks, i + 3, end_pos, Seq::empty()) {
                                Result::Err(e) => Result::Err(e),
                                Result::Ok((ms, j)) => {
                                    let acc2 = DeclFieldsView {
                                        program: acc.program,
                                        args: ms,
                                        flags: acc.flags,
                                        system_path: acc.system_path,
                                    };
                                    if j <= i {
                                        Result::Err(end_pos)
                                    } else if j >= toks.len() {
                                        Result::Err(end_pos)
                                    } else if toks[j].kind is Comma {
                                        spec_parse_fields(toks, j + 1, end_pos, acc2)
                                    } else if toks[j].kind is RParen {
                                        Result::Ok((acc2, j + 1))
                                    } else {
                                        Result::Err(toks[j].pos)
                                    }
                                },
                            }
                        },
                        _ => Result::Err(toks[i + 2].pos),
                    }
                } else if name == "flags"@ {
                    match toks[i + 2].kind {
                        TokenKindView::LBracket => {
                            match spec_parse_string_list(toks, i + 3, end_pos, Seq::empty()) {
                                Result::Err(e) => Result::Err(e),
                                Result::Ok((vs, j)) => {
                                    let acc2 = DeclFieldsView {
                                        program: acc.program,
                                        args: acc.args,
                                        flags: vs,
                                        system_path: acc.system_path,
                                    };
                                    if j <= i {
                                        Result::Err(end_pos)
                                    } else if j >= toks.len() {
                                        Result::Err(end_pos)
                                    } else if toks[j].kind is Comma {
                                        spec_parse_fields(toks, j + 1, end_pos, acc2)
                                    } else if toks[j].kind is RParen {
                                        Result::Ok((acc2, j + 1))
                                    } else {
                                        Result::Err(toks[j].pos)
                                    }
                                },
                            }
                        },
                        _ => Result::Err(toks[i + 2].pos),
                    }
                } else if name == "system_path"@ {
                    match toks[i + 2].kind {
                        TokenKindView::LBracket => {
                            match spec_parse_string_list(toks, i + 3, end_pos, Seq::empty()) {
                                Result::Err(e) => Result::Err(e),
                                Result::Ok((vs, j)) => {
                                    let acc2 = DeclFieldsView {
                                        program: acc.program,
                                        args: acc.args,
                                        flags: acc.flags,
                                        system_path: vs,
                                    };
                                    if j <= i {
                                        Result::Err(end_pos)
                                    } else if j >= toks.len() {
                                        Result::Err(end_pos)
                                    } else if toks[j].kind is Comma {
                                        spec_parse_fields(toks, j + 1, end_pos, acc2)
                                    } else if toks[j].kind is RParen {
                                        Result::Ok((acc2, j + 1))
                                    } else {
                                        Result::Err(toks[j].pos)
                                    }
                                },
                            }
                        },
                        _ => Result::Err(toks[i + 2].pos),
                    }
                } else {
                    Result::Err(toks[i].pos)
                }
            },
            _ => Result::Err(toks[i].pos),
        }
    }
}

/// Parses one `define_program(...)` declaration starting at token `i`.  A
/// declaration without a `program` field is reported at its opening keyword.
pub open spec fn spec_parse_decl(toks: Seq<TokenView>, i: int, end_pos: int) -> Result<
    (ProgramPolicyView, int),
    int,
> {
    if i < 0 || i >= toks.len() {
        Result::Err(end_pos)
    } else {
        match toks[i].kind {
            TokenKindView::Ident(kw) => {
                if kw != "define_program"@ {
                    Result::Err(toks[i].pos)
                } else if i + 1 >= toks.len() {
                    Result::Err(end_pos)
                } else if !(toks[i + 1].kind is LParen) {
                    Result::Err(toks[i + 1].pos)
                } else {
                    match spec_parse_fields(toks, i + 2, end_pos, DeclFieldsView::empty()) {
                        Result::Err(e) => Result::Err(e),
                        Result::Ok((f, j)) => match f.program {
                            Option::None => Result::Err(toks[i].pos),
                            Option::Some(name) => Result::Ok(
                                (
                                    ProgramPolicyView {
                                        program: name,
                                        arg_patterns: f.args,
                                        flags: f.flags,
                                        system_path: f.system_path,
                                    },
                                    j,
                                ),
                            ),
                        },
                    }
                }
            },
            _ => Result::Err(toks[i].pos),
        }
    }
}

/// Whether some already-parsed entry declares this program name.
pub open spec fn contains_program(pps: Seq<ProgramPolicyView>, name: Seq<char>) -> bool {
    exists|k: int| 0 <= k < pps.len() && pps[k].program == name
}

/// Parses the whole source as a sequence of declarations.  A program
/// declared twice is reported at its second declaration.
pub open spec fn spec_parse_policy(
    toks: Seq<TokenView>,
    i: int,
    end_pos: int,
    acc: Seq<ProgramPolicyView>,
) -> Result<Seq<ProgramPolicyView>, int>
    decreases toks.len() - i,
{
    if i < 0 {
        Result::Err(end_pos)
    } else if i >= toks.len() {
        Result::Ok(acc)
    } else {
        match spec_parse_decl(toks, i, end_pos) {
            Result::Err(e) => Result::Err(e),
            Result::Ok((pp, j)) => {
                if contains_program(acc, pp.program) {
                    Result::Err(toks[i].pos)
                } else if j <= i || j > toks.len() {
                    Result::Err(end_pos)
                } else {
                    spec_parse_policy(toks, j, end_pos, acc.push(pp))
                }
            },
        }
    }
}

/// What parsing a whole policy source yields: the program entries in
/// declaration order, or a `ParseError` naming the source and the character
/// position of the offense.
pub open spec fn spec_parse_source(source: Seq<char>, source_name: Seq<char>) -> Result<
    Seq<ProgramPolicyView>,
    ErrorView,
> {
    match spec_tokens(source, 0) {
        Result::Err(p) => Result::Err(ErrorView::ParseError { source_name, position: p }),
        Result::Ok(toks) => match spec_parse_policy(toks, 0, source.len() as int, Seq::empty()) {
            Result::Err(p) => Result::Err(ErrorView::ParseError { source_name, position: p }),
            Result::Ok(pps) => Result::Ok(pps),
        },
    }
}

/// The view of a parse outcome.
pub open spec fn parse_result_view(r: Result<Policy, Error>) -> Result<
    Seq<ProgramPolicyView>,
    ErrorView,
> {
    match r {
        Result::Ok(p) => Result::Ok(p@.programs),
        Result::Err(e) => Result::Err(e@),
    }
}

spec fn matcher_list_result_view(r: Result<(Vec<ArgMatcher>, usize), usize>) -> Result<
    (Seq<ArgMatcherView>, int),
    int,
> {
    match r {
        Result::Ok((v, j)) => Result::Ok((matchers_view(v@), j as int)),
        Result::Err(e) => Result::Err(e as int),
    }
}

spec fn string_list_result_view(r: Result<(Vec<String>, usize), usize>) -> Result<
    (Seq<Seq<char>>, int),
    int,
> {
    match r {
        Result::Ok((v, j)) => Result::Ok((strings_view(v@), j as int)),
        Result::Err(e) => Result::Err(e as int),
    }
}

spec fn fields_result_view(r: Result<(DeclFields, usize), usize>) -> Result<
    (DeclFieldsView, int),
    int,
> {
    match r {
        Result::Ok((f, j)) => Result::Ok((f@, j as int)),
        Result::Err(e) => Result::Err(e as int),
    }
}

spec fn decl_result_view(r: Result<(ProgramPolicy, usize), usize>) -> Result<
    (ProgramPolicyView, int),
    int,
> {
    match r {
        Result::Ok((pp, j)) => Result::Ok((pp@, j as int)),
        Result::Err(e) => Result::Err(e as int),
    }
}

spec fn policy_list_result_view(r: Result<Vec<ProgramPolicy>, usize>) -> Result<
    Seq<ProgramPolicyView>,
    int,
> {
    match r {
        Result::Ok(v) => Result::Ok(program_policies_view(v@)),
        Result::Err(e) => Result::Err(e as int),
    }
}

fn parse_matcher_list(toks: &Vec<Token>, i: usize, end_pos: usize, acc: Vec<ArgMatcher>) -> (r:
    Result<(Vec<ArgMatcher>, usize), usize>)
    ensures
        matcher_list_result_view(r) == spec_parse_matcher_list(
            tokens_view(toks@),
            i as int,
            end_pos as int,
            matchers_view(acc@),
        ),
    decreases toks@.len() - i,
{
    let ghost tv = tokens_view(toks@);
    if i >= toks.len() {
        return Result::Err(end_pos);
    }
    proof {
        assert(tv[i as int] == toks@[i as int]@);
    }
    match &toks[i].kind {
        TokenKind::RBracket => {
            return Result::Ok((acc, i + 1));
        },
        _ => {},
    }
    let m: Option<ArgMatcher> = match &toks[i].kind {
        TokenKind::StrLit(v) => Option::Some(ArgMatcher::Literal(v.clone())),
        TokenKind::Ident(id) => {
            if *id == "ARG_RFILE".to_owned() {
                Option::Some(ArgMatcher::ReadableFile)
            } else if *id == "ARG_WFILE".to_owned() {
                Option::Some(ArgMatcher::WriteableFile)
            } else if *id == "ARG_RFILES".to_owned() {
                Option::Some(ArgMatcher::ReadableFiles)
            } else {
                Option::None
            }
        },
        _ => Option::None,
    };
    match m {
        Option::None => Result::Err(toks[i].pos),
        Option::Some(mv) => {
            if i + 1 >= toks.len() {
                return Result::Err(end_pos);
            }
            proof {
                assert(tv[i as int + 1] == toks@[i as int + 1]@);
            }
            let ghost av = matchers_view(acc@);
            let ghost mvv = mv@;
            match &toks[i + 1].kind {
                TokenKind::Comma => {
                    let mut acc2 = acc;
                    acc2.push(mv);
                    proof {
                        assert(matchers_view(acc2@) =~= av.push(mvv));
                    }
                    parse_matcher_list(toks, i + 2, end_pos, acc2)
                },
                TokenKind::RBracket => {
                    let mut acc2 = acc;
                    acc2.push(mv);
                    proof {
                        assert(matchers_view(acc2@) =~= av.push(mvv));
                    }
                    Result::Ok((acc2, i + 2))
                },
                _ => Result::Err(toks[i + 1].pos),
            }
        },
    }
}

fn parse_string_list(toks: &Vec<Token>, i: usize, end_pos: usize, acc: Vec<String>) -> (r: Result<
    (Vec<String>, usize),
    usize,
>)
    ensures
        string_list_result_view(r) == spec_parse_string_list(
            tokens_view(toks@),
            i as int,
            end_pos as int,
            strings_view(acc@),
        ),
    decreases toks@.len() - i,
{
    let ghost tv = tokens_view(toks@);
    if i >= toks.len() {
        return Result::Err(end_pos);
    }
    proof {
        assert(tv[i as int] == toks@[i as int]@);
    }
    match &toks[i].kind {
        TokenKind::RBracket => {
            return Result::Ok((acc, i + 1));
        },
        _ => {},
    }
    match &toks[i].kind {
        TokenKind::StrLit(v) => {
            if i + 1 >= toks.len() {
                return Result::Err(end_pos);
            }
            proof {
                assert(tv[i as int + 1] == toks@[i as int + 1]@);
            }
            let ghost av = strings_view(acc@);
            let elem = v.clone();
            let ghost ev = elem@;
            match &toks[i + 1].kind {
                TokenKind::Comma => {
                    let mut acc2 = acc;
                    acc2.push(elem);
                    proof {
                        assert(strings_view(acc2@) =~= av.push(ev));
                    }
                    parse_string_list(toks, i + 2, end_pos, acc2)
                },
                TokenKind::RBracket => {
                    let mut acc2 = acc;
                    acc2.push(elem);
                    proof {
                        assert(strings_view(acc2@) =~= av.push(ev));
                    }
                    Result::Ok((acc2, i + 2))
                },
                _ => Result::Err(toks[i + 1].pos),
            }
        },
        _ => Result::Err(toks[i].pos),
    }
}

fn parse_fields(toks: &Vec<Token>, i: usize, end_pos: usize, acc: DeclFields) -> (r: Result<
    (DeclFields, usize),
    usize,
>)
    ensures
        fields_result_view(r) == spec_parse_fields(
            tokens_view(toks@),
            i as int,
            end_pos as int,
            acc@,
        ),
    decreases toks@.len() - i,
{
    let ghost tv = tokens_view(toks@);
    proof {
        assert(matchers_view(Seq::<ArgMatcher>::empty()) =~= Seq::<ArgMatcherView>::empty());
        assert(strings_view(Seq::<String>::empty()) =~= Seq::<Seq<char>>::empty());
    }
    if i >= toks.len() {
        return Result::Err(end_pos);
    }
    proof {
        assert(tv[i as int] == toks@[i as int]@);
    }
    match &toks[i].kind {
        TokenKind::RParen => {
            return Result::Ok((acc, i + 1));
        },
        _ => {},
    }
    match &toks[i].kind {
        TokenKind::Ident(name) => {
            if toks.len() - i <= 2 {
                return Result::Err(end_pos);
            }
            proof {
                assert(tv[i as int + 1] == toks@[i as int + 1]@);
                assert(tv[i as int + 2] == toks@[i as int + 2]@);
            }
            match &toks[i + 1].kind {
                TokenKind::Equals => {},
                _ => {
                    return Result::Err(toks[i + 1].pos);
                },
            }
            if *name == "program".to_owned() {
                match &toks[i + 2].kind {
                    TokenKind::StrLit(v) => {
                        let acc2 = DeclFields {
                            program: Option::Some(v.clone()),
                            args: acc.args,
                            flags: acc.flags,
                            system_path: acc.system_path,
                        };
                        if i + 3 >= toks.len() {
                            return Result::Err(end_pos);
                        }
                        proof {
                            assert(tv[i as int + 3] == toks@[i as int + 3]@);
                        }
                        match &toks[i + 3].kind {
                            TokenKind::Comma => parse_fields(toks, i + 4, end_pos, acc2),
                            TokenKind::RParen => Result::Ok((acc2, i + 4)),
                            _ => Result::Err(toks[i + 3].pos),
                        }
                    },
                    _ => Result::Err(toks[i + 2].pos),
                }
            } else if *name == "args".to_owned() {
                match &toks[i + 2].kind {
                    TokenKind::LBracket => {
                        match parse_matcher_list(toks, i + 3, end_pos, Vec::new()) {
                            Result::Err(e) => Result::Err(e),
                            Result::Ok((ms, j)) => {
                                proof {
                                    assert(matchers_view(Seq::<ArgMatcher>::empty()) =~= Seq::<
                                        ArgMatcherView,
                                    >::empty());
                                }
                                let acc2 = DeclFields {
                                    program: acc.program,
                                    args: ms,
                                    flags: acc.flags,
                                    system_path: acc.system_path,
                                };
                                if j <= i {
                                    return Result::Err(end_pos);
                                }
                                if j >= toks.len() {
                                    return Result::Err(end_pos);
                                }
                                proof {
                                    assert(tv[j as int] == toks@[j as int]@);
                                }
                                match &toks[j].kind {
                                    TokenKind::Comma => parse_fields(toks, j + 1, end_pos, acc2),
                                    TokenKind::RParen => Result::Ok((acc2, j + 1)),
                                    _ => Result::Err(toks[j].pos),
                                }
                            },
                        }
                    },
                    _ => Result::Err(toks[i + 2].pos),
                }
            } else if *name == "flags".to_owned() {
                match &toks[i + 2].kind {
                    TokenKind::LBracket => {
                        match parse_string_list(toks, i + 3, end_pos, Vec::new()) {
                            Result::Err(e) => Result::Err(e),
                            Result::Ok((vs, j)) => {
                                let acc2 = DeclFields {
                                    program: acc.program,
                                    args: acc.args,
                                    flags: vs,
                                    system_path: acc.system_path,
                                };
                                if j <= i {
                                    return Result::Err(end_pos);
                                }
                                if j >= toks.len() {
                                    return Result::Err(end_pos);
                                }
                                proof {
                                    assert(tv[j as int] == toks@[j as int]@);
                                }
                                match &toks[j].kind {
                                    TokenKind::Comma => parse_fields(toks, j + 1, end_pos, acc2),
                                    TokenKind::RParen => Result::Ok((acc2, j + 1)),
                                    _ => Result::Err(toks[j].pos),
                                }
                            },
                        }
                    },
                    _ => Result::Err(toks[i + 2].pos),
                }
            } else if *name == "system_path".to_owned() {
                match &toks[i + 2].kind {
                    TokenKind::LBracket => {
                        match parse_string_list(toks, i + 3, end_pos, Vec::new()) {
                            Result::Err(e) => Result::Err(e),
                            Result::Ok((vs, j)) => {
                                let acc2 = DeclFields {
                                    program: acc.program,
                                    args: acc.args,
                                    flags: acc.flags,
                                    system_path: vs,
                                };
                                if j <= i {
                                    return Result::Err(end_pos);
                                }
                                if j >= toks.len() {
                                    return Result::Err(end_pos);
                                }
                                proof {
                                    assert(tv[j as int] == toks@[j as int]@);
                                }
                                match &toks[j].kind {
                                    TokenKind::Comma => parse_fields(toks, j + 1, end_pos, acc2),
                                    TokenKind::RParen => Result::Ok((acc2, j + 1)),
                                    _ => Result::Err(toks[j].pos),
                                }
                            },
                        }
                    },
                    _ => Result::Err(toks[i + 2].pos),
                }
            } else {
                Result::Err(toks[i].pos)
            }
        },
        _ => Result::Err(toks[i].pos),
    }
}

fn parse_decl(toks: &Vec<Token>, i: usize, end_pos: usize) -> (r: Result<
    (ProgramPolicy, usize),
    usize,
>)
    ensures
        decl_result_view(r) == spec_parse_decl(tokens_view(toks@), i as int, end_pos as int),
{
    let ghost tv = tokens_view(toks@);
    if i >= toks.len() {
        return Result::Err(end_pos);
    }
    proof {
        assert(tv[i as int] == toks@[i as int]@);
    }
    match &toks[i].kind {
        TokenKind::Ident(kw) => {
            if !(*kw == "define_program".to_owned()) {
                return Result::Err(toks[i].pos);
            }
            if i + 1 >= toks.len() {
                return Result::Err(end_pos);
            }
            proof {
                assert(tv[i as int + 1] == toks@[i as int + 1]@);
            }
            match &toks[i + 1].kind {
                TokenKind::LParen => {
                    match parse_fields(toks, i + 2, end_pos, DeclFields::empty()) {
                        Result::Err(e) => Result::Err(e),
                        Result::Ok((f, j)) => match f.program {
                            Option::None => Result::Err(toks[i].pos),
                            Option::Some(name) => Result::Ok(
                                (
                                    ProgramPolicy {
                                        program: name,
                                        arg_patterns: f.args,
                                        flags: f.flags,
                                        system_path: f.system_path,
                                    },
                                    j,
                                ),
                            ),
                        },
                    }
                },
                _ => Result::Err(toks[i + 1].pos),
            }
        },
        _ => Result::Err(toks[i].pos),
    }
}

fn contains_policy(pps: &Vec<ProgramPolicy>, name: &String) -> (b: bool)
    ensures
        b == contains_program(program_policies_view(pps@), name@),
{
    let mut k: usize = 0;
    while k < pps.len()
        invariant
            k <= pps@.len(),
            forall|j: int| 0 <= j < k ==> program_policies_view(pps@)[j].program != name@,
        decreases pps@.len() - k,
    {
        if pps[k].program == *name {
            assert(program_policies_view(pps@)[k as int].program == name@);
            return true;
        }
        k = k + 1;
    }
    false
}

fn parse_policy_list(toks: &Vec<Token>, i: usize, end_pos: usize, acc: Vec<ProgramPolicy>) -> (r:
    Result<Vec<ProgramPolicy>, usize>)
    ensures
        policy_list_result_view(r) == spec_parse_policy(
            tokens_view(toks@),
            i as int,
            end_pos as int,
            program_policies_view(acc@),
        ),
    decreases toks@.len() - i,
{
    let ghost tv = tokens_view(toks@);
    if i >= toks.len() {
        return Result::Ok(acc);
    }
    proof {
        assert(tv[i as int] == toks@[i as int]@);
    }
    match parse_decl(toks, i, end_pos) {
        Result::Err(e) => Result::Err(e),
        Result::Ok((pp, j)) => {
            if contains_policy(&acc, &pp.program) {
                return Result::Err(toks[i].pos);
            }
            if j <= i || j > toks.len() {
                return Result::Err(end_pos);
            }
            let ghost av = program_policies_view(acc@);
            let ghost ppv = pp@;
            let mut acc2 = acc;
            acc2.push(pp);
            proof {
                assert(program_policies_view(acc2@) =~= av.push(ppv));
            }
            parse_policy_list(toks, j, end_pos, acc2)
        },
    }
}

/// Program names in the sequence are pairwise distinct.
pub open spec fn unique_programs(pps: Seq<ProgramPolicyView>) -> bool {
    forall|a: int, b: int| 0 <= a < b < pps.len() ==> pps[a].program != pps[b].program
}

/// Because every accepted declaration is checked against the names already
/// collected, a successful parse yields pairwise distinct program names.
proof fn lemma_parse_policy_unique(
    toks: Seq<TokenView>,
    i: int,
    end_pos: int,
    acc: Seq<ProgramPolicyView>,
)
    requires
        unique_programs(acc),
    ensures
        spec_parse_policy(toks, i, end_pos, acc) matches Result::Ok(pps) ==> unique_programs(pps),
    decreases toks.len() - i,
{
    if 0 <= i && i < toks.len() {
        match spec_parse_decl(toks, i, end_pos) {
            Result::Err(_) => {},
            Result::Ok((pp, j)) => {
                if !contains_program(acc, pp.program) && j > i && j <= toks.len() {
                    assert(unique_programs(acc.push(pp)));
                    lemma_parse_policy_unique(toks, j, end_pos, acc.push(pp));
                }
            },
        }
    }
}

/// Holds a policy source together with the identifier used to name it in
/// parse errors.
pub struct PolicyParser {
    pub source_name: String,
    pub source: String,
}

impl PolicyParser {
    /// Remembers the source text and the name to report errors under.
    pub fn new(source_name: &str, source: &str) -> (p: PolicyParser)
        ensures
            p.source_name@ == source_name@,
            p.source@ == source@,
    {
        PolicyParser { source_name: source_name.to_owned(), source: source.to_owned() }
    }

    /// Parses the source into a policy.  The outcome is exactly
    /// `spec_parse_source` of the source text: one deterministic pass, and a
    /// `ParseError` carrying this parser's source name and the character
    /// position of the first offense.  On success the program names are
    /// pairwise distinct, so lookups are unambiguous.
    pub fn parse(&self) -> (r: Result<Policy, Error>)
        ensures
            parse_result_view(r) == spec_parse_source(self.source@, self.source_name@),
            r matches Result::Ok(p) ==> p@.wf(),
    {
        let src = self.source.as_str();
        let n = src.unicode_len();
        let toks = match tokenize_from(src, 0, n) {
            Result::Err(e) => {
                return Result::Err(
                    Error::ParseError { source_name: self.source_name.clone(), position: e },
                );
            },
            Result::Ok(t) => t,
        };
        let pps = match parse_policy_list(&toks, 0, n, Vec::new()) {
            Result::Err(e) => {
                proof {
                    assert(program_policies_view(Seq::<ProgramPolicy>::empty()) =~= Seq::<
                        ProgramPolicyView,
                    >::empty());
                }
                return Result::Err(
                    Error::ParseError { source_name: self.source_name.clone(), position: e },
                );
            },
            Result::Ok(pps) => pps,
        };
        proof {
            assert(program_policies_view(Seq::<ProgramPolicy>::empty()) =~= Seq::<
                ProgramPolicyView,
            >::empty());
            lemma_parse_policy_unique(
                tokens_view(toks@),
                0,
                n as int,
                Seq::<ProgramPolicyView>::empty(),
            );
        }
        Result::Ok(Policy::from_programs(pps))
    }
}

} // verus!
