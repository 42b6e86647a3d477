//! The token parser: turns a scalar string into literal and
//! variable-reference tokens, recognizing the five expansion operators
//! with recursively parsed nested text.

use vstd::prelude::*;

use crate::tokens::{tokens_model, token_model, Op, OpModel, Presence, Token, TokenModel};

verus! {

/// First character of a variable name: a letter or an underscore.
pub open spec fn is_ident_start(c: char) -> bool {
    ('a' as u32 <= c as u32 && c as u32 <= 'z' as u32) || ('A' as u32 <= c as u32 && c as u32
        <= 'Z' as u32) || c == '_'
}

/// Later character of a variable name: a letter, a digit or an
/// underscore.
pub open spec fn is_ident_char(c: char) -> bool {
    is_ident_start(c) || ('0' as u32 <= c as u32 && c as u32 <= '9' as u32)
}

/// The first position at or after `i` that does not hold a name
/// character.
pub open spec fn ident_end(s: Seq<char>, i: int) -> int
    decreases s.len() - i,
    when 0 <= i <= s.len()
{
    if i >= s.len() || !is_ident_char(s[i]) {
        i
    } else {
        ident_end(s, i + 1)
    }
}

/// The first position at or after `i` that holds `$`, or the length.
pub open spec fn next_dollar(s: Seq<char>, i: int) -> int
    decreases s.len() - i,
    when 0 <= i <= s.len()
{
    if i >= s.len() {
        s.len() as int
    } else if s[i] == '$' {
        i
    } else {
        next_dollar(s, i + 1)
    }
}

/// The matching close brace: the first `}` at or after `j` that does
/// not close a later `${` opening.
pub open spec fn find_close(s: Seq<char>, j: int, depth: int) -> Option<int>
    decreases s.len() - j,
    when 0 <= j <= s.len()
{
    if j >= s.len() {
        None
    } else if s[j] == '$' && j + 1 < s.len() && s[j + 1] == '{' {
        find_close(s, j + 2, depth + 1)
    } else if s[j] == '}' {
        if depth == 0 {
            Some(j)
        } else {
            find_close(s, j + 1, depth - 1)
        }
    } else {
        find_close(s, j + 1, depth)
    }
}

/// The message of a malformed reference: it carries the text from the
/// offending `$` on.
pub open spec fn parse_err_msg(s: Seq<char>, i: int) -> Seq<char> {
    "invalid variable expansion: "@ + s.subrange(i, s.len() as int)
}

/// The tokens of `s` from position `i` on, or the message of the first
/// malformed reference.
pub open spec fn parse_from(s: Seq<char>, i: int) -> Result<Seq<TokenModel>, Seq<char>>
    decreases s.len() - i, 1int,
    when 0 <= i <= s.len()
    via parse_from_dec
{
    if i >= s.len() {
        Ok(Seq::empty())
    } else if s[i] == '$' {
        if i + 1 < s.len() && s[i + 1] == '{' {
            parse_braced(s, i)
        } else if i + 1 < s.len() && is_ident_start(s[i + 1]) {
            let j = ident_end(s, i + 2);
            match parse_from(s, j) {
                Ok(rest) => Ok(
                    seq![TokenModel::Ref(s.subrange(i + 1, j), Option::None)] + rest,
                ),
                Err(e) => Err(e),
            }
        } else {
            match parse_from(s, i + 1) {
                Ok(rest) => Ok(seq![TokenModel::Lit(seq!['$'])] + rest),
                Err(e) => Err(e),
            }
        }
    } else {
        let j = next_dollar(s, i);
        match parse_from(s, j) {
            Ok(rest) => Ok(seq![TokenModel::Lit(s.subrange(i, j))] + rest),
            Err(e) => Err(e),
        }
    }
}

/// A braced reference starting at `i` (`s[i] == '$'`, `s[i+1] == '{'`):
/// name, optional `:` presence marker, operator sigil, nested text up
/// to the matching close brace.
pub open spec fn parse_braced(s: Seq<char>, i: int) -> Result<Seq<TokenModel>, Seq<char>>
    decreases s.len() - i, 0int,
    when 0 <= i && i + 1 < s.len()
    via parse_braced_dec
{
    let ns = i + 2;
    if ns >= s.len() || !is_ident_start(s[ns]) {
        Err(parse_err_msg(s, i))
    } else {
        let ne = ident_end(s, ns + 1);
        let name = s.subrange(ns, ne);
        if ne >= s.len() {
            Err(parse_err_msg(s, i))
        } else if s[ne] == '}' {
            match parse_from(s, ne + 1) {
                Ok(rest) => Ok(seq![TokenModel::Ref(name, Option::None)] + rest),
                Err(e) => Err(e),
            }
        } else {
            let p = if s[ne] == ':' {
                Presence::DefinedNonEmpty
            } else {
                Presence::Defined
            };
            let si = if s[ne] == ':' {
                ne + 1
            } else {
                ne
            };
            if si >= s.len() || !(s[si] == '-' || s[si] == '?' || s[si] == '+') {
                Err(parse_err_msg(s, i))
            } else {
                match find_close(s, si + 1, 0) {
                    Option::None => Err(parse_err_msg(s, i)),
                    Option::Some(close) => match parse_from(s.subrange(si + 1, close), 0) {
                        Err(e) => Err(e),
                        Ok(inner) => {
                            let op = if s[si] == '-' {
                                OpModel::Fallback(p, inner)
                            } else if s[si] == '?' {
                                OpModel::Require(p, inner)
                            } else {
                                OpModel::Replace(p, inner)
                            };
                            match parse_from(s, close + 1) {
                                Ok(rest) => Ok(
                                    seq![TokenModel::Ref(name, Option::Some(op))] + rest,
                                ),
                                Err(e) => Err(e),
                            }
                        },
                    },
                }
            }
        }
    }
}

#[via_fn]
proof fn parse_from_dec(s: Seq<char>, i: int) {
    if i < s.len() {
        if s[i] == '$' {
            if i + 1 < s.len() && s[i + 1] == '{' {
            } else if i + 1 < s.len() && is_ident_start(s[i + 1]) {
                lemma_ident_end_bounds(s, i + 2);
            }
        } else {
            lemma_next_dollar_bounds(s, i);
        }
    }
}

#[via_fn]
proof fn parse_braced_dec(s: Seq<char>, i: int) {
    let ns = i + 2;
    if ns < s.len() && is_ident_start(s[ns]) {
        lemma_ident_end_bounds(s, ns + 1);
        let ne = ident_end(s, ns + 1);
        if ne < s.len() && s[ne] != '}' {
            let si = if s[ne] == ':' {
                ne + 1
            } else {
                ne
            };
            if si < s.len() && (s[si] == '-' || s[si] == '?' || s[si] == '+') {
                lemma_find_close_bounds(s, si + 1, 0);
            }
        }
    }
}

pub proof fn lemma_ident_end_bounds(s: Seq<char>, i: int)
    requires
        0 <= i <= s.len(),
    ensures
        i <= ident_end(s, i) <= s.len(),
        forall|k: int| i <= k < ident_end(s, i) ==> is_ident_char(s[k]),
        ident_end(s, i) < s.len() ==> !is_ident_char(s[ident_end(s, i)]),
    decreases s.len() - i,
{
    if i < s.len() && is_ident_char(s[i]) {
        lemma_ident_end_bounds(s, i + 1);
    }
}

pub proof fn lemma_next_dollar_bounds(s: Seq<char>, i: int)
    requires
        0 <= i <= s.len(),
    ensures
        i <= next_dollar(s, i) <= s.len(),
        next_dollar(s, i) < s.len() ==> s[next_dollar(s, i)] == '$',
        forall|k: int| i <= k < next_dollar(s, i) ==> s[k] != '$',
    decreases s.len() - i,
{
    if i < s.len() && s[i] != '$' {
        lemma_next_dollar_bounds(s, i + 1);
    }
}

pub proof fn lemma_find_close_bounds(s: Seq<char>, j: int, depth: int)
    requires
        0 <= j <= s.len(),
    ensures
        match find_close(s, j, depth) {
            Option::Some(c) => j <= c < s.len() && s[c] == '}',
            Option::None => true,
        },
    decreases s.len() - j,
{
    if j < s.len() {
        if s[j] == '$' && j + 1 < s.len() && s[j + 1] == '{' {
            lemma_find_close_bounds(s, j + 2, depth + 1);
        } else if s[j] == '}' {
            if depth != 0 {
                lemma_find_close_bounds(s, j + 1, depth - 1);
            }
        } else {
            lemma_find_close_bounds(s, j + 1, depth);
        }
    }
}

/// A malformed variable reference; the message carries the text from
/// the offending `$` on.
#[derive(PartialEq, Debug)]
pub struct ParseError {
    pub message: String,
}

fn ident_start_c(c: char) -> (b: bool)
    ensures
        b == is_ident_start(c),
{
    let u = c as u32;
    ('a' as u32 <= u && u <= 'z' as u32) || ('A' as u32 <= u && u <= 'Z' as u32) || c == '_'
}

fn ident_char_c(c: char) -> (b: bool)
    ensures
        b == is_ident_char(c),
{
    ident_start_c(c) || ('0' as u32 <= c as u32 && c as u32 <= '9' as u32)
}

fn scan_ident_end(s: &str, i: usize, n: usize) -> (j: usize)
    requires
        n == s@.len(),
        i <= n,
    ensures
        j == ident_end(s@, i as int),
        i <= j <= n,
{
    proof {
        lemma_ident_end_bounds(s@, i as int);
    }
    let mut j: usize = i;
    while j < n && ident_char_c(s.get_char(j))
        invariant
            i <= j <= n,
            n == s@.len(),
            ident_end(s@, i as int) == ident_end(s@, j as int),
        decreases n - j,
    {
        j = j + 1;
    }
    j
}

fn scan_next_dollar(s: &str, i: usize, n: usize) -> (j: usize)
    requires
        n == s@.len(),
        i <= n,
    ensures
        j == next_dollar(s@, i as int),
        i <= j <= n,
{
    proof {
        lemma_next_dollar_bounds(s@, i as int);
    }
    let mut j: usize = i;
    while j < n && s.get_char(j) != '$'
        invariant
            i <= j <= n,
            n == s@.len(),
            next_dollar(s@, i as int) == next_dollar(s@, j as int),
        decreases n - j,
    {
        j = j + 1;
    }
    j
}

fn scan_find_close(s: &str, start: usize, n: usize) -> (r: Option<usize>)
    requires
        n == s@.len(),
        start <= n,
    ensures
        match r {
            Option::Some(c) => find_close(s@, start as int, 0) == Option::Some(c as int) && start
                <= c < n,
            Option::None => find_close(s@, start as int, 0) is None,
        },
{
    proof {
        lemma_find_close_bounds(s@, start as int, 0);
    }
    let mut j: usize = start;
    let mut depth: usize = 0;
    loop
        invariant
            start <= j <= n,
            n == s@.len(),
            2 * depth <= j - start,
            find_close(s@, start as int, 0) == find_close(s@, j as int, depth as int),
        decreases n - j,
    {
        if j >= n {
            return None;
        }
        let c = s.get_char(j);
        if c == '$' && j + 1 < n && s.get_char(j + 1) == '{' {
            j = j + 2;
            depth = depth + 1;
        } else if c == '}' {
            if depth == 0 {
                return Some(j);
            }
            depth = depth - 1;
            j = j + 1;
        } else {
            j = j + 1;
        }
    }
}

fn parse_error(s: &str, i: usize, n: usize) -> (e: ParseError)
    requires
        n == s@.len(),
        i <= n,
    ensures
        e.message@ == parse_err_msg(s@, i as int),
{
    let mut m = String::from_str("invalid variable expansion: ");
    m.append(s.substring_char(i, n));
    proof {
        assert(m@ =~= parse_err_msg(s@, i as int));
    }
    ParseError { message: m }
}

/// Parse one token starting at `i`; give back the token and the
/// position that follows it.
fn parse_one(s: &str, i: usize, n: usize) -> (r: Result<(Token, usize), ParseError>)
    requires
        n == s@.len(),
        i < n,
    ensures
        match r {
            Ok(p) => i < p.1 <= n && parse_from(s@, i as int) == (match parse_from(
                s@,
                p.1 as int,
            ) {
                Ok(rest) => Ok::<Seq<TokenModel>, Seq<char>>(seq![token_model(p.0)] + rest),
                Err(e) => Err::<Seq<TokenModel>, Seq<char>>(e),
            }),
            Err(e) => parse_from(s@, i as int) == Err::<Seq<TokenModel>, Seq<char>>(e.message@),
        },
    decreases s@.len(), 1nat,
{
    let c = s.get_char(i);
    if c != '$' {
        let j = scan_next_dollar(s, i, n);
        proof {
            lemma_next_dollar_bounds(s@, i as int);
        }
        let text = String::from_str(s.substring_char(i, j));
        return Ok((Token::Lit(text), j));
    }
    if i + 1 < n && s.get_char(i + 1) == '{' {
        return parse_braced_at(s, i, n);
    }
    if i + 1 < n && ident_start_c(s.get_char(i + 1)) {
        let j = scan_ident_end(s, i + 2, n);
        let name = String::from_str(s.substring_char(i + 1, j));
        return Ok((Token::Ref(name, None), j));
    }
    let tok = Token::Lit(String::from_str("$"));
    proof {
        reveal_strlit("$");
        assert("$"@ =~= seq!['$']);
    }
    Ok((tok, i + 1))
}

/// Parse a braced reference starting at `i`.
fn parse_braced_at(s: &str, i: usize, n: usize) -> (r: Result<(Token, usize), ParseError>)
    requires
        n == s@.len(),
        i + 1 < n,
        s@[i as int] == '$',
        s@[i as int + 1] == '{',
    ensures
        match r {
            Ok(p) => i < p.1 <= n && parse_from(s@, i as int) == (match parse_from(
                s@,
                p.1 as int,
            ) {
                Ok(rest) => Ok::<Seq<TokenModel>, Seq<char>>(seq![token_model(p.0)] + rest),
                Err(e) => Err::<Seq<TokenModel>, Seq<char>>(e),
            }),
            Err(e) => parse_from(s@, i as int) == Err::<Seq<TokenModel>, Seq<char>>(e.message@),
        },
    decreases s@.len(), 0nat,
{
    proof {
        assert(parse_from(s@, i as int) == parse_braced(s@, i as int));
    }
    let ns = i + 2;
    if ns >= n || !ident_start_c(s.get_char(ns)) {
        return Err(parse_error(s, i, n));
    }
    let ne = scan_ident_end(s, ns + 1, n);
    let name = String::from_str(s.substring_char(ns, ne));
    if ne >= n {
        return Err(parse_error(s, i, n));
    }
    let nc = s.get_char(ne);
    if nc == '}' {
        return Ok((Token::Ref(name, None), ne + 1));
    }
    let p = if nc == ':' {
        Presence::DefinedNonEmpty
    } else {
        Presence::Defined
    };
    let si = if nc == ':' {
        ne + 1
    } else {
        ne
    };
    if si >= n {
        return Err(parse_error(s, i, n));
    }
    let sig = s.get_char(si);
    if !(sig == '-' || sig == '?' || sig == '+') {
        return Err(parse_error(s, i, n));
    }
    let close = match scan_find_close(s, si + 1, n) {
        Some(c) => c,
        None => {
            return Err(parse_error(s, i, n));
        },
    };
    let inner_text = s.substring_char(si + 1, close);
    let inner = match parse(inner_text) {
        Ok(ts) => ts,
        Err(e) => {
            return Err(e);
        },
    };
    let op = if sig == '-' {
        Op::Fallback(p, inner)
    } else if sig == '?' {
        Op::Require(p, inner)
    } else {
        Op::Replace(p, inner)
    };
    Ok((Token::Ref(name, Some(op)), close + 1))
}

/// Parse a whole scalar into tokens. Succeeds exactly when every
/// variable reference in it is well formed; the tokens are the model
/// the parser grammar gives the text.
pub fn parse(s: &str) -> (r: Result<Vec<Token>, ParseError>)
    ensures
        match r {
            Ok(ts) => parse_from(s@, 0) == Ok::<Seq<TokenModel>, Seq<char>>(tokens_model(ts@)),
            Err(e) => parse_from(s@, 0) == Err::<Seq<TokenModel>, Seq<char>>(e.message@),
        },
    decreases s@.len(), 2nat,
{
    let n = s.unicode_len();
    let mut acc: Vec<Token> = Vec::new();
    let mut i: usize = 0;
    proof {
        assert(tokens_model(acc@) =~= Seq::<TokenModel>::empty());
    }
    while i < n
        invariant
            i <= n,
            n == s@.len(),
            match parse_from(s@, i as int) {
                Ok(rest) => parse_from(s@, 0) == Ok::<Seq<TokenModel>, Seq<char>>(
                    tokens_model(acc@) + rest,
                ),
                Err(e) => parse_from(s@, 0) == Err::<Seq<TokenModel>, Seq<char>>(e),
            },
        decreases n - i,
    {
        let ghost acc_pre = acc@;
        match parse_one(s, i, n) {
            Ok((tok, next)) => {
                acc.push(tok);
                proof {
                    assert(acc@.drop_last() =~= acc_pre);
                    assert(tokens_model(acc@) =~= tokens_model(acc_pre).push(token_model(tok)));
                    if parse_from(s@, next as int) is Ok {
                        let rest = parse_from(s@, next as int)->Ok_0;
                        assert(tokens_model(acc_pre) + (seq![token_model(tok)] + rest) =~= tokens_model(
                            acc@,
                        ) + rest);
                    }
                }
                i = next;
            },
            Err(e) => {
                return Err(e);
            },
        }
    }
    proof {
        assert(tokens_model(acc@) + Seq::<TokenModel>::empty() =~= tokens_model(acc@));
    }
    Ok(acc)
}

} // verus!
