use vstd::prelude::*;
use crate::constants::NEG_ONE_BITS;
use crate::error::{Error, ErrorV};
use crate::functions::Args;
use crate::numerics::{parse_literal, parsed_lit};
use crate::resolve::{fn_known, resolve_fn, resolve_var, var_known};
use crate::scope::{Scope, VariableV};
use crate::tokens::{tokens_view, Function, Number, Operator, Token, TokenList, TokenV};
use crate::util::{consume_while, str_chars};
use crate::value::Value;

verus! {

// The lexer: whitespace is stripped first, then one left-to-right scan.
// Identifier-and-number runs are cut out first, then resolved; single
// characters become operator tokens with a little context (unary minus,
// compound comparisons); implicit multiplication is inserted between
// adjacent operands.

/// Whether a character is alphabetic in Unicode's sense.
pub uninterp spec fn is_alpha(c: char) -> bool;

/// An ASCII letter, by code point: `A` to `Z` or `a` to `z`.
pub open spec fn is_ascii_letter(c: char) -> bool {
    (65 <= c as u32 && c as u32 <= 90) || (97 <= c as u32 && c as u32 <= 122)
}

/// Relies on char::is_alphabetic: a fixed classification per character; on
/// ASCII it holds exactly for the letters.
pub assume_specification[ char::is_alphabetic ](c: char) -> (r: bool)
    ensures
        r == is_alpha(c),
        is_ascii_letter(c) ==> r,
        (c as u32) < 128 && !is_ascii_letter(c) ==> !r,
;

/// Whether a character is alphanumeric in Unicode's sense.
pub uninterp spec fn is_alnum(c: char) -> bool;

/// Relies on char::is_alphanumeric: a fixed classification per character;
/// it covers everything alphabetic, and on ASCII it holds exactly for the
/// letters and digits.
pub assume_specification[ char::is_alphanumeric ](c: char) -> (r: bool)
    ensures
        r == is_alnum(c),
        is_alpha(c) ==> r,
        is_ascii_letter(c) ==> r,
        is_digit_char(c) ==> r,
        (c as u32) < 128 && !is_ascii_letter(c) && !is_digit_char(c) ==> !r,
;

/// A decimal digit, by code point: `0` to `9`.
pub open spec fn is_digit_char(c: char) -> bool {
    48 <= c as u32 && c as u32 <= 57
}

/// An alphabetic character. On ASCII this is decided outright (exactly
/// the letters, as char::is_alphabetic's documentation fixes); beyond
/// ASCII it is the named Unicode classification.
pub open spec fn is_letter_char(c: char) -> bool {
    if (c as u32) < 128 {
        is_ascii_letter(c)
    } else {
        is_alpha(c)
    }
}

/// A character that may continue an identifier-and-number run. On ASCII
/// this is decided outright (letters, digits, underscore, dot); beyond
/// ASCII it follows the named Unicode classification.
pub open spec fn is_word_char(c: char) -> bool {
    if (c as u32) < 128 {
        is_ascii_letter(c) || is_digit_char(c) || c == '_' || c == '.'
    } else {
        is_alnum(c) || c == '_' || c == '.'
    }
}

/// Where the run of word characters starting at `i` ends.
pub open spec fn word_run_end(s: Seq<char>, i: int) -> int
    decreases s.len() - i when 0 <= i <= s.len()
{
    if 0 <= i < s.len() && is_word_char(s[i]) {
        word_run_end(s, i + 1)
    } else {
        i
    }
}

/// Where the run of digits and dots starting at `i` ends.
pub open spec fn digit_run_end(s: Seq<char>, i: int) -> int
    decreases s.len() - i when 0 <= i <= s.len()
{
    if 0 <= i < s.len() && (is_digit_char(s[i]) || s[i] == '.') {
        digit_run_end(s, i + 1)
    } else {
        i
    }
}

/// Where the run of alphabetic characters starting at `i` ends.
pub open spec fn alpha_run_end(s: Seq<char>, i: int) -> int
    decreases s.len() - i when 0 <= i <= s.len()
{
    if 0 <= i < s.len() && is_letter_char(s[i]) {
        alpha_run_end(s, i + 1)
    } else {
        i
    }
}

pub proof fn lemma_word_run_end(s: Seq<char>, i: int, j: int)
    requires
        0 <= i <= j <= s.len(),
        forall|k: int| i <= k < j ==> is_word_char(#[trigger] s[k]),
        j < s.len() ==> !is_word_char(s[j]),
    ensures
        word_run_end(s, i) == j,
    decreases j - i,
{
    if i < j {
        lemma_word_run_end(s, i + 1, j);
    }
}

pub proof fn lemma_digit_run_end(s: Seq<char>, i: int, j: int)
    requires
        0 <= i <= j <= s.len(),
        forall|k: int| i <= k < j ==> is_digit_char(#[trigger] s[k]) || s[k] == '.',
        j < s.len() ==> !(is_digit_char(s[j]) || s[j] == '.'),
    ensures
        digit_run_end(s, i) == j,
    decreases j - i,
{
    if i < j {
        lemma_digit_run_end(s, i + 1, j);
    }
}

proof fn lemma_alpha_run_end(s: Seq<char>, i: int, j: int)
    requires
        0 <= i <= j <= s.len(),
        forall|k: int| i <= k < j ==> is_letter_char(#[trigger] s[k]),
        j < s.len() ==> !is_letter_char(s[j]),
    ensures
        alpha_run_end(s, i) == j,
    decreases j - i,
{
    if i < j {
        lemma_alpha_run_end(s, i + 1, j);
    }
}

/// What one non-word character does to the token stream. A minus after a
/// comma, an opening parenthesis, a function, an operator or nothing is a
/// negation: minus one times what follows. `>=`, `<=` and `!=` collapse
/// onto the token just pushed; a repeated `=` changes nothing. An opening
/// parenthesis right after a closing one multiplies. Anything
/// unrecognized is passed over.
pub open spec fn spec_char_step(c: char, acc: Seq<TokenV>) -> Seq<TokenV> {
    if c == '+' {
        acc.push(TokenV::Operator(Operator::Add))
    } else if c == '-' {
        if acc.len() == 0 || (acc.last() matches TokenV::Comma) || (
        acc.last() matches TokenV::LeftParenthesis) || (acc.last() matches TokenV::Function(_))
            || (acc.last() matches TokenV::Operator(_)) {
            acc.push(TokenV::Number(NEG_ONE_BITS)).push(TokenV::Operator(Operator::Multiply))
        } else {
            acc.push(TokenV::Operator(Operator::Substract))
        }
    } else if c == '*' {
        acc.push(TokenV::Operator(Operator::Multiply))
    } else if c == '/' {
        acc.push(TokenV::Operator(Operator::Divide))
    } else if c == '^' {
        acc.push(TokenV::Operator(Operator::Exponentiate))
    } else if c == '>' {
        acc.push(TokenV::Operator(Operator::IsGreaterThan))
    } else if c == '<' {
        acc.push(TokenV::Operator(Operator::IsLessThan))
    } else if c == '=' {
        if acc.len() > 0 && acc.last() == TokenV::Operator(Operator::Not) {
            acc.drop_last().push(TokenV::Operator(Operator::IsNotEqualTo))
        } else if acc.len() > 0 && acc.last() == TokenV::Operator(Operator::IsGreaterThan) {
            acc.drop_last().push(TokenV::Operator(Operator::IsGreaterThanOrEqualTo))
        } else if acc.len() > 0 && acc.last() == TokenV::Operator(Operator::IsLessThan) {
            acc.drop_last().push(TokenV::Operator(Operator::IsLessThanOrEqualTo))
        } else if acc.len() > 0 && acc.last() == TokenV::Operator(Operator::IsEqualTo) {
            acc
        } else {
            acc.push(TokenV::Operator(Operator::IsEqualTo))
        }
    } else if c == '(' {
        if acc.len() > 0 && (acc.last() matches TokenV::RightParenthesis) {
            acc.push(TokenV::Operator(Operator::Multiply)).push(TokenV::LeftParenthesis)
        } else {
            acc.push(TokenV::LeftParenthesis)
        }
    } else if c == ')' {
        acc.push(TokenV::RightParenthesis)
    } else if c == ',' {
        acc.push(TokenV::Comma)
    } else if c == '!' {
        acc.push(TokenV::Operator(Operator::Not))
    } else {
        acc
    }
}

/// Turns one non-word character into its token, pushing or reshaping
/// context directly where the rules ask for it; the returned token, if
/// any, is for the caller to push.
fn get_token(ch: char, t: &mut Vec<Token>) -> (r: Option<Token>)
    ensures
        match r {
            Some(tok) => tokens_view(final(t)@).push(tok@) == spec_char_step(
                ch,
                tokens_view(old(t)@),
            ),
            None => tokens_view(final(t)@) == spec_char_step(ch, tokens_view(old(t)@)),
        },
{
    let ghost acc = tokens_view(t@);
    let n = t.len();
    match ch {
        '+' => Some(Token::Operator(Operator::Add)),
        '-' => {
            let neg_position = if n == 0 {
                true
            } else {
                match &t[n - 1] {
                    Token::Comma => true,
                    Token::LeftParenthesis => true,
                    Token::Function(_) => true,
                    Token::Operator(_) => true,
                    _ => false,
                }
            };
            if neg_position {
                let ghost before = t@;
                t.push(Token::Number(Number::new(NEG_ONE_BITS)));
                proof {
                    assert(tokens_view(t@) =~= tokens_view(before).push(
                        TokenV::Number(NEG_ONE_BITS),
                    ));
                }
                let ghost mid = t@;
                t.push(Token::Operator(Operator::Multiply));
                proof {
                    assert(tokens_view(t@) =~= tokens_view(mid).push(
                        TokenV::Operator(Operator::Multiply),
                    ));
                }
                None
            } else {
                Some(Token::Operator(Operator::Substract))
            }
        },
        '*' => Some(Token::Operator(Operator::Multiply)),
        '/' => Some(Token::Operator(Operator::Divide)),
        '^' => Some(Token::Operator(Operator::Exponentiate)),
        '>' => Some(Token::Operator(Operator::IsGreaterThan)),
        '<' => Some(Token::Operator(Operator::IsLessThan)),
        '=' => {
            let last_kind: u8 = if n == 0 {
                0
            } else {
                match &t[n - 1] {
                    Token::Operator(Operator::Not) => 1,
                    Token::Operator(Operator::IsGreaterThan) => 2,
                    Token::Operator(Operator::IsLessThan) => 3,
                    Token::Operator(Operator::IsEqualTo) => 4,
                    _ => 0,
                }
            };
            if last_kind == 1 {
                let ghost before = t@;
                let _ = t.pop();
                proof {
                    assert(tokens_view(t@) =~= tokens_view(before).drop_last());
                }
                Some(Token::Operator(Operator::IsNotEqualTo))
            } else if last_kind == 2 {
                let ghost before = t@;
                let _ = t.pop();
                proof {
                    assert(tokens_view(t@) =~= tokens_view(before).drop_last());
                }
                Some(Token::Operator(Operator::IsGreaterThanOrEqualTo))
            } else if last_kind == 3 {
                let ghost before = t@;
                let _ = t.pop();
                proof {
                    assert(tokens_view(t@) =~= tokens_view(before).drop_last());
                }
                Some(Token::Operator(Operator::IsLessThanOrEqualTo))
            } else if last_kind == 4 {
                None
            } else {
                Some(Token::Operator(Operator::IsEqualTo))
            }
        },
        '(' => {
            let after_close = if n == 0 {
                false
            } else {
                match &t[n - 1] {
                    Token::RightParenthesis => true,
                    _ => false,
                }
            };
            if after_close {
                let ghost before = t@;
                t.push(Token::Operator(Operator::Multiply));
                proof {
                    assert(tokens_view(t@) =~= tokens_view(before).push(
                        TokenV::Operator(Operator::Multiply),
                    ));
                }
            }
            Some(Token::LeftParenthesis)
        },
        ')' => Some(Token::RightParenthesis),
        ',' => Some(Token::Comma),
        '!' => Some(Token::Operator(Operator::Not)),
        _ => None,
    }
}

/// A run end never lies before its start nor past the text.
proof fn lemma_digit_run_end_ge(s: Seq<char>, i: int)
    requires
        0 <= i <= s.len(),
    ensures
        i <= digit_run_end(s, i) <= s.len(),
    decreases s.len() - i,
{
    if i < s.len() && (is_digit_char(s[i]) || s[i] == '.') {
        lemma_digit_run_end_ge(s, i + 1);
    }
}

proof fn lemma_alpha_run_end_ge(s: Seq<char>, i: int)
    requires
        0 <= i <= s.len(),
    ensures
        i <= alpha_run_end(s, i) <= s.len(),
    decreases s.len() - i,
{
    if i < s.len() && is_letter_char(s[i]) {
        lemma_alpha_run_end_ge(s, i + 1);
    }
}

proof fn lemma_word_run_end_ge(s: Seq<char>, i: int)
    requires
        0 <= i <= s.len(),
    ensures
        i <= word_run_end(s, i) <= s.len(),
    decreases s.len() - i,
{
    if i < s.len() && is_word_char(s[i]) {
        lemma_word_run_end_ge(s, i + 1);
    }
}

/// The end of the longest prefix of `s[b..c]` that names a known
/// variable, scanning candidate ends downward from `c`; `b` when no
/// prefix resolves.
pub open spec fn longest_known_end(
    s: Seq<char>,
    m: Map<Seq<char>, VariableV>,
    b: int,
    c: int,
) -> int
    decreases c - b when b <= c
{
    if c > b {
        if var_known(s.subrange(b, c), m) {
            c
        } else {
            longest_known_end(s, m, b, c - 1)
        }
    } else {
        b
    }
}

/// The longest known end stays within its candidate range.
proof fn lemma_longest_known_end_bounds(s: Seq<char>, m: Map<Seq<char>, VariableV>, b: int, c: int)
    requires
        b <= c,
    ensures
        b <= longest_known_end(s, m, b, c) <= c,
    decreases c - b,
{
    if c > b && !var_known(s.subrange(b, c), m) {
        lemma_longest_known_end_bounds(s, m, b, c - 1);
    }
}

/// How an alphabetic run splits against the known names, greedily: at each
/// position the longest prefix that names a known constant or Scope
/// variable is emitted, and the split restarts after it; a position where
/// no prefix resolves gives up one single-letter variable. A
/// multiplication joins every emitted variable to what follows.
pub open spec fn spec_resolve_vars(
    s: Seq<char>,
    m: Map<Seq<char>, VariableV>,
    b: int,
    to: int,
    acc: Seq<TokenV>,
) -> Seq<TokenV>
    decreases to - b when b <= to via spec_resolve_vars_dec
{
    if b < to {
        let e = longest_known_end(s, m, b, to);
        if e > b {
            spec_resolve_vars(
                s,
                m,
                e,
                to,
                acc.push(TokenV::Variable(s.subrange(b, e))).push(
                    TokenV::Operator(Operator::Multiply),
                ),
            )
        } else {
            spec_resolve_vars(
                s,
                m,
                b + 1,
                to,
                acc.push(TokenV::Variable(s.subrange(b, b + 1))).push(
                    TokenV::Operator(Operator::Multiply),
                ),
            )
        }
    } else {
        acc
    }
}

#[via_fn]
proof fn spec_resolve_vars_dec(
    s: Seq<char>,
    m: Map<Seq<char>, VariableV>,
    b: int,
    to: int,
    acc: Seq<TokenV>,
) {
    if b < to {
        lemma_longest_known_end_bounds(s, m, b, to);
    }
}

/// Splits an alphabetic run into variable tokens against the known names,
/// the longest known name winning at each position.
fn resolve_vars<F: Fn(Args) -> Result<Value, Error>>(
    expr: &str,
    chars: &Vec<char>,
    from: usize,
    to: usize,
    scope: &Scope<F>,
    tokens: &mut Vec<Token>,
)
    requires
        chars@ == expr@,
        from <= to <= chars@.len(),
    ensures
        tokens_view(final(tokens)@) == spec_resolve_vars(
            expr@,
            scope@,
            from as int,
            to as int,
            tokens_view(old(tokens)@),
        ),
{
    let ghost s = expr@;
    let ghost m = scope@;
    let ghost acc0 = tokens_view(tokens@);
    let mut b = from;
    while b < to
        invariant
            chars@ == expr@,
            s == expr@,
            m == scope@,
            acc0 == tokens_view(old(tokens)@),
            from <= b <= to <= chars@.len(),
            spec_resolve_vars(s, m, from as int, to as int, acc0) == spec_resolve_vars(
                s,
                m,
                b as int,
                to as int,
                tokens_view(tokens@),
            ),
        decreases to - b,
    {
        let mut c = to;
        while c > b
            invariant
                chars@ == expr@,
                s == expr@,
                m == scope@,
                b < to <= chars@.len(),
                b <= c <= to,
                longest_known_end(s, m, b as int, to as int) == longest_known_end(
                    s,
                    m,
                    b as int,
                    c as int,
                ),
                forall|d: int| c < d <= to ==> !var_known(s.subrange(b as int, d), m),
            ensures
                b <= c <= to,
                c == longest_known_end(s, m, b as int, to as int),
                c > b ==> var_known(s.subrange(b as int, c as int), m),
            decreases c,
        {
            let name = expr.substring_char(b, c).to_owned();
            let known = match resolve_var(name.as_str(), scope) {
                Ok(_) => true,
                Err(_) => false,
            };
            if known {
                break;
            }
            c -= 1;
        }
        if c > b {
            let name = expr.substring_char(b, c).to_owned();
            let ghost before = tokens@;
            tokens.push(Token::Variable(name));
            proof {
                assert(tokens_view(tokens@) =~= tokens_view(before).push(
                    TokenV::Variable(s.subrange(b as int, c as int)),
                ));
            }
            let ghost mid = tokens@;
            tokens.push(Token::Operator(Operator::Multiply));
            proof {
                assert(tokens_view(tokens@) =~= tokens_view(mid).push(
                    TokenV::Operator(Operator::Multiply),
                ));
            }
            b = c;
        } else {
            let single = expr.substring_char(b, b + 1).to_owned();
            let ghost before = tokens@;
            tokens.push(Token::Variable(single));
            proof {
                assert(tokens_view(tokens@) =~= tokens_view(before).push(
                    TokenV::Variable(s.subrange(b as int, b + 1)),
                ));
            }
            let ghost mid = tokens@;
            tokens.push(Token::Operator(Operator::Multiply));
            proof {
                assert(tokens_view(tokens@) =~= tokens_view(mid).push(
                    TokenV::Operator(Operator::Multiply),
                ));
            }
            b += 1;
        }
    }
}

/// The tokens of one identifier-and-number run: digit-and-dot stretches
/// become number literals, alphabetic stretches split against the known
/// names (the longest known name winning), anything else in the run is
/// passed over; a multiplication follows each operand, joining it to its
/// neighbour.
pub open spec fn spec_parse_implicit(
    s: Seq<char>,
    m: Map<Seq<char>, VariableV>,
    k: int,
    to: int,
    acc: Seq<TokenV>,
) -> Result<Seq<TokenV>, ErrorV>
    decreases s.len() - k when 0 <= k <= s.len() && to <= s.len() via spec_parse_implicit_dec
{
    if k < 0 || k >= to {
        Ok(acc)
    } else if is_digit_char(s[k]) || s[k] == '.' {
        let e = digit_run_end(s, k);
        match parsed_lit(s.subrange(k, e)) {
            Some(bits) => spec_parse_implicit(
                s,
                m,
                e,
                to,
                acc.push(TokenV::Number(bits)).push(TokenV::Operator(Operator::Multiply)),
            ),
            None => Err(ErrorV::InvalidToken(s.subrange(k, e))),
        }
    } else if is_letter_char(s[k]) {
        let e = alpha_run_end(s, k);
        spec_parse_implicit(s, m, e, to, spec_resolve_vars(s, m, k, e, acc))
    } else {
        spec_parse_implicit(s, m, k + 1, to, acc)
    }
}

#[via_fn]
proof fn spec_parse_implicit_dec(
    s: Seq<char>,
    m: Map<Seq<char>, VariableV>,
    k: int,
    to: int,
    acc: Seq<TokenV>,
) {
    if 0 <= k < to {
        if is_digit_char(s[k]) || s[k] == '.' {
            lemma_digit_run_end_ge(s, k + 1);
        } else if is_letter_char(s[k]) {
            lemma_alpha_run_end_ge(s, k + 1);
        }
    }
}

/// Whether a character may continue an identifier-and-number run.
fn word_char(c: char) -> (b: bool)
    ensures
        b == is_word_char(c),
{
    let u = c as u32;
    c.is_alphanumeric() || u == 95 || c == '.'
}

/// Whether a character may continue a numeric literal.
fn digit_or_dot(c: char) -> (b: bool)
    ensures
        b == (is_digit_char(c) || c == '.'),
{
    let u = c as u32;
    (48 <= u && u <= 57) || c == '.'
}

/// Whether a character is alphabetic.
fn alpha_char(c: char) -> (b: bool)
    ensures
        b == is_letter_char(c),
{
    c.is_alphabetic()
}

/// Turns one identifier-and-number run into tokens.
fn parse_implicit<F: Fn(Args) -> Result<Value, Error>>(
    expr: &str,
    chars: &Vec<char>,
    from: usize,
    to: usize,
    scope: &Scope<F>,
    tokens: &mut Vec<Token>,
) -> (r: Result<(), Error>)
    requires
        chars@ == expr@,
        from <= to <= chars@.len(),
    ensures
        match spec_parse_implicit(
            expr@,
            scope@,
            from as int,
            to as int,
            tokens_view(old(tokens)@),
        ) {
            Ok(ts) => r is Ok && tokens_view(final(tokens)@) == ts,
            Err(e) => r matches Err(er) && er@ == e,
        },
{
    let ghost s = expr@;
    let ghost m = scope@;
    let ghost acc0 = tokens_view(tokens@);
    let mut k = from;
    while k < to
        invariant
            chars@ == expr@,
            s == expr@,
            m == scope@,
            from <= k <= chars@.len(),
            to <= chars@.len(),
            acc0 == tokens_view(old(tokens)@),
            spec_parse_implicit(s, m, from as int, to as int, acc0) == spec_parse_implicit(
                s,
                m,
                k as int,
                to as int,
                tokens_view(tokens@),
            ),
        decreases chars@.len() - k,
    {
        let c = chars[k];
        let cu = c as u32;
        if (48 <= cu && cu <= 57) || c == '.' {
            let e = consume_while(chars, k, digit_or_dot);
            proof {
                assert forall|x: int| k <= x < e implies (is_digit_char(#[trigger] s[x]) || s[x]
                    == '.') by {
                    assert(call_ensures(digit_or_dot, (s[x],), true));
                }
                if e < chars@.len() {
                    assert(call_ensures(digit_or_dot, (s[e as int],), false));
                }
                lemma_digit_run_end(s, k as int, e as int);
            }
            let lit = expr.substring_char(k, e).to_owned();
            match parse_literal(lit.as_str()) {
                Some(bits) => {
                    let ghost before = tokens@;
                    tokens.push(Token::Number(Number::new(bits)));
                    proof {
                        assert(tokens_view(tokens@) =~= tokens_view(before).push(
                            TokenV::Number(bits),
                        ));
                    }
                    let ghost mid = tokens@;
                    tokens.push(Token::Operator(Operator::Multiply));
                    proof {
                        assert(tokens_view(tokens@) =~= tokens_view(mid).push(
                            TokenV::Operator(Operator::Multiply),
                        ));
                    }
                    k = e;
                },
                None => {
                    return Err(Error::InvalidToken(lit));
                },
            }
        } else if c.is_alphabetic() {
            let e = consume_while(chars, k, alpha_char);
            proof {
                assert forall|x: int| k <= x < e implies is_letter_char(#[trigger] s[x]) by {
                    assert(call_ensures(alpha_char, (s[x],), true));
                }
                if e < chars@.len() {
                    assert(call_ensures(alpha_char, (s[e as int],), false));
                }
                lemma_alpha_run_end(s, k as int, e as int);
            }
            resolve_vars(expr, chars, k, e, scope, tokens);
            k = e;
        } else {
            k += 1;
        }
    }
    Ok(())
}

/// The tokens of a whole expression, from position `i` on with `acc`
/// already produced: each identifier-and-number run is cut out and either
/// recognized as a function call (a known function name right before an
/// opening parenthesis, which is consumed with it) or handed to
/// `spec_parse_implicit` (with its trailing multiplication dropped unless
/// an opening parenthesis follows); either way a multiplication joins the
/// run to a closing parenthesis just before it; every other character
/// steps by `spec_char_step`.
pub open spec fn spec_tokenize_from(
    s: Seq<char>,
    m: Map<Seq<char>, VariableV>,
    i: int,
    acc: Seq<TokenV>,
) -> Result<Seq<TokenV>, ErrorV>
    decreases s.len() - i when 0 <= i <= s.len() via spec_tokenize_from_dec
{
    if i < 0 || i >= s.len() {
        Ok(acc)
    } else {
        let j = word_run_end(s, i);
        if j > i {
            let acc1 = if acc.len() > 0 && (acc.last() matches TokenV::RightParenthesis) {
                acc.push(TokenV::Operator(Operator::Multiply))
            } else {
                acc
            };
            if j < s.len() && s[j] == '(' && fn_known(s.subrange(i, j), m) {
                spec_tokenize_from(s, m, j + 1, acc1.push(TokenV::Function(s.subrange(i, j))))
            } else {
                match spec_parse_implicit(s, m, i, j, acc1) {
                    Err(e) => Err(e),
                    Ok(acc2) => {
                        let acc3 = if !(j < s.len() && s[j] == '(') && acc2.len() > acc1.len() {
                            acc2.drop_last()
                        } else {
                            acc2
                        };
                        if j >= s.len() {
                            Ok(acc3)
                        } else {
                            spec_tokenize_from(s, m, j + 1, spec_char_step(s[j], acc3))
                        }
                    },
                }
            }
        } else {
            spec_tokenize_from(s, m, i + 1, spec_char_step(s[i], acc))
        }
    }
}

#[via_fn]
proof fn spec_tokenize_from_dec(
    s: Seq<char>,
    m: Map<Seq<char>, VariableV>,
    i: int,
    acc: Seq<TokenV>,
) {
    if 0 <= i < s.len() {
        lemma_word_run_end_ge(s, i);
    }
}

/// What tokenizing a whole expression yields.
pub open spec fn spec_tokenize(s: Seq<char>, m: Map<Seq<char>, VariableV>) -> Result<
    Seq<TokenV>,
    ErrorV,
> {
    spec_tokenize_from(s, m, 0, Seq::empty())
}

/// A whitespace character: blank, tab or a line break.
pub open spec fn is_space_char(c: char) -> bool {
    c == ' ' || c == '\t' || c == '\n' || c == '\r'
}

/// The text with every whitespace character taken out.
pub open spec fn strip_spaces(s: Seq<char>) -> Seq<char>
    decreases s.len(),
{
    if s.len() == 0 {
        Seq::empty()
    } else {
        let rest = strip_spaces(s.drop_last());
        if is_space_char(s.last()) {
            rest
        } else {
            rest.push(s.last())
        }
    }
}

/// A text without whitespace is its own stripped form.
pub proof fn lemma_strip_spaces_space_free(s: Seq<char>)
    requires
        forall|k: int| 0 <= k < s.len() ==> !is_space_char(#[trigger] s[k]),
    ensures
        strip_spaces(s) == s,
    decreases s.len(),
{
    if s.len() > 0 {
        lemma_strip_spaces_space_free(s.drop_last());
        assert(strip_spaces(s.drop_last()).push(s.last()) =~= s);
    }
}

/// Takes every whitespace character out of a text.
fn strip_spaces_exec(expr: &str) -> (r: String)
    ensures
        r@ == strip_spaces(expr@),
{
    let n = expr.unicode_len();
    let mut out = String::new();
    let mut i: usize = 0;
    while i < n
        invariant
            n == expr@.len(),
            0 <= i <= n,
            out@ == strip_spaces(expr@.take(i as int)),
        decreases n - i,
    {
        proof {
            assert(expr@.take(i + 1).drop_last() =~= expr@.take(i as int));
            assert(expr@.take(i + 1).last() == expr@[i as int]);
        }
        let c = expr.get_char(i);
        if !(c == ' ' || c == '\t' || c == '\n' || c == '\r') {
            let piece = expr.substring_char(i, i + 1);
            let ghost before = out@;
            out.append(piece);
            proof {
                assert(out@ =~= before.push(expr@[i as int]));
            }
        }
        i += 1;
    }
    proof {
        assert(expr@.take(n as int) =~= expr@);
    }
    out
}

/// Turns an expression text into its token list: whitespace is stripped
/// before scanning, and the Scope is consulted only to tell names apart;
/// the one failure is a numeric run that is no valid literal.
pub fn tokenize<F: Fn(Args) -> Result<Value, Error>>(expr: &str, scope: &Scope<F>) -> (r: Result<
    TokenList,
    Error,
>)
    ensures
        match spec_tokenize(strip_spaces(expr@), scope@) {
            Ok(ts) => r matches Ok(v) && tokens_view(v@) == ts,
            Err(e) => r matches Err(er) && er@ == e,
        },
{
    let stripped = strip_spaces_exec(expr);
    scan_tokens(stripped.as_str(), scope)
}

/// Scans a whitespace-free text into its token list.
fn scan_tokens<F: Fn(Args) -> Result<Value, Error>>(expr: &str, scope: &Scope<F>) -> (r: Result<
    TokenList,
    Error,
>)
    ensures
        match spec_tokenize(expr@, scope@) {
            Ok(ts) => r matches Ok(v) && tokens_view(v@) == ts,
            Err(e) => r matches Err(er) && er@ == e,
        },
{
    let ghost s = expr@;
    let ghost m = scope@;
    let chars = str_chars(expr);
    let mut tokens: Vec<Token> = Vec::new();
    proof {
        assert(tokens_view(tokens@) =~= Seq::<TokenV>::empty());
    }
    let n = chars.len();
    let mut i: usize = 0;
    while i < n
        invariant
            chars@ == expr@,
            s == expr@,
            m == scope@,
            n == chars@.len(),
            0 <= i <= n,
            spec_tokenize_from(s, m, 0, Seq::empty()) == spec_tokenize_from(
                s,
                m,
                i as int,
                tokens_view(tokens@),
            ),
        decreases n - i,
    {
        let j = consume_while(&chars, i, word_char);
        proof {
            assert forall|x: int| i <= x < j implies is_word_char(#[trigger] s[x]) by {
                assert(call_ensures(word_char, (s[x],), true));
            }
            if j < chars@.len() {
                assert(call_ensures(word_char, (s[j as int],), false));
            }
            lemma_word_run_end(s, i as int, j as int);
        }
        let mut did_fn = false;
        if j > i {
            let name = expr.substring_char(i, j).to_owned();
            let is_fn_call = if j < n {
                if chars[j] == '(' {
                    match resolve_fn(name.as_str(), scope) {
                        Ok(_) => true,
                        Err(_) => false,
                    }
                } else {
                    false
                }
            } else {
                false
            };
            let after_close = if tokens.len() > 0 {
                match &tokens[tokens.len() - 1] {
                    Token::RightParenthesis => true,
                    _ => false,
                }
            } else {
                false
            };
            if after_close {
                let ghost before = tokens@;
                tokens.push(Token::Operator(Operator::Multiply));
                proof {
                    assert(tokens_view(tokens@) =~= tokens_view(before).push(
                        TokenV::Operator(Operator::Multiply),
                    ));
                }
            }
            if is_fn_call {
                let ghost before = tokens@;
                tokens.push(Token::Function(Function::new(name)));
                proof {
                    assert(tokens_view(tokens@) =~= tokens_view(before).push(
                        TokenV::Function(s.subrange(i as int, j as int)),
                    ));
                }
                did_fn = true;
            } else {
                let len1 = tokens.len();
                match parse_implicit(expr, &chars, i, j, scope, &mut tokens) {
                    Ok(()) => (),
                    Err(e) => {
                        return Err(e);
                    },
                }
                let next_is_paren = j < n && chars[j] == '(';
                if !next_is_paren && tokens.len() > len1 {
                    let ghost before = tokens@;
                    let _ = tokens.pop();
                    proof {
                        assert(tokens_view(tokens@) =~= tokens_view(before).drop_last());
                    }
                }
            }
        }
        if did_fn {
            i = j + 1;
        } else if j < n {
            let ghost before_step = tokens_view(tokens@);
            match get_token(chars[j], &mut tokens) {
                Some(tok) => {
                    let ghost tv = tok@;
                    let ghost b2 = tokens@;
                    tokens.push(tok);
                    proof {
                        assert(tokens_view(tokens@) =~= tokens_view(b2).push(tv));
                    }
                },
                None => (),
            }
            i = j + 1;
        } else {
            i = j;
        }
    }
    Ok(tokens)
}

} // verus!
