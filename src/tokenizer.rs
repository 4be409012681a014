use vstd::prelude::*;
use vstd::string::{StrSliceExecFns, StringExecFns};
use std::collections::VecDeque;
use crate::parser::{strip_trailing_comment, trim, trimmed, without_comment};
use crate::lex::{run_len, white};
use crate::syntax::{token_of, Token, TokenModel};

verus! {

/// The models of a sequence of tokens.
pub open spec fn token_models(v: Seq<Token>) -> Seq<TokenModel> {
    v.map_values(|t: Token| t@)
}

// ---------------------------------------------------------------------------
// Splitting a run of text that is no token as a whole.
// ---------------------------------------------------------------------------

/// The token that the first `n` characters of `s` spell.
pub open spec fn prefix_token(s: Seq<char>, n: int) -> Option<TokenModel> {
    token_of(s.subrange(0, n))
}

/// The shortest prefix of `s`, of length `k + 1` or more, that spells a token: its length less one.
pub open spec fn first_ok(s: Seq<char>, k: nat) -> Option<nat>
    decreases s.len() - k,
{
    if k + 1 > s.len() {
        None
    } else if prefix_token(s, k + 1 as int) is Some {
        Some(k)
    } else {
        first_ok(s, k + 1)
    }
}

/// How many more characters after the first `n` keep spelling a token, one by one.
pub open spec fn run_extra(s: Seq<char>, n: nat) -> nat
    decreases s.len() - n,
{
    if n + 1 <= s.len() && prefix_token(s, n + 1 as int) is Some {
        1 + run_extra(s, n + 1)
    } else {
        0
    }
}

/// The tokens of a run of text: the shortest prefix that spells a token, grown while each longer
/// prefix still spells one, then the same on what is left. Text where no prefix spells a token
/// gives none.
pub open spec fn nested(s: Seq<char>) -> Seq<TokenModel>
    decreases s.len(),
{
    match first_ok(s, 0) {
        None => Seq::empty(),
        Some(d) => {
            let m = d + 1 + run_extra(s, d + 1);
            if m <= s.len() {
                seq![prefix_token(s, m as int)->0] + nested(s.subrange(m as int, s.len() as int))
            } else {
                Seq::empty()
            }
        },
    }
}

fn prefix_parse(s: &str, n: usize) -> (r: Result<Token, String>)
    requires
        n <= s@.len(),
    ensures
        r matches Ok(t) ==> prefix_token(s@, n as int) == Some(t@),
        r is Err <==> prefix_token(s@, n as int) is None,
{
    Token::parse_token(s.substring_char(0, n))
}

/// The first token of `s` as `nested` finds it, with the length of text it takes.
fn first_token(s: &str) -> (r: Option<(Token, usize)>)
    ensures
        match r {
            None => first_ok(s@, 0) is None,
            Some((t, m)) => first_ok(s@, 0) matches Some(d) && m == d + 1 + run_extra(s@, d + 1) && m <= s@.len()
                && prefix_token(s@, m as int) == Some(t@),
        },
{
    let len = s.unicode_len();
    let mut k: usize = 0;
    let mut found: Option<Token> = None;
    while k < len
        invariant_except_break
            found is None,
        invariant
            len == s@.len(),
            k <= len,
            first_ok(s@, 0) == first_ok(s@, k as nat),
        ensures
            k <= len,
            match found {
                None => first_ok(s@, 0) is None,
                Some(t) => first_ok(s@, 0) == Some(k as nat) && k < len && prefix_token(s@, k + 1) == Some(t@),
            },
        decreases len - k,
    {
        match prefix_parse(s, k + 1) {
            Ok(t) => {
                found = Some(t);
                break;
            },
            Err(_) => {},
        }
        k = k + 1;
    }
    let mut tok = match found {
        Some(t) => t,
        None => return None,
    };
    let ghost d = k as nat;
    let mut m: usize = k + 1;
    while m < len
        invariant
            len == s@.len(),
            d + 1 <= m <= len,
            prefix_token(s@, m as int) == Some(tok@),
            run_extra(s@, d + 1) == (m - (d + 1)) + run_extra(s@, m as nat),
        ensures
            d + 1 <= m <= len,
            prefix_token(s@, m as int) == Some(tok@),
            run_extra(s@, d + 1) == m - (d + 1),
        decreases len - m,
    {
        match prefix_parse(s, m + 1) {
            Ok(t) => {
                tok = t;
                m = m + 1;
            },
            Err(_) => {
                break;
            },
        }
    }
    Some((tok, m))
}

/// Splits text that is no token as a whole into the tokens it holds.
pub fn nested_tokenize(nested_string: &str) -> (r: Vec<Token>)
    ensures
        token_models(r@) == nested(nested_string@),
    decreases nested_string@.len(),
{
    match first_token(nested_string) {
        None => Vec::new(),
        Some((t, m)) => {
            let len = nested_string.unicode_len();
            let rest = nested_string.substring_char(m, len);
            let mut tail = nested_tokenize(rest);
            let mut tokens = vec![t];
            let ghost t0 = tokens@;
            let ghost t1 = tail@;
            tokens.append(&mut tail);
            assert(token_models(tokens@) =~= token_models(t0) + token_models(t1));
            assert(token_models(tokens@) =~= nested(nested_string@));
            tokens
        },
    }
}

// ---------------------------------------------------------------------------
// Splitting a line into pieces: quoted runs and runs of non-whitespace.
// ---------------------------------------------------------------------------

/// Relies on `char::is_whitespace`: whether `c` has the Unicode White_Space property.
#[verifier::external_body]
fn is_white(c: char) -> (r: bool)
    ensures
        r == white(c),
{
    c.is_whitespace()
}

/// The characters from `k` up to and including the first `q`, if one comes before a line break.
pub open spec fn quote_len(l: Seq<char>, k: nat, q: char) -> Option<nat>
    decreases l.len() - k,
{
    if k >= l.len() {
        None
    } else if l[k as int] == q {
        Some(1)
    } else if l[k as int] == '\n' {
        None
    } else {
        match quote_len(l, k + 1, q) {
            Some(n) => Some(n + 1),
            None => None,
        }
    }
}

/// Where the piece starting at `p` ends: after the closing quote of a quoted run, or else after
/// the run of non-whitespace.
pub open spec fn piece_end(l: Seq<char>, p: nat) -> nat {
    let q = l[p as int];
    if (q == '\'' || q == '"') && quote_len(l, p + 1, q) is Some {
        p + 1 + quote_len(l, p + 1, q)->0
    } else {
        p + 1 + run_len(l, p + 1)
    }
}

/// The pieces of `l` from `p` on, whitespace between them skipped.
pub open spec fn pieces(l: Seq<char>, p: nat) -> Seq<Seq<char>>
    decreases l.len() - p,
{
    if p >= l.len() {
        Seq::empty()
    } else if white(l[p as int]) {
        pieces(l, p + 1)
    } else {
        let e = piece_end(l, p);
        if e <= l.len() {
            seq![l.subrange(p as int, e as int)] + pieces(l, e)
        } else {
            Seq::empty()
        }
    }
}

/// The tokens of one piece: the token it spells, or those `nested` finds in it.
pub open spec fn piece_tokens(piece: Seq<char>) -> Seq<TokenModel> {
    match token_of(piece) {
        Some(t) => seq![t],
        None => nested(piece),
    }
}

pub open spec fn pieces_tokens(ps: Seq<Seq<char>>) -> Seq<TokenModel>
    decreases ps.len(),
{
    if ps.len() == 0 {
        Seq::empty()
    } else {
        piece_tokens(ps[0]) + pieces_tokens(ps.drop_first())
    }
}

/// The tokens of a clean line.
pub open spec fn line_tokens(l: Seq<char>) -> Seq<TokenModel> {
    pieces_tokens(pieces(l, 0))
}

fn scan_quote(l: &str, k: usize, q: char) -> (r: Option<usize>)
    requires
        k <= l@.len(),
    ensures
        match r {
            Some(n) => quote_len(l@, k as nat, q) == Some(n as nat) && k + n <= l@.len(),
            None => quote_len(l@, k as nat, q) is None,
        },
    decreases l@.len() - k,
{
    if k >= l.unicode_len() {
        None
    } else {
        let c = l.get_char(k);
        if c == q {
            Some(1)
        } else if c == '\n' {
            None
        } else {
            match scan_quote(l, k + 1, q) {
                Some(n) => Some(n + 1),
                None => None,
            }
        }
    }
}

fn scan_run(l: &str, k: usize) -> (r: usize)
    requires
        k <= l@.len(),
    ensures
        r == run_len(l@, k as nat),
        k + r <= l@.len(),
    decreases l@.len() - k,
{
    if k >= l.unicode_len() || is_white(l.get_char(k)) {
        0
    } else {
        1 + scan_run(l, k + 1)
    }
}

fn piece_tokenize(piece: &str) -> (r: Vec<Token>)
    ensures
        token_models(r@) == piece_tokens(piece@),
{
    match Token::parse_token(piece) {
        Ok(t) => {
            let r = vec![t];
            assert(token_models(r@) =~= piece_tokens(piece@));
            r
        },
        Err(_) => nested_tokenize(piece),
    }
}

/// The tokens of a clean line, piece by piece.
pub fn tokenize_line(line: &str) -> (r: Vec<Token>)
    ensures
        token_models(r@) == line_tokens(line@),
{
    let len = line.unicode_len();
    let mut out: Vec<Token> = Vec::new();
    let mut p: usize = 0;
    while p < len
        invariant
            len == line@.len(),
            p <= len,
            token_models(out@) + pieces_tokens(pieces(line@, p as nat)) == line_tokens(line@),
        decreases len - p,
    {
        let c = line.get_char(p);
        if is_white(c) {
            p = p + 1;
        } else {
            let mut e = p + 1 + scan_run(line, p + 1);
            if c == '\'' || c == '"' {
                match scan_quote(line, p + 1, c) {
                    Some(n) => {
                        e = p + 1 + n;
                    },
                    None => {},
                }
            }
            assert(e == piece_end(line@, p as nat));
            let piece = line.substring_char(p, e);
            let mut more = piece_tokenize(piece);
            let ghost before = out@;
            let ghost added = more@;
            let ghost ps = pieces(line@, p as nat);
            assert(ps == seq![piece@] + pieces(line@, e as nat));
            assert(ps.drop_first() =~= pieces(line@, e as nat));
            out.append(&mut more);
            assert(token_models(out@) =~= token_models(before) + token_models(added));
            assert(token_models(out@) + pieces_tokens(pieces(line@, e as nat)) =~= token_models(before)
                + pieces_tokens(ps));
            p = e;
        }
    }
    assert(token_models(out@) =~= token_models(out@) + pieces_tokens(pieces(line@, p as nat)));
    out
}

// ---------------------------------------------------------------------------
// Lines.
// ---------------------------------------------------------------------------

/// A line trimmed, then cut before its comment.
pub open spec fn cleaned(line: Seq<char>) -> Seq<char> {
    without_comment(trimmed(line))
}

pub fn clean_line(line: &str) -> (r: String)
    ensures
        r@ == cleaned(line@),
{
    let trimmed_line = trim(line);
    strip_trailing_comment(trimmed_line.as_str())
}

/// Whether a line holds code once cleaned.
pub open spec fn code_line(l: Seq<char>) -> bool {
    l.len() > 0 && cleaned(l).len() > 0
}

/// The first line at or after `k` that holds code; the number of lines if none does.
pub open spec fn next_code(ls: Seq<Seq<char>>, k: nat) -> nat
    decreases ls.len() - k,
{
    if k >= ls.len() {
        ls.len()
    } else if code_line(ls[k as int]) {
        k
    } else {
        next_code(ls, k + 1)
    }
}

/// What one `advance` does from line `pos` with tokens `pending` still to hand out: it hands out
/// `r` and leaves line `pos2` and tokens `pending2`.
pub open spec fn advanced(
    ls: Seq<Seq<char>>,
    pos: nat,
    pending: Seq<TokenModel>,
    r: Option<TokenModel>,
    pos2: nat,
    pending2: Seq<TokenModel>,
) -> bool {
    if pending.len() > 0 {
        r == Some(pending[0]) && pending2 == pending.drop_first() && pos2 == pos
    } else {
        let i = next_code(ls, pos);
        if i >= ls.len() {
            r is None && pos2 == ls.len() && pending2.len() == 0
        } else {
            let toks = line_tokens(cleaned(ls[i as int]));
            &&& pos2 == i + 1
            &&& if toks.len() > 0 {
                r == Some(toks[0]) && pending2 == toks.drop_first()
            } else {
                r is None && pending2.len() == 0
            }
        }
    }
}

pub open spec fn opt_token(t: Option<Token>) -> Option<TokenModel> {
    match t {
        Some(t) => Some(t@),
        None => None,
    }
}

/// Produces the Jack tokens of a sequence of source lines, one line at a time.
pub struct Tokenizer {
    lines: Vec<String>,
    next_line: usize,
    cur_tokens: VecDeque<Token>,
}

impl Tokenizer {
    /// The source lines.
    pub closed spec fn lines(&self) -> Seq<Seq<char>> {
        self.lines@.map_values(|s: String| s@)
    }

    /// The next line to read.
    pub closed spec fn position(&self) -> nat {
        self.next_line as nat
    }

    /// The tokens of the current line not yet handed out.
    pub closed spec fn pending(&self) -> Seq<TokenModel> {
        token_models(self.cur_tokens@)
    }

    pub closed spec fn wf(&self) -> bool {
        self.next_line <= self.lines@.len()
    }

    pub fn new(lines: Vec<String>) -> (r: Tokenizer)
        ensures
            r.wf(),
            r.lines() == lines@.map_values(|s: String| s@),
            r.position() == 0,
            r.pending() == Seq::<TokenModel>::empty(),
    {
        let r = Tokenizer { lines, next_line: 0, cur_tokens: VecDeque::new() };
        assert(r.pending() =~= Seq::<TokenModel>::empty());
        r
    }

    /// The next line that holds code, cleaned; `None` when no such line is left.
    fn take_until_valid_line(&mut self) -> (r: Option<String>)
        requires
            old(self).wf(),
        ensures
            final(self).wf(),
            final(self).lines@ == old(self).lines@,
            final(self).cur_tokens@ == old(self).cur_tokens@,
            ({
                let i = next_code(old(self).lines(), old(self).position());
                match r {
                    Some(c) => i < old(self).lines().len() && final(self).position() == i + 1 && c@ == cleaned(
                        old(self).lines()[i as int],
                    ),
                    None => i >= old(self).lines().len() && final(self).position() == old(self).lines().len(),
                }
            }),
    {
        let ghost ls = self.lines();
        while self.next_line < self.lines.len()
            invariant
                self.lines@ == old(self).lines@,
                ls == self.lines(),
                self.cur_tokens@ == old(self).cur_tokens@,
                self.next_line <= self.lines@.len(),
                next_code(ls, old(self).position()) == next_code(ls, self.next_line as nat),
            decreases self.lines@.len() - self.next_line,
        {
            let i = self.next_line;
            self.next_line = i + 1;
            let line = self.lines[i].as_str();
            assert(line@ == ls[i as int]);
            if line.unicode_len() > 0 {
                let clean = clean_line(line);
                if clean.as_str().unicode_len() > 0 {
                    return Some(clean);
                }
            }
        }
        None
    }

    /// The next token: from the current line while it has any, else from the next line that holds
    /// code. `None` when no line is left, or when that next line holds no token.
    pub fn advance(&mut self) -> (r: Option<Token>)
        requires
            old(self).wf(),
        ensures
            final(self).wf(),
            final(self).lines() == old(self).lines(),
            advanced(
                old(self).lines(),
                old(self).position(),
                old(self).pending(),
                opt_token(r),
                final(self).position(),
                final(self).pending(),
            ),
    {
        if self.cur_tokens.len() == 0 {
            match self.take_until_valid_line() {
                Some(line) => {
                    let mut tokens = tokenize_line(line.as_str());
                    let ghost all = tokens@;
                    let ghost pos1 = self.next_line;
                    assert(self.cur_tokens@ =~= all.subrange(tokens@.len() as int, all.len() as int));
                    while tokens.len() > 0
                        invariant
                            self.wf(),
                            self.lines@ == old(self).lines@,
                            self.next_line == pos1,
                            tokens@.len() <= all.len(),
                            tokens@ == all.subrange(0, tokens@.len() as int),
                            self.cur_tokens@ == all.subrange(tokens@.len() as int, all.len() as int),
                        decreases tokens@.len(),
                    {
                        let t = tokens.pop().unwrap();
                        self.cur_tokens.push_front(t);
                        assert(self.cur_tokens@ =~= all.subrange(tokens@.len() as int, all.len() as int));
                        assert(tokens@ =~= all.subrange(0, tokens@.len() as int));
                    }
                    assert(self.cur_tokens@ =~= all);
                    assert(self.pending() == line_tokens(cleaned(old(self).lines()[self.next_line - 1])));
                },
                None => {
                    return None;
                },
            }
        }
        let ghost before = self.cur_tokens@;
        let r = self.cur_tokens.pop_front();
        proof {
            if before.len() > 0 {
                assert(self.pending() =~= token_models(before).drop_first());
                assert(token_models(before)[0] == before[0]@);
                assert(opt_token(r) == Some(token_models(before)[0]));
            } else {
                assert(self.pending() =~= Seq::<TokenModel>::empty());
            }
        }
        r
    }
}

} // verus!
