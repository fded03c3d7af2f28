use vstd::prelude::*;
use vstd::string::*;
use crate::boolean::Relation;
use crate::text::{same, views};

verus! {

/// A piece of a written expression or condition.
#[derive(Clone, Debug, PartialEq)]
pub enum Token {
    /// A number as it is written.
    Number(String),
    /// A name.
    Name(String),
    /// One of `+ - * / ^ ( ) ,`.
    Symbol(char),
    /// One of `.eq. .neq. .lt. .leq. .gt. .geq.`.
    Relation(Relation),
    /// `.and.`
    And,
    /// `.or.`
    Or,
}

pub enum TokenV {
    Number(Seq<char>),
    Name(Seq<char>),
    Symbol(char),
    Relation(Relation),
    And,
    Or,
}

impl DeepView for Token {
    type V = TokenV;

    open spec fn deep_view(&self) -> TokenV {
        match self {
            Token::Number(s) => TokenV::Number(s@),
            Token::Name(s) => TokenV::Name(s@),
            Token::Symbol(c) => TokenV::Symbol(*c),
            Token::Relation(r) => TokenV::Relation(*r),
            Token::And => TokenV::And,
            Token::Or => TokenV::Or,
        }
    }
}

impl View for Token {
    type V = TokenV;

    open spec fn view(&self) -> TokenV {
        self.deep_view()
    }
}

pub open spec fn is_digit(c: char) -> bool {
    '0' <= c <= '9'
}

pub open spec fn is_letter(c: char) -> bool {
    ('a' <= c <= 'z') || ('A' <= c <= 'Z') || c == '_'
}

pub open spec fn is_space(c: char) -> bool {
    c == ' ' || c == '\t' || c == '\n' || c == '\r'
}

pub open spec fn is_symbol(c: char) -> bool {
    c == '+' || c == '-' || c == '*' || c == '/' || c == '^' || c == '(' || c == ')' || c == ','
}

/// Where the digits that start at `pos` end.
pub open spec fn digits_end(s: Seq<char>, pos: int) -> int
    decreases s.len() - pos,
{
    if 0 <= pos < s.len() && is_digit(s[pos]) {
        digits_end(s, pos + 1)
    } else {
        pos
    }
}

/// Where the letters that start at `pos` end.
pub open spec fn letters_end(s: Seq<char>, pos: int) -> int
    decreases s.len() - pos,
{
    if 0 <= pos < s.len() && is_letter(s[pos]) {
        letters_end(s, pos + 1)
    } else {
        pos
    }
}

/// Where the letters and digits that start at `pos` end.
pub open spec fn word_end(s: Seq<char>, pos: int) -> int
    decreases s.len() - pos,
{
    if 0 <= pos < s.len() && (is_letter(s[pos]) || is_digit(s[pos])) {
        word_end(s, pos + 1)
    } else {
        pos
    }
}

/// Whether a number starts at `pos`: with a digit, or with a point and a
/// digit.
pub open spec fn starts_number(s: Seq<char>, pos: int) -> bool {
    0 <= pos < s.len() && (is_digit(s[pos]) || (s[pos] == '.' && pos + 1 < s.len() && is_digit(
        s[pos + 1],
    )))
}

/// Where the fraction ends that may follow the digits that end at `a`: a
/// point and one digit or more.
pub open spec fn fraction_end(s: Seq<char>, a: int) -> int {
    if 0 <= a < s.len() && s[a] == '.' && digits_end(s, a + 1) > a + 1 {
        digits_end(s, a + 1)
    } else {
        a
    }
}

/// Where the exponent ends that may follow the mantissa that ends at `b`:
/// `e` or `E`, a sign or none, and one digit or more.
pub open spec fn exponent_end(s: Seq<char>, b: int) -> int {
    if 0 <= b < s.len() && (s[b] == 'e' || s[b] == 'E') {
        let d = if b + 1 < s.len() && (s[b + 1] == '+' || s[b + 1] == '-') {
            b + 2
        } else {
            b + 1
        };
        if digits_end(s, d) > d {
            digits_end(s, d)
        } else {
            b
        }
    } else {
        b
    }
}

/// Where the number that starts at `pos` ends: digits, a fraction or none,
/// an exponent or none.
pub open spec fn number_end(s: Seq<char>, pos: int) -> int {
    exponent_end(s, fraction_end(s, digits_end(s, pos)))
}

/// What a word between two points stands for.
pub open spec fn dotted(word: Seq<char>) -> Option<TokenV> {
    if word == "eq"@ {
        Some(TokenV::Relation(Relation::Eq))
    } else if word == "neq"@ {
        Some(TokenV::Relation(Relation::Ne))
    } else if word == "lt"@ {
        Some(TokenV::Relation(Relation::Lt))
    } else if word == "leq"@ {
        Some(TokenV::Relation(Relation::Le))
    } else if word == "gt"@ {
        Some(TokenV::Relation(Relation::Gt))
    } else if word == "geq"@ {
        Some(TokenV::Relation(Relation::Ge))
    } else if word == "and"@ {
        Some(TokenV::And)
    } else if word == "or"@ {
        Some(TokenV::Or)
    } else {
        None
    }
}

/// The tokens with `t` before them.
pub open spec fn after(t: TokenV, rest: Option<Seq<TokenV>>) -> Option<Seq<TokenV>> {
    match rest {
        Some(r) => Some(seq![t] + r),
        None => None,
    }
}

/// The tokens of `s` from `pos` on. Blanks separate tokens and are no
/// tokens; a character that starts no token makes the text unreadable.
pub open spec fn lexed(s: Seq<char>, pos: int) -> Option<Seq<TokenV>>
    decreases s.len() - pos,
{
    if !(0 <= pos < s.len()) {
        Some(Seq::empty())
    } else if is_space(s[pos]) {
        lexed(s, pos + 1)
    } else if is_symbol(s[pos]) {
        after(TokenV::Symbol(s[pos]), lexed(s, pos + 1))
    } else if starts_number(s, pos) {
        let e = number_end(s, pos);
        if pos < e <= s.len() {
            after(TokenV::Number(s.subrange(pos, e)), lexed(s, e))
        } else {
            None
        }
    } else if is_letter(s[pos]) {
        let e = word_end(s, pos);
        if pos < e <= s.len() {
            after(TokenV::Name(s.subrange(pos, e)), lexed(s, e))
        } else {
            None
        }
    } else if s[pos] == '.' {
        let e = letters_end(s, pos + 1);
        if pos < e < s.len() && s[e] == '.' {
            match dotted(s.subrange(pos + 1, e)) {
                Some(t) => after(t, lexed(s, e + 1)),
                None => None,
            }
        } else {
            None
        }
    } else {
        None
    }
}

/// The tokens of a text.
pub open spec fn tokens_of(text: Seq<char>) -> Option<Seq<TokenV>> {
    lexed(text, 0)
}

/// The numbers among the tokens, as they are written, in order.
pub open spec fn numbers_among(ts: Seq<TokenV>) -> Seq<Seq<char>>
    decreases ts.len(),
{
    if ts.len() == 0 {
        Seq::empty()
    } else {
        match ts.last() {
            TokenV::Number(t) => numbers_among(ts.drop_last()).push(t),
            _ => numbers_among(ts.drop_last()),
        }
    }
}

/// The numbers that a text holds, as they are written; none where the text
/// cannot be read.
pub open spec fn literals_of(text: Seq<char>) -> Seq<Seq<char>> {
    match tokens_of(text) {
        Some(ts) => numbers_among(ts),
        None => Seq::empty(),
    }
}

/// Runs of digits, letters and words end at or after their start and within
/// the text.
pub proof fn lemma_runs(s: Seq<char>, pos: int)
    requires
        0 <= pos <= s.len(),
    ensures
        pos <= digits_end(s, pos) <= s.len(),
        pos <= letters_end(s, pos) <= s.len(),
        pos <= word_end(s, pos) <= s.len(),
    decreases s.len() - pos,
{
    if pos < s.len() {
        lemma_runs(s, pos + 1);
    }
}

/// A number ends after its start and within the text.
pub proof fn lemma_number_end(s: Seq<char>, pos: int)
    requires
        starts_number(s, pos),
    ensures
        pos < number_end(s, pos) <= s.len(),
{
    lemma_runs(s, pos);
    let a = digits_end(s, pos);
    if a + 1 <= s.len() {
        lemma_runs(s, a + 1);
    }
    let b = fraction_end(s, a);
    if is_digit(s[pos]) {
        lemma_runs(s, pos + 1);
    } else {
        assert(a == pos);
        lemma_runs(s, pos + 1);
        lemma_runs(s, pos + 2);
        assert(digits_end(s, pos + 1) == digits_end(s, pos + 2));
    }
    assert(pos < b <= s.len());
    if b + 1 <= s.len() {
        lemma_runs(s, b + 1);
    }
    if b + 2 <= s.len() {
        lemma_runs(s, b + 2);
    }
}

pub fn digit(c: char) -> (r: bool)
    ensures
        r == is_digit(c),
{
    c >= '0' && c <= '9'
}

pub fn letter(c: char) -> (r: bool)
    ensures
        r == is_letter(c),
{
    (c >= 'a' && c <= 'z') || (c >= 'A' && c <= 'Z') || c == '_'
}

pub fn space(c: char) -> (r: bool)
    ensures
        r == is_space(c),
{
    c == ' ' || c == '\t' || c == '\n' || c == '\r'
}

pub fn symbol(c: char) -> (r: bool)
    ensures
        r == is_symbol(c),
{
    c == '+' || c == '-' || c == '*' || c == '/' || c == '^' || c == '(' || c == ')' || c == ','
}

/// Where the digits that start at `pos` end.
pub fn scan_digits(s: &str, pos: usize) -> (r: usize)
    requires
        pos <= s@.len(),
    ensures
        r == digits_end(s@, pos as int),
        pos <= r <= s@.len(),
{
    let n = s.unicode_len();
    let mut i: usize = pos;
    while i < n
        invariant
            pos <= i <= n,
            n == s@.len(),
            digits_end(s@, pos as int) == digits_end(s@, i as int),
        decreases n - i,
    {
        if !digit(s.get_char(i)) {
            return i;
        }
        i += 1;
    }
    i
}

/// Where the letters that start at `pos` end.
pub fn scan_letters(s: &str, pos: usize) -> (r: usize)
    requires
        pos <= s@.len(),
    ensures
        r == letters_end(s@, pos as int),
        pos <= r <= s@.len(),
{
    let n = s.unicode_len();
    let mut i: usize = pos;
    while i < n
        invariant
            pos <= i <= n,
            n == s@.len(),
            letters_end(s@, pos as int) == letters_end(s@, i as int),
        decreases n - i,
    {
        if !letter(s.get_char(i)) {
            return i;
        }
        i += 1;
    }
    i
}

/// Where the letters and digits that start at `pos` end.
pub fn scan_word(s: &str, pos: usize) -> (r: usize)
    requires
        pos <= s@.len(),
    ensures
        r == word_end(s@, pos as int),
        pos <= r <= s@.len(),
{
    let n = s.unicode_len();
    let mut i: usize = pos;
    while i < n
        invariant
            pos <= i <= n,
            n == s@.len(),
            word_end(s@, pos as int) == word_end(s@, i as int),
        decreases n - i,
    {
        let c = s.get_char(i);
        if !(letter(c) || digit(c)) {
            return i;
        }
        i += 1;
    }
    i
}

/// Where the number that starts at `pos` ends.
pub fn scan_number(s: &str, pos: usize) -> (r: usize)
    requires
        starts_number(s@, pos as int),
    ensures
        r == number_end(s@, pos as int),
        pos < r <= s@.len(),
{
    proof {
        lemma_number_end(s@, pos as int);
    }
    let n = s.unicode_len();
    let a = scan_digits(s, pos);
    let mut b = a;
    if a < n && s.get_char(a) == '.' {
        let f = scan_digits(s, a + 1);
        if f > a + 1 {
            b = f;
        }
    }
    let mut c = b;
    if b < n && (s.get_char(b) == 'e' || s.get_char(b) == 'E') {
        let d = if b + 1 < n && (s.get_char(b + 1) == '+' || s.get_char(b + 1) == '-') {
            b + 2
        } else {
            b + 1
        };
        let x = scan_digits(s, d);
        if x > d {
            c = x;
        }
    }
    c
}

/// What a word between two points stands for.
pub fn read_dotted(word: &str) -> (r: Option<Token>)
    ensures
        r.deep_view() == dotted(word@),
{
    if same(word, "eq") {
        Some(Token::Relation(Relation::Eq))
    } else if same(word, "neq") {
        Some(Token::Relation(Relation::Ne))
    } else if same(word, "lt") {
        Some(Token::Relation(Relation::Lt))
    } else if same(word, "leq") {
        Some(Token::Relation(Relation::Le))
    } else if same(word, "gt") {
        Some(Token::Relation(Relation::Gt))
    } else if same(word, "geq") {
        Some(Token::Relation(Relation::Ge))
    } else if same(word, "and") {
        Some(Token::And)
    } else if same(word, "or") {
        Some(Token::Or)
    } else {
        None
    }
}

/// What the tokens so far and the tokens to come make together.
pub open spec fn joined(done: Seq<TokenV>, rest: Option<Seq<TokenV>>) -> Option<Seq<TokenV>> {
    match rest {
        Some(r) => Some(done + r),
        None => None,
    }
}

/// The tokens of a text.
pub fn tokens(text: &str) -> (r: Option<Vec<Token>>)
    ensures
        r.deep_view() == tokens_of(text@),
{
    let n = text.unicode_len();
    let mut out: Vec<Token> = Vec::new();
    let mut i: usize = 0;
    assert(joined(out.deep_view(), lexed(text@, 0)) == lexed(text@, 0)) by {
        match lexed(text@, 0) {
            Some(r) => {
                assert(out.deep_view() + r =~= r);
            },
            None => {},
        }
    }
    while i < n
        invariant
            i <= n,
            n == text@.len(),
            tokens_of(text@) == joined(out.deep_view(), lexed(text@, i as int)),
        decreases n - i,
    {
        let ghost before = out.deep_view();
        let c = text.get_char(i);
        let next: usize;
        if space(c) {
            next = i + 1;
        } else {
            let token: Token;
            if symbol(c) {
                token = Token::Symbol(c);
                next = i + 1;
            } else if digit(c) || (c == '.' && i + 1 < n && digit(text.get_char(i + 1))) {
                let e = scan_number(text, i);
                token = Token::Number(text.substring_char(i, e).to_owned());
                next = e;
            } else if letter(c) {
                proof {
                    lemma_runs(text@, i as int);
                    lemma_runs(text@, i + 1);
                }
                let e = scan_word(text, i);
                token = Token::Name(text.substring_char(i, e).to_owned());
                next = e;
            } else if c == '.' {
                let e = scan_letters(text, i + 1);
                if e < n && text.get_char(e) == '.' {
                    match read_dotted(text.substring_char(i + 1, e)) {
                        Some(t) => {
                            token = t;
                            next = e + 1;
                        },
                        None => {
                            return None;
                        },
                    }
                } else {
                    return None;
                }
            } else {
                return None;
            }
            let ghost t = token@;
            out.push(token);
            proof {
                assert(out.deep_view() =~= before.push(t));
                match lexed(text@, next as int) {
                    Some(r) => {
                        assert(before + (seq![t] + r) =~= before.push(t) + r);
                    },
                    None => {},
                }
            }
        }
        i = next;
    }
    assert(out.deep_view() + Seq::<TokenV>::empty() =~= out.deep_view());
    Some(out)
}

/// The numbers among the tokens, as they are written, in order.
pub fn numbers_in(ts: &Vec<Token>) -> (r: Vec<String>)
    ensures
        views(r@) == numbers_among(ts.deep_view()),
{
    let mut out: Vec<String> = Vec::new();
    let ghost all = ts.deep_view();
    let mut i: usize = 0;
    assert(all.subrange(0, 0) =~= Seq::<TokenV>::empty());
    assert(views(out@) =~= Seq::<Seq<char>>::empty());
    while i < ts.len()
        invariant
            i <= ts.len(),
            all == ts.deep_view(),
            views(out@) == numbers_among(all.subrange(0, i as int)),
        decreases ts.len() - i,
    {
        let ghost before = views(out@);
        assert(all.subrange(0, i + 1).drop_last() =~= all.subrange(0, i as int));
        assert(all.subrange(0, i + 1).last() == ts@[i as int]@);
        match &ts[i] {
            Token::Number(t) => {
                out.push(t.clone());
                assert(views(out@) =~= before.push(t@));
            },
            _ => {},
        }
        i += 1;
    }
    assert(all.subrange(0, ts.len() as int) =~= all);
    out
}

/// The numbers that a text holds, as they are written.
pub fn literals(text: &str) -> (r: Vec<String>)
    ensures
        views(r@) == literals_of(text@),
{
    match tokens(text) {
        Some(ts) => numbers_in(&ts),
        None => {
            let out: Vec<String> = Vec::new();
            assert(views(out@) =~= Seq::<Seq<char>>::empty());
            out
        },
    }
}

} // verus!
