use vstd::prelude::*;
use crate::lexer::keywords::{Keyword, keyword_of, spec_keyword_of};
use crate::lexer::tokens::{LexerError, TokenKind, TokenM, TokenResult, token_results_view};
use crate::util::{chars_of, string_push};

verus! {

/// What `char::is_whitespace` returns: the Unicode `White_Space` property,
/// which holds of these code points.
pub open spec fn spec_is_whitespace(c: char) -> bool {
    let u = c as u32;
    ||| 0x9 <= u <= 0xD
    ||| u == 0x20
    ||| u == 0x85
    ||| u == 0xA0
    ||| u == 0x1680
    ||| 0x2000 <= u <= 0x200A
    ||| u == 0x2028
    ||| u == 0x2029
    ||| u == 0x202F
    ||| u == 0x205F
    ||| u == 0x3000
}

/// What `char::is_alphabetic` returns: the Unicode `Alphabetic` property.
pub uninterp spec fn spec_is_alphabetic(c: char) -> bool;

/// What `char::is_numeric` returns: the Unicode general categories for numbers.
pub uninterp spec fn spec_is_numeric(c: char) -> bool;

/// `char::is_whitespace`, which std documents as the `White_Space` property.
#[verifier::external_body]
fn char_is_whitespace(c: char) -> (r: bool)
    ensures
        r == spec_is_whitespace(c),
{
    c.is_whitespace()
}

/// `char::is_alphabetic`; its result is named, as the Unicode tables decide it.
#[verifier::external_body]
fn char_is_alphabetic(c: char) -> (r: bool)
    ensures
        r == spec_is_alphabetic(c),
{
    c.is_alphabetic()
}

/// `char::is_numeric`; its result is named, as the Unicode tables decide it.
#[verifier::external_body]
fn char_is_numeric(c: char) -> (r: bool)
    ensures
        r == spec_is_numeric(c),
{
    c.is_numeric()
}

/// The classes of the characters of an input, one entry for each
/// character: whitespace, alphabetic, numeric. A character that is
/// alphabetic or numeric is alphanumeric, as std documents
/// `char::is_alphanumeric`.
pub struct Classes {
    pub ws: Seq<bool>,
    pub alpha: Seq<bool>,
    pub num: Seq<bool>,
}

/// The classes that std gives the characters of `s`.
pub open spec fn classes_of(s: Seq<char>) -> Classes {
    Classes {
        ws: s.map_values(|c: char| spec_is_whitespace(c)),
        alpha: s.map_values(|c: char| spec_is_alphabetic(c)),
        num: s.map_values(|c: char| spec_is_numeric(c)),
    }
}

/// One class entry for each character.
pub open spec fn classes_fit(s: Seq<char>, cl: Classes) -> bool {
    cl.ws.len() == s.len() && cl.alpha.len() == s.len() && cl.num.len() == s.len()
}

/// The first position at or after `i` that does not hold whitespace.
pub open spec fn skip_whitespace(s: Seq<char>, cl: Classes, i: int) -> int
    decreases s.len() - i,
{
    if 0 <= i < s.len() && cl.ws[i] {
        skip_whitespace(s, cl, i + 1)
    } else {
        i
    }
}

/// The end of the run of alphanumeric characters that starts at `i`.
pub open spec fn scan_alphanumeric(s: Seq<char>, cl: Classes, i: int) -> int
    decreases s.len() - i,
{
    if 0 <= i < s.len() && (cl.alpha[i] || cl.num[i]) {
        scan_alphanumeric(s, cl, i + 1)
    } else {
        i
    }
}

/// The end of the run of numeric characters that starts at `i`.
pub open spec fn scan_numeric(s: Seq<char>, cl: Classes, i: int) -> int
    decreases s.len() - i,
{
    if 0 <= i < s.len() && cl.num[i] {
        scan_numeric(s, cl, i + 1)
    } else {
        i
    }
}

/// The token that starts at `i` (where no whitespace stands) and the position
/// after it; `None` at the end of the input.
///
/// A word of letters and digits that starts with a letter is a keyword or an
/// identifier; digits, optionally followed by a dot and more digits, form a
/// number; any other character is an operator on its own.
pub open spec fn token_at(s: Seq<char>, cl: Classes, i: int) -> Option<(TokenM, int)> {
    if i < 0 || i >= s.len() {
        None
    } else if cl.alpha[i] {
        let j = scan_alphanumeric(s, cl, i);
        let w = s.subrange(i, j);
        match spec_keyword_of(w) {
            Some(k) => Some((TokenM::Keyword(k), j)),
            None => Some((TokenM::Identifier(w), j)),
        }
    } else if cl.num[i] {
        let j = scan_numeric(s, cl, i);
        if j < s.len() && s[j] == '.' {
            let k = scan_numeric(s, cl, j + 1);
            Some((TokenM::Number(s.subrange(i, k)), k))
        } else {
            Some((TokenM::Number(s.subrange(i, j)), j))
        }
    } else {
        Some((TokenM::Op(s[i]), i + 1))
    }
}

/// The next token from position `i`, after any whitespace.
pub open spec fn next_token_spec(s: Seq<char>, cl: Classes, i: int) -> Option<(TokenM, int)> {
    token_at(s, cl, skip_whitespace(s, cl, i))
}

/// All tokens from position `i` to the end of the input.
pub open spec fn tokens_from(s: Seq<char>, cl: Classes, i: int) -> Seq<TokenM>
    decreases s.len() - i,
{
    match next_token_spec(s, cl, i) {
        None => Seq::empty(),
        Some((t, j)) => if i < j <= s.len() {
            seq![t] + tokens_from(s, cl, j)
        } else {
            Seq::empty()
        },
    }
}

/// A token stream in which every item is `Ok`.
pub open spec fn ok_tokens(s: Seq<TokenM>) -> Seq<Result<TokenM, LexerError>> {
    s.map_values(|t: TokenM| Ok::<TokenM, LexerError>(t))
}

/// The tokens of a whole input, by the classes that std gives its characters.
pub open spec fn spec_tokenize(s: Seq<char>) -> Seq<TokenM> {
    tokens_from(s, classes_of(s), 0)
}

proof fn lemma_skip_whitespace(s: Seq<char>, cl: Classes, i: int)
    requires
        0 <= i <= s.len(),
    ensures
        i <= skip_whitespace(s, cl, i) <= s.len(),
        forall|k: int| i <= k < skip_whitespace(s, cl, i) ==> #[trigger] cl.ws[k],
        skip_whitespace(s, cl, i) < s.len() ==> !cl.ws[skip_whitespace(s, cl, i)],
    decreases s.len() - i,
{
    if i < s.len() && cl.ws[i] {
        lemma_skip_whitespace(s, cl, i + 1);
    }
}

proof fn lemma_scan_alphanumeric(s: Seq<char>, cl: Classes, i: int)
    requires
        0 <= i <= s.len(),
    ensures
        i <= scan_alphanumeric(s, cl, i) <= s.len(),
        i < s.len() && (cl.alpha[i] || cl.num[i]) ==> i < scan_alphanumeric(s, cl, i),
        forall|k: int| i <= k < scan_alphanumeric(s, cl, i) ==> #[trigger] cl.alpha[k] || cl.num[k],
        scan_alphanumeric(s, cl, i) < s.len() ==> !cl.alpha[scan_alphanumeric(s, cl, i)]
            && !cl.num[scan_alphanumeric(s, cl, i)],
    decreases s.len() - i,
{
    if i < s.len() && (cl.alpha[i] || cl.num[i]) {
        lemma_scan_alphanumeric(s, cl, i + 1);
    }
}

proof fn lemma_scan_numeric(s: Seq<char>, cl: Classes, i: int)
    requires
        0 <= i <= s.len(),
    ensures
        i <= scan_numeric(s, cl, i) <= s.len(),
        i < s.len() && cl.num[i] ==> i < scan_numeric(s, cl, i),
    decreases s.len() - i,
{
    if i < s.len() && cl.num[i] {
        lemma_scan_numeric(s, cl, i + 1);
    }
}

/// Every token that the lexer reads takes at least one character.
pub proof fn lemma_next_token_advances(s: Seq<char>, cl: Classes, i: int)
    requires
        0 <= i <= s.len(),
    ensures
        next_token_spec(s, cl, i) matches Some((t, j)) ==> i < j <= s.len(),
        next_token_spec(s, cl, i) is None ==> skip_whitespace(s, cl, i) == s.len(),
{
    lemma_skip_whitespace(s, cl, i);
    let p = skip_whitespace(s, cl, i);
    if p < s.len() {
        lemma_scan_alphanumeric(s, cl, p);
        lemma_scan_numeric(s, cl, p);
        let j = scan_numeric(s, cl, p);
        if j < s.len() {
            lemma_scan_numeric(s, cl, j + 1);
        }
    }
}

/// An identifier is a maximal run of alphanumeric characters: the word is
/// the input from its first character to the position after it, every
/// character of it is alphabetic or numeric, the first alphabetic, and the
/// character after it, if any, is neither.
pub proof fn lemma_identifier_word(s: Seq<char>, cl: Classes, i: int)
    requires
        classes_fit(s, cl),
        0 <= i <= s.len(),
    ensures
        next_token_spec(s, cl, i) matches Some((TokenM::Identifier(w), j)) ==> {
            &&& 0 < w.len() <= j <= s.len()
            &&& w == s.subrange(j - w.len(), j)
            &&& cl.alpha[j - w.len()]
            &&& forall|k: int| j - w.len() <= k < j ==> #[trigger] cl.alpha[k] || cl.num[k]
            &&& j < s.len() ==> !cl.alpha[j] && !cl.num[j]
        },
{
    lemma_skip_whitespace(s, cl, i);
    let p = skip_whitespace(s, cl, i);
    if p < s.len() {
        lemma_scan_alphanumeric(s, cl, p);
    }
}

/// What holds of each token the lexer gives: an operator is one character
/// that is neither whitespace nor a letter nor a digit; an identifier is a
/// word that starts with a letter and is no keyword; a number starts with a
/// digit.
pub open spec fn token_well_formed(t: TokenM) -> bool {
    match t {
        TokenM::Op(c) => !spec_is_whitespace(c) && !spec_is_alphabetic(c) && !spec_is_numeric(c),
        TokenM::Identifier(w) => {
            &&& w.len() > 0
            &&& spec_is_alphabetic(w[0])
            &&& forall|k: int| 0 <= k < w.len() ==> spec_is_alphabetic(#[trigger] w[k]) || spec_is_numeric(w[k])
            &&& spec_keyword_of(w) is None
        },
        TokenM::Keyword(_) => true,
        TokenM::Number(n) => n.len() > 0 && spec_is_numeric(n[0]),
    }
}

proof fn lemma_tokens_from_well_formed(s: Seq<char>, i: int)
    requires
        0 <= i <= s.len(),
    ensures
        forall|k: int|
            0 <= k < tokens_from(s, classes_of(s), i).len() ==> token_well_formed(
                #[trigger] tokens_from(s, classes_of(s), i)[k],
            ),
    decreases s.len() - i,
{
    let cl = classes_of(s);
    lemma_next_token_advances(s, cl, i);
    lemma_skip_whitespace(s, cl, i);
    match next_token_spec(s, cl, i) {
        None => {},
        Some((t, j)) => {
            let p = skip_whitespace(s, cl, i);
            lemma_scan_alphanumeric(s, cl, p);
            lemma_scan_numeric(s, cl, p);
            let q = scan_numeric(s, cl, p);
            if q < s.len() {
                lemma_scan_numeric(s, cl, q + 1);
            }
            if let TokenM::Identifier(w) = t {
                assert forall|k: int| 0 <= k < w.len() implies spec_is_alphabetic(#[trigger] w[k])
                    || spec_is_numeric(w[k]) by {
                    assert(w[k] == s[p + k]);
                    assert(cl.alpha[p + k] || cl.num[p + k]);
                }
            }
            assert(token_well_formed(t));
            lemma_tokens_from_well_formed(s, j);
            let rest = tokens_from(s, cl, j);
            assert(tokens_from(s, cl, i) == seq![t] + rest);
            assert forall|k: int| 0 <= k < tokens_from(s, cl, i).len() implies token_well_formed(
                #[trigger] tokens_from(s, cl, i)[k],
            ) by {
                if k > 0 {
                    assert(tokens_from(s, cl, i)[k] == rest[k - 1]);
                }
            }
        },
    }
}

/// Every token of every input is well formed.
pub proof fn lemma_tokens_well_formed(s: Seq<char>)
    ensures
        forall|k: int| 0 <= k < spec_tokenize(s).len() ==> token_well_formed(#[trigger] spec_tokenize(s)[k]),
{
    lemma_tokens_from_well_formed(s, 0);
}

/// A lexer over the characters of one input, with their classes.
pub struct Lexer {
    chars: Vec<char>,
    ws: Vec<bool>,
    alpha: Vec<bool>,
    num: Vec<bool>,
    pos: usize,
}

impl Lexer {
    /// The characters of the input.
    pub closed spec fn input(&self) -> Seq<char> {
        self.chars@
    }

    /// The classes of the characters of the input.
    pub closed spec fn classes(&self) -> Classes {
        Classes { ws: self.ws@, alpha: self.alpha@, num: self.num@ }
    }

    /// The position of the next character to read.
    pub closed spec fn position(&self) -> int {
        self.pos as int
    }

    /// The lexer's position lies within its input, which has one class
    /// entry for each character.
    pub closed spec fn wf(&self) -> bool {
        &&& self.pos <= self.chars.len()
        &&& classes_fit(self.chars@, self.classes())
    }

    /// What a well-formed lexer holds: a position within the input, never
    /// before its start, and one class entry for each character.
    pub proof fn lemma_wf(&self)
        requires
            self.wf(),
        ensures
            0 <= self.position() <= self.input().len(),
            classes_fit(self.input(), self.classes()),
    {
    }

    /// A lexer at the start of `input`, with the classes that std gives
    /// its characters.
    pub fn new(input: &str) -> (r: Lexer)
        ensures
            r.wf(),
            r.input() == input@,
            r.classes() == classes_of(input@),
            r.position() == 0,
    {
        let chars = chars_of(input);
        let mut ws: Vec<bool> = Vec::new();
        let mut alpha: Vec<bool> = Vec::new();
        let mut num: Vec<bool> = Vec::new();
        let mut i: usize = 0;
        while i < chars.len()
            invariant
                0 <= i <= chars.len(),
                chars@ == input@,
                ws@ == chars@.take(i as int).map_values(|c: char| spec_is_whitespace(c)),
                alpha@ == chars@.take(i as int).map_values(|c: char| spec_is_alphabetic(c)),
                num@ == chars@.take(i as int).map_values(|c: char| spec_is_numeric(c)),
            decreases chars.len() - i,
        {
            let c = chars[i];
            ws.push(char_is_whitespace(c));
            alpha.push(char_is_alphabetic(c));
            num.push(char_is_numeric(c));
            i = i + 1;
            assert(ws@ =~= chars@.take(i as int).map_values(|c: char| spec_is_whitespace(c)));
            assert(alpha@ =~= chars@.take(i as int).map_values(|c: char| spec_is_alphabetic(c)));
            assert(num@ =~= chars@.take(i as int).map_values(|c: char| spec_is_numeric(c)));
        }
        assert(chars@.take(i as int) =~= chars@);
        Lexer { chars, ws, alpha, num, pos: 0 }
    }

    /// A lexer at the start of `chars`, whose classes are given: whitespace,
    /// alphabetic and numeric, one entry for each character.
    pub fn with_classes(chars: Vec<char>, ws: Vec<bool>, alpha: Vec<bool>, num: Vec<bool>) -> (r: Option<Lexer>)
        ensures
            match r {
                None => !classes_fit(chars@, Classes { ws: ws@, alpha: alpha@, num: num@ }),
                Some(l) => classes_fit(chars@, Classes { ws: ws@, alpha: alpha@, num: num@ }) && l.wf()
                    && l.input() == chars@ && l.classes() == (Classes { ws: ws@, alpha: alpha@, num: num@ })
                    && l.position() == 0,
            },
    {
        if ws.len() != chars.len() || alpha.len() != chars.len() || num.len() != chars.len() {
            return None;
        }
        Some(Lexer { chars, ws, alpha, num, pos: 0 })
    }

    fn peek_char(&self) -> (r: Option<char>)
        ensures
            self.pos < self.chars.len() ==> r == Some(self.chars@[self.pos as int]),
            self.pos >= self.chars.len() ==> r is None,
    {
        if self.pos < self.chars.len() {
            Some(self.chars[self.pos])
        } else {
            None
        }
    }

    fn next_char(&mut self) -> (r: Option<char>)
        ensures
            final(self).chars == old(self).chars,
            final(self).ws == old(self).ws,
            final(self).alpha == old(self).alpha,
            final(self).num == old(self).num,
            old(self).pos < old(self).chars.len() ==> r == Some(old(self).chars@[old(self).pos as int])
                && final(self).pos == old(self).pos + 1,
            old(self).pos >= old(self).chars.len() ==> r is None && final(self).pos == old(self).pos,
    {
        if self.pos < self.chars.len() {
            let c = self.chars[self.pos];
            self.pos = self.pos + 1;
            Some(c)
        } else {
            None
        }
    }

    /// The next token, or `None` at the end of the input. Whitespace before
    /// the token is skipped. Each token read moves the position forward, and
    /// once the end is reached every call gives `None`.
    pub fn next_token(&mut self) -> (r: Option<TokenResult>)
        requires
            old(self).wf(),
        ensures
            final(self).wf(),
            final(self).input() == old(self).input(),
            final(self).classes() == old(self).classes(),
            match next_token_spec(old(self).input(), old(self).classes(), old(self).position()) {
                None => r is None && final(self).position() == final(self).input().len(),
                Some((t, j)) => r matches Some(Ok(tok)) && tok@ == t && final(self).position() == j,
            },
            r is Some ==> old(self).position() < final(self).position(),
            old(self).position() == old(self).input().len() ==> r is None && final(self).position()
                == old(self).position(),
    {
        let ghost s = self.chars@;
        let ghost cl = self.classes();
        proof {
            lemma_next_token_advances(s, cl, self.pos as int);
            lemma_skip_whitespace(s, cl, self.pos as int);
        }
        while self.pos < self.chars.len() && self.ws[self.pos]
            invariant
                self.chars@ == s,
                self.classes() == cl,
                classes_fit(s, cl),
                old(self).pos <= self.pos <= s.len(),
                skip_whitespace(s, cl, self.pos as int) == skip_whitespace(s, cl, old(self).pos as int),
            decreases s.len() - self.pos,
        {
            self.pos = self.pos + 1;
        }
        let start = self.pos;
        assert(start as int == skip_whitespace(s, cl, old(self).pos as int));
        let c = match self.peek_char() {
            None => {
                return None;
            },
            Some(c) => c,
        };
        if self.alpha[start] {
            let mut id_str = String::new();
            let mut word: Vec<char> = Vec::new();
            while self.pos < self.chars.len() && (self.alpha[self.pos] || self.num[self.pos])
                invariant
                    self.chars@ == s,
                    self.classes() == cl,
                    classes_fit(s, cl),
                    start <= self.pos <= s.len(),
                    scan_alphanumeric(s, cl, self.pos as int) == scan_alphanumeric(s, cl, start as int),
                    word@ == s.subrange(start as int, self.pos as int),
                    id_str@ == word@,
                decreases s.len() - self.pos,
            {
                let a = self.chars[self.pos];
                id_str_push(&mut id_str, &mut word, a);
                self.pos = self.pos + 1;
                assert(word@ =~= s.subrange(start as int, self.pos as int));
            }
            match keyword_of(&word) {
                Some(k) => Some(Ok(TokenKind::Keyword(k))),
                None => Some(Ok(TokenKind::Identifier(id_str))),
            }
        } else if self.num[start] {
            let mut n_str = String::new();
            while self.pos < self.chars.len() && self.num[self.pos]
                invariant
                    self.chars@ == s,
                    self.classes() == cl,
                    classes_fit(s, cl),
                    start <= self.pos <= s.len(),
                    scan_numeric(s, cl, self.pos as int) == scan_numeric(s, cl, start as int),
                    n_str@ == s.subrange(start as int, self.pos as int),
                decreases s.len() - self.pos,
            {
                let n = self.chars[self.pos];
                string_push(&mut n_str, n);
                self.pos = self.pos + 1;
                assert(n_str@ =~= s.subrange(start as int, self.pos as int));
            }
            if self.peek_char() == Some('.') {
                let dot = self.pos;
                string_push(&mut n_str, '.');
                self.pos = self.pos + 1;
                assert(n_str@ =~= s.subrange(start as int, self.pos as int));
                proof {
                    lemma_scan_numeric(s, cl, self.pos as int);
                }
                while self.pos < self.chars.len() && self.num[self.pos]
                    invariant
                        self.chars@ == s,
                        self.classes() == cl,
                        classes_fit(s, cl),
                        start <= dot < self.pos <= s.len(),
                        scan_numeric(s, cl, self.pos as int) == scan_numeric(s, cl, dot + 1),
                        n_str@ == s.subrange(start as int, self.pos as int),
                    decreases s.len() - self.pos,
                {
                    let n = self.chars[self.pos];
                    string_push(&mut n_str, n);
                    self.pos = self.pos + 1;
                    assert(n_str@ =~= s.subrange(start as int, self.pos as int));
                }
                Some(Ok(TokenKind::Number(n_str)))
            } else {
                Some(Ok(TokenKind::Number(n_str)))
            }
        } else {
            self.next_char();
            Some(Ok(TokenKind::Op(c)))
        }
    }

    /// All tokens from the position to the end of the input, in order.
    pub fn remaining_tokens(&mut self) -> (r: Vec<TokenResult>)
        requires
            old(self).wf(),
        ensures
            final(self).wf(),
            final(self).input() == old(self).input(),
            final(self).position() == final(self).input().len(),
            token_results_view(r@) == ok_tokens(tokens_from(old(self).input(), old(self).classes(), old(self).position())),
    {
        let ghost s = self.input();
        let ghost cl = self.classes();
        let ghost p0 = self.position();
        let mut out: Vec<TokenResult> = Vec::new();
        assert(token_results_view(out@) =~= Seq::<Result<TokenM, LexerError>>::empty());
        loop
            invariant
                self.wf(),
                s == self.input(),
                cl == self.classes(),
                s == old(self).input(),
                cl == old(self).classes(),
                p0 == old(self).position(),
                0 <= self.position() <= s.len(),
                token_results_view(out@) + ok_tokens(tokens_from(s, cl, self.position())) == ok_tokens(
                    tokens_from(s, cl, p0),
                ),
            decreases s.len() - self.position(),
        {
            let ghost p = self.position();
            proof {
                lemma_next_token_advances(s, cl, p);
            }
            match self.next_token() {
                None => {
                    assert(ok_tokens(tokens_from(s, cl, p)) =~= Seq::empty());
                    assert(token_results_view(out@) =~= ok_tokens(tokens_from(s, cl, p0)));
                    return out;
                },
                Some(t) => {
                    let ghost tv = token_results_view(out@);
                    out.push(t);
                    proof {
                        let tail = ok_tokens(tokens_from(s, cl, self.position()));
                        assert(token_results_view(out@) =~= tv.push(token_results_view(out@).last()));
                        assert(ok_tokens(tokens_from(s, cl, p)) =~= seq![token_results_view(out@).last()] + tail);
                        assert(tv + (seq![token_results_view(out@).last()] + tail) =~= token_results_view(out@) + tail);
                    }
                },
            }
        }
    }
}

fn id_str_push(s: &mut String, w: &mut Vec<char>, c: char)
    ensures
        final(s)@ == old(s)@.push(c),
        final(w)@ == old(w)@.push(c),
{
    string_push(s, c);
    w.push(c);
}

/// All tokens of an input, in order. The lexer itself never fails, so every
/// item is `Ok`.
pub fn tokenize(input: &str) -> (r: Vec<TokenResult>)
    ensures
        token_results_view(r@) == ok_tokens(spec_tokenize(input@)),
{
    let mut lexer = Lexer::new(input);
    lexer.remaining_tokens()
}

/// All tokens of `chars`, by the classes given for its characters
/// (whitespace, alphabetic, numeric, one entry for each); `None` where the
/// classes do not have one entry for each character.
pub fn tokenize_classified(chars: Vec<char>, ws: Vec<bool>, alpha: Vec<bool>, num: Vec<bool>) -> (r: Option<
    Vec<TokenResult>,
>)
    ensures
        match r {
            None => !classes_fit(chars@, Classes { ws: ws@, alpha: alpha@, num: num@ }),
            Some(v) => classes_fit(chars@, Classes { ws: ws@, alpha: alpha@, num: num@ })
                && token_results_view(v@) == ok_tokens(
                tokens_from(chars@, Classes { ws: ws@, alpha: alpha@, num: num@ }, 0),
            ),
        },
{
    match Lexer::with_classes(chars, ws, alpha, num) {
        None => None,
        Some(lexer) => {
            let mut lexer = lexer;
            Some(lexer.remaining_tokens())
        },
    }
}

} // verus!
