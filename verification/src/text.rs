use vstd::prelude::*;
use vstd::std_specs::iter::IteratorSpec;

verus! {

/// How deep one thing may stand in another of its kind: a list in brackets
/// in a type, a block in a block, a class in a class, a namespace in a
/// namespace. What stands deeper is not read as such a thing.
pub const NESTING: usize = 200;

/// What a rule was looking for at the place where it gave up.
#[derive(Debug, Clone, Copy, PartialEq, Eq)]
pub enum Expected {
    /// This one character.
    Char(char),
    /// A fixed word or mark.
    Word,
    /// At least one character of an identifier.
    Identifier,
    /// A name: identifier characters, hyphens and backslash escapes.
    Name,
    /// One of the characters that may follow a backslash in a name.
    Escape,
    /// At least one blank.
    Space,
    /// The mark that closes what was opened.
    Closing,
    /// At least one decimal digit.
    Digit,
    /// A number that fits its type.
    Number,
    /// An item that takes at least one character.
    Progress,
}

/// A rule gave up: where, and what it wanted there.
#[derive(Debug, Clone, Copy, PartialEq, Eq)]
pub struct Failure {
    pub at: usize,
    pub expected: Expected,
}

/// A rule gave up inside the body of a class or of a namespace: where, what
/// it wanted there, and the names of the classes and namespaces around that
/// place, the outermost first.
#[derive(Debug, Clone, PartialEq, Eq)]
pub struct NestedFailure<'a> {
    pub at: usize,
    pub expected: Expected,
    pub scope: Vec<&'a str>,
}

/// The failure of a rule as callers see it: the text from the place where
/// the rule gave up, what it wanted there, and the names of the classes and
/// namespaces in whose bodies that place lies, the outermost first.
#[derive(Debug, Clone, PartialEq, Eq)]
pub struct ParseError<'a> {
    pub rest: &'a str,
    pub expected: Expected,
    pub scope: Vec<&'a str>,
}

/// What a rule makes of a text from a position on: a value and the position
/// behind what it took, or a failure.
pub enum Outcome<T> {
    Match { value: T, end: int },
    Fail { at: int, expected: Expected },
}

/// What a rule that reads bodies makes of a text from a position on. A
/// failure names the classes and namespaces in whose bodies it lies, the
/// outermost first; one that lies in none can be made good by another rule
/// that is met at the same place, one that lies in a body cannot.
pub enum Nested<T> {
    Match { value: T, end: int },
    Fail { at: int, expected: Expected, scope: Seq<Seq<char>> },
}

impl<T> Nested<T> {
    /// Whether this is a failure inside a body.
    pub open spec fn is_final(self) -> bool {
        self matches Nested::Fail { scope, .. } && scope.len() > 0
    }

    /// The failure, as the outcome of a rule with values of another type.
    pub open spec fn failed<U>(self) -> Nested<U>
        recommends
            self is Fail,
    {
        Nested::Fail { at: self->at, expected: self->expected, scope: self->scope }
    }
}

/// The outcome of a rule that reads no body: where it fails, the failure
/// lies in none.
pub open spec fn flat<T>(o: Outcome<T>) -> Nested<T> {
    match o {
        Outcome::Match { value, end } => Nested::Match { value, end },
        Outcome::Fail { at, expected } => Nested::Fail { at, expected, scope: Seq::empty() },
    }
}

/// Whether what an executable rule reported lies at or behind `from` and
/// inside a text of `len` characters.
pub open spec fn within<T>(r: Result<(T, usize), Failure>, from: usize, len: nat) -> bool {
    match r {
        Ok((_, end)) => from <= end <= len,
        Err(f) => from <= f.at <= len,
    }
}

/// The smaller of two positions.
pub open spec fn lower(a: int, b: int) -> int {
    if a <= b {
        a
    } else {
        b
    }
}

/// The outcome that an executable rule reported, over the models of its values.
pub open spec fn seen<T: DeepView>(r: Result<(T, usize), Failure>) -> Outcome<T::V> {
    match r {
        Ok((value, end)) => Outcome::Match { value: value.deep_view(), end: end as int },
        Err(f) => Outcome::Fail { at: f.at as int, expected: f.expected },
    }
}

/// The outcome that an executable rule that reads bodies reported, over the
/// models of its values.
pub open spec fn seen_nested<'a, T: DeepView>(r: Result<(T, usize), NestedFailure<'a>>) -> Nested<
    T::V,
> {
    match r {
        Ok((value, end)) => Nested::Match { value: value.deep_view(), end: end as int },
        Err(f) => Nested::Fail {
            at: f.at as int,
            expected: f.expected,
            scope: f.scope.deep_view(),
        },
    }
}

/// Whether what an executable rule that reads bodies reported lies at or
/// behind `from` and inside a text of `len` characters.
pub open spec fn within_nested<'a, T>(
    r: Result<(T, usize), NestedFailure<'a>>,
    from: usize,
    len: nat,
) -> bool {
    match r {
        Ok((_, end)) => from <= end <= len,
        Err(f) => from <= f.at <= len,
    }
}

impl<'a> NestedFailure<'a> {
    /// The failure of a rule that reads no body: it lies in none.
    pub fn plain(f: Failure) -> (r: NestedFailure<'a>)
        ensures
            r.at == f.at,
            r.expected == f.expected,
            r.scope.deep_view() == Seq::<Seq<char>>::empty(),
    {
        let scope: Vec<&'a str> = Vec::new();
        assert(scope.deep_view() =~= Seq::<Seq<char>>::empty());
        NestedFailure { at: f.at, expected: f.expected, scope }
    }

    /// The failure as one inside the body of the class or namespace `name`.
    pub fn inside(self, name: &'a str) -> (r: NestedFailure<'a>)
        ensures
            r.at == self.at,
            r.expected == self.expected,
            r.scope.deep_view() == seq![name@] + self.scope.deep_view(),
    {
        let ghost before = self.scope.deep_view();
        let mut scope = self.scope;
        scope.insert(0, name);
        assert(scope.deep_view() =~= seq![name@] + before);
        NestedFailure { at: self.at, expected: self.expected, scope }
    }
}

/// What an executable rule that may find nothing reported, over the models
/// of its values.
pub open spec fn found<T: DeepView>(r: Option<(T, usize)>) -> Option<(T::V, int)> {
    match r {
        Some((value, end)) => Some((value.deep_view(), end as int)),
        None => None,
    }
}

/// `r` tells a caller of a rule on the whole text `s` what `o` says: on a
/// match the text that is left and the value, on a failure the text from the
/// place of the failure, what was expected there, and the bodies that the
/// place lies in. Either place lies inside the text.
pub open spec fn reports<'a, T: DeepView>(
    r: Result<(&'a str, T), ParseError<'a>>,
    s: Seq<char>,
    o: Nested<T::V>,
) -> bool {
    match o {
        Nested::Match { value, end } => {
            &&& r is Ok
            &&& 0 <= end <= s.len()
            &&& r->Ok_0.0@ == s.subrange(end, s.len() as int)
            &&& r->Ok_0.1.deep_view() == value
        },
        Nested::Fail { at, expected, scope } => {
            &&& r is Err
            &&& 0 <= at <= s.len()
            &&& r->Err_0.rest@ == s.subrange(at, s.len() as int)
            &&& r->Err_0.expected == expected
            &&& r->Err_0.scope.deep_view() == scope
        },
    }
}

/// Whether `char::is_alphanumeric` holds of `c`.
pub uninterp spec fn alphanumeric(c: char) -> bool;

/// Whether `char::is_whitespace` holds of `c`.
pub uninterp spec fn whitespace(c: char) -> bool;

/// Calls `char::is_alphanumeric`. The result is the library's name for it:
/// the Unicode tables behind it are not restated here.
#[verifier::external_body]
fn is_alphanumeric(c: char) -> (r: bool)
    ensures
        r == alphanumeric(c),
{
    c.is_alphanumeric()
}

/// Calls `char::is_whitespace`. The result is the library's name for it:
/// the Unicode tables behind it are not restated here.
#[verifier::external_body]
fn is_whitespace(c: char) -> (r: bool)
    ensures
        r == whitespace(c),
{
    c.is_whitespace()
}

/// The blanks between tokens: space, tab, carriage return, line feed.
pub open spec fn blank(c: char) -> bool {
    c == ' ' || c == '\t' || c == '\r' || c == '\n'
}

/// The sets of characters that the rules take runs of.
#[derive(Debug, Clone, Copy, PartialEq, Eq)]
pub enum CharClass {
    /// Space, tab, carriage return, line feed.
    Blank,
    /// Letters, digits and `_`.
    Ident,
    /// Letters, digits, `_` and `-`.
    Name,
    /// Letters, digits, `_` and `~`.
    MethodIdent,
    /// Everything but a line feed.
    InLine,
    /// Everything but a carriage return and a line feed.
    NoBreak,
    /// Everything but `{` and `}`.
    NoBrace,
    /// What a member initializer is made of: letters and digits, and
    /// everything else but `,`, `{` and a line feed.
    Initializer,
    /// What is dropped in front of a comment line: white space, `*`, `/`.
    Indent,
    /// ASCII letters and `_`.
    AsciiHead,
    /// ASCII letters, ASCII digits and `_`.
    AsciiIdent,
    /// ASCII digits.
    Digit,
}

impl CharClass {
    /// Whether `c` belongs to the class, where it is known of `c` whether it
    /// is a letter or a digit and whether it is white space.
    pub open spec fn covers(self, c: char, letter_or_digit: bool, white: bool) -> bool {
        match self {
            CharClass::Blank => blank(c),
            CharClass::Ident => letter_or_digit || c == '_',
            CharClass::Name => letter_or_digit || c == '_' || c == '-',
            CharClass::MethodIdent => letter_or_digit || c == '_' || c == '~',
            CharClass::InLine => c != '\n',
            CharClass::NoBreak => c != '\r' && c != '\n',
            CharClass::NoBrace => c != '{' && c != '}',
            CharClass::Initializer => letter_or_digit || (c != ',' && c != '{' && c != '\n'),
            CharClass::Indent => white || c == '*' || c == '/',
            CharClass::AsciiHead => ('a' <= c && c <= 'z') || ('A' <= c && c <= 'Z') || c == '_',
            CharClass::AsciiIdent => ('a' <= c && c <= 'z') || ('A' <= c && c <= 'Z') || (
            '0' <= c && c <= '9') || c == '_',
            CharClass::Digit => '0' <= c && c <= '9',
        }
    }

    /// Whether `c` belongs to the class.
    pub open spec fn has(self, c: char) -> bool {
        self.covers(c, alphanumeric(c), whitespace(c))
    }

    /// Whether `c` belongs to the class, where it is known of `c` whether it
    /// is a letter or a digit and whether it is white space.
    pub fn decide(self, c: char, letter_or_digit: bool, white: bool) -> (r: bool)
        ensures
            r == self.covers(c, letter_or_digit, white),
    {
        match self {
            CharClass::Blank => c == ' ' || c == '\t' || c == '\r' || c == '\n',
            CharClass::Ident => letter_or_digit || c == '_',
            CharClass::Name => letter_or_digit || c == '_' || c == '-',
            CharClass::MethodIdent => letter_or_digit || c == '_' || c == '~',
            CharClass::InLine => c != '\n',
            CharClass::NoBreak => c != '\r' && c != '\n',
            CharClass::NoBrace => c != '{' && c != '}',
            CharClass::Initializer => letter_or_digit || (c != ',' && c != '{' && c != '\n'),
            CharClass::Indent => white || c == '*' || c == '/',
            CharClass::AsciiHead => ('a' <= c && c <= 'z') || ('A' <= c && c <= 'Z') || c == '_',
            CharClass::AsciiIdent => ('a' <= c && c <= 'z') || ('A' <= c && c <= 'Z') || ('0' <= c
                && c <= '9') || c == '_',
            CharClass::Digit => '0' <= c && c <= '9',
        }
    }

    /// Whether `c` belongs to the class.
    pub fn test(self, c: char) -> (r: bool)
        ensures
            r == self.has(c),
    {
        match self {
            CharClass::Ident | CharClass::Name | CharClass::MethodIdent | CharClass::Initializer => {
                self.decide(c, is_alphanumeric(c), false)
            },
            CharClass::Indent => self.decide(c, false, is_whitespace(c)),
            _ => self.decide(c, false, false),
        }
    }
}

/// Where the longest run of characters of `class` that starts at `i` ends.
pub open spec fn run_end(s: Seq<char>, i: int, class: CharClass) -> int
    decreases s.len() - i,
{
    if 0 <= i < s.len() && class.has(s[i]) {
        run_end(s, i + 1, class)
    } else {
        i
    }
}

/// Where the blanks that start at `i` end.
pub open spec fn blanks_end(s: Seq<char>, i: int) -> int {
    run_end(s, i, CharClass::Blank)
}

/// Whether the character `c` stands at `i`.
pub open spec fn char_at(s: Seq<char>, i: int, c: char) -> bool {
    0 <= i < s.len() && s[i] == c
}

/// Whether the word `w` stands at `i`.
pub open spec fn word_at(s: Seq<char>, i: int, w: Seq<char>) -> bool {
    0 <= i && i + w.len() <= s.len() && s.subrange(i, i + w.len()) == w
}

/// Where the word `w` ends if it stands at `i`.
pub open spec fn word_end(s: Seq<char>, i: int, w: Seq<char>) -> Option<int> {
    if word_at(s, i, w) {
        Some(i + w.len())
    } else {
        None
    }
}

/// Where the character `c` ends if it stands at `i`.
pub open spec fn char_end(s: Seq<char>, i: int, c: char) -> Option<int> {
    if char_at(s, i, c) {
        Some(i + 1)
    } else {
        None
    }
}

/// The first place from `i` on where the word `w` stands, if there is one.
pub open spec fn find_word(s: Seq<char>, i: int, w: Seq<char>) -> Option<int>
    decreases s.len() - i,
{
    if i < 0 || i + w.len() > s.len() {
        None
    } else if word_at(s, i, w) {
        Some(i)
    } else if i < s.len() {
        find_word(s, i + 1, w)
    } else {
        None
    }
}

/// A run ends at or behind its start and inside the text, everything in it
/// belongs to the class, and what follows it does not.
pub proof fn run_end_bounds(s: Seq<char>, i: int, class: CharClass)
    requires
        0 <= i <= s.len(),
    ensures
        i <= run_end(s, i, class) <= s.len(),
        forall|k: int| i <= k < run_end(s, i, class) ==> class.has(#[trigger] s[k]),
        run_end(s, i, class) < s.len() ==> !class.has(s[run_end(s, i, class)]),
    decreases s.len() - i,
{
    if i < s.len() && class.has(s[i]) {
        run_end_bounds(s, i + 1, class);
    }
}

/// A word that is found stands where it is found, at or behind the start.
pub proof fn find_word_bounds(s: Seq<char>, i: int, w: Seq<char>)
    requires
        0 <= i,
    ensures
        find_word(s, i, w) matches Some(k) ==> i <= k && k + w.len() <= s.len() && word_at(
            s,
            k,
            w,
        ),
    decreases s.len() - i,
{
    if i + w.len() <= s.len() && !word_at(s, i, w) && i < s.len() {
        find_word_bounds(s, i + 1, w);
    }
}

/// A text held both as it was given and character by character.
pub struct Source<'a> {
    text: &'a str,
    chars: Vec<char>,
}

impl<'a> Source<'a> {
    #[verifier::type_invariant]
    spec fn inv(self) -> bool {
        self.chars@ == self.text@
    }

    /// The characters of the text.
    pub closed spec fn view(&self) -> Seq<char> {
        self.text@
    }

    /// The text, ready to be read by positions.
    pub fn new(text: &'a str) -> (r: Self)
        ensures
            r@ == text@,
    {
        let mut chars: Vec<char> = Vec::new();
        let it0 = text.chars();
        for c in it: it0
            invariant
                chars@ == it.seq().take(it.index() as int),
                it.seq() == text@,
        {
            chars.push(c);
        }
        assert(chars@ =~= text@);
        Source { text, chars }
    }

    /// How many characters the text has.
    pub fn len(&self) -> (n: usize)
        ensures
            n == self@.len(),
    {
        proof {
            use_type_invariant(self);
        }
        self.chars.len()
    }

    /// The character at `i`.
    pub fn at(&self, i: usize) -> (c: char)
        requires
            i < self@.len(),
        ensures
            c == self@[i as int],
    {
        proof {
            use_type_invariant(self);
        }
        self.chars[i]
    }

    /// The text between two positions.
    pub fn slice(&self, from: usize, to: usize) -> (r: &'a str)
        requires
            from <= to <= self@.len(),
        ensures
            r@ == self@.subrange(from as int, to as int),
    {
        self.text.substring_char(from, to)
    }

    /// The text from a position on.
    pub fn rest(&self, from: usize) -> (r: &'a str)
        requires
            from <= self@.len(),
        ensures
            r@ == self@.subrange(from as int, self@.len() as int),
    {
        let n = self.len();
        self.text.substring_char(from, n)
    }

    /// Whether `c` stands at `i`.
    pub fn is_char(&self, i: usize, c: char) -> (r: bool)
        ensures
            r == char_at(self@, i as int, c),
    {
        i < self.len() && self.at(i) == c
    }

    /// Where the character `c` ends if it stands at `i`.
    pub fn after_char(&self, i: usize, c: char) -> (r: Option<usize>)
        ensures
            match r {
                Some(e) => char_at(self@, i as int, c) && e == i + 1 && e <= self@.len(),
                None => !char_at(self@, i as int, c),
            },
    {
        let n = self.len();
        if i < n && self.at(i) == c {
            Some(i + 1)
        } else {
            None
        }
    }

    /// Where the longest run of characters of `class` from `i` on ends.
    pub fn run(&self, i: usize, class: CharClass) -> (j: usize)
        requires
            i <= self@.len(),
        ensures
            j == run_end(self@, i as int, class),
            i <= j <= self@.len(),
    {
        let n = self.len();
        let mut j: usize = i;
        while j < n && class.test(self.at(j))
            invariant
                i <= j <= n,
                n == self@.len(),
                run_end(self@, i as int, class) == run_end(self@, j as int, class),
            decreases n - j,
        {
            j = j + 1;
        }
        j
    }

    /// Where the blanks from `i` on end.
    pub fn blanks(&self, i: usize) -> (j: usize)
        requires
            i <= self@.len(),
        ensures
            j == blanks_end(self@, i as int),
            i <= j <= self@.len(),
    {
        self.run(i, CharClass::Blank)
    }

    /// Whether the word `w` stands at `i`.
    pub fn is_word(&self, i: usize, w: &str) -> (r: bool)
        requires
            i <= self@.len(),
        ensures
            r == word_at(self@, i as int, w@),
    {
        let n = self.len();
        let m = w.unicode_len();
        if m > n - i {
            return false;
        }
        let mut k: usize = 0;
        while k < m
            invariant
                k <= m,
                m == w@.len(),
                n == self@.len(),
                i + m <= n,
                self@.subrange(i as int, i + k) == w@.subrange(0, k as int),
            decreases m - k,
        {
            if self.at(i + k) != w.get_char(k) {
                assert(self@.subrange(i as int, i + m)[k as int] != w@[k as int]);
                return false;
            }
            assert(self@.subrange(i as int, i + k + 1) =~= self@.subrange(i as int, i + k).push(
                self@[i + k],
            ));
            assert(w@.subrange(0, k + 1) =~= w@.subrange(0, k as int).push(w@[k as int]));
            k = k + 1;
        }
        assert(w@.subrange(0, m as int) =~= w@);
        true
    }

    /// Where the word `w` ends if it stands at `i`.
    pub fn word(&self, i: usize, w: &str) -> (r: Option<usize>)
        requires
            i <= self@.len(),
        ensures
            match r {
                Some(e) => word_end(self@, i as int, w@) == Some(e as int) && e == i + w@.len()
                    && e <= self@.len(),
                None => word_end(self@, i as int, w@).is_none(),
            },
    {
        let n = self.len();
        if self.is_word(i, w) {
            Some(i + w.unicode_len())
        } else {
            None
        }
    }

    /// Whether the text between two positions is the word `w`.
    pub fn is_text(&self, from: usize, to: usize, w: &str) -> (r: bool)
        requires
            from <= to <= self@.len(),
        ensures
            r == (self@.subrange(from as int, to as int) == w@),
    {
        if to - from == w.unicode_len() {
            self.is_word(from, w)
        } else {
            false
        }
    }

    /// What a rule that worked by positions found, as its callers see it.
    pub fn report<T: DeepView>(&self, r: Result<(T, usize), Failure>) -> (out: Result<
        (&'a str, T),
        ParseError<'a>,
    >)
        requires
            within(r, 0, self@.len()),
        ensures
            reports(out, self@, flat(seen(r))),
    {
        match r {
            Ok((value, end)) => Ok((self.rest(end), value)),
            Err(f) => {
                let scope: Vec<&'a str> = Vec::new();
                assert(scope.deep_view() =~= Seq::<Seq<char>>::empty());
                Err(ParseError { rest: self.rest(f.at), expected: f.expected, scope })
            },
        }
    }

    /// What a rule that reads bodies and worked by positions found, as its
    /// callers see it.
    pub fn report_nested<T: DeepView>(&self, r: Result<(T, usize), NestedFailure<'a>>) -> (out:
        Result<(&'a str, T), ParseError<'a>>)
        requires
            within_nested(r, 0, self@.len()),
        ensures
            reports(out, self@, seen_nested(r)),
    {
        match r {
            Ok((value, end)) => Ok((self.rest(end), value)),
            Err(f) => Err(
                ParseError { rest: self.rest(f.at), expected: f.expected, scope: f.scope },
            ),
        }
    }

    /// The first place from `i` on where the word `w` stands, if there is
    /// one, and where the word ends there.
    pub fn find(&self, i: usize, w: &str) -> (r: Option<(usize, usize)>)
        requires
            i <= self@.len(),
        ensures
            match r {
                Some((k, e)) => find_word(self@, i as int, w@) == Some(k as int) && i <= k && e
                    == k + w@.len() && e <= self@.len(),
                None => find_word(self@, i as int, w@).is_none(),
            },
    {
        let n = self.len();
        let m = w.unicode_len();
        let mut k: usize = i;
        while m <= n - k
            invariant
                i <= k <= n,
                m == w@.len(),
                n == self@.len(),
                find_word(self@, i as int, w@) == find_word(self@, k as int, w@),
            decreases n - k,
        {
            if self.is_word(k, w) {
                return Some((k, k + m));
            }
            if k == n {
                return None;
            }
            k = k + 1;
        }
        None
    }
}

/// Whether two texts are the same, character by character.
pub fn same_text(a: &str, b: &str) -> (r: bool)
    ensures
        r == (a@ == b@),
{
    let src = Source::new(a);
    let n = src.len();
    assert(src@.subrange(0, n as int) =~= a@);
    src.is_text(0, n, b)
}

} // verus!
