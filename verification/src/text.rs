//! Character classes, scanning over a line of text, and decimal numbers.

use vstd::prelude::*;
use vstd::std_specs::iter::IteratorSpec;

verus! {

broadcast use vstd::string::group_string_axioms;

/// Whether `c` is alphanumeric in the sense of Unicode: what
/// `char::is_alphanumeric` answers for `c`.
pub uninterp spec fn alphanumeric(c: char) -> bool;

/// The decimal digits `0` to `9`.
pub open spec fn decimal_digit(c: char) -> bool {
    '0' <= c <= '9'
}

/// The blank that may separate tokens.
pub open spec fn blank(c: char) -> bool {
    c == ' '
}

/// Calls `char::is_alphanumeric` of the standard library. Trusted: the answer
/// is the Unicode property named [`alphanumeric`], which depends on the
/// character alone.
#[verifier::external_body]
pub(crate) fn is_alphanumeric(c: char) -> (b: bool)
    ensures
        b == alphanumeric(c),
{
    c.is_alphanumeric()
}

/// The classes of characters that the grammar scans runs of.
#[derive(Clone, Copy, Debug, PartialEq, Eq, Structural)]
pub enum CharClass {
    Alphanumeric,
    Blank,
    Digit,
}

impl CharClass {
    /// Whether `c` belongs to the class.
    pub open spec fn holds(self, c: char) -> bool {
        match self {
            CharClass::Alphanumeric => alphanumeric(c),
            CharClass::Blank => blank(c),
            CharClass::Digit => decimal_digit(c),
        }
    }
}

/// Where the run of characters of class `class` that starts at `from` ends.
pub open spec fn run_end(s: Seq<char>, from: int, class: CharClass) -> int
    decreases s.len() - from,
{
    if 0 <= from < s.len() && class.holds(s[from]) {
        run_end(s, from + 1, class)
    } else {
        from
    }
}

/// The end of a run is the first position at or after `from` whose character
/// is not of the class, or the end of the text.
pub proof fn run_end_is_first_failure(s: Seq<char>, from: int, class: CharClass)
    requires
        0 <= from <= s.len(),
    ensures
        from <= run_end(s, from, class) <= s.len(),
        forall|i: int| from <= i < run_end(s, from, class) ==> class.holds(#[trigger] s[i]),
        run_end(s, from, class) < s.len() ==> !class.holds(s[run_end(s, from, class)]),
    decreases s.len() - from,
{
    if from < s.len() && class.holds(s[from]) {
        run_end_is_first_failure(s, from + 1, class);
    }
}

/// Where the run of `true` that starts at `from` ends.
pub open spec fn flags_end(flags: Seq<bool>, from: int) -> int
    decreases flags.len() - from,
{
    if 0 <= from < flags.len() && flags[from] {
        flags_end(flags, from + 1)
    } else {
        from
    }
}

/// Where each flag says whether the character at its index is of the class,
/// the runs of the flags are the runs of the class.
pub proof fn flags_end_is_run_end(flags: Seq<bool>, s: Seq<char>, from: int, class: CharClass)
    requires
        flags.len() == s.len(),
        forall|i: int| 0 <= i < s.len() ==> flags[i] == class.holds(#[trigger] s[i]),
    ensures
        flags_end(flags, from) == run_end(s, from, class),
    decreases s.len() - from,
{
    if 0 <= from < s.len() && flags[from] {
        flags_end_is_run_end(flags, s, from + 1, class);
    }
}

/// Finds where the run of `true` that starts at `from` ends.
pub fn run_of_flags_end(flags: &Vec<bool>, from: usize) -> (end: usize)
    requires
        from <= flags.len(),
    ensures
        end == flags_end(flags@, from as int),
        from <= end <= flags.len(),
{
    let mut i: usize = from;
    while i < flags.len() && flags[i]
        invariant
            from <= i <= flags.len(),
            flags_end(flags@, from as int) == flags_end(flags@, i as int),
        decreases flags.len() - i,
    {
        i += 1;
    }
    i
}

/// Where the identifier that starts at `from` ends; `from` itself if none does.
pub open spec fn ident_end(s: Seq<char>, from: int) -> int {
    run_end(s, from, CharClass::Alphanumeric)
}

/// Where the blanks that start at `from` end.
pub open spec fn blanks_end(s: Seq<char>, from: int) -> int {
    run_end(s, from, CharClass::Blank)
}

/// Where the decimal digits that start at `from` end.
pub open spec fn digits_end(s: Seq<char>, from: int) -> int {
    run_end(s, from, CharClass::Digit)
}

/// Whether the character at `at` is `c`.
pub open spec fn has_char(s: Seq<char>, at: int, c: char) -> bool {
    0 <= at < s.len() && s[at] == c
}

/// Whether `word` stands in `s` at `at`.
pub open spec fn has_word(s: Seq<char>, at: int, word: Seq<char>) -> bool {
    0 <= at && at + word.len() <= s.len() && s.subrange(at, at + word.len()) == word
}

/// The position behind `word` where it stands in `s` at `at`.
pub open spec fn word_end(s: Seq<char>, at: int, word: Seq<char>) -> Option<int> {
    if has_word(s, at, word) {
        Some(at + word.len())
    } else {
        None
    }
}

/// The code of `c`, with the ASCII capitals folded onto the small letters.
pub open spec fn folded(c: char) -> int {
    if 'A' <= c <= 'Z' {
        c as int + 32
    } else {
        c as int
    }
}

/// Whether two texts are equal up to the case of their ASCII letters.
pub open spec fn same_ignoring_case(a: Seq<char>, b: Seq<char>) -> bool {
    &&& a.len() == b.len()
    &&& forall|i: int| 0 <= i < a.len() ==> folded(#[trigger] a[i]) == folded(b[i])
}

/// The value of a decimal digit, 0 for any other character.
pub open spec fn digit_value(c: char) -> nat {
    if decimal_digit(c) {
        (c as int - '0' as int) as nat
    } else {
        0
    }
}

/// Whether every character is a decimal digit.
pub open spec fn all_digits(ds: Seq<char>) -> bool {
    forall|i: int| 0 <= i < ds.len() ==> decimal_digit(#[trigger] ds[i])
}

/// The number that a sequence of decimal digits writes, most significant
/// digit first.
pub open spec fn decimal_value(ds: Seq<char>) -> nat
    decreases ds.len(),
{
    if ds.len() == 0 {
        0
    } else {
        decimal_value(ds.drop_last()) * 10 + digit_value(ds.last())
    }
}

/// A number token without its optional leading `+`.
pub open spec fn unsigned_part(token: Seq<char>) -> Seq<char> {
    if token.len() > 0 && token[0] == '+' {
        token.skip(1)
    } else {
        token
    }
}

/// The machine-sized number that `token` writes: an optional `+`, then one or
/// more decimal digits whose value fits. `None` for every other token.
pub open spec fn number_value(token: Seq<char>) -> Option<nat> {
    let ds = unsigned_part(token);
    if ds.len() > 0 && all_digits(ds) && decimal_value(ds) <= usize::MAX {
        Some(decimal_value(ds))
    } else {
        None
    }
}

/// The digit that writes `d`.
pub open spec fn digit_char(d: nat) -> char {
    if d == 0 {
        '0'
    } else if d == 1 {
        '1'
    } else if d == 2 {
        '2'
    } else if d == 3 {
        '3'
    } else if d == 4 {
        '4'
    } else if d == 5 {
        '5'
    } else if d == 6 {
        '6'
    } else if d == 7 {
        '7'
    } else if d == 8 {
        '8'
    } else {
        '9'
    }
}

/// The decimal digits that write `n`, without leading zeros.
pub open spec fn decimal(n: nat) -> Seq<char>
    decreases n,
{
    if n < 10 {
        seq![digit_char(n)]
    } else {
        decimal(n / 10).push(digit_char(n % 10))
    }
}

/// A number does not get smaller when digits are written behind it.
pub proof fn decimal_value_grows(ds: Seq<char>, k: int)
    requires
        0 <= k <= ds.len(),
    ensures
        decimal_value(ds.subrange(0, k)) <= decimal_value(ds),
    decreases ds.len() - k,
{
    if k < ds.len() {
        let longer = ds.subrange(0, k + 1);
        assert(longer.drop_last() =~= ds.subrange(0, k));
        decimal_value_grows(ds, k + 1);
    } else {
        assert(ds.subrange(0, k) =~= ds);
    }
}

/// Reading back the digits that write a number gives that number.
pub proof fn decimal_reads_back(n: nat)
    ensures
        decimal(n).len() > 0,
        all_digits(decimal(n)),
        decimal_value(decimal(n)) == n,
        unsigned_part(decimal(n)) == decimal(n),
    decreases n,
{
    if n < 10 {
        let ds = decimal(n);
        assert(ds.drop_last() =~= Seq::<char>::empty());
        assert(decimal_value(ds.drop_last()) == 0);
    } else {
        decimal_reads_back(n / 10);
        let ds = decimal(n);
        assert(ds.drop_last() =~= decimal(n / 10));
        assert(ds[0] == decimal(n / 10)[0]);
    }
}

/// The text of one decimal digit.
pub fn digit_text(d: usize) -> (text: &'static str)
    requires
        d < 10,
    ensures
        text@ == seq![digit_char(d as nat)],
{
    proof {
        reveal_strlit("0");
        reveal_strlit("1");
        reveal_strlit("2");
        reveal_strlit("3");
        reveal_strlit("4");
        reveal_strlit("5");
        reveal_strlit("6");
        reveal_strlit("7");
        reveal_strlit("8");
        reveal_strlit("9");
    }
    let text = if d == 0 {
        "0"
    } else if d == 1 {
        "1"
    } else if d == 2 {
        "2"
    } else if d == 3 {
        "3"
    } else if d == 4 {
        "4"
    } else if d == 5 {
        "5"
    } else if d == 6 {
        "6"
    } else if d == 7 {
        "7"
    } else if d == 8 {
        "8"
    } else {
        "9"
    };
    assert(text@ =~= seq![digit_char(d as nat)]);
    text
}

/// Writes `n` in decimal behind what `out` holds.
pub fn push_decimal(out: &mut String, n: usize)
    ensures
        final(out)@ == old(out)@ + decimal(n as nat),
    decreases n,
{
    if n >= 10 {
        push_decimal(out, n / 10);
    }
    out.append(digit_text(n % 10));
    assert(out@ =~= old(out)@ + decimal(n as nat));
}

/// The code of `c` with the ASCII capitals folded onto the small letters.
pub fn fold_code(c: char) -> (code: u32)
    ensures
        code == folded(c),
{
    if 'A' <= c && c <= 'Z' {
        c as u32 + 32
    } else {
        c as u32
    }
}

/// Reads a machine-sized number: an optional `+`, then decimal digits.
pub fn parse_number(token: &str) -> (number: Option<usize>)
    ensures
        number matches Some(n) ==> number_value(token@) == Some(n as nat),
        number is None ==> number_value(token@) is None,
{
    let src = Source::new(token);
    let n = src.len();
    let start: usize = if src.is_char(0, '+') {
        1
    } else {
        0
    };
    let ghost ds = unsigned_part(token@);
    assert(ds =~= token@.subrange(start as int, n as int));
    if start == n {
        return None;
    }
    let mut acc: usize = 0;
    let mut i: usize = start;
    while i < n
        invariant
            src.wf(),
            src@ == token@,
            n == token@.len(),
            start <= i <= n,
            ds == unsigned_part(token@),
            ds == token@.subrange(start as int, n as int),
            all_digits(ds.subrange(0, i - start)),
            acc == decimal_value(ds.subrange(0, i - start)),
        decreases n - i,
    {
        let c = src.char_at(i);
        let ghost longer = ds.subrange(0, i - start + 1);
        assert(longer.drop_last() =~= ds.subrange(0, i - start));
        assert(longer.last() == c);
        if !('0' <= c && c <= '9') {
            assert(!decimal_digit(ds[i - start]));
            return None;
        }
        let d: usize = (c as u32 - '0' as u32) as usize;
        assert(d == digit_value(c));
        assert(decimal_value(longer) == acc * 10 + d);
        if acc > (usize::MAX - d) / 10 {
            proof {
                decimal_value_grows(ds, i - start + 1);
            }
            return None;
        }
        acc = acc * 10 + d;
        i += 1;
        assert forall|j: int| 0 <= j < longer.len() implies decimal_digit(#[trigger] longer[j]) by {
            if j < longer.len() - 1 {
                assert(longer[j] == ds.subrange(0, i - start - 1)[j]);
            }
        }
    }
    assert(ds.subrange(0, n - start) =~= ds);
    Some(acc)
}

/// A line of text together with its characters, so that a character is
/// reached in constant time, and with the class of each character.
pub struct Source<'a> {
    text: &'a str,
    chars: Vec<char>,
    alphanumeric: Vec<bool>,
}

impl<'a> View for Source<'a> {
    type V = Seq<char>;

    closed spec fn view(&self) -> Seq<char> {
        self.text@
    }
}

impl<'a> Source<'a> {
    /// The characters held are those of the text, and each flag says
    /// whether the character at its index is alphanumeric.
    pub closed spec fn wf(&self) -> bool {
        &&& self.chars@ == self.text@
        &&& self.alphanumeric@.len() == self.chars@.len()
        &&& forall|i: int|
            0 <= i < self.chars@.len() ==> self.alphanumeric@[i] == CharClass::Alphanumeric.holds(
                #[trigger] self.chars@[i],
            )
    }

    /// Takes the characters of `text` and classifies them.
    pub fn new(text: &'a str) -> (src: Self)
        ensures
            src.wf(),
            src@ == text@,
    {
        let mut chars: Vec<char> = Vec::new();
        let mut it = text.chars();
        loop
            invariant
                chars@ + it.remaining() == text@,
                it.obeys_prophetic_iter_laws(),
                it.decrease() is Some,
            ensures
                chars@ == text@,
            decreases it.decrease()->0,
        {
            let ghost before = it.remaining();
            match it.next() {
                Some(c) => {
                    chars.push(c);
                    assert(chars@ + it.remaining() =~= chars@.drop_last() + before);
                },
                None => {
                    assert(chars@ + it.remaining() =~= chars@);
                    break ;
                },
            }
        }
        let mut alphanumeric: Vec<bool> = Vec::new();
        let mut i: usize = 0;
        while i < chars.len()
            invariant
                i <= chars.len(),
                alphanumeric@.len() == i,
                forall|k: int|
                    0 <= k < i ==> alphanumeric@[k] == CharClass::Alphanumeric.holds(
                        #[trigger] chars@[k],
                    ),
            decreases chars.len() - i,
        {
            alphanumeric.push(is_alphanumeric(chars[i]));
            i += 1;
        }
        Source { text, chars, alphanumeric }
    }

    /// The number of characters.
    pub fn len(&self) -> (n: usize)
        requires
            self.wf(),
        ensures
            n == self@.len(),
    {
        self.chars.len()
    }

    /// The character at a position.
    pub fn char_at(&self, at: usize) -> (c: char)
        requires
            self.wf(),
            at < self@.len(),
        ensures
            c == self@[at as int],
    {
        self.chars[at]
    }

    /// The text between two positions.
    pub fn slice(&self, from: usize, to: usize) -> (part: &'a str)
        requires
            self.wf(),
            from <= to <= self@.len(),
        ensures
            part@ == self@.subrange(from as int, to as int),
    {
        self.text.substring_char(from, to)
    }

    /// The text from a position to the end.
    pub fn rest(&self, from: usize) -> (part: &'a str)
        requires
            self.wf(),
            from <= self@.len(),
        ensures
            part@ == self@.skip(from as int),
    {
        self.text.substring_char(from, self.chars.len())
    }

    /// Whether the character at `at` is `c`; no character stands behind the
    /// end.
    pub fn is_char(&self, at: usize, c: char) -> (b: bool)
        requires
            self.wf(),
        ensures
            b == has_char(self@, at as int, c),
            b ==> at < usize::MAX,
    {
        at < self.chars.len() && self.chars[at] == c
    }

    /// The position behind `word`, where it stands at `at`.
    pub fn after_word(&self, at: usize, word: &str) -> (end: Option<usize>)
        requires
            self.wf(),
            at <= self@.len(),
        ensures
            end matches Some(e) ==> word_end(self@, at as int, word@) == Some(e as int) && at <= e
                <= self@.len(),
            end is None ==> word_end(self@, at as int, word@) is None,
    {
        let w = Source::new(word);
        let m = w.len();
        if m > self.chars.len() - at {
            return None;
        }
        let mut j: usize = 0;
        while j < m
            invariant
                self.wf(),
                w.wf(),
                w@ == word@,
                m == word@.len(),
                at + m <= self.chars.len(),
                j <= m,
                forall|k: int| 0 <= k < j ==> self@[at + k] == word@[k],
            decreases m - j,
        {
            if self.chars[at + j] != w.char_at(j) {
                assert(self@.subrange(at as int, at + m)[j as int] != word@[j as int]);
                return None;
            }
            j += 1;
        }
        assert(self@.subrange(at as int, at + m) =~= word@);
        Some(at + m)
    }

    /// Whether the whole text is `word` up to the case of ASCII letters.
    pub fn is_word_ignoring_case(&self, word: &str) -> (b: bool)
        requires
            self.wf(),
        ensures
            b == same_ignoring_case(self@, word@),
    {
        let w = Source::new(word);
        let m = w.len();
        if m != self.chars.len() {
            return false;
        }
        let mut j: usize = 0;
        while j < m
            invariant
                self.wf(),
                w.wf(),
                w@ == word@,
                m == word@.len(),
                m == self@.len(),
                j <= m,
                forall|k: int| 0 <= k < j ==> folded(#[trigger] self@[k]) == folded(word@[k]),
            decreases m - j,
        {
            if fold_code(self.chars[j]) != fold_code(w.char_at(j)) {
                return false;
            }
            j += 1;
        }
        true
    }

    /// Where the identifier that starts at `from` ends.
    pub fn identifier_end(&self, from: usize) -> (end: usize)
        requires
            self.wf(),
            from <= self@.len(),
        ensures
            end == ident_end(self@, from as int),
            from <= end <= self@.len(),
    {
        proof {
            flags_end_is_run_end(self.alphanumeric@, self@, from as int, CharClass::Alphanumeric);
        }
        run_of_flags_end(&self.alphanumeric, from)
    }

    /// Where the blanks that start at `from` end.
    pub fn blanks_end(&self, from: usize) -> (end: usize)
        requires
            self.wf(),
            from <= self@.len(),
        ensures
            end == blanks_end(self@, from as int),
            from <= end <= self@.len(),
    {
        let mut i: usize = from;
        while i < self.chars.len() && self.chars[i] == ' '
            invariant
                self.wf(),
                from <= i <= self@.len(),
                blanks_end(self@, from as int) == blanks_end(self@, i as int),
            decreases self@.len() - i,
        {
            i += 1;
        }
        i
    }

    /// Where the decimal digits that start at `from` end.
    pub fn digits_end(&self, from: usize) -> (end: usize)
        requires
            self.wf(),
            from <= self@.len(),
        ensures
            end == digits_end(self@, from as int),
            from <= end <= self@.len(),
    {
        let mut i: usize = from;
        while i < self.chars.len() && '0' <= self.chars[i] && self.chars[i] <= '9'
            invariant
                self.wf(),
                from <= i <= self@.len(),
                digits_end(self@, from as int) == digits_end(self@, i as int),
            decreases self@.len() - i,
        {
            i += 1;
        }
        i
    }
}

/// Whether two texts hold the same characters.
pub fn same_text(a: &str, b: &str) -> (same: bool)
    ensures
        same == (a@ == b@),
{
    let src = Source::new(a);
    match src.after_word(0, b) {
        Some(end) => {
            if end == src.len() {
                assert(a@.subrange(0, a@.len() as int) =~= a@);
                true
            } else {
                false
            }
        },
        None => {
            assert(a@ == b@ ==> a@.subrange(0, b@.len() as int) =~= b@);
            false
        },
    }
}

} // verus!
