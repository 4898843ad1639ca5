//! Character-level text utilities shared by the request parser and the
//! response serializer: searching, splitting into lines and words, and
//! building strings.
//!
//! Text is modelled as `Seq<char>`; executable code works on `Vec<char>`.

use vstd::prelude::*;
use vstd::utf8::{decode_utf8, valid_utf8};

verus! {

/// Reads bytes as UTF-8 text.
///
/// Trusted: stands for `std::str::from_utf8`, which succeeds exactly on
/// valid UTF-8 and then gives the text that the bytes encode.
#[verifier::external_body]
pub(crate) fn text_of_bytes(bytes: &[u8]) -> (r: Option<&str>)
    ensures
        r is Some <==> valid_utf8(bytes@),
        r matches Some(s) ==> s@ == decode_utf8(bytes@),
{
    std::str::from_utf8(bytes).ok()
}

/// Appends one character to a string.
///
/// Trusted: stands for `String::push`, which appends the given character to
/// the end of the string and changes nothing else.
#[verifier::external_body]
pub(crate) fn push_char(s: &mut String, c: char)
    ensures
        final(s)@ == old(s)@.push(c),
{
    s.push(c)
}

/// The characters of `s`, in order.
pub fn to_chars(s: &str) -> (v: Vec<char>)
    ensures
        v@ == s@,
{
    let mut v: Vec<char> = Vec::new();
    let chars = s.chars();
    for c in it: chars
        invariant
            it.seq() == s@,
            v@ == s@.take(it.index()),
    {
        v.push(c);
    }
    v
}

/// The string made of the characters `v[from..to]`.
pub fn string_from_chars(v: &Vec<char>, from: usize, to: usize) -> (s: String)
    requires
        from <= to <= v.len(),
    ensures
        s@ == v@.subrange(from as int, to as int),
{
    let mut s = String::new();
    let mut i: usize = from;
    while i < to
        invariant
            from <= i <= to <= v.len(),
            s@ == v@.subrange(from as int, i as int),
        decreases to - i,
    {
        push_char(&mut s, v[i]);
        i += 1;
    }
    s
}

/// A copy of the characters `v[from..to]`.
pub fn slice_chars(v: &Vec<char>, from: usize, to: usize) -> (r: Vec<char>)
    requires
        from <= to <= v.len(),
    ensures
        r@ == v@.subrange(from as int, to as int),
{
    let mut r: Vec<char> = Vec::new();
    let mut i: usize = from;
    while i < to
        invariant
            from <= i <= to <= v.len(),
            r@ == v@.subrange(from as int, i as int),
        decreases to - i,
    {
        r.push(v[i]);
        i += 1;
    }
    r
}

/// Whether two string slices hold the same characters.
pub fn str_eq(a: &str, b: &str) -> (r: bool)
    ensures
        r == (a@ == b@),
{
    let x = a.to_owned();
    let y = b.to_owned();
    x == y
}

/// Whether `c` has the Unicode property `White_Space`.
pub open spec fn is_whitespace(c: char) -> bool {
    let n = c as u32;
    ||| 0x09 <= n <= 0x0D
    ||| n == 0x20
    ||| n == 0x85
    ||| n == 0xA0
    ||| n == 0x1680
    ||| 0x2000 <= n <= 0x200A
    ||| n == 0x2028
    ||| n == 0x2029
    ||| n == 0x202F
    ||| n == 0x205F
    ||| n == 0x3000
}

/// A class of characters that a search can look for.
#[derive(Clone, Copy, Debug)]
pub enum CharClass {
    /// Exactly the given character.
    Exactly(char),
    /// Any white space character.
    Whitespace,
    /// Any character that is not white space.
    NonWhitespace,
}

impl CharClass {
    /// Whether `c` belongs to the class.
    pub open spec fn holds(self, c: char) -> bool {
        match self {
            CharClass::Exactly(x) => c == x,
            CharClass::Whitespace => is_whitespace(c),
            CharClass::NonWhitespace => !is_whitespace(c),
        }
    }

    /// Decides whether `c` belongs to the class.
    pub fn test(self, c: char) -> (r: bool)
        ensures
            r == self.holds(c),
    {
        match self {
            CharClass::Exactly(x) => c == x,
            CharClass::Whitespace => char_is_whitespace(c),
            CharClass::NonWhitespace => !char_is_whitespace(c),
        }
    }
}

/// Decides whether `c` is white space.
pub fn char_is_whitespace(c: char) -> (r: bool)
    ensures
        r == is_whitespace(c),
{
    let n: u32 = c as u32;
    (0x09 <= n && n <= 0x0D) || n == 0x20 || n == 0x85 || n == 0xA0 || n == 0x1680 || (0x2000 <= n
        && n <= 0x200A) || n == 0x2028 || n == 0x2029 || n == 0x202F || n == 0x205F || n
        == 0x3000
}

/// `k` is the index of the first character of `s` in `class`, or the length
/// of `s` if there is none.
pub open spec fn is_first_index(s: Seq<char>, class: CharClass, k: int) -> bool {
    &&& 0 <= k <= s.len()
    &&& forall|j: int| 0 <= j < k ==> !class.holds(#[trigger] s[j])
    &&& k < s.len() ==> class.holds(s[k])
}

/// The index of the first character of `s` in `class`, or the length of `s`
/// if there is none.
pub open spec fn first_index(s: Seq<char>, class: CharClass) -> int {
    choose|k: int| is_first_index(s, class, k)
}

proof fn first_index_witness(s: Seq<char>, class: CharClass, n: int) -> (k: int)
    requires
        0 <= n <= s.len(),
        forall|j: int| 0 <= j < n ==> !class.holds(#[trigger] s[j]),
    ensures
        is_first_index(s, class, k),
    decreases s.len() - n,
{
    if n == s.len() || class.holds(s[n]) {
        n
    } else {
        first_index_witness(s, class, n + 1)
    }
}

/// Every text has a first index for every class.
pub proof fn lemma_first_index(s: Seq<char>, class: CharClass)
    ensures
        is_first_index(s, class, first_index(s, class)),
{
    let k = first_index_witness(s, class, 0);
    assert(is_first_index(s, class, k));
}

/// There is only one first index.
pub proof fn lemma_first_index_unique(s: Seq<char>, class: CharClass, k: int)
    requires
        is_first_index(s, class, k),
    ensures
        first_index(s, class) == k,
{
    let k2 = first_index(s, class);
    assert(is_first_index(s, class, k2));
    if k < k2 {
        assert(class.holds(s[k]));
    }
    if k2 < k {
        assert(class.holds(s[k2]));
    }
}

/// A character occurs in a text exactly when its first index lies inside
/// the text.
pub proof fn lemma_contains_char(s: Seq<char>, c: char)
    ensures
        s.contains(c) <==> first_index(s, CharClass::Exactly(c)) < s.len(),
{
    let k = first_index(s, CharClass::Exactly(c));
    lemma_first_index(s, CharClass::Exactly(c));
    if s.contains(c) {
        let i = choose|i: int| 0 <= i < s.len() && s[i] == c;
        if k > i {
            assert(!CharClass::Exactly(c).holds(s[i]));
        }
    }
    if k < s.len() {
        assert(s[k] == c);
    }
}

/// Finds the first character of `v[from..]` in `class`.
pub fn find_first(v: &Vec<char>, from: usize, class: CharClass) -> (k: usize)
    requires
        from <= v.len(),
    ensures
        from <= k <= v.len(),
        k - from == first_index(v@.skip(from as int), class),
        forall|j: int| from <= j < k ==> !class.holds(#[trigger] v@[j]),
        k < v.len() ==> class.holds(v@[k as int]),
{
    let mut k: usize = from;
    while k < v.len() && !class.test(v[k])
        invariant
            from <= k <= v.len(),
            forall|j: int| from <= j < k ==> !class.holds(#[trigger] v@[j]),
        decreases v.len() - k,
    {
        k += 1;
    }
    proof {
        let s = v@.skip(from as int);
        assert forall|j: int| 0 <= j < k - from implies !class.holds(#[trigger] s[j]) by {
            assert(s[j] == v@[j + from]);
        }
        lemma_first_index_unique(s, class, k - from);
    }
    k
}

/// The first line of a non-empty text: everything before the first line feed,
/// without the carriage return that may precede it. A text without a line
/// feed is its own first line.
pub open spec fn first_line(s: Seq<char>) -> Seq<char> {
    let k = first_index(s, CharClass::Exactly('\n'));
    if 0 < k < s.len() && s[k - 1] == '\r' {
        s.subrange(0, k - 1)
    } else {
        s.subrange(0, k)
    }
}

/// What follows the first line and its line feed.
pub open spec fn after_first_line(s: Seq<char>) -> Seq<char> {
    let k = first_index(s, CharClass::Exactly('\n'));
    if 0 <= k < s.len() {
        s.skip(k + 1)
    } else {
        Seq::empty()
    }
}

/// The lines of a text. Lines end at a line feed or at a carriage return
/// followed by a line feed; the ending is not part of the line, and the last
/// line needs none.
pub open spec fn lines(s: Seq<char>) -> Seq<Seq<char>>
    decreases s.len(),
{
    if s.len() == 0 {
        Seq::empty()
    } else {
        seq![first_line(s)] + lines(after_first_line(s))
    }
}

/// No line holds a line feed.
pub proof fn lemma_lines_hold_no_line_feed(s: Seq<char>, i: int)
    requires
        0 <= i < lines(s).len(),
    ensures
        !lines(s)[i].contains('\n'),
    decreases s.len(),
{
    let k = first_index(s, CharClass::Exactly('\n'));
    lemma_first_index(s, CharClass::Exactly('\n'));
    if i == 0 {
        let line = first_line(s);
        assert forall|j: int| 0 <= j < line.len() implies line[j] != '\n' by {
            assert(line[j] == s[j]);
            assert(!CharClass::Exactly('\n').holds(s[j]));
        }
    } else {
        assert(lines(s)[i] == lines(after_first_line(s))[i - 1]);
        lemma_lines_hold_no_line_feed(after_first_line(s), i - 1);
    }
}

/// A line without a line feed, ended by a carriage return and a line feed,
/// is the first line of a text, and the lines of what follows are the others.
pub proof fn lemma_lines_first(line: Seq<char>, rest: Seq<char>)
    requires
        !line.contains('\n'),
    ensures
        lines(line + seq!['\r', '\n'] + rest) == seq![line] + lines(rest),
{
    let s = line + seq!['\r', '\n'] + rest;
    let k = line.len() as int + 1;
    assert forall|j: int| 0 <= j < k implies !CharClass::Exactly('\n').holds(#[trigger] s[j]) by {
        if j < line.len() {
            assert(s[j] == line[j]);
            assert(line.contains(line[j]));
        }
    }
    assert(s[k] == '\n');
    lemma_first_index_unique(s, CharClass::Exactly('\n'), k);
    assert(s[k - 1] == '\r');
    assert(s.subrange(0, k - 1) =~= line);
    assert(s.skip(k + 1) =~= rest);
}

/// Finds the first line of `v[from..]`: returns the index at which the line's
/// content ends and the index at which the rest of the text starts.
pub fn next_line(v: &Vec<char>, from: usize) -> (r: (usize, usize))
    requires
        from < v.len(),
    ensures
        from <= r.0 <= r.1 <= v.len(),
        from < r.1,
        v@.subrange(from as int, r.0 as int) == first_line(v@.skip(from as int)),
        v@.skip(r.1 as int) == after_first_line(v@.skip(from as int)),
{
    let nl = find_first(v, from, CharClass::Exactly('\n'));
    let ghost s = v@.skip(from as int);
    if nl < v.len() {
        let end = if nl > from && v[nl - 1] == '\r' {
            nl - 1
        } else {
            nl
        };
        proof {
            assert(v@.subrange(from as int, end as int) =~= s.subrange(0, end - from));
            assert(v@.skip(nl + 1) =~= s.skip(nl - from + 1));
        }
        (end, nl + 1)
    } else {
        proof {
            assert(v@.subrange(from as int, nl as int) =~= s.subrange(0, nl - from));
            assert(v@.skip(nl as int) =~= Seq::<char>::empty());
        }
        (nl, nl)
    }
}

/// `pat` occurs in `s` at index `i`.
pub open spec fn occurs_at(s: Seq<char>, pat: Seq<char>, i: int) -> bool {
    &&& 0 <= i
    &&& i + pat.len() <= s.len()
    &&& s.subrange(i, i + pat.len()) == pat
}

/// `pat` occurs somewhere in `s`.
pub open spec fn contains(s: Seq<char>, pat: Seq<char>) -> bool {
    exists|i: int| occurs_at(s, pat, i)
}

/// Decides whether `pat` occurs in `v` at index `i`.
pub fn matches_at(v: &Vec<char>, pat: &Vec<char>, i: usize) -> (r: bool)
    requires
        i + pat.len() <= v.len(),
    ensures
        r == occurs_at(v@, pat@, i as int),
{
    let mut j: usize = 0;
    while j < pat.len()
        invariant
            i + pat.len() <= v.len(),
            j <= pat.len(),
            forall|t: int| 0 <= t < j ==> v@[i + t] == #[trigger] pat@[t],
        decreases pat.len() - j,
    {
        if v[i + j] != pat[j] {
            proof {
                let sub = v@.subrange(i as int, i + pat.len());
                assert(sub[j as int] != pat@[j as int]);
            }
            return false;
        }
        j += 1;
    }
    assert(v@.subrange(i as int, i + pat.len()) =~= pat@);
    true
}

/// `i` is the index of the first occurrence of `pat` in `s`, or the length
/// of `s` if there is none.
pub open spec fn is_first_occurrence(s: Seq<char>, pat: Seq<char>, i: int) -> bool {
    &&& 0 <= i <= s.len()
    &&& forall|j: int| 0 <= j < i ==> !occurs_at(s, pat, j)
    &&& occurs_at(s, pat, i) || i == s.len()
}

/// The index of the first occurrence of `pat` in `s`, or the length of `s`
/// if there is none.
pub open spec fn first_occurrence(s: Seq<char>, pat: Seq<char>) -> int {
    choose|i: int| is_first_occurrence(s, pat, i)
}

/// There is only one first occurrence.
pub proof fn lemma_first_occurrence_unique(s: Seq<char>, pat: Seq<char>, i: int)
    requires
        is_first_occurrence(s, pat, i),
    ensures
        first_occurrence(s, pat) == i,
{
    let i2 = first_occurrence(s, pat);
    assert(is_first_occurrence(s, pat, i2));
    if i < i2 {
        assert(!occurs_at(s, pat, i));
    }
    if i2 < i {
        assert(!occurs_at(s, pat, i2));
    }
}

/// Finds the first occurrence of `pat` in `v`.
pub fn find_substring(v: &Vec<char>, pat: &Vec<char>) -> (r: Option<usize>)
    ensures
        r is Some == contains(v@, pat@),
        r matches Some(i) ==> i == first_occurrence(v@, pat@) && occurs_at(v@, pat@, i as int),
        r is None ==> first_occurrence(v@, pat@) == v@.len(),
{
    if pat.len() > v.len() {
        proof {
            assert(is_first_occurrence(v@, pat@, v@.len() as int));
            lemma_first_occurrence_unique(v@, pat@, v@.len() as int);
        }
        return None;
    }
    let last: usize = v.len() - pat.len();
    let mut i: usize = 0;
    loop
        invariant
            last == v.len() - pat.len(),
            i <= last,
            forall|j: int| 0 <= j < i ==> !occurs_at(v@, pat@, j),
        decreases last - i,
    {
        if matches_at(v, pat, i) {
            proof {
                lemma_first_occurrence_unique(v@, pat@, i as int);
            }
            return Some(i);
        }
        if i == last {
            proof {
                assert(is_first_occurrence(v@, pat@, v@.len() as int));
                lemma_first_occurrence_unique(v@, pat@, v@.len() as int);
            }
            return None;
        }
        i += 1;
    }
}

/// Decides whether `pat` occurs somewhere in `v`.
pub fn has_substring(v: &Vec<char>, pat: &Vec<char>) -> (r: bool)
    ensures
        r == contains(v@, pat@),
{
    find_substring(v, pat).is_some()
}

/// The words of a text: its maximal runs of characters that are not white
/// space, in order.
pub open spec fn words(s: Seq<char>) -> Seq<Seq<char>>
    decreases s.len(),
{
    let a = first_index(s, CharClass::NonWhitespace);
    if 0 <= a < s.len() {
        let t = s.skip(a);
        let b = first_index(t, CharClass::Whitespace);
        if 0 < b <= t.len() {
            seq![t.take(b)] + words(t.skip(b))
        } else {
            Seq::empty()
        }
    } else {
        Seq::empty()
    }
}

/// The text without the white space in front of it.
pub open spec fn trim_start(s: Seq<char>) -> Seq<char> {
    s.skip(first_index(s, CharClass::NonWhitespace))
}

/// A word: a text that is not empty and holds no white space.
pub open spec fn is_word(s: Seq<char>) -> bool {
    &&& s.len() > 0
    &&& forall|i: int| 0 <= i < s.len() ==> !is_whitespace(#[trigger] s[i])
}

/// The empty text has no words.
pub proof fn lemma_words_empty()
    ensures
        words(Seq::<char>::empty()) == Seq::<Seq<char>>::empty(),
{
    let s = Seq::<char>::empty();
    lemma_first_index(s, CharClass::NonWhitespace);
}

/// White space in front of a text does not change its words.
pub proof fn lemma_words_skip_whitespace(c: char, tail: Seq<char>)
    requires
        is_whitespace(c),
    ensures
        words(seq![c] + tail) == words(tail),
{
    let s = seq![c] + tail;
    let a = first_index(tail, CharClass::NonWhitespace);
    lemma_first_index(tail, CharClass::NonWhitespace);
    assert forall|j: int| 0 <= j < a + 1 implies !CharClass::NonWhitespace.holds(
        #[trigger] s[j],
    ) by {
        if j > 0 {
            assert(s[j] == tail[j - 1]);
        }
    }
    if a + 1 < s.len() {
        assert(s[a + 1] == tail[a]);
    }
    lemma_first_index_unique(s, CharClass::NonWhitespace, a + 1);
    if a < tail.len() {
        assert(s.skip(a + 1) =~= tail.skip(a));
    }
}

/// A word in front of a text that is empty or starts with white space is the
/// first word, and the words of that text are the others.
pub proof fn lemma_words_first(word: Seq<char>, tail: Seq<char>)
    requires
        is_word(word),
        tail.len() == 0 || is_whitespace(tail[0]),
    ensures
        words(word + tail) == seq![word] + words(tail),
{
    let s = word + tail;
    assert(s[0] == word[0]);
    assert(is_first_index(s, CharClass::NonWhitespace, 0));
    lemma_first_index_unique(s, CharClass::NonWhitespace, 0);
    let t = s.skip(0);
    assert(t =~= s);
    let b = word.len() as int;
    assert forall|j: int| 0 <= j < b implies !CharClass::Whitespace.holds(#[trigger] t[j]) by {
        assert(t[j] == word[j]);
    }
    if b < t.len() {
        assert(t[b] == tail[0]);
    }
    lemma_first_index_unique(t, CharClass::Whitespace, b);
    assert(t.take(b) =~= word);
    assert(t.skip(b) =~= tail);
}

/// Finds the first word of `v[from..]`: returns the index at which it starts
/// and the index at which it ends. The two are equal when there is no word.
pub fn next_word(v: &Vec<char>, from: usize) -> (r: (usize, usize))
    requires
        from <= v.len(),
    ensures
        from <= r.0 <= r.1 <= v.len(),
        r.0 == r.1 ==> words(v@.skip(from as int)) == Seq::<Seq<char>>::empty(),
        r.0 < r.1 ==> words(v@.skip(from as int)) == seq![v@.subrange(r.0 as int, r.1 as int)]
            + words(v@.skip(r.1 as int)),
{
    let start = find_first(v, from, CharClass::NonWhitespace);
    let end = find_first(v, start, CharClass::Whitespace);
    proof {
        let s = v@.skip(from as int);
        let t = s.skip(start - from);
        assert(t =~= v@.skip(start as int));
        if start < v.len() {
            assert(t.take(end - start) =~= v@.subrange(start as int, end as int));
            assert(t.skip(end - start) =~= v@.skip(end as int));
        }
    }
    (start, end)
}

/// The decimal digit for a number below ten.
pub open spec fn digit(d: nat) -> char {
    if d == 0 {
        '0'
    } else if d == 1 {
        '1'
    } else if d == 2 {
        '2'
    } else if d == 3 {
        '3'
    } else if d == 4 {
        '4'
    } else if d == 5 {
        '5'
    } else if d == 6 {
        '6'
    } else if d == 7 {
        '7'
    } else if d == 8 {
        '8'
    } else {
        '9'
    }
}

/// The decimal numeral of `n`, without leading zeros.
pub open spec fn decimal(n: nat) -> Seq<char>
    decreases n,
{
    if n < 10 {
        seq![digit(n)]
    } else {
        decimal(n / 10).push(digit(n % 10))
    }
}

/// The decimal digit for `d`.
pub fn digit_char(d: usize) -> (c: char)
    requires
        d < 10,
    ensures
        c == digit(d as nat),
{
    if d == 0 {
        '0'
    } else if d == 1 {
        '1'
    } else if d == 2 {
        '2'
    } else if d == 3 {
        '3'
    } else if d == 4 {
        '4'
    } else if d == 5 {
        '5'
    } else if d == 6 {
        '6'
    } else if d == 7 {
        '7'
    } else if d == 8 {
        '8'
    } else {
        '9'
    }
}

/// Whether `c` is a decimal digit.
pub open spec fn is_digit(c: char) -> bool {
    0x30 <= c as u32 <= 0x39
}

/// The number that a decimal digit stands for.
pub open spec fn digit_value(c: char) -> nat {
    (c as u32 - 0x30) as nat
}

/// The text is a numeral: it is not empty and holds decimal digits only.
pub open spec fn is_numeral(s: Seq<char>) -> bool {
    &&& s.len() > 0
    &&& forall|i: int| 0 <= i < s.len() ==> is_digit(#[trigger] s[i])
}

/// The number that a numeral stands for.
pub open spec fn numeral_value(s: Seq<char>) -> nat
    decreases s.len(),
{
    if s.len() == 0 {
        0
    } else {
        10 * numeral_value(s.drop_last()) + digit_value(s.last())
    }
}

/// The decimal numeral of a number is a numeral, and stands for that
/// number.
pub proof fn lemma_decimal_is_numeral(n: nat)
    ensures
        is_numeral(decimal(n)),
        numeral_value(decimal(n)) == n,
    decreases n,
{
    let c = digit(n % 10);
    assert(is_digit(c) && digit_value(c) == n % 10);
    if n < 10 {
        let s = seq![c];
        assert(s.drop_last() =~= Seq::<char>::empty());
        assert(numeral_value(s.drop_last()) == 0);
    } else {
        lemma_decimal_is_numeral(n / 10);
        let s = decimal(n / 10).push(c);
        assert(s.drop_last() =~= decimal(n / 10));
        assert(s.last() == c);
    }
}

/// What reading a numeral gives.
#[derive(Debug, Clone, Copy, PartialEq, Eq, Structural)]
pub enum Numeral {
    /// The number that the numeral stands for.
    Value(usize),
    /// The numeral stands for a number beyond `usize::MAX`.
    TooLarge,
    /// The text is no numeral.
    Invalid,
}

/// Reads the numeral `v[from..to]`.
pub fn read_numeral(v: &Vec<char>, from: usize, to: usize) -> (r: Numeral)
    requires
        from <= to <= v.len(),
    ensures
        r == if !is_numeral(v@.subrange(from as int, to as int)) {
            Numeral::Invalid
        } else if numeral_value(v@.subrange(from as int, to as int)) > usize::MAX {
            Numeral::TooLarge
        } else {
            Numeral::Value(numeral_value(v@.subrange(from as int, to as int)) as usize)
        },
{
    let ghost s = v@.subrange(from as int, to as int);
    if from == to {
        return Numeral::Invalid;
    }
    let mut value: usize = 0;
    let mut too_large = false;
    let mut i: usize = from;
    assert(s.take(0) =~= Seq::<char>::empty());
    while i < to
        invariant
            from <= i <= to <= v.len(),
            s == v@.subrange(from as int, to as int),
            forall|j: int| 0 <= j < i - from ==> is_digit(#[trigger] s[j]),
            !too_large ==> value == numeral_value(s.take(i - from)),
            too_large ==> numeral_value(s.take(i - from)) > usize::MAX,
        decreases to - i,
    {
        let c = v[i];
        let n: u32 = c as u32;
        if n < 0x30 || n > 0x39 {
            assert(s[i - from] == c);
            return Numeral::Invalid;
        }
        let d: usize = (n - 0x30) as usize;
        proof {
            let next = s.take(i - from + 1);
            assert(next.drop_last() =~= s.take(i - from));
            assert(next.last() == c);
            assert(s[i - from] == c);
        }
        if !too_large {
            if value > (usize::MAX - d) / 10 {
                too_large = true;
            } else {
                value = 10 * value + d;
            }
        }
        i += 1;
    }
    assert(s.take(to - from) =~= s);
    if too_large {
        Numeral::TooLarge
    } else {
        Numeral::Value(value)
    }
}

/// Appends the decimal numeral of `n` to `s`.
pub fn push_decimal(s: &mut String, n: usize)
    ensures
        final(s)@ == old(s)@ + decimal(n as nat),
    decreases n,
{
    if n >= 10 {
        push_decimal(s, n / 10);
    }
    push_char(s, digit_char(n % 10));
    assert(s@ =~= old(s)@ + decimal(n as nat));
}

/// The piece number `n` (from 0) of a text cut at every `sep`; the empty
/// text where it has fewer pieces.
pub open spec fn piece(s: Seq<char>, sep: char, n: nat) -> Seq<char>
    decreases n,
{
    let k = first_index(s, CharClass::Exactly(sep));
    if n == 0 {
        s.take(k)
    } else if 0 <= k < s.len() {
        piece(s.skip(k + 1), sep, (n - 1) as nat)
    } else {
        Seq::empty()
    }
}

/// The pieces of a text, by the index `k` of its first `sep`: piece 0 ends
/// at `k`, and the later pieces are those of what follows `k`.
pub proof fn lemma_piece_step(s: Seq<char>, sep: char, n: nat, k: int)
    requires
        is_first_index(s, CharClass::Exactly(sep), k),
    ensures
        piece(s, sep, n) == if n == 0 {
            s.take(k)
        } else if k < s.len() {
            piece(s.skip(k + 1), sep, (n - 1) as nat)
        } else {
            Seq::<char>::empty()
        },
{
    lemma_first_index_unique(s, CharClass::Exactly(sep), k);
}

/// Finds the piece number `n` of `v` cut at every `sep`: returns the index at
/// which it starts and the index at which it ends.
pub fn find_piece(v: &Vec<char>, sep: char, n: usize) -> (r: (usize, usize))
    ensures
        r.0 <= r.1 <= v.len(),
        v@.subrange(r.0 as int, r.1 as int) == piece(v@, sep, n as nat),
{
    let mut from: usize = 0;
    let mut left: usize = n;
    assert(v@.skip(0) =~= v@);
    loop
        invariant
            from <= v.len(),
            piece(v@, sep, n as nat) == piece(v@.skip(from as int), sep, left as nat),
        decreases left,
    {
        let k = find_first(v, from, CharClass::Exactly(sep));
        let ghost s = v@.skip(from as int);
        if left == 0 {
            assert(s.take(k - from) =~= v@.subrange(from as int, k as int));
            return (from, k);
        }
        if k == v.len() {
            assert(v@.subrange(k as int, k as int) =~= Seq::<char>::empty());
            return (k, k);
        }
        assert(s.skip(k - from + 1) =~= v@.skip(k + 1));
        from = k + 1;
        left -= 1;
    }
}

/// `s` ends with `suffix`.
pub open spec fn ends_with(s: Seq<char>, suffix: Seq<char>) -> bool {
    &&& suffix.len() <= s.len()
    &&& s.subrange(s.len() - suffix.len(), s.len() as int) == suffix
}

/// Decides whether `v` ends with `suffix`.
pub fn has_suffix(v: &Vec<char>, suffix: &Vec<char>) -> (r: bool)
    ensures
        r == ends_with(v@, suffix@),
{
    if suffix.len() > v.len() {
        false
    } else {
        matches_at(v, suffix, v.len() - suffix.len())
    }
}

/// Decides whether the characters `v[from..to]` are those of `text`.
pub fn range_is(v: &Vec<char>, from: usize, to: usize, text: &str) -> (r: bool)
    requires
        from <= to <= v.len(),
    ensures
        r == (v@.subrange(from as int, to as int) == text@),
{
    let t = to_chars(text);
    if t.len() != to - from {
        false
    } else {
        matches_at(v, &t, from)
    }
}

} // verus!
