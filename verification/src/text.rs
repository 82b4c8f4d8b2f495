//! Character-level helpers shared by the validators, the log handling and the
//! user-facing messages.  Every helper is stated over `Seq<char>`, the view of
//! `str` and `String`.

use vstd::prelude::*;

verus! {

broadcast use vstd::string::group_string_axioms;

/// Unicode general category `Cc`: the C0 and C1 control codes.
pub open spec fn is_control_char(c: char) -> bool {
    (c as u32) <= 0x1f || (0x7f <= (c as u32) && (c as u32) <= 0x9f)
}

/// Unicode `White_Space` property, the set that `str::trim` removes.
pub open spec fn is_white_space(c: char) -> bool {
    let u = c as u32;
    ||| 0x09 <= u && u <= 0x0d
    ||| u == 0x20
    ||| u == 0x85
    ||| u == 0xa0
    ||| u == 0x1680
    ||| 0x2000 <= u && u <= 0x200a
    ||| u == 0x2028
    ||| u == 0x2029
    ||| u == 0x202f
    ||| u == 0x205f
    ||| u == 0x3000
}

pub open spec fn is_ascii_digit(c: char) -> bool {
    '0' <= c && c <= '9'
}

pub open spec fn is_ascii_alphanumeric(c: char) -> bool {
    ||| is_ascii_digit(c)
    ||| 'a' <= c && c <= 'z'
    ||| 'A' <= c && c <= 'Z'
}

pub open spec fn is_ascii_char(c: char) -> bool {
    (c as u32) < 0x80
}

/// A text that `trim` reduces to the empty string.
pub open spec fn is_blank(s: Seq<char>) -> bool {
    forall|i: int| 0 <= i < s.len() ==> is_white_space(#[trigger] s[i])
}

pub open spec fn has_control(s: Seq<char>) -> bool {
    exists|i: int| 0 <= i < s.len() && is_control_char(#[trigger] s[i])
}

pub open spec fn all_ascii_digits(s: Seq<char>) -> bool {
    forall|i: int| 0 <= i < s.len() ==> is_ascii_digit(#[trigger] s[i])
}

pub open spec fn ascii_lower_char(c: char) -> char {
    if 'A' <= c && c <= 'Z' {
        ((c as u32) + 32) as char
    } else {
        c
    }
}

/// `str::to_ascii_lowercase`.
pub open spec fn ascii_lower(s: Seq<char>) -> Seq<char> {
    Seq::new(s.len(), |i: int| ascii_lower_char(s[i]))
}

pub open spec fn occurs_at(hay: Seq<char>, needle: Seq<char>, i: int) -> bool {
    0 <= i && i + needle.len() <= hay.len() && hay.subrange(i, i + needle.len()) == needle
}

/// `str::contains` with a string pattern.
pub open spec fn contains_text(hay: Seq<char>, needle: Seq<char>) -> bool {
    exists|i: int| #[trigger] occurs_at(hay, needle, i)
}

pub open spec fn starts_with_text(s: Seq<char>, prefix: Seq<char>) -> bool {
    prefix.len() <= s.len() && s.take(prefix.len() as int) == prefix
}

/// Removes leading white space.
pub open spec fn trim_start(s: Seq<char>) -> Seq<char>
    decreases s.len(),
{
    if s.len() > 0 && is_white_space(s[0]) {
        trim_start(s.drop_first())
    } else {
        s
    }
}

/// Removes trailing white space.
pub open spec fn trim_end(s: Seq<char>) -> Seq<char>
    decreases s.len(),
{
    if s.len() > 0 && is_white_space(s.last()) {
        trim_end(s.drop_last())
    } else {
        s
    }
}

/// `str::trim`.
pub open spec fn trim(s: Seq<char>) -> Seq<char> {
    trim_end(trim_start(s))
}

pub open spec fn digit_value(c: char) -> nat {
    ((c as u32) - ('0' as u32)) as nat
}

/// The value of a run of decimal digits.
pub open spec fn digits_value(s: Seq<char>) -> nat
    decreases s.len(),
{
    if s.len() == 0 {
        0
    } else {
        digits_value(s.drop_last()) * 10 + digit_value(s.last())
    }
}

/// `u64::from_str`: an optional `+`, then at least one decimal digit, and a
/// value that fits.
pub open spec fn parse_u64_text(s: Seq<char>) -> Option<u64> {
    let body = if s.len() > 0 && s[0] == '+' {
        s.drop_first()
    } else {
        s
    };
    if body.len() > 0 && all_ascii_digits(body) && digits_value(body) <= u64::MAX {
        Some(digits_value(body) as u64)
    } else {
        None
    }
}

pub open spec fn digit_char(d: nat) -> char {
    (('0' as u32) + d) as char
}

/// The decimal form of a natural number, as `Display` writes it.
pub open spec fn decimal_text(n: nat) -> Seq<char>
    decreases n,
{
    if n < 10 {
        seq![digit_char(n)]
    } else {
        decimal_text(n / 10).push(digit_char(n % 10))
    }
}

/// The decimal form of a signed integer, as `Display` writes it.
pub open spec fn signed_decimal_text(n: int) -> Seq<char> {
    if n < 0 {
        seq!['-'] + decimal_text((-n) as nat)
    } else {
        decimal_text(n as nat)
    }
}

/// The decimal form of `n` is a non-empty run of digits whose value is `n`.
pub proof fn lemma_decimal_text_digits(n: nat)
    ensures
        decimal_text(n).len() > 0,
        all_ascii_digits(decimal_text(n)),
        digits_value(decimal_text(n)) == n,
    decreases n,
{
    let d = digit_char(n % 10);
    assert(digit_value(d) == n % 10);
    if n < 10 {
        assert(n % 10 == n);
        assert(decimal_text(n).drop_last() =~= Seq::<char>::empty());
        assert(decimal_text(n).last() == d);
        assert(digits_value(decimal_text(n)) == digits_value(Seq::<char>::empty()) * 10 + digit_value(d));
    } else {
        lemma_decimal_text_digits(n / 10);
        let s = decimal_text(n / 10);
        assert(decimal_text(n).drop_last() =~= s);
        assert(decimal_text(n).last() == d);
        assert(digits_value(decimal_text(n)) == digits_value(s) * 10 + digit_value(d));
        assert((n / 10) * 10 + n % 10 == n) by (nonlinear_arith);
        assert forall|i: int| 0 <= i < decimal_text(n).len() implies is_ascii_digit(
            #[trigger] decimal_text(n)[i],
        ) by {
            if i < s.len() {
                assert(decimal_text(n)[i] == s[i]);
            }
        }
    }
}

/// Decimal text reads back as the number it was written from.
pub proof fn lemma_parse_decimal_text(n: u64)
    ensures
        parse_u64_text(decimal_text(n as nat)) == Some(n),
        trim(decimal_text(n as nat)) == decimal_text(n as nat),
{
    let s = decimal_text(n as nat);
    lemma_decimal_text_digits(n as nat);
    assert(is_ascii_digit(s[0]));
    lemma_trim_digits(s);
}

/// A run of digits has no white space to trim.
pub proof fn lemma_trim_digits(s: Seq<char>)
    requires
        all_ascii_digits(s),
    ensures
        trim(s) == s,
{
    if s.len() > 0 {
        assert(is_ascii_digit(s[0]));
        assert(is_ascii_digit(s.last()));
    }
    assert(trim_start(s) == s);
}

pub proof fn lemma_digits_value_prefix(s: Seq<char>, i: int)
    requires
        0 <= i <= s.len(),
    ensures
        digits_value(s.take(i)) <= digits_value(s),
    decreases s.len() - i,
{
    if i < s.len() {
        lemma_digits_value_prefix(s, i + 1);
        assert(s.take(i + 1).drop_last() =~= s.take(i));
    } else {
        assert(s.take(i) =~= s);
    }
}

/// Position of the first `c` in `s` at or after `from`.
pub open spec fn index_of_from(s: Seq<char>, c: char, from: int) -> Option<int>
    decreases s.len() - from,
{
    if from < 0 || from >= s.len() {
        None
    } else if s[from] == c {
        Some(from)
    } else {
        index_of_from(s, c, from + 1)
    }
}

/// Position of the last `c` among the first `n` characters of `s`.
pub open spec fn last_index_before(s: Seq<char>, c: char, n: int) -> Option<int>
    decreases n,
{
    if n <= 0 || n > s.len() {
        None
    } else if s[n - 1] == c {
        Some(n - 1)
    } else {
        last_index_before(s, c, n - 1)
    }
}

/// Position of the first occurrence of `needle` in `s` at or after `from`.
pub open spec fn find_text_from(s: Seq<char>, needle: Seq<char>, from: int) -> Option<int>
    decreases s.len() + 1 - from,
{
    if from < 0 || from + needle.len() > s.len() {
        None
    } else if occurs_at(s, needle, from) {
        Some(from)
    } else {
        find_text_from(s, needle, from + 1)
    }
}

pub proof fn lemma_index_of_from(s: Seq<char>, c: char, from: int)
    requires
        0 <= from,
    ensures
        match index_of_from(s, c, from) {
            Some(i) => from <= i < s.len() && s[i] == c && forall|j: int| from <= j < i ==> s[j]
                != c,
            None => forall|j: int| from <= j < s.len() ==> s[j] != c,
        },
    decreases s.len() - from,
{
    if from < s.len() && s[from] != c {
        lemma_index_of_from(s, c, from + 1);
    }
}

pub proof fn lemma_last_index_before(s: Seq<char>, c: char, n: int)
    requires
        0 <= n <= s.len(),
    ensures
        match last_index_before(s, c, n) {
            Some(i) => 0 <= i < n && s[i] == c && forall|j: int| i < j < n ==> s[j] != c,
            None => forall|j: int| 0 <= j < n ==> s[j] != c,
        },
    decreases n,
{
    if n > 0 && s[n - 1] != c {
        lemma_last_index_before(s, c, n - 1);
    }
}

pub proof fn lemma_find_text_from(s: Seq<char>, needle: Seq<char>, from: int)
    requires
        0 <= from,
    ensures
        match find_text_from(s, needle, from) {
            Some(i) => from <= i && i + needle.len() <= s.len() && occurs_at(s, needle, i),
            None => true,
        },
    decreases s.len() + 1 - from,
{
    if from + needle.len() <= s.len() && !occurs_at(s, needle, from) {
        lemma_find_text_from(s, needle, from + 1);
    }
}

/// The pieces of `s` between the separators `c`, from position `start` on,
/// as `str::split` yields them.
pub open spec fn pieces_from(s: Seq<char>, c: char, start: int) -> Seq<Seq<char>>
    decreases s.len() + 1 - start,
{
    if start < 0 || start > s.len() {
        Seq::empty()
    } else {
        match index_of_from(s, c, start) {
            None => seq![s.subrange(start, s.len() as int)],
            Some(i) => {
                proof {
                    lemma_index_of_from(s, c, start);
                }
                seq![s.subrange(start, i)] + pieces_from(s, c, i + 1)
            },
        }
    }
}

/// The views of a list of character vectors.
pub open spec fn char_rows(v: Seq<Vec<char>>) -> Seq<Seq<char>> {
    v.map_values(|r: Vec<char>| r@)
}

/// Lexicographic order by code point, the order of `str` and `String`.
pub open spec fn text_lt(a: Seq<char>, b: Seq<char>) -> bool
    decreases a.len(),
{
    if a.len() == 0 {
        b.len() > 0
    } else if b.len() == 0 {
        false
    } else if a[0] != b[0] {
        a[0] < b[0]
    } else {
        text_lt(a.drop_first(), b.drop_first())
    }
}

pub proof fn lemma_text_lt_transitive(a: Seq<char>, b: Seq<char>, c: Seq<char>)
    requires
        text_lt(a, b),
        text_lt(b, c),
    ensures
        text_lt(a, c),
    decreases a.len(),
{
    if a.len() > 0 && b.len() > 0 && c.len() > 0 && a[0] == b[0] && b[0] == c[0] {
        lemma_text_lt_transitive(a.drop_first(), b.drop_first(), c.drop_first());
    }
}

/// What `format!("{:?}", s)` writes for a string: the text quoted, with
/// special characters escaped.
pub uninterp spec fn debug_text(s: Seq<char>) -> Seq<char>;

/// A line with its trailing carriage return removed.
pub open spec fn strip_cr(l: Seq<char>) -> Seq<char> {
    if l.len() > 0 && l.last() == '\r' {
        l.drop_last()
    } else {
        l
    }
}

/// The lines of `s` as `str::lines` yields them: split at `\n`, a `\r`
/// before the `\n` dropped, and no empty line after a final `\n`.
pub open spec fn lines_of(s: Seq<char>) -> Seq<Seq<char>> {
    let p = pieces_from(s, '\n', 0);
    let body = Seq::new((p.len() - 1) as nat, |i: int| strip_cr(p[i]));
    if p.len() == 0 || p.last().len() == 0 {
        body
    } else {
        body.push(p.last())
    }
}

/// Lines joined with `\n`, as `join("\n")` joins them.
pub open spec fn join_lines(ls: Seq<Seq<char>>) -> Seq<char>
    decreases ls.len(),
{
    if ls.len() == 0 {
        Seq::empty()
    } else if ls.len() == 1 {
        ls[0]
    } else {
        join_lines(ls.drop_last()) + seq!['\n'] + ls.last()
    }
}

/// Every occurrence of `from`, left to right and without overlap, replaced
/// by `to`, as `str::replace` replaces them.
pub open spec fn replace_text(s: Seq<char>, from: Seq<char>, to: Seq<char>) -> Seq<char>
    decreases s.len(),
{
    if from.len() == 0 {
        s
    } else {
        match find_text_from(s, from, 0) {
            None => s,
            Some(i) => {
                proof {
                    lemma_find_text_from(s, from, 0);
                }
                s.subrange(0, i) + to + replace_text(s.subrange(i + from.len(), s.len() as int), from, to)
            },
        }
    }
}

/// No character of `a` occurs in `b`.
pub open spec fn shares_no_char(a: Seq<char>, b: Seq<char>) -> bool {
    forall|i: int, j: int| 0 <= i < a.len() && 0 <= j < b.len() ==> a[i] != b[j]
}

/// The search finds the leftmost occurrence from `from` on.
pub proof fn lemma_find_text_first(s: Seq<char>, needle: Seq<char>, from: int)
    requires
        0 <= from,
    ensures
        match find_text_from(s, needle, from) {
            Some(i) => forall|j: int| from <= j < i ==> !occurs_at(s, needle, j),
            None => forall|j: int| from <= j ==> !occurs_at(s, needle, j),
        },
    decreases s.len() + 1 - from,
{
    if from + needle.len() <= s.len() && !occurs_at(s, needle, from) {
        lemma_find_text_first(s, needle, from + 1);
    }
}

/// Where an occurrence of `a` in `x + to + y` can lie, when `a` shares no
/// character with `to`: within `x` or within `y`.
proof fn lemma_occurrence_around(x: Seq<char>, to: Seq<char>, y: Seq<char>, a: Seq<char>, p: int)
    requires
        to.len() > 0,
        a.len() > 0,
        shares_no_char(a, to),
        occurs_at(x + to + y, a, p),
    ensures
        p + a.len() <= x.len() ==> occurs_at(x, a, p),
        p + a.len() > x.len() ==> p >= x.len() + to.len() && occurs_at(y, a, p - x.len() - to.len()),
{
    let w = x + to + y;
    let m = a.len() as int;
    let i = x.len() as int;
    let t = to.len() as int;
    assert(w.subrange(p, p + m) == a);
    if p + m <= i {
        assert(x.subrange(p, p + m) =~= w.subrange(p, p + m));
    } else if p < i + t {
        let q = if p >= i {
            p
        } else {
            i
        };
        assert(w[q] == to[q - i]);
        assert(a[q - p] == w.subrange(p, p + m)[q - p]);
        assert(false);
    } else {
        assert(y.subrange(p - i - t, p - i - t + m) =~= w.subrange(p, p + m));
    }
}

/// Replacing every occurrence of `from` by a text that shares no character
/// with it leaves no occurrence of `from`.
pub proof fn lemma_replace_removes(s: Seq<char>, from: Seq<char>, to: Seq<char>)
    requires
        from.len() > 0,
        to.len() > 0,
        shares_no_char(from, to),
    ensures
        !contains_text(replace_text(s, from, to), from),
    decreases s.len(),
{
    lemma_find_text_first(s, from, 0);
    lemma_find_text_from(s, from, 0);
    match find_text_from(s, from, 0) {
        None => {},
        Some(i) => {
            let x = s.subrange(0, i);
            let rest = s.subrange(i + from.len(), s.len() as int);
            lemma_replace_removes(rest, from, to);
            let y = replace_text(rest, from, to);
            assert(replace_text(s, from, to) == x + to + y);
            if contains_text(x + to + y, from) {
                let p = choose|p: int| #[trigger] occurs_at(x + to + y, from, p);
                lemma_occurrence_around(x, to, y, from, p);
                if p + from.len() <= x.len() {
                    assert(s.subrange(p, p + from.len()) =~= x.subrange(p, p + from.len()));
                    assert(occurs_at(s, from, p));
                } else {
                    assert(occurs_at(y, from, p - x.len() - to.len()));
                }
            }
        },
    }
}

/// Replacing `from` by a text that shares no character with `a` creates no
/// occurrence of `a`.
pub proof fn lemma_replace_keeps_absent(s: Seq<char>, from: Seq<char>, to: Seq<char>, a: Seq<char>)
    requires
        to.len() > 0,
        shares_no_char(a, to),
        !contains_text(s, a),
    ensures
        !contains_text(replace_text(s, from, to), a),
    decreases s.len(),
{
    assert(a.len() > 0) by {
        if a.len() == 0 {
            assert(s.subrange(0, 0) =~= a);
            assert(occurs_at(s, a, 0));
        }
    }
    if from.len() > 0 {
        lemma_find_text_from(s, from, 0);
        match find_text_from(s, from, 0) {
            None => {},
            Some(i) => {
                let x = s.subrange(0, i);
                let rest = s.subrange(i + from.len(), s.len() as int);
                if contains_text(rest, a) {
                    let p = choose|p: int| #[trigger] occurs_at(rest, a, p);
                    let q = p + i + from.len();
                    assert(s.subrange(q, q + a.len()) =~= rest.subrange(p, p + a.len()));
                    assert(occurs_at(s, a, q));
                }
                lemma_replace_keeps_absent(rest, from, to, a);
                let y = replace_text(rest, from, to);
                assert(replace_text(s, from, to) == x + to + y);
                if contains_text(x + to + y, a) {
                    let p = choose|p: int| #[trigger] occurs_at(x + to + y, a, p);
                    lemma_occurrence_around(x, to, y, a, p);
                    if p + a.len() <= x.len() {
                        assert(s.subrange(p, p + a.len()) =~= x.subrange(p, p + a.len()));
                        assert(occurs_at(s, a, p));
                    } else {
                        assert(occurs_at(y, a, p - x.len() - to.len()));
                    }
                }
            },
        }
    }
}

pub proof fn lemma_pieces_from_len(s: Seq<char>, c: char, start: int)
    requires
        0 <= start <= s.len(),
    ensures
        pieces_from(s, c, start).len() >= 1,
    decreases s.len() + 1 - start,
{
    lemma_index_of_from(s, c, start);
    match index_of_from(s, c, start) {
        Some(i) => {
            lemma_pieces_from_len(s, c, i + 1);
        },
        None => {},
    }
}

/// Collects the characters of `s` in order.
pub fn chars_vec(s: &str) -> (v: Vec<char>)
    ensures
        v@ == s@,
{
    let mut v: Vec<char> = Vec::new();
    for c in it: s.chars()
        invariant
            v@ == it.seq().take(it.index() as int),
            it.seq() == s@,
    {
        v.push(c);
    }
    v
}

/// `String::push`: appends one character.
#[verifier::external_body]
pub(crate) fn push_char(s: &mut String, c: char)
    ensures
        final(s)@ == old(s)@.push(c),
{
    s.push(c);
}

/// Builds a `String` from a sequence of characters.
pub fn string_from_chars(chars: &[char]) -> (s: String)
    ensures
        s@ == chars@,
{
    let mut s = String::new();
    let mut i: usize = 0;
    while i < chars.len()
        invariant
            i <= chars@.len(),
            s@ == chars@.take(i as int),
        decreases chars@.len() - i,
    {
        push_char(&mut s, chars[i]);
        i = i + 1;
        assert(s@ =~= chars@.take(i as int));
    }
    assert(chars@.take(i as int) =~= chars@);
    s
}

/// Copies a string slice into an owned `String`.
pub fn owned(s: &str) -> (r: String)
    ensures
        r@ == s@,
{
    s.to_owned()
}

/// Appends `tail` to `s`.
pub fn append_str(s: &mut String, tail: &str)
    ensures
        final(s)@ == old(s)@ + tail@,
{
    let chars = chars_vec(tail);
    let ghost start = s@;
    let mut i: usize = 0;
    while i < chars.len()
        invariant
            i <= chars@.len(),
            chars@ == tail@,
            s@ == start + chars@.take(i as int),
        decreases chars@.len() - i,
    {
        push_char(s, chars[i]);
        i = i + 1;
        assert(s@ =~= start + chars@.take(i as int));
    }
    assert(chars@.take(i as int) =~= chars@);
}

/// Joins two texts.
pub fn concat2(a: &str, b: &str) -> (r: String)
    ensures
        r@ == a@ + b@,
{
    let mut r = owned(a);
    append_str(&mut r, b);
    r
}

/// Joins three texts.
pub fn concat3(a: &str, b: &str, c: &str) -> (r: String)
    ensures
        r@ == a@ + b@ + c@,
{
    let mut r = owned(a);
    append_str(&mut r, b);
    append_str(&mut r, c);
    r
}

pub fn is_control(c: char) -> (r: bool)
    ensures
        r == is_control_char(c),
{
    (c as u32) <= 0x1f || (0x7f <= (c as u32) && (c as u32) <= 0x9f)
}

pub fn is_space(c: char) -> (r: bool)
    ensures
        r == is_white_space(c),
{
    let u = c as u32;
    (0x09 <= u && u <= 0x0d) || u == 0x20 || u == 0x85 || u == 0xa0 || u == 0x1680 || (0x2000
        <= u && u <= 0x200a) || u == 0x2028 || u == 0x2029 || u == 0x202f || u == 0x205f || u
        == 0x3000
}

pub fn is_digit(c: char) -> (r: bool)
    ensures
        r == is_ascii_digit(c),
{
    '0' <= c && c <= '9'
}

pub fn is_alphanumeric(c: char) -> (r: bool)
    ensures
        r == is_ascii_alphanumeric(c),
{
    ('0' <= c && c <= '9') || ('a' <= c && c <= 'z') || ('A' <= c && c <= 'Z')
}

pub fn lower_char(c: char) -> (r: char)
    ensures
        r == ascii_lower_char(c),
{
    if 'A' <= c && c <= 'Z' {
        let code = (c as u32) + 32;
        let lowered = (code as u8) as char;
        assert((code as u8) as u32 == code);
        assert(lowered as u32 == code);
        lowered
    } else {
        c
    }
}

/// Whether every character is white space.
pub fn chars_blank(s: &[char]) -> (r: bool)
    ensures
        r == is_blank(s@),
{
    let mut i: usize = 0;
    while i < s.len()
        invariant
            i <= s@.len(),
            forall|j: int| 0 <= j < i ==> is_white_space(#[trigger] s@[j]),
        decreases s@.len() - i,
    {
        if !is_space(s[i]) {
            return false;
        }
        i = i + 1;
    }
    true
}

pub fn str_blank(s: &str) -> (r: bool)
    ensures
        r == is_blank(s@),
{
    let v = chars_vec(s);
    chars_blank(v.as_slice())
}

/// Whether some character is a control code.
pub fn chars_have_control(s: &[char]) -> (r: bool)
    ensures
        r == has_control(s@),
{
    let mut i: usize = 0;
    while i < s.len()
        invariant
            i <= s@.len(),
            forall|j: int| 0 <= j < i ==> !is_control_char(#[trigger] s@[j]),
        decreases s@.len() - i,
    {
        if is_control(s[i]) {
            return true;
        }
        i = i + 1;
    }
    false
}

pub fn str_has_control(s: &str) -> (r: bool)
    ensures
        r == has_control(s@),
{
    let v = chars_vec(s);
    chars_have_control(v.as_slice())
}

pub fn chars_all_digits(s: &[char]) -> (r: bool)
    ensures
        r == all_ascii_digits(s@),
{
    let mut i: usize = 0;
    while i < s.len()
        invariant
            i <= s@.len(),
            forall|j: int| 0 <= j < i ==> is_ascii_digit(#[trigger] s@[j]),
        decreases s@.len() - i,
    {
        if !is_digit(s[i]) {
            return false;
        }
        i = i + 1;
    }
    true
}

/// Whether `needle` occurs in `hay` at position `at`.
pub fn chars_occur_at(hay: &[char], needle: &[char], at: usize) -> (r: bool)
    ensures
        r == occurs_at(hay@, needle@, at as int),
{
    if needle.len() > hay.len() || at > hay.len() - needle.len() {
        return false;
    }
    let mut j: usize = 0;
    while j < needle.len()
        invariant
            j <= needle@.len(),
            at + needle@.len() <= hay.len(),
            forall|k: int| 0 <= k < j ==> hay@[at + k] == needle@[k],
        decreases needle@.len() - j,
    {
        assert(at + j < hay@.len());
        if hay[at + j] != needle[j] {
            assert(hay@.subrange(at as int, at + needle@.len())[j as int] != needle@[j as int]);
            return false;
        }
        j = j + 1;
    }
    assert(hay@.subrange(at as int, at + needle@.len()) =~= needle@);
    true
}

/// `str::contains` on character sequences.
pub fn chars_contain(hay: &[char], needle: &[char]) -> (r: bool)
    ensures
        r == contains_text(hay@, needle@),
{
    if needle.len() > hay.len() {
        assert forall|i: int| !occurs_at(hay@, needle@, i) by {}
        return false;
    }
    let last = hay.len() - needle.len();
    let mut i: usize = 0;
    loop
        invariant
            last == hay@.len() - needle@.len(),
            i <= last,
            forall|k: int| 0 <= k < i ==> !occurs_at(hay@, needle@, k),
        ensures
            forall|k: int| 0 <= k <= last ==> !occurs_at(hay@, needle@, k),
        decreases last - i,
    {
        if chars_occur_at(hay, needle, i) {
            return true;
        }
        if i == last {
            break;
        }
        i = i + 1;
    }
    assert forall|k: int| !occurs_at(hay@, needle@, k) by {
        if 0 <= k <= last {
        }
    }
    false
}

pub fn str_contains(hay: &str, needle: &str) -> (r: bool)
    ensures
        r == contains_text(hay@, needle@),
{
    let h = chars_vec(hay);
    let n = chars_vec(needle);
    chars_contain(h.as_slice(), n.as_slice())
}

pub fn chars_start_with(s: &[char], prefix: &[char]) -> (r: bool)
    ensures
        r == starts_with_text(s@, prefix@),
{
    if prefix.len() > s.len() {
        return false;
    }
    let r = chars_occur_at(s, prefix, 0);
    assert(s@.subrange(0, prefix@.len() as int) =~= s@.take(prefix@.len() as int));
    r
}

/// `str::to_ascii_lowercase` on characters.
pub fn chars_lower(s: &[char]) -> (r: Vec<char>)
    ensures
        r@ == ascii_lower(s@),
{
    let mut r: Vec<char> = Vec::new();
    let mut i: usize = 0;
    while i < s.len()
        invariant
            i <= s@.len(),
            r@ =~= ascii_lower(s@.take(i as int)),
        decreases s@.len() - i,
    {
        let c = lower_char(s[i]);
        r.push(c);
        i = i + 1;
    }
    assert(s@.take(i as int) =~= s@);
    r
}

proof fn lemma_trim_start_skip(s: Seq<char>, i: int)
    requires
        0 <= i < s.len(),
        is_white_space(s[i]),
    ensures
        trim_start(s.skip(i)) == trim_start(s.skip(i + 1)),
{
    assert(s.skip(i).drop_first() =~= s.skip(i + 1));
}

proof fn lemma_trim_end_take(s: Seq<char>, j: int)
    requires
        0 < j <= s.len(),
        is_white_space(s[j - 1]),
    ensures
        trim_end(s.take(j)) == trim_end(s.take(j - 1)),
{
    assert(s.take(j).drop_last() =~= s.take(j - 1));
}

/// The positions that `trim` keeps: characters `lo..hi` of `s`.
pub fn trim_bounds(s: &[char]) -> (r: (usize, usize))
    ensures
        r.0 <= r.1 <= s@.len(),
        s@.subrange(r.0 as int, r.1 as int) == trim(s@),
{
    let mut lo: usize = 0;
    assert(s@.skip(0) =~= s@);
    while lo < s.len() && is_space(s[lo])
        invariant
            lo <= s@.len(),
            trim_start(s@) == trim_start(s@.skip(lo as int)),
        decreases s@.len() - lo,
    {
        proof {
            lemma_trim_start_skip(s@, lo as int);
        }
        lo = lo + 1;
    }
    assert(s@.skip(0) =~= s@);
    let ghost rest = s@.skip(lo as int);
    assert(trim_start(rest) == rest);
    let mut hi: usize = s.len();
    assert(rest.take((s@.len() - lo) as int) =~= rest);
    while hi > lo && is_space(s[hi - 1])
        invariant
            lo <= hi <= s@.len(),
            rest == s@.skip(lo as int),
            trim_end(rest) == trim_end(rest.take(hi - lo)),
        decreases hi,
    {
        proof {
            assert(rest[hi - lo - 1] == s@[hi - 1]);
            lemma_trim_end_take(rest, hi - lo);
        }
        hi = hi - 1;
    }
    assert(rest.take((s@.len() - lo) as int) =~= rest);
    let ghost kept = rest.take(hi - lo);
    assert(kept =~= s@.subrange(lo as int, hi as int));
    if hi > lo {
        assert(kept.last() == s@[hi - 1]);
    }
    assert(trim_end(kept) == kept);
    (lo, hi)
}

/// `str::trim` on characters.
pub fn chars_trim(s: &[char]) -> (r: Vec<char>)
    ensures
        r@ == trim(s@),
{
    let (lo, hi) = trim_bounds(s);
    let mut r: Vec<char> = Vec::new();
    let mut i: usize = lo;
    while i < hi
        invariant
            lo <= i <= hi <= s@.len(),
            r@ =~= s@.subrange(lo as int, i as int),
        decreases hi - i,
    {
        r.push(s[i]);
        i = i + 1;
    }
    r
}

/// `u64::from_str`.
pub fn parse_u64(s: &[char]) -> (r: Option<u64>)
    ensures
        r == parse_u64_text(s@),
{
    let start: usize = if s.len() > 0 && s[0] == '+' {
        1
    } else {
        0
    };
    let ghost body = if s@.len() > 0 && s@[0] == '+' {
        s@.drop_first()
    } else {
        s@
    };
    assert(body =~= s@.skip(start as int));
    if start >= s.len() {
        assert(body.len() == 0);
        return None;
    }
    let mut value: u64 = 0;
    let mut i: usize = start;
    while i < s.len()
        invariant
            start <= i <= s@.len(),
            body == s@.skip(start as int),
            body == (if s@.len() > 0 && s@[0] == '+' {
                s@.drop_first()
            } else {
                s@
            }),
            body.len() > 0,
            forall|j: int| 0 <= j < i - start ==> is_ascii_digit(#[trigger] body[j]),
            value as nat == digits_value(body.take(i - start)),
        decreases s@.len() - i,
    {
        let ghost k = i - start;
        assert(body.take(k + 1).drop_last() =~= body.take(k));
        assert(body[k] == s@[i as int]);
        if !is_digit(s[i]) {
            assert(!is_ascii_digit(body[k]));
            assert(!all_ascii_digits(body));
            return None;
        }
        let d = (s[i] as u32 - '0' as u32) as u64;
        let next = match value.checked_mul(10) {
            Some(v) => v.checked_add(d),
            None => None,
        };
        match next {
            Some(v) => {
                value = v;
            },
            None => {
                proof {
                    lemma_digits_value_prefix(body, k + 1);
                    assert(digits_value(body.take(k + 1)) == digits_value(body.take(k)) * 10
                        + digit_value(body[k]));
                    assert(digit_value(body[k]) == d);
                    assert(digits_value(body.take(k + 1)) > u64::MAX);
                }
                return None;
            },
        }
        i = i + 1;
    }
    assert(body.take(body.len() as int) =~= body);
    Some(value)
}

/// Appends the decimal form of `n`.
pub fn push_decimal(out: &mut String, n: u64)
    ensures
        final(out)@ == old(out)@ + decimal_text(n as nat),
    decreases n,
{
    if n >= 10 {
        push_decimal(out, n / 10);
    }
    let digit = ((n % 10) as u8 + 48u8) as char;
    assert(digit as u32 == 48 + n % 10);
    push_char(out, digit);
    if n < 10 {
        assert(decimal_text(n as nat) =~= seq![digit]);
    }
}

/// The decimal form of `n`.
pub fn decimal_string(n: u64) -> (r: String)
    ensures
        r@ == decimal_text(n as nat),
{
    let mut r = String::new();
    push_decimal(&mut r, n);
    r
}

/// The decimal form of a signed `n`.
pub fn signed_decimal_string(n: i64) -> (r: String)
    ensures
        r@ == signed_decimal_text(n as int),
{
    let mut r = String::new();
    if n < 0 {
        push_char(&mut r, '-');
        let magnitude: u64 = if n == i64::MIN {
            9223372036854775808u64
        } else {
            (-n) as u64
        };
        push_decimal(&mut r, magnitude);
    } else {
        push_decimal(&mut r, n as u64);
    }
    r
}


/// Character-by-character equality.
pub fn chars_eq(a: &[char], b: &[char]) -> (r: bool)
    ensures
        r == (a@ == b@),
{
    if a.len() != b.len() {
        return false;
    }
    let mut i: usize = 0;
    while i < a.len()
        invariant
            i <= a@.len(),
            a@.len() == b@.len(),
            forall|j: int| 0 <= j < i ==> a@[j] == b@[j],
        decreases a@.len() - i,
    {
        if a[i] != b[i] {
            return false;
        }
        i = i + 1;
    }
    assert(a@ =~= b@);
    true
}

/// Text equality.
pub fn str_eq(a: &str, b: &str) -> (r: bool)
    ensures
        r == (a@ == b@),
{
    let x = chars_vec(a);
    let y = chars_vec(b);
    chars_eq(x.as_slice(), y.as_slice())
}

/// `s[lo..hi]` as an owned vector.
pub fn chars_slice(s: &[char], lo: usize, hi: usize) -> (r: Vec<char>)
    requires
        lo <= hi <= s@.len(),
    ensures
        r@ == s@.subrange(lo as int, hi as int),
{
    let mut r: Vec<char> = Vec::new();
    let mut i: usize = lo;
    while i < hi
        invariant
            lo <= i <= hi <= s@.len(),
            r@ =~= s@.subrange(lo as int, i as int),
        decreases hi - i,
    {
        r.push(s[i]);
        i = i + 1;
    }
    r
}

/// The first `c` at or after `from`.
pub fn chars_index_of(s: &[char], c: char, from: usize) -> (r: Option<usize>)
    ensures
        match r {
            Some(i) => index_of_from(s@, c, from as int) == Some(i as int) && from <= i < s.len()
                && s@[i as int] == c,
            None => index_of_from(s@, c, from as int) is None,
        },
{
    proof {
        lemma_index_of_from(s@, c, from as int);
    }
    let mut i: usize = from;
    while i < s.len()
        invariant
            from <= i,
            index_of_from(s@, c, from as int) == index_of_from(s@, c, i as int),
        decreases s@.len() - i,
    {
        if s[i] == c {
            return Some(i);
        }
        i = i + 1;
    }
    None
}

/// The last `c` in `s`.
pub fn chars_last_index_of(s: &[char], c: char) -> (r: Option<usize>)
    ensures
        match r {
            Some(i) => last_index_before(s@, c, s@.len() as int) == Some(i as int) && i < s.len(),
            None => last_index_before(s@, c, s@.len() as int) is None,
        },
{
    proof {
        lemma_last_index_before(s@, c, s@.len() as int);
    }
    let mut n: usize = s.len();
    while n > 0
        invariant
            n <= s@.len(),
            last_index_before(s@, c, s@.len() as int) == last_index_before(s@, c, n as int),
        decreases n,
    {
        if s[n - 1] == c {
            return Some(n - 1);
        }
        n = n - 1;
    }
    None
}

/// The first occurrence of `needle` at or after `from`.
pub fn chars_find(s: &[char], needle: &[char], from: usize) -> (r: Option<usize>)
    ensures
        match r {
            Some(i) => find_text_from(s@, needle@, from as int) == Some(i as int) && from <= i
                && i + needle.len() <= s.len(),
            None => find_text_from(s@, needle@, from as int) is None,
        },
{
    proof {
        lemma_find_text_from(s@, needle@, from as int);
    }
    if needle.len() > s.len() {
        return None;
    }
    let last = s.len() - needle.len();
    if from > last {
        return None;
    }
    let mut i: usize = from;
    loop
        invariant
            from <= i <= last,
            last + needle@.len() == s@.len(),
            find_text_from(s@, needle@, from as int) == find_text_from(s@, needle@, i as int),
        decreases last - i,
    {
        if chars_occur_at(s, needle, i) {
            return Some(i);
        }
        if i == last {
            assert(find_text_from(s@, needle@, i + 1) is None);
            return None;
        }
        i = i + 1;
    }
}


/// `str::split` on one separator character.
pub fn split_chars(s: &[char], c: char) -> (r: Vec<Vec<char>>)
    ensures
        char_rows(r@) == pieces_from(s@, c, 0),
{
    let mut r: Vec<Vec<char>> = Vec::new();
    let mut start: usize = 0;
    loop
        invariant
            start <= s@.len(),
            pieces_from(s@, c, 0) == char_rows(r@) + pieces_from(s@, c, start as int),
        decreases s@.len() - start,
    {
        match chars_index_of(s, c, start) {
            None => {
                let last = chars_slice(s, start, s.len());
                proof {
                    assert(pieces_from(s@, c, start as int) == seq![last@]);
                    assert(char_rows(r@.push(last)) =~= char_rows(r@) + seq![last@]);
                }
                r.push(last);
                return r;
            },
            Some(i) => {
                let piece = chars_slice(s, start, i);
                proof {
                    assert(pieces_from(s@, c, start as int) == seq![piece@] + pieces_from(
                        s@,
                        c,
                        i + 1,
                    ));
                    assert(char_rows(r@.push(piece)) =~= char_rows(r@) + seq![piece@]);
                    assert(char_rows(r@) + seq![piece@] + pieces_from(s@, c, i + 1) =~= char_rows(
                        r@,
                    ) + (seq![piece@] + pieces_from(s@, c, i + 1)));
                }
                r.push(piece);
                start = i + 1;
            },
        }
    }
}


/// `str < str`.
pub fn str_lt(a: &str, b: &str) -> (r: bool)
    ensures
        r == text_lt(a@, b@),
{
    let x = chars_vec(a);
    let y = chars_vec(b);
    let mut i: usize = 0;
    assert(x@.skip(0) =~= x@);
    assert(y@.skip(0) =~= y@);
    while i < x.len() && i < y.len()
        invariant
            i <= x@.len(),
            i <= y@.len(),
            x@ == a@,
            y@ == b@,
            text_lt(a@, b@) == text_lt(x@.skip(i as int), y@.skip(i as int)),
        decreases x@.len() - i,
    {
        if x[i] != y[i] {
            assert(x@.skip(i as int)[0] == x@[i as int]);
            assert(y@.skip(i as int)[0] == y@[i as int]);
            return x[i] < y[i];
        }
        assert(x@.skip(i as int).drop_first() =~= x@.skip(i + 1));
        assert(y@.skip(i as int).drop_first() =~= y@.skip(i + 1));
        i = i + 1;
    }
    i < y.len()
}

/// The `Debug` form of a string.
#[verifier::external_body]
pub(crate) fn debug_quoted(s: &str) -> (r: String)
    ensures
        r@ == debug_text(s@),
{
    format!("{s:?}")
}


/// `str::trim_end` on characters.
pub fn chars_trim_end(s: &[char]) -> (r: Vec<char>)
    ensures
        r@ == trim_end(s@),
{
    let mut hi: usize = s.len();
    assert(s@.take(s@.len() as int) =~= s@);
    while hi > 0 && is_space(s[hi - 1])
        invariant
            hi <= s@.len(),
            trim_end(s@) == trim_end(s@.take(hi as int)),
        decreases hi,
    {
        proof {
            lemma_trim_end_take(s@, hi as int);
        }
        hi = hi - 1;
    }
    let r = chars_slice(s, 0, hi);
    assert(r@ =~= s@.take(hi as int));
    r
}

/// `str::lines`.
pub fn chars_lines(s: &[char]) -> (r: Vec<Vec<char>>)
    ensures
        char_rows(r@) == lines_of(s@),
{
    let pieces = split_chars(s, '\n');
    let ghost p = pieces_from(s@, '\n', 0);
    proof {
        lemma_pieces_from_len(s@, '\n', 0);
    }
    assert(char_rows(pieces@) == p);
    let n = pieces.len();
    let mut r: Vec<Vec<char>> = Vec::new();
    let mut i: usize = 0;
    while i + 1 < n
        invariant
            n == pieces@.len() == p.len() >= 1,
            char_rows(pieces@) == p,
            i < n,
            char_rows(r@) =~= Seq::new(i as nat, |k: int| strip_cr(p[k])),
        decreases n - i,
    {
        let piece = &pieces[i];
        assert(piece@ == p[i as int]);
        let line = if piece.len() > 0 && piece[piece.len() - 1] == '\r' {
            chars_slice(piece.as_slice(), 0, piece.len() - 1)
        } else {
            chars_slice(piece.as_slice(), 0, piece.len())
        };
        assert(line@ == strip_cr(p[i as int]));
        proof {
            assert(char_rows(r@.push(line)) =~= char_rows(r@).push(line@));
        }
        r.push(line);
        i = i + 1;
    }
    let last = &pieces[n - 1];
    assert(last@ == p.last());
    let ghost body = Seq::new((p.len() - 1) as nat, |k: int| strip_cr(p[k]));
    assert(char_rows(r@) =~= body);
    if last.len() > 0 {
        let copy = chars_slice(last.as_slice(), 0, last.len());
        proof {
            assert(copy@ =~= p.last());
            assert(char_rows(r@.push(copy)) =~= char_rows(r@).push(copy@));
        }
        r.push(copy);
    }
    assert(char_rows(r@) =~= lines_of(s@));
    r
}

/// Joins lines with `\n`.
pub fn chars_join_lines(ls: &Vec<Vec<char>>) -> (r: Vec<char>)
    ensures
        r@ == join_lines(char_rows(ls@)),
{
    let mut r: Vec<char> = Vec::new();
    let mut i: usize = 0;
    while i < ls.len()
        invariant
            i <= ls@.len(),
            r@ == join_lines(char_rows(ls@).take(i as int)),
        decreases ls@.len() - i,
    {
        let ghost before = r@;
        if i > 0 {
            r.push('\n');
        }
        let mut j: usize = 0;
        while j < ls[i].len()
            invariant
                i < ls@.len(),
                j <= ls@[i as int]@.len(),
                r@ == (if i > 0 { before + seq!['\n'] } else { before }) + ls@[i as int]@.take(j as int),
            decreases ls@[i as int]@.len() - j,
        {
            r.push(ls[i][j]);
            j = j + 1;
            assert(ls@[i as int]@.take(j as int) =~= ls@[i as int]@.take(j - 1).push(ls@[i as int]@[j - 1]));
        }
        proof {
            let t = char_rows(ls@).take(i + 1);
            assert(t.drop_last() =~= char_rows(ls@).take(i as int));
            assert(t.last() == ls@[i as int]@);
            assert(ls@[i as int]@.take(j as int) =~= ls@[i as int]@);
            if i == 0 {
                assert(t.len() == 1);
                assert(char_rows(ls@).take(0) =~= Seq::<Seq<char>>::empty());
                assert(r@ =~= t[0]);
            }
        }
        i = i + 1;
    }
    assert(char_rows(ls@).take(i as int) =~= char_rows(ls@));
    r
}

/// `str::replace` on characters, for a non-empty pattern.
pub fn chars_replace(s: &[char], from: &[char], to: &[char]) -> (r: Vec<char>)
    requires
        from@.len() > 0,
    ensures
        r@ == replace_text(s@, from@, to@),
    decreases s@.len(),
{
    match chars_find(s, from, 0) {
        None => chars_slice(s, 0, s.len()),
        Some(i) => {
            let mut r = chars_slice(s, 0, i);
            let mut k: usize = 0;
            while k < to.len()
                invariant
                    k <= to@.len(),
                    r@ == s@.subrange(0, i as int) + to@.take(k as int),
                decreases to@.len() - k,
            {
                r.push(to[k]);
                k = k + 1;
                assert(to@.take(k as int) =~= to@.take(k - 1).push(to@[k - 1]));
            }
            assert(to@.take(k as int) =~= to@);
            let rest = chars_slice(s, i + from.len(), s.len());
            let tail = chars_replace(rest.as_slice(), from, to);
            let mut m: usize = 0;
            let ghost head = r@;
            while m < tail.len()
                invariant
                    m <= tail@.len(),
                    r@ == head + tail@.take(m as int),
                decreases tail@.len() - m,
            {
                r.push(tail[m]);
                m = m + 1;
                assert(tail@.take(m as int) =~= tail@.take(m - 1).push(tail@[m - 1]));
            }
            assert(tail@.take(m as int) =~= tail@);
            r
        },
    }
}

} // verus!
