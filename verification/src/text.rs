//! Text as the dashboard reads it: trimming, words, searching and numbers.

use vstd::prelude::*;
use vstd::string::{StrSliceExecFns, StringExecFns};

verus! {

/// Whether `c` has the Unicode `White_Space` property.
pub open spec fn whitespace(c: char) -> bool {
    let n = c as int;
    ||| 0x9 <= n <= 0xd
    ||| n == 0x20
    ||| n == 0x85
    ||| n == 0xa0
    ||| n == 0x1680
    ||| 0x2000 <= n <= 0x200a
    ||| n == 0x2028
    ||| n == 0x2029
    ||| n == 0x202f
    ||| n == 0x205f
    ||| n == 0x3000
}

/// Whether `c` has the Unicode `White_Space` property.
pub fn is_whitespace(c: char) -> (r: bool)
    ensures
        r == whitespace(c),
{
    let n: u32 = c as u32;
    (0x9 <= n && n <= 0xd) || n == 0x20 || n == 0x85 || n == 0xa0 || n == 0x1680 || (0x2000 <= n
        && n <= 0x200a) || n == 0x2028 || n == 0x2029 || n == 0x202f || n == 0x205f || n == 0x3000
}

/// The characters of `s`, in order.
pub fn to_chars(s: &str) -> (r: Vec<char>)
    ensures
        r@ == s@,
{
    let mut r: Vec<char> = Vec::new();
    for c in it: s.chars()
        invariant
            it.seq() == s@,
            r@ == s@.take(it.index() as int),
    {
        r.push(c);
    }
    r
}

/// The first `n` characters of `s`.
pub fn prefix(s: &str, n: usize) -> (r: String)
    requires
        n <= s@.len(),
    ensures
        r@ == s@.take(n as int),
{
    s.substring_char(0, n).to_owned()
}

/// `s` without its first `n` characters.
pub fn suffix(s: &str, n: usize) -> (r: String)
    requires
        n <= s@.len(),
    ensures
        r@ == s@.skip(n as int),
{
    s.substring_char(n, s.unicode_len()).to_owned()
}

/// Whether two texts are the same.
pub fn same_text(a: &str, b: &str) -> (r: bool)
    ensures
        r == (a@ == b@),
{
    let x: String = a.to_owned();
    let y: String = b.to_owned();
    x == y
}

/// `s` without its last character; an empty text stays empty.
pub open spec fn without_last(s: Seq<char>) -> Seq<char> {
    if s.len() > 0 {
        s.drop_last()
    } else {
        s
    }
}

/// `String::push` appends one character.
pub assume_specification[ String::push ](s: &mut String, c: char)
    ensures
        final(s)@ == old(s)@.push(c),
;

/// `String::pop` takes off the last character, and hands it out; an empty text has none.
pub assume_specification[ String::pop ](s: &mut String) -> (r: Option<char>)
    ensures
        old(s)@.len() == 0 ==> r is None,
        old(s)@.len() > 0 ==> r == Some(old(s)@.last()),
        final(s)@ == without_last(old(s)@),
;

/// `s` without the whitespace at its end.
pub open spec fn trim_end(s: Seq<char>) -> Seq<char>
    decreases s.len(),
{
    if s.len() > 0 && whitespace(s.last()) {
        trim_end(s.drop_last())
    } else {
        s
    }
}

/// `s` without the whitespace at its start.
pub open spec fn trim_start(s: Seq<char>) -> Seq<char>
    decreases s.len(),
{
    if s.len() > 0 && whitespace(s[0]) {
        trim_start(s.drop_first())
    } else {
        s
    }
}

/// `s` without the whitespace at either end.
pub open spec fn trim_both(s: Seq<char>) -> Seq<char> {
    trim_start(trim_end(s))
}

/// Trimming the end leaves a prefix that does not end in whitespace, and takes off nothing else.
pub proof fn lemma_trim_end(s: Seq<char>)
    ensures
        trim_end(s).len() <= s.len(),
        trim_end(s) == s.take(trim_end(s).len() as int),
        trim_end(s).len() > 0 ==> !whitespace(trim_end(s).last()),
        forall|i: int| trim_end(s).len() <= i < s.len() ==> whitespace(#[trigger] s[i]),
    decreases s.len(),
{
    if s.len() > 0 && whitespace(s.last()) {
        lemma_trim_end(s.drop_last());
        assert forall|i: int| trim_end(s).len() <= i < s.len() implies whitespace(
            #[trigger] s[i],
        ) by {
            if i < s.len() - 1 {
                assert(s.drop_last()[i] == s[i]);
            }
        }
        assert(s.drop_last().take(trim_end(s).len() as int) == s.take(trim_end(s).len() as int));
    }
}

/// Trimming the start leaves a suffix that does not start with whitespace, and takes off nothing else.
pub proof fn lemma_trim_start(s: Seq<char>)
    ensures
        trim_start(s).len() <= s.len(),
        trim_start(s) == s.skip(s.len() - trim_start(s).len()),
        trim_start(s).len() > 0 ==> !whitespace(trim_start(s)[0]),
        forall|i: int| 0 <= i < s.len() - trim_start(s).len() ==> whitespace(#[trigger] s[i]),
    decreases s.len(),
{
    if s.len() > 0 && whitespace(s[0]) {
        lemma_trim_start(s.drop_first());
        assert forall|i: int| 0 <= i < s.len() - trim_start(s).len() implies whitespace(
            #[trigger] s[i],
        ) by {
            if i > 0 {
                assert(s.drop_first()[i - 1] == s[i]);
            }
        }
        let n = trim_start(s).len();
        assert(s.drop_first().skip(s.len() - 1 - n) == s.skip(s.len() - n));
    }
}

/// Trimming a trimmed text changes nothing.
pub proof fn law_trimming_is_idempotent(s: Seq<char>)
    ensures
        trim_both(trim_both(s)) == trim_both(s),
{
    let e = trim_end(s);
    let t = trim_both(s);
    lemma_trim_end(s);
    lemma_trim_start(e);
    if t.len() > 0 {
        assert(t.last() == e.last());
    }
    assert(trim_end(t) == t);
}

/// Length of `chars` without the whitespace at its end.
fn trimmed_len(chars: &Vec<char>) -> (n: usize)
    ensures
        n <= chars@.len(),
        trim_end(chars@) == chars@.take(n as int),
{
    let mut n: usize = chars.len();
    assert(chars@.take(n as int) == chars@);
    while n > 0 && is_whitespace(chars[n - 1])
        invariant
            n <= chars@.len(),
            trim_end(chars@) == trim_end(chars@.take(n as int)),
        decreases n,
    {
        assert(chars@.take(n as int).drop_last() == chars@.take(n - 1));
        n = n - 1;
    }
    n
}

/// The text without the whitespace at either end.
pub fn trim(s: &str) -> (r: String)
    ensures
        r@ == trim_both(s@),
{
    let chars = to_chars(s);
    let end = trimmed_len(&chars);
    let mut start: usize = 0;
    let ghost e = chars@.take(end as int);
    assert(e.skip(0) == e);
    while start < end && is_whitespace(chars[start])
        invariant
            start <= end <= chars@.len(),
            e == chars@.take(end as int),
            trim_start(e) == trim_start(e.skip(start as int)),
        decreases end - start,
    {
        assert(e.skip(start as int)[0] == chars@[start as int]);
        assert(e.skip(start as int).drop_first() == e.skip(start + 1));
        start = start + 1;
    }
    proof {
        if start < end {
            assert(e.skip(start as int)[0] == chars@[start as int]);
        }
        assert(e.skip(start as int) == s@.subrange(start as int, end as int));
    }
    s.substring_char(start, end).to_owned()
}

/// Whether there is nothing but whitespace in the text.
pub fn is_blank(s: &str) -> (r: bool)
    ensures
        r == (trim_both(s@).len() == 0),
{
    trim(s).as_str().is_empty()
}

/// The characters at which one word of a branch name ends and the next begins.
pub open spec fn word_boundary(c: char) -> bool {
    c == '/' || c == '-' || whitespace(c)
}

/// Index of the last word boundary in `s`, or -1 where there is none.
pub open spec fn last_boundary(s: Seq<char>) -> int
    decreases s.len(),
{
    if s.len() == 0 {
        -1
    } else if word_boundary(s.last()) {
        s.len() - 1
    } else {
        last_boundary(s.drop_last())
    }
}

/// `s` without its last word: trailing whitespace goes, then everything from the last boundary on;
/// a text with no boundary goes altogether.
pub open spec fn without_last_word(s: Seq<char>) -> Seq<char> {
    let t = trim_end(s);
    let k = last_boundary(t);
    if k >= 0 {
        t.take(k)
    } else {
        Seq::empty()
    }
}

/// Delete the last word from a text, with the boundary before it.
pub fn delete_word_backward(s: &mut String)
    ensures
        final(s)@ == without_last_word(old(s)@),
{
    let chars = to_chars(s.as_str());
    let end = trimmed_len(&chars);
    let ghost t = chars@.take(end as int);
    let mut n: usize = end;
    assert(t.take(n as int) == t);
    while n > 0 && !(chars[n - 1] == '/' || chars[n - 1] == '-' || is_whitespace(chars[n - 1]))
        invariant
            n <= end <= chars@.len(),
            t == chars@.take(end as int),
            last_boundary(t) == last_boundary(t.take(n as int)),
        decreases n,
    {
        assert(t.take(n as int).drop_last() == t.take(n - 1));
        n = n - 1;
    }
    if n > 0 {
        assert(t.take(n as int).last() == chars@[n - 1]);
        assert(t.take(n - 1) == s@.take(n - 1));
        *s = prefix(s.as_str(), n - 1);
    } else {
        *s = String::new();
    }
}

/// Index of the last boundary: it is one, and none comes after it.
pub proof fn lemma_last_boundary(s: Seq<char>)
    ensures
        -1 <= last_boundary(s) < s.len(),
        last_boundary(s) >= 0 ==> word_boundary(s[last_boundary(s)]),
        forall|i: int| last_boundary(s) < i < s.len() ==> !word_boundary(#[trigger] s[i]),
    decreases s.len(),
{
    if s.len() > 0 && !word_boundary(s.last()) {
        lemma_last_boundary(s.drop_last());
        assert forall|i: int| last_boundary(s) < i < s.len() implies !word_boundary(
            #[trigger] s[i],
        ) by {
            if i < s.len() - 1 {
                assert(s.drop_last()[i] == s[i]);
            }
        }
    }
}

/// Deleting a word leaves a prefix of the text, shorter unless the text was empty.
pub proof fn law_delete_word_shortens(s: Seq<char>)
    ensures
        without_last_word(s).is_prefix_of(s),
        s.len() > 0 ==> without_last_word(s).len() < s.len(),
{
    lemma_trim_end(s);
    lemma_last_boundary(trim_end(s));
}

/// What `str::to_lowercase` makes of a text.
pub uninterp spec fn lowercase(s: Seq<char>) -> Seq<char>;

/// `str::to_lowercase`: the lower-case form of the text, by Unicode's tables. The contract names
/// the result, and says that it depends on nothing but the text; what it is stays unsaid.
#[verifier::external_body]
pub(crate) fn to_lowercase(s: &str) -> (r: String)
    ensures
        r@ == lowercase(s@),
{
    s.to_lowercase()
}

/// Whether `part` stands somewhere in `s`.
pub open spec fn has_part(s: Seq<char>, part: Seq<char>) -> bool {
    exists|i: int| #[trigger] part_at(s, part, i)
}

/// Whether `part` stands in `s` from index `i` on.
pub open spec fn part_at(s: Seq<char>, part: Seq<char>, i: int) -> bool {
    0 <= i && i + part.len() <= s.len() && s.subrange(i, i + part.len()) == part
}

/// Whether `part` stands in `s` from index `i` on.
fn is_part_at(s: &Vec<char>, part: &Vec<char>, i: usize) -> (r: bool)
    requires
        i + part@.len() <= s@.len(),
    ensures
        r == part_at(s@, part@, i as int),
{
    let mut k: usize = 0;
    while k < part.len()
        invariant
            k <= part@.len(),
            i + part@.len() <= s.len(),
            forall|j: int| 0 <= j < k ==> s@[i + j] == part@[j],
        decreases part@.len() - k,
    {
        if s[i + k] != part[k] {
            assert(s@.subrange(i as int, i + part@.len())[k as int] != part@[k as int]);
            return false;
        }
        k = k + 1;
    }
    assert(s@.subrange(i as int, i + part@.len()) =~= part@);
    true
}

/// Whether `part` stands somewhere in `s`.
pub fn contains_text(s: &str, part: &str) -> (r: bool)
    ensures
        r == has_part(s@, part@),
{
    let s_chars = to_chars(s);
    let part_chars = to_chars(part);
    if part_chars.len() > s_chars.len() {
        return false;
    }
    let last: usize = s_chars.len() - part_chars.len();
    let mut i: usize = 0;
    while i <= last
        invariant
            last + part_chars@.len() == s_chars@.len(),
            i <= last + 1,
            forall|j: int| 0 <= j < i ==> !part_at(s_chars@, part_chars@, j),
            s_chars@ == s@,
            part_chars@ == part@,
        decreases last + 1 - i,
    {
        if is_part_at(&s_chars, &part_chars, i) {
            return true;
        }
        if i == last {
            return false;
        }
        i = i + 1;
    }
    false
}

/// Whether `s` begins with `start`.
pub fn starts_with(s: &str, start: &str) -> (r: bool)
    ensures
        r == start@.is_prefix_of(s@),
{
    let s_chars = to_chars(s);
    let start_chars = to_chars(start);
    if start_chars.len() > s_chars.len() {
        return false;
    }
    is_part_at(&s_chars, &start_chars, 0)
}

/// Whether `part` stands in `s`, letter case aside.
pub open spec fn matches_text(s: Seq<char>, part: Seq<char>) -> bool {
    has_part(lowercase(s), lowercase(part))
}

/// Whether `s` contains `part`, letter case aside.
pub fn contains_ignoring_case(s: &str, part: &str) -> (r: bool)
    ensures
        r == matches_text(s@, part@),
{
    let low = to_lowercase(s);
    let low_part = to_lowercase(part);
    contains_text(low.as_str(), low_part.as_str())
}

/// The character for one decimal digit.
pub open spec fn digit_char(d: nat) -> char {
    (48 + d) as char
}

/// `n` in decimal, without leading zeros.
pub open spec fn decimal_text(n: nat) -> Seq<char>
    decreases n,
{
    if n < 10 {
        seq![digit_char(n)]
    } else {
        decimal_text(n / 10).push(digit_char(n % 10))
    }
}

fn digit_of(d: u64) -> (c: char)
    requires
        d < 10,
    ensures
        c == digit_char(d as nat),
{
    match d {
        0 => '0',
        1 => '1',
        2 => '2',
        3 => '3',
        4 => '4',
        5 => '5',
        6 => '6',
        7 => '7',
        8 => '8',
        _ => '9',
    }
}

/// `n` in decimal.
pub fn decimal(n: u64) -> (r: String)
    ensures
        r@ == decimal_text(n as nat),
    decreases n,
{
    if n < 10 {
        let mut r = String::new();
        r.push(digit_of(n));
        assert(r@ == seq![digit_char(n as nat)]);
        r
    } else {
        let mut r = decimal(n / 10);
        r.push(digit_of(n % 10));
        r
    }
}

/// Whether `c` is a decimal digit.
pub open spec fn digit(c: char) -> bool {
    '0' <= c <= '9'
}

/// Whether the text is made of decimal digits.
pub open spec fn all_digits(s: Seq<char>) -> bool {
    forall|i: int| 0 <= i < s.len() ==> digit(#[trigger] s[i])
}

/// The number that a text of decimal digits stands for.
pub open spec fn decimal_value(s: Seq<char>) -> nat
    decreases s.len(),
{
    if s.len() == 0 {
        0
    } else {
        10 * decimal_value(s.drop_last()) + if digit(s.last()) {
            (s.last() as int - 48) as nat
        } else {
            0
        }
    }
}

/// The number that a text stands for: one or more decimal digits, and not too large.
pub open spec fn parsed_number(s: Seq<char>) -> Option<u32> {
    if s.len() > 0 && all_digits(s) && decimal_value(s) <= u32::MAX {
        Some(decimal_value(s) as u32)
    } else {
        None
    }
}

proof fn lemma_value_grows(s: Seq<char>, k: int)
    requires
        0 <= k <= s.len(),
    ensures
        decimal_value(s.take(k)) <= decimal_value(s),
    decreases s.len() - k,
{
    if k < s.len() {
        lemma_value_grows(s, k + 1);
        assert(s.take(k + 1).drop_last() == s.take(k));
    } else {
        assert(s.take(k) == s);
    }
}

/// The number that a text stands for.
pub fn parse_number(s: &str) -> (r: Option<u32>)
    ensures
        r == parsed_number(s@),
{
    let chars = to_chars(s);
    if chars.len() == 0 {
        return None;
    }
    let mut value: u64 = 0;
    let mut i: usize = 0;
    assert(chars@.take(0) == Seq::<char>::empty());
    while i < chars.len()
        invariant
            i <= chars@.len(),
            chars@ == s@,
            forall|j: int| 0 <= j < i ==> digit(#[trigger] chars@[j]),
            value == decimal_value(chars@.take(i as int)),
            value <= u32::MAX,
        decreases chars@.len() - i,
    {
        let c = chars[i];
        if !('0' <= c && c <= '9') {
            assert(!digit(s@[i as int]));
            return None;
        }
        proof {
            assert(chars@.take(i + 1).drop_last() == chars@.take(i as int));
            assert(chars@.take(i + 1).last() == c);
            lemma_value_grows(s@, i + 1);
        }
        value = 10 * value + (c as u64 - 48);
        if value > 0xffff_ffff {
            return None;
        }
        i = i + 1;
    }
    assert(chars@.take(i as int) == s@);
    Some(value as u32)
}

/// Reading a number back from its decimal form gives the number.
pub proof fn law_decimal_round_trip(n: nat)
    ensures
        decimal_text(n).len() > 0,
        all_digits(decimal_text(n)),
        decimal_value(decimal_text(n)) == n,
        n <= u32::MAX ==> parsed_number(decimal_text(n)) == Some(n as u32),
    decreases n,
{
    if n < 10 {
        let t = decimal_text(n);
        assert(t.drop_last() == Seq::<char>::empty());
        assert(decimal_value(t.drop_last()) == 0);
    } else {
        law_decimal_round_trip(n / 10);
        assert(decimal_text(n).drop_last() == decimal_text(n / 10));
    }
}

/// Joins two texts.
pub fn concat(a: &str, b: &str) -> (r: String)
    ensures
        r@ == a@ + b@,
{
    let mut r: String = a.to_owned();
    r.append(b);
    r
}

/// Deleting a character takes back the one appended.
pub proof fn law_delete_undoes_append(s: Seq<char>, c: char)
    ensures
        without_last(s.push(c)) == s,
{
    assert(s.push(c).drop_last() == s);
}

/// A trimmed text is a stretch of the text that neither begins nor ends with whitespace, and all that
/// stood before and behind it is whitespace.
pub proof fn law_trimming_takes_off_whitespace_alone(s: Seq<char>)
    ensures
        exists|i: int, j: int|
            {
                &&& 0 <= i <= j <= s.len()
                &&& trim_both(s) == #[trigger] s.subrange(i, j)
                &&& forall|k: int| 0 <= k < i || j <= k < s.len() ==> whitespace(#[trigger] s[k])
                &&& i < j ==> !whitespace(s[i]) && !whitespace(s[j - 1])
            },
{
    let e = trim_end(s);
    lemma_trim_end(s);
    lemma_trim_start(e);
    let j = e.len() as int;
    let i = j - trim_both(s).len();
    assert(trim_both(s) =~= s.subrange(i, j));
    assert forall|k: int| 0 <= k < i implies whitespace(#[trigger] s[k]) by {
        assert(e[k] == s[k]);
    }
    if i < j {
        assert(trim_both(s)[0] == s[i]);
        assert(e.last() == s[j - 1]);
    }
}

/// Deleting a word cuts the text: what is left ends before a slash, a hyphen or whitespace, or is
/// nothing. Behind the cut there is one word, with none of these in it, and then whitespace alone.
pub proof fn law_delete_word_takes_one_word(s: Seq<char>)
    ensures
        ({
            let n = without_last_word(s).len() as int;
            &&& n <= s.len()
            &&& without_last_word(s) == s.take(n)
            &&& exists|e: int|
                {
                    &&& n <= e <= s.len()
                    &&& #[trigger] s.take(e) == trim_end(s)
                    &&& e > 0 ==> !whitespace(s[e - 1])
                    &&& forall|i: int| e <= i < s.len() ==> whitespace(#[trigger] s[i])
                    &&& forall|i: int|
                        n < i < e ==> (#[trigger] s[i]) != '/' && s[i] != '-' && !whitespace(s[i])
                    &&& n > 0 ==> n < e && (s[n] == '/' || s[n] == '-' || whitespace(s[n]))
                }
        }),
{
    let t = trim_end(s);
    lemma_trim_end(s);
    lemma_last_boundary(t);
    let e = t.len() as int;
    let k = last_boundary(t);
    let n = without_last_word(s).len() as int;
    assert(without_last_word(s) =~= s.take(n));
    assert(s.take(e) == t);
    if e > 0 {
        assert(t.last() == s[e - 1]);
    }
    assert forall|i: int| n < i < e implies (#[trigger] s[i]) != '/' && s[i] != '-' && !whitespace(
        s[i],
    ) by {
        assert(t[i] == s[i]);
        assert(!word_boundary(t[i]));
    }
    if n > 0 {
        assert(t[k] == s[n]);
    }
}

/// A text without its last character is one shorter and begins like it; an empty one stays empty.
pub proof fn law_delete_takes_one_character(s: Seq<char>)
    ensures
        s.len() == 0 ==> without_last(s).len() == 0,
        s.len() > 0 ==> without_last(s).len() == s.len() - 1,
        forall|i: int| 0 <= i < without_last(s).len() ==> without_last(s)[i] == s[i],
{
}

/// A text stands in another exactly where something before it and something behind it make that other
/// one up; letter case aside, the same holds of the lower-case forms.
pub proof fn law_parts_make_up_the_text(s: Seq<char>, part: Seq<char>)
    ensures
        has_part(s, part) <==> exists|a: Seq<char>, b: Seq<char>| s == #[trigger] (a + part + b),
        matches_text(s, part) <==> exists|a: Seq<char>, b: Seq<char>|
            lowercase(s) == #[trigger] (a + lowercase(part) + b),
{
    lemma_parts(s, part);
    lemma_parts(lowercase(s), lowercase(part));
}

proof fn lemma_parts(s: Seq<char>, part: Seq<char>)
    ensures
        has_part(s, part) <==> exists|a: Seq<char>, b: Seq<char>| s == #[trigger] (a + part + b),
{
    if has_part(s, part) {
        let i = choose|i: int| part_at(s, part, i);
        let a = s.take(i);
        let b = s.skip(i + part.len());
        assert(s =~= a + part + b);
    }
    if exists|a: Seq<char>, b: Seq<char>| s == #[trigger] (a + part + b) {
        let (a, b) = choose|a: Seq<char>, b: Seq<char>| s == #[trigger] (a + part + b);
        assert(s.subrange(a.len() as int, (a.len() + part.len()) as int) =~= part);
        assert(part_at(s, part, a.len() as int));
    }
}

/// A number is written with digits alone, and with no zero before them.
pub proof fn law_decimal_is_plain(n: nat)
    ensures
        decimal_text(n).len() > 0,
        forall|i: int|
            0 <= i < decimal_text(n).len() ==> '0' <= (#[trigger] decimal_text(n)[i]) <= '9',
        n > 0 ==> decimal_text(n)[0] != '0',
    decreases n,
{
    if n >= 10 {
        law_decimal_is_plain(n / 10);
        assert(decimal_text(n)[0] == decimal_text(n / 10)[0]);
    }
}

/// A digit behind a number makes it ten times as large, and adds what it stands for.
pub proof fn law_digits_count_by_ten(s: Seq<char>, c: char)
    requires
        '0' <= c <= '9',
    ensures
        decimal_value(Seq::empty()) == 0,
        decimal_value(s.push(c)) == 10 * decimal_value(s) + (c as int - '0' as int),
{
    assert(s.push(c).drop_last() == s);
}

/// A text stands for a number exactly where it is one or more digits that make that number up.
pub proof fn law_numbers_are_digits(s: Seq<char>, n: u32)
    ensures
        parsed_number(s) == Some(n) <==> s.len() > 0 && (forall|i: int|
            0 <= i < s.len() ==> '0' <= (#[trigger] s[i]) <= '9') && decimal_value(s) == n,
{
    if forall|i: int| 0 <= i < s.len() ==> '0' <= (#[trigger] s[i]) <= '9' {
        assert(all_digits(s));
    }
    if all_digits(s) {
        assert forall|i: int| 0 <= i < s.len() implies '0' <= (#[trigger] s[i]) <= '9' by {
            assert(digit(s[i]));
        }
    }
}

} // verus!
