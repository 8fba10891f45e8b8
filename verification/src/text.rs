//! Conversions between strings and character vectors, and the small text
//! operations the rest of the crate is built from.

use vstd::prelude::*;

verus! {

/// The characters of `s`, in order. Wraps `str::chars`, collected into a
/// `Vec`; the contract says that the vector holds exactly the characters of
/// the string, which is what the iterator is documented to yield.
#[verifier::external_body]
pub(crate) fn str_chars(s: &str) -> (r: Vec<char>)
    ensures
        r@ == s@,
{
    s.chars().collect()
}

/// The string made of the characters of `v`, in order. Wraps
/// `String::from_iter` over the characters, reached through `collect`; the
/// contract says that the string holds exactly those characters.
#[verifier::external_body]
pub(crate) fn chars_to_string(v: &Vec<char>) -> (r: String)
    ensures
        r@ == v@,
{
    v.iter().collect()
}

/// Appends the characters of `tail` to `out`.
pub fn push_chars(out: &mut Vec<char>, tail: &Vec<char>)
    ensures
        final(out)@ == old(out)@ + tail@,
{
    let mut i: usize = 0;
    while i < tail.len()
        invariant
            i <= tail.len(),
            out@ == old(out)@ + tail@.subrange(0, i as int),
        decreases tail.len() - i,
    {
        out.push(tail[i]);
        i += 1;
    }
    assert(tail@.subrange(0, tail.len() as int) == tail@);
}

/// Whether `c` is white space as `char::is_whitespace` tells it: a character
/// with the Unicode property `White_Space`.
pub uninterp spec fn is_whitespace(c: char) -> bool;

/// Wraps `char::is_whitespace`. The contract only gives the outcome its name.
#[verifier::external_body]
pub(crate) fn char_is_whitespace(c: char) -> (r: bool)
    ensures
        r == is_whitespace(c),
{
    c.is_whitespace()
}

/// The number of white-space characters that `s` begins with.
pub open spec fn leading_whitespace(s: Seq<char>) -> int
    decreases s.len(),
{
    if s.len() == 0 || !is_whitespace(s[0]) {
        0
    } else {
        1 + leading_whitespace(s.drop_first())
    }
}

/// The number of white-space characters that `s` ends with.
pub open spec fn trailing_whitespace(s: Seq<char>) -> int
    decreases s.len(),
{
    if s.len() == 0 || !is_whitespace(s.last()) {
        0
    } else {
        1 + trailing_whitespace(s.drop_last())
    }
}

/// `n` is `leading_whitespace` where the first `n` characters are white
/// space and the next one, if there is one, is not.
pub proof fn lemma_leading_whitespace(s: Seq<char>, n: int)
    requires
        0 <= n <= s.len(),
        forall|i: int| 0 <= i < n ==> is_whitespace(s[i]),
        n < s.len() ==> !is_whitespace(s[n]),
    ensures
        leading_whitespace(s) == n,
    decreases n,
{
    if n > 0 {
        lemma_leading_whitespace(s.drop_first(), n - 1);
    }
}

/// `n` is `trailing_whitespace` where the last `n` characters are white
/// space and the one before them, if there is one, is not.
pub proof fn lemma_trailing_whitespace(s: Seq<char>, n: int)
    requires
        0 <= n <= s.len(),
        forall|i: int| s.len() - n <= i < s.len() ==> is_whitespace(s[i]),
        n < s.len() ==> !is_whitespace(s[s.len() - n - 1]),
    ensures
        trailing_whitespace(s) == n,
    decreases n,
{
    if n > 0 {
        lemma_trailing_whitespace(s.drop_last(), n - 1);
    }
}

/// `s` without the white space at its two ends.
pub open spec fn trimmed(s: Seq<char>) -> Seq<char> {
    if leading_whitespace(s) == s.len() {
        Seq::empty()
    } else {
        s.subrange(leading_whitespace(s), s.len() - trailing_whitespace(s))
    }
}

/// The characters `v[from..to]`.
pub fn slice_chars(v: &Vec<char>, from: usize, to: usize) -> (r: Vec<char>)
    requires
        from <= to <= v.len(),
    ensures
        r@ == v@.subrange(from as int, to as int),
{
    let mut out: Vec<char> = Vec::new();
    let mut i: usize = from;
    while i < to
        invariant
            from <= i <= to <= v.len(),
            out@ == v@.subrange(from as int, i as int),
        decreases to - i,
    {
        out.push(v[i]);
        i += 1;
    }
    out
}

/// Removes the white space at the two ends of `v`.
pub fn trim_chars(v: &Vec<char>) -> (r: Vec<char>)
    ensures
        r@ == trimmed(v@),
{
    let n = v.len();
    let mut from: usize = 0;
    while from < n && char_is_whitespace(v[from])
        invariant
            from <= n == v.len(),
            forall|i: int| 0 <= i < from ==> is_whitespace(v@[i]),
        decreases n - from,
    {
        from += 1;
    }
    proof {
        lemma_leading_whitespace(v@, from as int);
    }
    if from == n {
        return Vec::new();
    }
    let mut to: usize = n;
    while to > from + 1 && char_is_whitespace(v[to - 1])
        invariant
            from < to <= n == v.len(),
            !is_whitespace(v@[from as int]),
            forall|i: int| to <= i < n ==> is_whitespace(v@[i]),
        decreases to,
    {
        to -= 1;
    }
    proof {
        lemma_trailing_whitespace(v@, n - to);
    }
    slice_chars(v, from, to)
}

/// `s` in lower case, as `str::to_lowercase` writes it.
pub uninterp spec fn lowercased(s: Seq<char>) -> Seq<char>;

/// Wraps `str::to_lowercase`. The contract only gives the outcome its name.
#[verifier::external_body]
pub(crate) fn lowercase_chars(v: &Vec<char>) -> (r: Vec<char>)
    ensures
        r@ == lowercased(v@),
{
    v.iter().collect::<String>().to_lowercase().chars().collect()
}

/// Whether two texts hold the same characters.
pub fn chars_equal(a: &Vec<char>, b: &Vec<char>) -> (r: bool)
    ensures
        r == (a@ == b@),
{
    if a.len() != b.len() {
        return false;
    }
    let mut i: usize = 0;
    while i < a.len()
        invariant
            i <= a.len() == b.len(),
            forall|k: int| 0 <= k < i ==> a@[k] == b@[k],
        decreases a.len() - i,
    {
        if a[i] != b[i] {
            return false;
        }
        i += 1;
    }
    assert(a@ =~= b@);
    true
}

/// `needle` stands in `hay` at place `at`.
pub open spec fn occurs_at(hay: Seq<char>, needle: Seq<char>, at: int) -> bool {
    0 <= at && at + needle.len() <= hay.len() && hay.subrange(at, at + needle.len()) == needle
}

/// `hay` begins with `prefix`.
pub open spec fn starts_with(hay: Seq<char>, prefix: Seq<char>) -> bool {
    occurs_at(hay, prefix, 0)
}

/// `needle` stands somewhere in `hay`.
pub open spec fn contains_text(hay: Seq<char>, needle: Seq<char>) -> bool {
    exists|at: int| occurs_at(hay, needle, at)
}

/// Whether `needle` stands in `hay` at place `at`.
pub fn chars_occur_at(hay: &Vec<char>, needle: &Vec<char>, at: usize) -> (r: bool)
    ensures
        r == occurs_at(hay@, needle@, at as int),
{
    if at > hay.len() || needle.len() > hay.len() - at {
        return false;
    }
    let mut i: usize = 0;
    while i < needle.len()
        invariant
            i <= needle.len(),
            at + needle.len() <= hay.len(),
            forall|k: int| 0 <= k < i ==> hay@[at + k] == needle@[k],
        decreases needle.len() - i,
    {
        if hay[at + i] != needle[i] {
            assert(hay@.subrange(at as int, at + needle.len())[i as int] != needle@[i as int]);
            return false;
        }
        i += 1;
    }
    assert(hay@.subrange(at as int, at + needle.len()) =~= needle@);
    true
}

/// Whether `hay` begins with `prefix`.
pub fn chars_start_with(hay: &Vec<char>, prefix: &Vec<char>) -> (r: bool)
    ensures
        r == starts_with(hay@, prefix@),
{
    chars_occur_at(hay, prefix, 0)
}

/// Whether `needle` stands somewhere in `hay`.
pub fn chars_contain(hay: &Vec<char>, needle: &Vec<char>) -> (r: bool)
    ensures
        r == contains_text(hay@, needle@),
{
    if needle.len() > hay.len() {
        return false;
    }
    let last = hay.len() - needle.len();
    let mut at: usize = 0;
    loop
        invariant
            at <= last,
            last == hay.len() - needle.len(),
            forall|k: int| 0 <= k < at ==> !occurs_at(hay@, needle@, k),
        decreases last - at,
    {
        if chars_occur_at(hay, needle, at) {
            return true;
        }
        if at == last {
            assert forall|k: int| !occurs_at(hay@, needle@, k) by {}
            return false;
        }
        at += 1;
    }
}

/// `s` with every `from` replaced by `to`.
pub open spec fn replace_char(s: Seq<char>, from: char, to: char) -> Seq<char> {
    s.map_values(|c: char| if c == from { to } else { c })
}

/// Replaces every `from` by `to`.
pub fn chars_replace(v: &Vec<char>, from: char, to: char) -> (r: Vec<char>)
    ensures
        r@ == replace_char(v@, from, to),
{
    let mut out: Vec<char> = Vec::new();
    let mut i: usize = 0;
    while i < v.len()
        invariant
            i <= v.len(),
            out.len() == i,
            forall|k: int| 0 <= k < i ==> out@[k] == (if v@[k] == from { to } else { v@[k] }),
        decreases v.len() - i,
    {
        out.push(if v[i] == from { to } else { v[i] });
        i += 1;
    }
    assert(out@ =~= replace_char(v@, from, to));
    out
}

/// The character that writes the digit `d`.
pub open spec fn digit_char(d: nat) -> char
    recommends
        d < 10,
{
    (('0' as u8) + d) as char
}

/// `n` written in base ten, without leading zeros.
pub open spec fn decimal_digits(n: nat) -> Seq<char>
    decreases n,
{
    if n < 10 {
        seq![digit_char(n)]
    } else {
        decimal_digits(n / 10).push(digit_char(n % 10))
    }
}

/// Appends `n`, written in base ten, to `out`.
pub fn push_decimal(out: &mut Vec<char>, n: u64)
    ensures
        final(out)@ == old(out)@ + decimal_digits(n as nat),
    decreases n,
{
    if n >= 10 {
        push_decimal(out, n / 10);
    }
    let d: u8 = (n % 10) as u8;
    out.push((48u8 + d) as char);
    assert(out@ =~= old(out)@ + decimal_digits(n as nat));
}

/// Appends the characters of `tail` to `out`.
pub fn push_str(out: &mut Vec<char>, tail: &str)
    ensures
        final(out)@ == old(out)@ + tail@,
{
    push_chars(out, &str_chars(tail));
}

/// The text of an optional string.
pub open spec fn optional_text(s: Option<String>) -> Option<Seq<char>> {
    match s {
        Some(t) => Some(t@),
        None => None,
    }
}

/// The texts of a list of strings.
pub open spec fn strings_view(v: Seq<String>) -> Seq<Seq<char>> {
    v.map_values(|s: String| s@)
}

/// The texts of a list of character vectors.
pub open spec fn texts_view(v: Seq<Vec<char>>) -> Seq<Seq<char>> {
    v.map_values(|t: Vec<char>| t@)
}

/// Whether `list` holds the text `t`.
pub fn list_contains(list: &Vec<Vec<char>>, t: &Vec<char>) -> (r: bool)
    ensures
        r == texts_view(list@).contains(t@),
{
    let mut i: usize = 0;
    while i < list.len()
        invariant
            i <= list.len(),
            forall|k: int| 0 <= k < i ==> texts_view(list@)[k] != t@,
        decreases list.len() - i,
    {
        assert(texts_view(list@)[i as int] == list@[i as int]@);
        if chars_equal(&list[i], t) {
            return true;
        }
        i += 1;
    }
    false
}

/// The characters of each string of `list`.
pub fn strings_to_chars(list: &Vec<String>) -> (r: Vec<Vec<char>>)
    ensures
        texts_view(r@) == strings_view(list@),
{
    let mut out: Vec<Vec<char>> = Vec::new();
    let mut i: usize = 0;
    while i < list.len()
        invariant
            i <= list.len(),
            out.len() == i,
            forall|k: int| 0 <= k < i ==> (#[trigger] out@[k])@ == list@[k]@,
        decreases list.len() - i,
    {
        out.push(str_chars(list[i].as_str()));
        i += 1;
    }
    assert(texts_view(out@) =~= strings_view(list@));
    out
}

/// The number of times that `c` stands at the end of `s`.
pub open spec fn trailing_run(s: Seq<char>, c: char) -> int
    decreases s.len(),
{
    if s.len() == 0 || s.last() != c {
        0
    } else {
        1 + trailing_run(s.drop_last(), c)
    }
}

/// `n` is `trailing_run` where the last `n` characters are `c` and the one
/// before them, if there is one, is not.
pub proof fn lemma_trailing_run(s: Seq<char>, c: char, n: int)
    requires
        0 <= n <= s.len(),
        forall|i: int| s.len() - n <= i < s.len() ==> s[i] == c,
        n < s.len() ==> s[s.len() - n - 1] != c,
    ensures
        trailing_run(s, c) == n,
    decreases n,
{
    if n > 0 {
        lemma_trailing_run(s.drop_last(), c, n - 1);
    }
}

/// `s` without the `c` at its end, however many there are.
pub open spec fn without_trailing(s: Seq<char>, c: char) -> Seq<char> {
    s.subrange(0, s.len() - trailing_run(s, c))
}

/// The length of `v` without the `c` at its end.
pub fn length_without_trailing(v: &Vec<char>, c: char) -> (r: usize)
    ensures
        r <= v.len(),
        r == v.len() - trailing_run(v@, c),
{
    let mut end: usize = v.len();
    while end > 0 && v[end - 1] == c
        invariant
            end <= v.len(),
            forall|k: int| end <= k < v.len() ==> v@[k] == c,
        decreases end,
    {
        end -= 1;
    }
    proof {
        lemma_trailing_run(v@, c, v.len() - end);
    }
    end
}

/// `s` without `prefix` at its beginning, however often it stands there.
pub open spec fn without_leading(s: Seq<char>, prefix: Seq<char>) -> Seq<char>
    decreases s.len(),
{
    if prefix.len() > 0 && starts_with(s, prefix) {
        without_leading(s.skip(prefix.len() as int), prefix)
    } else {
        s
    }
}

/// The place behind the repetitions of `prefix` that `v` begins with, from
/// `from` on.
pub fn skip_leading(v: &Vec<char>, prefix: &Vec<char>, from: usize) -> (r: usize)
    requires
        from <= v.len(),
    ensures
        from <= r <= v.len(),
        v@.skip(r as int) == without_leading(v@.skip(from as int), prefix@),
{
    let mut at: usize = from;
    if prefix.len() == 0 {
        return at;
    }
    while chars_occur_at(v, prefix, at)
        invariant
            from <= at <= v.len(),
            prefix.len() > 0,
            without_leading(v@.skip(at as int), prefix@) == without_leading(
                v@.skip(from as int),
                prefix@,
            ),
        decreases v.len() - at,
    {
        assert(v@.skip(at as int).subrange(0, prefix.len() as int) =~= v@.subrange(
            at as int,
            at + prefix.len(),
        ));
        assert(v@.skip(at as int).skip(prefix.len() as int) =~= v@.skip(at + prefix.len()));
        at += prefix.len();
    }
    assert(!starts_with(v@.skip(at as int), prefix@)) by {
        if v@.skip(at as int).len() >= prefix.len() {
            assert(v@.skip(at as int).subrange(0, prefix.len() as int) =~= v@.subrange(
                at as int,
                at + prefix.len(),
            ));
        }
    }
    at
}

/// `n` spaces.
pub open spec fn spaces(n: nat) -> Seq<char> {
    Seq::new(n, |i: int| ' ')
}

/// `text` with spaces before it up to the width `width`.
pub open spec fn pad_left(text: Seq<char>, width: nat) -> Seq<char> {
    if text.len() >= width {
        text
    } else {
        spaces((width - text.len()) as nat) + text
    }
}

/// `text` with spaces behind it up to the width `width`.
pub open spec fn pad_right(text: Seq<char>, width: nat) -> Seq<char> {
    if text.len() >= width {
        text
    } else {
        text + spaces((width - text.len()) as nat)
    }
}

fn push_spaces(out: &mut Vec<char>, n: usize)
    ensures
        final(out)@ == old(out)@ + spaces(n as nat),
{
    let mut i: usize = 0;
    assert(out@ =~= old(out)@ + spaces(0));
    while i < n
        invariant
            i <= n,
            out@ == old(out)@ + spaces(i as nat),
        decreases n - i,
    {
        out.push(' ');
        assert(out@ =~= old(out)@ + spaces((i + 1) as nat));
        i += 1;
    }
}

/// Appends `text`, with spaces before it up to the width `width`.
pub fn push_padded_left(out: &mut Vec<char>, text: &Vec<char>, width: usize)
    ensures
        final(out)@ == old(out)@ + pad_left(text@, width as nat),
{
    if text.len() < width {
        push_spaces(out, width - text.len());
    }
    push_chars(out, text);
    assert(out@ =~= old(out)@ + pad_left(text@, width as nat));
}

/// Appends `text`, with spaces behind it up to the width `width`.
pub fn push_padded_right(out: &mut Vec<char>, text: &Vec<char>, width: usize)
    ensures
        final(out)@ == old(out)@ + pad_right(text@, width as nat),
{
    push_chars(out, text);
    if text.len() < width {
        push_spaces(out, width - text.len());
    }
    assert(out@ =~= old(out)@ + pad_right(text@, width as nat));
}

} // verus!
