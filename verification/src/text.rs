//! Text: what the standard string operations return, stated over sequences of characters.

use vstd::prelude::*;
use vstd::string::*;
use vstd::utf8::{decode_utf8, valid_utf8};

verus! {

// ─── Trusted: operations of the standard library ─────────────────────────────

/// Trusted: `String::push` appends the character at the end.
#[verifier::external_body]
pub(crate) fn push_char(s: &mut String, c: char)
    ensures
        final(s)@ == old(s)@.push(c),
{
    s.push(c);
}

/// The text that `str::to_uppercase` returns: the Unicode uppercase mapping of the argument.
pub uninterp spec fn uppercase(s: Seq<char>) -> Seq<char>;

/// Trusted: `str::to_uppercase` is a function of the text alone.
#[verifier::external_body]
pub(crate) fn to_uppercase(s: &str) -> (r: String)
    ensures
        r@ == uppercase(s@),
{
    s.to_uppercase()
}

/// Declares `std::string::FromUtf8Error`; nothing is known of what is inside a value.
#[verifier::external_type_specification]
#[verifier::external_body]
pub struct ExFromUtf8Error(std::string::FromUtf8Error);

/// Trusted: `String::from_utf8` decodes the bytes, and fails exactly where they are not UTF-8.
#[verifier::external_body]
pub(crate) fn string_from_utf8(bytes: Vec<u8>) -> (r: Result<String, std::string::FromUtf8Error>)
    ensures
        r is Ok <==> valid_utf8(bytes@),
        r matches Ok(s) ==> s@ == decode_utf8(bytes@),
{
    String::from_utf8(bytes)
}

// ─── Comparing and searching ─────────────────────────────────────────────────

/// `pattern` occurs in `text` as an unbroken stretch.
pub open spec fn occurs_in(pattern: Seq<char>, text: Seq<char>) -> bool {
    exists|i: int|
        0 <= i <= text.len() - pattern.len() && #[trigger] text.subrange(i, i + pattern.len())
            == pattern
}

/// Whether the pattern stands in the text at a place.
fn stands_at(text: &Vec<char>, pattern: &Vec<char>, at: usize) -> (r: bool)
    requires
        at + pattern.len() <= text.len(),
    ensures
        r == (text@.subrange(at as int, at + pattern@.len()) == pattern@),
{
    let mut i: usize = 0;
    while i < pattern.len()
        invariant
            i <= pattern.len(),
            at + pattern.len() <= text.len(),
            forall|j: int| 0 <= j < i ==> text@[at + j] == #[trigger] pattern@[j],
        decreases pattern.len() - i,
    {
        if text[at + i] != pattern[i] {
            assert(text@.subrange(at as int, at + pattern@.len())[i as int] != pattern@[i as int]);
            return false;
        }
        i = i + 1;
    }
    assert(text@.subrange(at as int, at + pattern@.len()) =~= pattern@);
    true
}

/// Whether the pattern occurs somewhere in the text.
pub fn contains_text(text: &str, pattern: &str) -> (r: bool)
    ensures
        r == occurs_in(pattern@, text@),
{
    let whole: Vec<char> = chars_of(text);
    let wanted: Vec<char> = chars_of(pattern);
    if wanted.len() > whole.len() {
        return false;
    }
    let last: usize = whole.len() - wanted.len();
    let mut at: usize = 0;
    while at < last
        invariant
            at <= last,
            last == whole@.len() - wanted@.len(),
            whole@ == text@,
            wanted@ == pattern@,
            forall|i: int|
                0 <= i < at ==> #[trigger] text@.subrange(i, i + pattern@.len()) != pattern@,
        decreases last - at,
    {
        if stands_at(&whole, &wanted, at) {
            return true;
        }
        at = at + 1;
    }
    stands_at(&whole, &wanted, last)
}

/// Whether two texts hold the same characters.
pub fn same_text(a: &str, b: &str) -> (r: bool)
    ensures
        r == (a@ == b@),
{
    a.to_string() == b.to_string()
}

/// The characters of a text, in order.
pub fn chars_of(s: &str) -> (r: Vec<char>)
    ensures
        r@ == s@,
{
    let mut out: Vec<char> = Vec::new();
    for c in it: s.chars()
        invariant
            out@ == it.seq().take(it.index() as int),
    {
        out.push(c);
    }
    out
}

/// The text before the first `mark`; all of it where there is none.
pub open spec fn before_first(s: Seq<char>, mark: char) -> Seq<char>
    decreases s.len(),
{
    if s.len() == 0 || s[0] == mark {
        Seq::empty()
    } else {
        seq![s[0]] + before_first(s.drop_first(), mark)
    }
}

/// The text behind the last `mark`; all of it where there is none.
pub open spec fn after_last(s: Seq<char>, mark: char) -> Seq<char>
    decreases s.len(),
{
    if s.len() == 0 || s.last() == mark {
        Seq::empty()
    } else {
        after_last(s.drop_last(), mark).push(s.last())
    }
}

/// The text behind the first `mark`; empty where there is none.
pub open spec fn after_first(s: Seq<char>, mark: char) -> Seq<char> {
    if before_first(s, mark).len() < s.len() {
        s.skip(before_first(s, mark).len() as int + 1)
    } else {
        Seq::empty()
    }
}

/// The stretches of a text between the marks, in order: one more than there are marks.
pub open spec fn split_on(s: Seq<char>, mark: char) -> Seq<Seq<char>>
    decreases s.len(),
{
    if before_first(s, mark).len() < s.len() {
        seq![before_first(s, mark)] + split_on(after_first(s, mark), mark)
    } else {
        seq![s]
    }
}

/// `before_first` is the longest prefix without the mark.
pub proof fn lemma_before_first(s: Seq<char>, mark: char)
    ensures
        before_first(s, mark).len() <= s.len(),
        before_first(s, mark) == s.take(before_first(s, mark).len() as int),
        !before_first(s, mark).contains(mark),
        before_first(s, mark).len() < s.len() <==> s.contains(mark),
        before_first(s, mark).len() < s.len() ==> s[before_first(s, mark).len() as int] == mark,
    decreases s.len(),
{
    if s.len() > 0 && s[0] != mark {
        let t = s.drop_first();
        lemma_before_first(t, mark);
        let b = before_first(t, mark);
        assert(before_first(s, mark) =~= s.take(b.len() as int + 1));
        if t.contains(mark) {
            let j = choose|j: int| 0 <= j < t.len() && t[j] == mark;
            assert(s[j + 1] == mark);
        }
        if s.contains(mark) {
            let j = choose|j: int| 0 <= j < s.len() && s[j] == mark;
            assert(t[j - 1] == mark);
        }
        if before_first(s, mark).contains(mark) {
            let j = choose|j: int| 0 <= j < b.len() + 1 && before_first(s, mark)[j] == mark;
            assert(b[j - 1] == mark);
        }
    } else if s.len() > 0 {
        assert(s.contains(s[0]));
        assert(before_first(s, mark) =~= s.take(0));
    } else {
        assert(before_first(s, mark) =~= s.take(0));
    }
}

/// `after_last` is the longest suffix without the mark.
pub proof fn lemma_after_last(s: Seq<char>, mark: char)
    ensures
        after_last(s, mark).len() <= s.len(),
        after_last(s, mark) == s.skip(s.len() - after_last(s, mark).len()),
        !after_last(s, mark).contains(mark),
        after_last(s, mark).len() < s.len() <==> s.contains(mark),
        after_last(s, mark).len() < s.len() ==> s[s.len() - after_last(s, mark).len() - 1] == mark,
    decreases s.len(),
{
    if s.len() > 0 && s.last() != mark {
        let t = s.drop_last();
        lemma_after_last(t, mark);
        let a = after_last(t, mark);
        assert(after_last(s, mark) =~= s.skip(s.len() - (a.len() as int + 1)));
        if t.contains(mark) {
            let j = choose|j: int| 0 <= j < t.len() && t[j] == mark;
            assert(s[j] == mark);
        }
        if s.contains(mark) {
            let j = choose|j: int| 0 <= j < s.len() && s[j] == mark;
            assert(t[j] == mark);
        }
        if after_last(s, mark).contains(mark) {
            let j = choose|j: int| 0 <= j < a.len() + 1 && after_last(s, mark)[j] == mark;
            assert(a[j] == mark);
        }
    } else if s.len() > 0 {
        assert(s.contains(s[s.len() - 1]));
        assert(after_last(s, mark) =~= s.skip(s.len() as int));
    } else {
        assert(after_last(s, mark) =~= s.skip(0));
    }
}

/// Whether a text holds a character.
pub fn contains_char(s: &str, mark: char) -> (r: bool)
    ensures
        r == s@.contains(mark),
{
    for c in it: s.chars()
        invariant
            it.seq() == s@,
            forall|j: int| 0 <= j < it.index() ==> s@[j] != mark,
    {
        if c == mark {
            assert(s@[it.index() as int] == mark);
            return true;
        }
    }
    false
}

/// The text of a sequence of characters.
pub fn text_of(chars: &Vec<char>) -> (r: String)
    ensures
        r@ == chars@,
{
    let mut out: String = String::new();
    let mut i: usize = 0;
    while i < chars.len()
        invariant
            i <= chars.len(),
            out@ == chars@.take(i as int),
        decreases chars.len() - i,
    {
        push_char(&mut out, chars[i]);
        i = i + 1;
        assert(chars@.take(i as int) =~= chars@.take(i - 1).push(chars@[i - 1]));
    }
    assert(chars@.take(i as int) =~= chars@);
    out
}

/// The text before the first `mark`; all of it where there is none.
pub fn text_before(s: &str, mark: char) -> (r: String)
    ensures
        r@ == before_first(s@, mark),
{
    let chars: Vec<char> = chars_of(s);
    let mut out: String = String::new();
    let mut i: usize = 0;
    assert(s@.skip(0) =~= s@);
    while i < chars.len() && chars[i] != mark
        invariant
            i <= chars.len(),
            chars@ == s@,
            out@ == s@.take(i as int),
            before_first(s@, mark) == s@.take(i as int) + before_first(s@.skip(i as int), mark),
        decreases chars.len() - i,
    {
        push_char(&mut out, chars[i]);
        proof {
            let rest = s@.skip(i as int);
            assert(rest.drop_first() =~= s@.skip(i + 1));
            assert(s@.take(i + 1) =~= s@.take(i as int).push(s@[i as int]));
            assert(s@.take(i as int) + (seq![rest[0]] + before_first(rest.drop_first(), mark))
                =~= s@.take(i + 1) + before_first(s@.skip(i + 1), mark));
        }
        i = i + 1;
    }
    assert(before_first(s@.skip(i as int), mark) =~= Seq::<char>::empty());
    out
}

/// The text behind the first `mark`; empty where there is none.
pub fn text_past(s: &str, mark: char) -> (r: String)
    ensures
        r@ == after_first(s@, mark),
{
    let chars: Vec<char> = chars_of(s);
    let mut i: usize = 0;
    assert(s@.skip(0) =~= s@);
    while i < chars.len() && chars[i] != mark
        invariant
            i <= chars.len(),
            chars@ == s@,
            before_first(s@, mark).len() == i + before_first(s@.skip(i as int), mark).len(),
        decreases chars.len() - i,
    {
        assert(s@.skip(i as int).drop_first() =~= s@.skip(i + 1));
        i = i + 1;
    }
    let mut out: String = String::new();
    if i == chars.len() {
        return out;
    }
    let from: usize = i + 1;
    let mut j: usize = from;
    while j < chars.len()
        invariant
            from <= j <= chars.len(),
            chars@ == s@,
            out@ == s@.subrange(from as int, j as int),
        decreases chars.len() - j,
    {
        push_char(&mut out, chars[j]);
        j = j + 1;
        assert(s@.subrange(from as int, j as int) =~= s@.subrange(from as int, j - 1).push(
            s@[j - 1],
        ));
    }
    assert(s@.subrange(from as int, j as int) =~= s@.skip(from as int));
    out
}

/// The text behind the last `mark`; all of it where there is none.
pub fn text_after(s: &str, mark: char) -> (r: String)
    ensures
        r@ == after_last(s@, mark),
{
    let chars: Vec<char> = chars_of(s);
    let mut i: usize = chars.len();
    proof {
        assert(s@.take(i as int) =~= s@);
        assert(s@.skip(i as int) =~= Seq::<char>::empty());
    }
    while i > 0 && chars[i - 1] != mark
        invariant
            i <= chars.len(),
            chars@ == s@,
            after_last(s@, mark) == after_last(s@.take(i as int), mark) + s@.skip(i as int),
        decreases i,
    {
        proof {
            let head = s@.take(i as int);
            assert(head.drop_last() =~= s@.take(i - 1));
            assert(after_last(head.drop_last(), mark).push(head.last()) + s@.skip(i as int)
                =~= after_last(s@.take(i - 1), mark) + s@.skip(i - 1));
        }
        i = i - 1;
    }
    assert(after_last(s@.take(i as int), mark) =~= Seq::<char>::empty());
    let mut out: String = String::new();
    let mut j: usize = i;
    while j < chars.len()
        invariant
            i <= j <= chars.len(),
            chars@ == s@,
            out@ == s@.subrange(i as int, j as int),
        decreases chars.len() - j,
    {
        push_char(&mut out, chars[j]);
        j = j + 1;
        assert(s@.subrange(i as int, j as int) =~= s@.subrange(i as int, j - 1).push(s@[j - 1]));
    }
    assert(s@.subrange(i as int, j as int) =~= s@.skip(i as int));
    out
}

// ─── Trimming ────────────────────────────────────────────────────────────────

/// A character with the Unicode property `White_Space`.
pub open spec fn is_space(c: char) -> bool {
    let n = c as nat;
    ||| 0x9 <= n <= 0xd
    ||| n == 0x20
    ||| n == 0x85
    ||| n == 0xa0
    ||| n == 0x1680
    ||| 0x2000 <= n <= 0x200a
    ||| n == 0x2028
    ||| n == 0x2029
    ||| n == 0x202f
    ||| n == 0x205f
    ||| n == 0x3000
}

/// Whether a character has the property `White_Space`.
fn char_is_whitespace(c: char) -> (r: bool)
    ensures
        r == is_space(c),
{
    let n: u32 = c as u32;
    (0x9 <= n && n <= 0xd) || n == 0x20 || n == 0x85 || n == 0xa0 || n == 0x1680 || (0x2000 <= n
        && n <= 0x200a) || n == 0x2028 || n == 0x2029 || n == 0x202f || n == 0x205f || n == 0x3000
}

/// The text without the whitespace in front.
pub open spec fn trimmed_start(s: Seq<char>) -> Seq<char>
    decreases s.len(),
{
    if s.len() > 0 && is_space(s[0]) {
        trimmed_start(s.drop_first())
    } else {
        s
    }
}

/// The text without the whitespace behind.
pub open spec fn trimmed_end(s: Seq<char>) -> Seq<char>
    decreases s.len(),
{
    if s.len() > 0 && is_space(s.last()) {
        trimmed_end(s.drop_last())
    } else {
        s
    }
}

/// The text without the whitespace at either end.
pub open spec fn trimmed(s: Seq<char>) -> Seq<char> {
    trimmed_end(trimmed_start(s))
}

/// The characters of a text without the whitespace at either end.
pub fn trim(s: &str) -> (r: Vec<char>)
    ensures
        r@ == trimmed(s@),
{
    let chars: Vec<char> = chars_of(s);
    let mut from: usize = 0;
    assert(s@.skip(0) =~= s@);
    while from < chars.len() && char_is_whitespace(chars[from])
        invariant
            from <= chars.len(),
            chars@ == s@,
            trimmed_start(s@) == trimmed_start(s@.skip(from as int)),
        decreases chars.len() - from,
    {
        assert(s@.skip(from as int).drop_first() =~= s@.skip(from + 1));
        from = from + 1;
    }
    let ghost start = s@.skip(from as int);
    let mut to: usize = chars.len();
    assert(s@.subrange(from as int, to as int) =~= start);
    while to > from && char_is_whitespace(chars[to - 1])
        invariant
            from <= to <= chars.len(),
            chars@ == s@,
            trimmed_end(start) == trimmed_end(s@.subrange(from as int, to as int)),
        decreases to,
    {
        assert(s@.subrange(from as int, to as int).drop_last() =~= s@.subrange(
            from as int,
            to - 1,
        ));
        to = to - 1;
    }
    let mut out: Vec<char> = Vec::new();
    let mut i: usize = from;
    while i < to
        invariant
            from <= i <= to <= chars.len(),
            chars@ == s@,
            out@ == s@.subrange(from as int, i as int),
        decreases to - i,
    {
        out.push(chars[i]);
        i = i + 1;
        assert(s@.subrange(from as int, i as int) =~= s@.subrange(from as int, i - 1).push(
            s@[i - 1],
        ));
    }
    out
}

// ─── Numbers ─────────────────────────────────────────────────────────────────

/// The decimal digit of a number below ten.
pub open spec fn digit(d: nat) -> char {
    (48 + d) as char
}

/// A natural number in decimal, without leading zeros.
pub open spec fn digits(n: nat) -> Seq<char>
    decreases n,
{
    if n < 10 {
        seq![digit(n)]
    } else {
        digits(n / 10).push(digit(n % 10))
    }
}

/// An integer in decimal, with a minus sign in front where it is negative.
pub open spec fn decimal(n: int) -> Seq<char> {
    if n < 0 {
        seq!['-'] + digits((-n) as nat)
    } else {
        digits(n as nat)
    }
}

/// A natural number in decimal.
pub fn natural_text(n: u64) -> (r: String)
    ensures
        r@ == digits(n as nat),
    decreases n,
{
    let last: u8 = (n % 10) as u8;
    let c: char = (48u8 + last) as char;
    if n < 10 {
        let mut out: String = String::new();
        push_char(&mut out, c);
        out
    } else {
        let mut out: String = natural_text(n / 10);
        push_char(&mut out, c);
        out
    }
}

/// An integer in decimal.
pub fn integer_text(n: i64) -> (r: String)
    ensures
        r@ == decimal(n as int),
{
    if n < 0 {
        let mut out: String = String::new();
        push_char(&mut out, '-');
        let magnitude: u64 = (-(n as i128)) as u64;
        let rest: String = natural_text(magnitude);
        out.append(rest.as_str());
        out
    } else {
        natural_text(n as u64)
    }
}

// ─── Lists ───────────────────────────────────────────────────────────────────

/// The texts of a list of strings.
pub open spec fn texts(list: Seq<String>) -> Seq<Seq<char>> {
    list.map_values(|s: String| s@)
}

/// The texts of a list, with `separator` between neighbours.
pub open spec fn joined(list: Seq<Seq<char>>, separator: Seq<char>) -> Seq<char>
    decreases list.len(),
{
    if list.len() == 0 {
        Seq::empty()
    } else if list.len() == 1 {
        list[0]
    } else {
        joined(list.drop_last(), separator) + separator + list.last()
    }
}

/// The texts of a list, with `separator` between neighbours.
pub fn join(list: &Vec<String>, separator: &str) -> (r: String)
    ensures
        r@ == joined(texts(list@), separator@),
{
    let mut out: String = String::new();
    let mut i: usize = 0;
    while i < list.len()
        invariant
            i <= list.len(),
            out@ == joined(texts(list@).take(i as int), separator@),
        decreases list.len() - i,
    {
        if i > 0 {
            out.append(separator);
        }
        out.append(list[i].as_str());
        proof {
            let done = texts(list@).take(i + 1);
            assert(done.drop_last() =~= texts(list@).take(i as int));
            if i == 0 {
                assert(out@ =~= done[0]);
            }
        }
        i = i + 1;
    }
    assert(texts(list@).take(i as int) =~= texts(list@));
    out
}

// ─── Laws of texts ───────────────────────────────────────────────────────────

/// Law: a pattern occurs in a text exactly where the text is something, the pattern, and something
/// more.
pub proof fn law_occurs(pattern: Seq<char>, text: Seq<char>)
    ensures
        occurs_in(pattern, text) <==> exists|front: Seq<char>, back: Seq<char>|
            text == #[trigger] (front + pattern + back),
{
    if occurs_in(pattern, text) {
        let i = choose|i: int|
            0 <= i <= text.len() - pattern.len() && #[trigger] text.subrange(i, i + pattern.len())
                == pattern;
        assert(text =~= text.take(i) + pattern + text.skip(i + pattern.len()));
    }
    if exists|front: Seq<char>, back: Seq<char>| text == #[trigger] (front + pattern + back) {
        let (front, back) = choose|front: Seq<char>, back: Seq<char>|
            text == #[trigger] (front + pattern + back);
        let i = front.len() as int;
        assert(text.subrange(i, i + pattern.len()) =~= pattern);
    }
}

/// Law: a text is what stands before its first mark, the mark, and what stands behind it.
pub proof fn law_first_mark(s: Seq<char>, mark: char)
    ensures
        s.contains(mark) ==> s == before_first(s, mark) + seq![mark] + after_first(s, mark),
        !s.contains(mark) ==> before_first(s, mark) == s && after_first(s, mark).len() == 0,
        !before_first(s, mark).contains(mark),
{
    lemma_before_first(s, mark);
    if s.contains(mark) {
        assert(s =~= before_first(s, mark) + seq![mark] + after_first(s, mark));
    } else {
        assert(s.take(s.len() as int) =~= s);
    }
}

/// Law: a text is what stands before its last mark, the mark, and what stands behind it.
pub proof fn law_last_mark(s: Seq<char>, mark: char)
    ensures
        s.contains(mark) ==> s == s.take(s.len() - after_last(s, mark).len() - 1) + seq![mark]
            + after_last(s, mark),
        !s.contains(mark) ==> after_last(s, mark) == s,
        !after_last(s, mark).contains(mark),
{
    lemma_after_last(s, mark);
    if s.contains(mark) {
        let n = s.len() - after_last(s, mark).len() - 1;
        assert(s =~= s.take(n) + seq![mark] + after_last(s, mark));
    } else {
        assert(s.skip(0) =~= s);
    }
}

/// Law: where a text is written as something without the mark, the mark, and the rest, these are
/// what stands before its first mark and behind it.
pub proof fn law_first_mark_is(head: Seq<char>, mark: char, rest: Seq<char>)
    requires
        !head.contains(mark),
    ensures
        before_first(head + seq![mark] + rest, mark) == head,
        after_first(head + seq![mark] + rest, mark) == rest,
{
    let s = head + seq![mark] + rest;
    lemma_before_first(s, mark);
    let n = before_first(s, mark).len() as int;
    assert(s[head.len() as int] == mark);
    assert(s.contains(mark));
    if n < head.len() {
        assert(head[n] == mark);
    }
    if n > head.len() {
        assert(before_first(s, mark)[head.len() as int] == mark);
    }
    assert(before_first(s, mark) =~= head);
    assert(after_first(s, mark) =~= rest);
}

/// Law: where a text is written as something, the mark, and a rest without it, the rest is what
/// stands behind its last mark.
pub proof fn law_last_mark_is(head: Seq<char>, mark: char, rest: Seq<char>)
    requires
        !rest.contains(mark),
    ensures
        after_last(head + seq![mark] + rest, mark) == rest,
{
    let s = head + seq![mark] + rest;
    lemma_after_last(s, mark);
    let n = after_last(s, mark).len() as int;
    assert(s[head.len() as int] == mark);
    assert(s.contains(mark));
    if n < rest.len() {
        let at = s.len() - n - 1;
        assert(rest[at - head.len() - 1] == mark);
    }
    if n > rest.len() {
        assert(after_last(s, mark)[n - rest.len() - 1] == mark);
    }
    assert(after_last(s, mark) =~= rest);
}

/// Law: splitting loses nothing: the stretches, put together with the mark between them, are the
/// text again, and none of them holds the mark.
pub proof fn law_split(s: Seq<char>, mark: char)
    ensures
        split_on(s, mark).len() >= 1,
        joined(split_on(s, mark), seq![mark]) == s,
        forall|i: int|
            0 <= i < split_on(s, mark).len() ==> !(#[trigger] split_on(s, mark)[i]).contains(mark),
    decreases s.len(),
{
    law_first_mark(s, mark);
    lemma_before_first(s, mark);
    if s.contains(mark) {
        let head = before_first(s, mark);
        let rest = after_first(s, mark);
        law_split(rest, mark);
        lemma_joined_front(head, split_on(rest, mark), seq![mark]);
        assert forall|i: int| 0 <= i < split_on(s, mark).len() implies !(#[trigger] split_on(
            s,
            mark,
        )[i]).contains(mark) by {
            if i > 0 {
                assert(split_on(s, mark)[i] == split_on(rest, mark)[i - 1]);
            }
        }
    }
}

/// Joining a list with one more in front.
proof fn lemma_joined_front(first: Seq<char>, list: Seq<Seq<char>>, separator: Seq<char>)
    requires
        list.len() >= 1,
    ensures
        joined(seq![first] + list, separator) == first + separator + joined(list, separator),
    decreases list.len(),
{
    let all = seq![first] + list;
    if list.len() == 1 {
        assert(all.drop_last() =~= seq![first]);
        assert(joined(all.drop_last(), separator) == first);
    } else {
        lemma_joined_front(first, list.drop_last(), separator);
        assert(all.drop_last() =~= seq![first] + list.drop_last());
        assert(joined(all, separator) =~= first + separator + joined(list, separator));
    }
}

/// Law: joining nothing gives nothing, joining one gives it, and every further text comes behind a
/// separator. No text is left out, and none comes in another place.
pub proof fn law_joined(list: Seq<Seq<char>>, last: Seq<char>, separator: Seq<char>)
    ensures
        joined(Seq::empty(), separator).len() == 0,
        joined(seq![last], separator) == last,
        list.len() >= 1 ==> joined(list.push(last), separator) == joined(list, separator)
            + separator + last,
{
    if list.len() >= 1 {
        assert(list.push(last).drop_last() =~= list);
    }
}

/// Law: the texts of a list are those of its strings, each in its place.
pub proof fn law_texts(list: Seq<String>)
    ensures
        texts(list).len() == list.len(),
        forall|i: int| 0 <= i < list.len() ==> #[trigger] texts(list)[i] == list[i]@,
{
}

/// Law: trimming takes whitespace off both ends and nothing else, and leaves none at an end.
pub proof fn law_trimmed(s: Seq<char>)
    ensures
        exists|i: int, j: int|
            #![trigger s.subrange(i, j)]
            0 <= i <= j <= s.len() && trimmed(s) == s.subrange(i, j) && (forall|k: int|
                0 <= k < i || j <= k < s.len() ==> is_space(#[trigger] s[k])),
        trimmed(s).len() > 0 ==> !is_space(trimmed(s)[0]) && !is_space(trimmed(s).last()),
{
    let i = lemma_trimmed_start(s);
    let front = trimmed_start(s);
    let n = lemma_trimmed_end(front);
    let j = i + n;
    assert(front.take(n) =~= s.subrange(i, j));
    assert forall|k: int| 0 <= k < i || j <= k < s.len() implies is_space(#[trigger] s[k]) by {
        if j <= k {
            assert(front[k - i] == s[k]);
        }
    }
    assert(trimmed(s) == s.subrange(i, j));
    if trimmed(s).len() > 0 {
        assert(trimmed(s)[0] == front[0]);
    }
}

proof fn lemma_trimmed_start(s: Seq<char>) -> (i: int)
    ensures
        0 <= i <= s.len(),
        trimmed_start(s) == s.skip(i),
        forall|k: int| 0 <= k < i ==> is_space(#[trigger] s[k]),
        i < s.len() ==> !is_space(s[i]),
    decreases s.len(),
{
    if s.len() > 0 && is_space(s[0]) {
        let rest = s.drop_first();
        let j = lemma_trimmed_start(rest);
        assert(rest.skip(j) =~= s.skip(j + 1));
        assert forall|k: int| 0 <= k < j + 1 implies is_space(#[trigger] s[k]) by {
            if k > 0 {
                assert(rest[k - 1] == s[k]);
            }
        }
        if j < rest.len() {
            assert(rest[j] == s[j + 1]);
        }
        j + 1
    } else {
        assert(s.skip(0) =~= s);
        0
    }
}

proof fn lemma_trimmed_end(s: Seq<char>) -> (n: int)
    ensures
        0 <= n <= s.len(),
        trimmed_end(s) == s.take(n),
        forall|k: int| n <= k < s.len() ==> is_space(#[trigger] s[k]),
        n > 0 ==> !is_space(s[n - 1]),
    decreases s.len(),
{
    if s.len() > 0 && is_space(s.last()) {
        let rest = s.drop_last();
        let m = lemma_trimmed_end(rest);
        assert(rest.take(m) =~= s.take(m));
        assert forall|k: int| m <= k < s.len() implies is_space(#[trigger] s[k]) by {
            if k < rest.len() {
                assert(rest[k] == s[k]);
            }
        }
        if m > 0 {
            assert(rest[m - 1] == s[m - 1]);
        }
        m
    } else {
        assert(s.take(s.len() as int) =~= s);
        s.len() as int
    }
}

/// The number that a row of decimal digits stands for.
pub open spec fn value_of(row: Seq<char>) -> int
    decreases row.len(),
{
    if row.len() == 0 {
        0
    } else {
        10 * value_of(row.drop_last()) + (row.last() as int - 48)
    }
}

/// Law: a number is written in digits that stand for it, without a zero in front, and a negative
/// one behind a minus sign.
pub proof fn law_decimal(n: int)
    ensures
        n >= 0 ==> value_of(decimal(n)) == n && (forall|i: int|
            0 <= i < decimal(n).len() ==> '0' <= #[trigger] decimal(n)[i] && decimal(n)[i] <= '9'),
        n > 0 ==> decimal(n)[0] != '0',
        n == 0 ==> decimal(n) == seq!['0'],
        n < 0 ==> decimal(n) == seq!['-'] + decimal(-n),
{
    if n >= 0 {
        lemma_digits(n as nat);
    }
}

/// What the digits of a number stand for.
pub proof fn lemma_digits(n: nat)
    ensures
        digits(n).len() >= 1,
        value_of(digits(n)) == n,
        forall|i: int| 0 <= i < digits(n).len() ==> '0' <= #[trigger] digits(n)[i] && digits(n)[i]
            <= '9',
        n > 0 ==> digits(n)[0] != '0',
    decreases n,
{
    if n < 10 {
        assert(seq![digit(n)].drop_last() =~= Seq::<char>::empty());
        assert(value_of(seq![digit(n)].drop_last()) == 0);
    } else {
        lemma_digits(n / 10);
        let front = digits(n / 10);
        assert(digits(n).drop_last() =~= front);
        assert forall|i: int| 0 <= i < digits(n).len() implies '0' <= #[trigger] digits(n)[i]
            && digits(n)[i] <= '9' by {
            if i < front.len() {
                assert(front[i] == digits(n)[i]);
            }
        }
        assert(digits(n)[0] == front[0]);
    }
}

/// Law: whitespace is the space, the tabs and line breaks, the spaces of fixed width, and no other
/// character: no letter, no digit and no mark of ASCII.
pub proof fn law_whitespace(c: char)
    ensures
        is_space(' ') && is_space('\t') && is_space('\n') && is_space('\r') && is_space('\u{b}')
            && is_space('\u{c}'),
        is_space('\u{85}') && is_space('\u{a0}') && is_space('\u{1680}') && is_space('\u{3000}'),
        is_space('\u{2028}') && is_space('\u{2029}') && is_space('\u{202f}') && is_space('\u{205f}'),
        '\u{2000}' <= c <= '\u{200a}' ==> is_space(c),
        '!' <= c <= '~' ==> !is_space(c),
        c < '\t' || '\r' < c < ' ' ==> !is_space(c),
        '~' < c < '\u{2000}' && c != '\u{85}' && c != '\u{a0}' && c != '\u{1680}' ==> !is_space(c),
        '\u{200a}' < c && c != '\u{2028}' && c != '\u{2029}' && c != '\u{202f}' && c != '\u{205f}' && c
            != '\u{3000}' ==> !is_space(c),
{
}

} // verus!
