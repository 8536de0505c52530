//! Small operations on text.

use vstd::prelude::*;

verus! {

/// `c` with an ASCII capital made a small letter.
pub open spec fn lower(c: char) -> char {
    if 'A' <= c <= 'Z' {
        ((c as u32 + 32) as u32) as char
    } else {
        c
    }
}

/// `s` with its ASCII capitals made small letters.
pub open spec fn lowered(s: Seq<char>) -> Seq<char> {
    s.map_values(|c: char| lower(c))
}

/// Whether `a` and `b` differ at most in the case of ASCII letters.
pub open spec fn same_letters(a: Seq<char>, b: Seq<char>) -> bool {
    a.len() == b.len() && forall|i: int|
        0 <= i < a.len() ==> lower(#[trigger] a[i]) == lower(b[i])
}

/// `c` with an ASCII capital made a small letter.
pub fn lower_char(c: char) -> (r: char)
    ensures
        r == lower(c),
{
    if 'A' <= c && c <= 'Z' {
        let code: u8 = c as u8;
        (code + 32) as char
    } else {
        c
    }
}

/// Whether `a` and `b` differ at most in the case of ASCII letters.
pub fn eq_ignore_case(a: &str, b: &str) -> (r: bool)
    ensures
        r == same_letters(a@, b@),
{
    let n: usize = a.unicode_len();
    if n != b.unicode_len() {
        return false;
    }
    let mut i: usize = 0;
    while i < n
        invariant
            i <= n,
            n == a@.len(),
            n == b@.len(),
            forall|j: int| 0 <= j < i ==> lower(#[trigger] a@[j]) == lower(b@[j]),
        decreases n - i,
    {
        if lower_char(a.get_char(i)) != lower_char(b.get_char(i)) {
            return false;
        }
        i += 1;
    }
    true
}

/// Whether `a` and `b` are the same text.
pub fn same_text(a: &str, b: &str) -> (r: bool)
    ensures
        r == (a@ == b@),
{
    let n: usize = a.unicode_len();
    if n != b.unicode_len() {
        return false;
    }
    let mut i: usize = 0;
    while i < n
        invariant
            i <= n,
            n == a@.len(),
            n == b@.len(),
            forall|j: int| 0 <= j < i ==> #[trigger] a@[j] == b@[j],
        decreases n - i,
    {
        if a.get_char(i) != b.get_char(i) {
            return false;
        }
        i += 1;
    }
    proof {
        assert(a@ =~= b@);
    }
    true
}

/// The digits of `n`, in base ten.
pub open spec fn digits(n: nat) -> Seq<char>
    decreases n,
{
    if n < 10 {
        seq![digit_char(n)]
    } else {
        digits(n / 10).push(digit_char(n % 10))
    }
}

/// The character for the digit `d`.
pub open spec fn digit_char(d: nat) -> char {
    ((d + 48) as u32) as char
}

/// Whether `c` is one of `0` to `9`.
pub open spec fn is_digit(c: char) -> bool {
    '0' <= c <= '9'
}

/// Whether `s` is made of digits, one at least.
pub open spec fn all_digits(s: Seq<char>) -> bool {
    s.len() > 0 && forall|i: int| 0 <= i < s.len() ==> is_digit(#[trigger] s[i])
}

/// The number that the digits `s` write in base ten.
pub open spec fn digits_value(s: Seq<char>) -> nat
    decreases s.len(),
{
    if s.len() == 0 {
        0
    } else {
        10 * digits_value(s.drop_last()) + (s.last() as u32 - 48) as nat
    }
}

/// `s` without a plus sign in front.
pub open spec fn without_plus(s: Seq<char>) -> Seq<char> {
    if s.len() > 0 && s[0] == '+' {
        s.skip(1)
    } else {
        s
    }
}

/// The number up to `max` that `s` writes: digits, a plus sign in front allowed.
pub open spec fn number_upto(s: Seq<char>, max: nat) -> Option<nat> {
    let body = without_plus(s);
    if all_digits(body) && digits_value(body) <= max {
        Some(digits_value(body))
    } else {
        None
    }
}

/// Whether `c` is white space: one of the characters with the Unicode property `White_Space`.
pub open spec fn is_white(c: char) -> bool {
    ||| '\u{9}' <= c <= '\u{d}'
    ||| c == ' '
    ||| c == '\u{85}'
    ||| c == '\u{a0}'
    ||| c == '\u{1680}'
    ||| '\u{2000}' <= c <= '\u{200a}'
    ||| c == '\u{2028}'
    ||| c == '\u{2029}'
    ||| c == '\u{202f}'
    ||| c == '\u{205f}'
    ||| c == '\u{3000}'
}

/// `s` without the white space at its start.
pub open spec fn start_trimmed(s: Seq<char>) -> Seq<char>
    decreases s.len(),
{
    if s.len() > 0 && is_white(s[0]) {
        start_trimmed(s.skip(1))
    } else {
        s
    }
}

/// `s` without the white space at its end.
pub open spec fn end_trimmed(s: Seq<char>) -> Seq<char>
    decreases s.len(),
{
    if s.len() > 0 && is_white(s.last()) {
        end_trimmed(s.drop_last())
    } else {
        s
    }
}

/// `s` without the white space at its ends.
pub open spec fn trimmed(s: Seq<char>) -> Seq<char> {
    end_trimmed(start_trimmed(s))
}

/// `str::trim`. Claimed: the text comes back without the white space at its ends, where white space
/// is what has the Unicode property `White_Space`.
#[verifier::external_body]
fn outside_trim(text: &str) -> (r: &str)
    ensures
        r@ == trimmed(text@),
{
    text.trim()
}

/// `u64::from_str`. Claimed: digits, with a plus sign in front allowed, give their value in base
/// ten where a `u64` can hold it, and nothing else gives a number.
#[verifier::external_body]
fn outside_parse_u64(text: &str) -> (r: Option<u64>)
    ensures
        r is Some <==> number_upto(text@, u64::MAX as nat) is Some,
        r matches Some(n) ==> number_upto(text@, u64::MAX as nat) == Some(n as nat),
{
    text.parse::<u64>().ok()
}

/// `to_string` of `u64`. Claimed: the digits in base ten.
#[verifier::external_body]
fn outside_u64_text(n: u64) -> (r: String)
    ensures
        r@ == digits(n as nat),
{
    n.to_string()
}

/// `n` in digits.
pub fn number_text(n: u64) -> (r: String)
    ensures
        r@ == digits(n as nat),
{
    outside_u64_text(n)
}

/// The number that `text` writes, white space at its ends aside.
pub open spec fn number_in(text: Seq<char>) -> Option<u64> {
    match number_upto(trimmed(text), u64::MAX as nat) {
        Some(n) => Some(n as u64),
        None => None,
    }
}

/// The number that `text` writes, white space at its ends aside.
pub fn parse_number(text: &str) -> (r: Option<u64>)
    ensures
        r == number_in(text@),
{
    outside_parse_u64(outside_trim(text))
}

/// `text` without the white space at its ends.
pub fn trim(text: &str) -> (r: &str)
    ensures
        r@ == trimmed(text@),
{
    outside_trim(text)
}

/// The number that `text` writes, no white space allowed.
pub fn parse_plain_number(text: &str) -> (r: Option<u64>)
    ensures
        r is Some <==> number_upto(text@, u64::MAX as nat) is Some,
        r matches Some(n) ==> number_upto(text@, u64::MAX as nat) == Some(n as nat),
{
    outside_parse_u64(text)
}

/// Whether `part` stands in `s` at place `i`, whatever the case of ASCII letters.
pub open spec fn stands_in(s: Seq<char>, part: Seq<char>, i: int) -> bool {
    0 <= i <= i + part.len() <= s.len() && same_letters(s.subrange(i, i + part.len()), part)
}

/// Whether `part` stands somewhere in `s`, whatever the case of ASCII letters.
pub open spec fn contains_letters(s: Seq<char>, part: Seq<char>) -> bool {
    exists|i: int| stands_in(s, part, i)
}

/// Whether `part` stands somewhere in `text`, whatever the case of ASCII letters.
pub fn contains_ignore_case(text: &str, part: &str) -> (r: bool)
    ensures
        r == contains_letters(text@, part@),
{
    let n: usize = text.unicode_len();
    let m: usize = part.unicode_len();
    let mut i: usize = 0;
    while i <= n && m <= n - i
        invariant
            n == text@.len(),
            m == part@.len(),
            i <= n + 1,
            n < usize::MAX || i <= n,
            forall|j: int| 0 <= j < i ==> !stands_in(text@, part@, j),
        decreases n + 1 - i,
    {
        if eq_ignore_case(text.substring_char(i, i + m), part) {
            proof {
                assert(stands_in(text@, part@, i as int));
            }
            return true;
        }
        if i == n {
            proof {
                assert forall|j: int| !stands_in(text@, part@, j) by {}
            }
            return false;
        }
        i += 1;
    }
    proof {
        assert forall|j: int| !stands_in(text@, part@, j) by {}
    }
    false
}

/// `s` without the slashes at its end.
pub open spec fn without_end_slashes(s: Seq<char>) -> Seq<char>
    decreases s.len(),
{
    if s.len() > 0 && s.last() == '/' {
        without_end_slashes(s.drop_last())
    } else {
        s
    }
}

/// `text` without the slashes at its end.
pub fn trim_end_slashes(text: &str) -> (r: &str)
    ensures
        r@ == without_end_slashes(text@),
{
    let mut n: usize = text.unicode_len();
    proof {
        assert(text@.take(n as int) =~= text@);
    }
    while n > 0 && text.get_char(n - 1) == '/'
        invariant
            n <= text@.len(),
            without_end_slashes(text@) == without_end_slashes(text@.take(n as int)),
        ensures
            n > 0 ==> text@[n - 1] != '/',
        decreases n,
    {
        proof {
            assert(text@.take(n as int).drop_last() =~= text@.take(n - 1));
        }
        n -= 1;
    }
    proof {
        assert(text@.subrange(0, n as int) =~= text@.take(n as int));
    }
    text.substring_char(0, n)
}

/// The texts of `parts`, `mark` between each two.
pub open spec fn joined(parts: Seq<Seq<char>>, mark: Seq<char>) -> Seq<char>
    decreases parts.len(),
{
    if parts.len() == 0 {
        Seq::empty()
    } else if parts.len() == 1 {
        parts[0]
    } else {
        joined(parts.drop_last(), mark) + mark + parts.last()
    }
}

/// The contents of `parts`.
pub open spec fn views(parts: Seq<String>) -> Seq<Seq<char>> {
    parts.map_values(|s: String| s@)
}

/// The texts of `parts`, `mark` between each two.
pub fn join(parts: &Vec<String>, mark: &str) -> (r: String)
    ensures
        r@ == joined(views(parts@), mark@),
{
    let n: usize = parts.len();
    let ghost all = views(parts@);
    let mut out = String::new();
    let mut i: usize = 0;
    while i < n
        invariant
            i <= n,
            n == parts@.len(),
            all == views(parts@),
            out@ == joined(all.take(i as int), mark@),
        decreases n - i,
    {
        proof {
            assert(all.take(i + 1).drop_last() =~= all.take(i as int));
            assert(all.take(i + 1).last() == parts@[i as int]@);
            if i == 0 {
                assert(out@ + parts@[0]@ =~= parts@[0]@);
            }
        }
        if i > 0 {
            out.append(mark);
        }
        out.append(parts[i].as_str());
        i += 1;
    }
    proof {
        assert(all.take(n as int) =~= all);
    }
    out
}

/// What stands in `s` behind the last colon or slash.
pub open spec fn last_segment(s: Seq<char>) -> Seq<char>
    decreases s.len(),
{
    if s.len() == 0 || s.last() == ':' || s.last() == '/' {
        Seq::empty()
    } else {
        last_segment(s.drop_last()).push(s.last())
    }
}

proof fn lemma_last_segment(s: Seq<char>, at: int)
    requires
        0 <= at <= s.len(),
        at > 0 ==> s[at - 1] == ':' || s[at - 1] == '/',
        forall|i: int| at <= i < s.len() ==> #[trigger] s[i] != ':' && s[i] != '/',
    ensures
        last_segment(s) == s.subrange(at, s.len() as int),
    decreases s.len(),
{
    if at < s.len() {
        lemma_last_segment(s.drop_last(), at);
        assert(s.drop_last().subrange(at, s.len() - 1).push(s.last()) =~= s.subrange(
            at,
            s.len() as int,
        ));
    } else {
        assert(s.subrange(at, s.len() as int) =~= Seq::empty());
    }
}

/// What stands in `text` behind the last colon or slash.
pub fn behind_last_mark(text: &str) -> (r: &str)
    ensures
        r@ == last_segment(text@),
{
    let n: usize = text.unicode_len();
    let mut at: usize = n;
    while at > 0 && text.get_char(at - 1) != ':' && text.get_char(at - 1) != '/'
        invariant
            at <= n,
            n == text@.len(),
            forall|i: int| at <= i < n ==> #[trigger] text@[i] != ':' && text@[i] != '/',
        ensures
            at > 0 ==> text@[at - 1] == ':' || text@[at - 1] == '/',
        decreases at,
    {
        at -= 1;
    }
    proof {
        lemma_last_segment(text@, at as int);
    }
    text.substring_char(at, n)
}

/// The first place from `from` on at which `mark` stands in `s`; the end where there is none.
pub open spec fn next_mark(s: Seq<char>, mark: char, from: int) -> int
    decreases s.len() - from,
{
    if from >= s.len() || s[from] == mark {
        from
    } else {
        next_mark(s, mark, from + 1)
    }
}

/// The first place from `from` on at which `mark` stands in `text`; the end where there is none.
pub fn find_mark(text: &str, mark: char, from: usize) -> (r: usize)
    requires
        from <= text@.len(),
    ensures
        r == next_mark(text@, mark, from as int),
        from <= r <= text@.len(),
{
    let n: usize = text.unicode_len();
    let mut i: usize = from;
    while i < n && text.get_char(i) != mark
        invariant
            from <= i <= n,
            n == text@.len(),
            next_mark(text@, mark, i as int) == next_mark(text@, mark, from as int),
        ensures
            from <= i <= n,
            i < n ==> text@[i as int] == mark,
            next_mark(text@, mark, i as int) == next_mark(text@, mark, from as int),
        decreases n - i,
    {
        i += 1;
    }
    i
}

/// `n` zeros.
pub open spec fn zeros(n: nat) -> Seq<char> {
    Seq::new(n, |i: int| '0')
}

/// The digits of `n`, with zeros before them where there are fewer than `width`.
pub open spec fn padded(n: nat, width: nat) -> Seq<char> {
    if digits(n).len() < width {
        zeros((width - digits(n).len()) as nat) + digits(n)
    } else {
        digits(n)
    }
}

/// The digits of `n`, with zeros before them where there are fewer than `width`.
pub fn padded_text(n: u64, width: usize) -> (r: String)
    ensures
        r@ == padded(n as nat, width as nat),
{
    let number = number_text(n);
    let mut out = String::new();
    let mut have: usize = number.as_str().unicode_len();
    let ghost had = have as int;
    proof {
        reveal_strlit("0");
        assert(out@ =~= zeros(0));
    }
    while have < width
        invariant
            had <= have,
            have <= width || have == had,
            out@ == zeros((have - had) as nat),
            "0"@ =~= seq!['0'],
        decreases width - have,
    {
        out.append("0");
        proof {
            assert(out@ =~= zeros((have + 1 - had) as nat));
        }
        have += 1;
    }
    out.append(number.as_str());
    proof {
        assert(zeros(0) + number@ =~= number@);
    }
    out
}

/// `n` in digits, with a sign where it is below zero.
pub open spec fn signed(n: int) -> Seq<char> {
    if n < 0 {
        "-"@ + digits((-n) as nat)
    } else {
        digits(n as nat)
    }
}

/// `n` in digits, with a sign where it is below zero.
pub fn signed_text(n: i64) -> (r: String)
    ensures
        r@ == signed(n as int),
{
    if n < 0 {
        let size: u64 = if n == i64::MIN {
            9_223_372_036_854_775_808
        } else {
            (-n) as u64
        };
        let mut out = "-".to_owned();
        out.append(number_text(size).as_str());
        out
    } else {
        number_text(n as u64)
    }
}

/// Whether `s` is made of white space only.
pub open spec fn all_white(s: Seq<char>) -> bool {
    forall|i: int| 0 <= i < s.len() ==> is_white(#[trigger] s[i])
}

/// The digits of a number are digits, and write the number.
pub proof fn lemma_digits(n: nat)
    ensures
        all_digits(digits(n)),
        digits_value(digits(n)) == n,
    decreases n,
{
    let s = digits(n);
    if n < 10 {
        assert(s.drop_last() =~= Seq::<char>::empty());
        assert(digits_value(s.drop_last()) == 0);
        assert(s.last() == digit_char(n));
    } else {
        lemma_digits(n / 10);
        assert(s.drop_last() =~= digits(n / 10));
        assert(s.last() == digit_char(n % 10));
        assert forall|i: int| 0 <= i < s.len() implies is_digit(#[trigger] s[i]) by {
            if i < s.len() - 1 {
                assert(s[i] == digits(n / 10)[i]);
            }
        }
    }
}

/// White space at the ends of a text that neither starts nor ends with white space is cut off, and
/// nothing else.
pub proof fn law_only_white_space_is_trimmed(before: Seq<char>, s: Seq<char>, after: Seq<char>)
    requires
        all_white(before),
        all_white(after),
        s.len() > 0 ==> !is_white(s[0]) && !is_white(s.last()),
    ensures
        trimmed(before + s + after) == s,
    decreases before.len() + after.len(),
{
    let all = before + s + after;
    if before.len() > 0 {
        assert(all[0] == before[0]);
        assert(all.skip(1) =~= before.skip(1) + s + after);
        assert forall|i: int| 0 <= i < before.skip(1).len() implies is_white(
            #[trigger] before.skip(1)[i],
        ) by {
            assert(before.skip(1)[i] == before[i + 1]);
        }
        law_only_white_space_is_trimmed(before.skip(1), s, after);
    } else {
        assert(all =~= s + after);
        if s.len() == 0 {
            lemma_white_is_trimmed(after);
            assert(all =~= after);
            assert(end_trimmed(Seq::<char>::empty()) == Seq::<char>::empty());
        } else {
            assert(all[0] == s[0]);
            assert(start_trimmed(all) == all);
            lemma_end_is_trimmed(s, after);
        }
    }
}

proof fn lemma_white_is_trimmed(s: Seq<char>)
    requires
        all_white(s),
    ensures
        start_trimmed(s) == Seq::<char>::empty(),
    decreases s.len(),
{
    if s.len() > 0 {
        assert forall|i: int| 0 <= i < s.skip(1).len() implies is_white(#[trigger] s.skip(1)[i]) by {
            assert(s.skip(1)[i] == s[i + 1]);
        }
        lemma_white_is_trimmed(s.skip(1));
    } else {
        assert(s =~= Seq::<char>::empty());
    }
}

proof fn lemma_end_is_trimmed(s: Seq<char>, after: Seq<char>)
    requires
        all_white(after),
        s.len() > 0 && !is_white(s.last()),
    ensures
        end_trimmed(s + after) == s,
    decreases after.len(),
{
    let all = s + after;
    if after.len() > 0 {
        assert(all.last() == after.last());
        assert(all.drop_last() =~= s + after.drop_last());
        lemma_end_is_trimmed(s, after.drop_last());
    } else {
        assert(all =~= s);
    }
}

/// A number that is written out is read back, whatever white space stands around its digits.
pub proof fn law_number_is_read_back(n: u64, before: Seq<char>, after: Seq<char>)
    requires
        all_white(before),
        all_white(after),
    ensures
        number_in(before + digits(n as nat) + after) == Some(n),
{
    let s = digits(n as nat);
    lemma_digits(n as nat);
    assert(is_digit(s[0]) && is_digit(s[s.len() - 1]));
    law_only_white_space_is_trimmed(before, s, after);
}

/// A text is no number where, without white space at its ends and a plus sign in front, it is empty,
/// has a character that is not a digit, such as a minus sign, or writes more than a `u64` can hold.
pub proof fn law_other_text_is_no_number(s: Seq<char>)
    ensures
        number_in(s) is None <==> {
            let body = without_plus(trimmed(s));
            ||| body.len() == 0
            ||| exists|i: int| 0 <= i < body.len() && !is_digit(#[trigger] body[i])
            ||| digits_value(body) > u64::MAX
        },
{
}

/// What stands behind a mark is the last segment, where it has no mark of its own.
pub proof fn lemma_segment_behind_mark(head: Seq<char>, tail: Seq<char>)
    requires
        head.len() > 0 && (head.last() == ':' || head.last() == '/'),
        forall|i: int| 0 <= i < tail.len() ==> #[trigger] tail[i] != ':' && tail[i] != '/',
    ensures
        last_segment(head + tail) == tail,
{
    let s = head + tail;
    let at = head.len() as int;
    assert(s[at - 1] == head.last());
    assert forall|i: int| at <= i < s.len() implies #[trigger] s[i] != ':' && s[i] != '/' by {
        assert(s[i] == tail[i - at]);
    }
    lemma_last_segment(s, at);
    assert(s.subrange(at, s.len() as int) =~= tail);
}

/// Texts are joined in turn: those of one part, the mark, and those of the other, however many there
/// are.
pub proof fn law_texts_are_joined_in_turn(
    first: Seq<Seq<char>>,
    second: Seq<Seq<char>>,
    mark: Seq<char>,
)
    requires
        first.len() > 0,
        second.len() > 0,
    ensures
        joined(first + second, mark) == joined(first, mark) + mark + joined(second, mark),
    decreases second.len(),
{
    let all = first + second;
    assert(all.drop_last() =~= first + second.drop_last());
    assert(all.last() == second.last());
    if second.len() == 1 {
        assert(all.drop_last() =~= first);
    } else {
        law_texts_are_joined_in_turn(first, second.drop_last(), mark);
        let (a, b) = (joined(first, mark), joined(second.drop_last(), mark));
        assert((a + mark + b) + mark + second.last() =~= a + mark + (b + mark + second.last()));
    }
}

/// No texts joined are no text, and one is itself.
pub proof fn law_one_text_is_joined_to_nothing(s: Seq<char>, mark: Seq<char>)
    ensures
        joined(Seq::empty(), mark).len() == 0,
        joined(seq![s], mark) == s,
{
}

/// Slashes at the end are cut off, however many there are, and nothing else is.
pub proof fn law_only_slashes_are_cut_off(s: Seq<char>, n: nat)
    requires
        s.len() > 0 ==> s.last() != '/',
    ensures
        without_end_slashes(s + Seq::new(n, |i: int| '/')) == s,
    decreases n,
{
    let all = s + Seq::new(n, |i: int| '/');
    if n == 0 {
        assert(all =~= s);
    } else {
        assert(all.last() == '/');
        assert(all.drop_last() =~= s + Seq::new((n - 1) as nat, |i: int| '/'));
        law_only_slashes_are_cut_off(s, (n - 1) as nat);
    }
}

/// Digits are filled up with zeros to the width, and the number that they write stays the same.
pub proof fn law_filling_up_keeps_the_number(n: nat, width: nat)
    ensures
        padded(n, width).len() >= width,
        padded(n, width).len() == width || padded(n, width) == digits(n),
        digits_value(padded(n, width)) == n,
{
    lemma_digits(n);
    if digits(n).len() < width {
        lemma_leading_zeros((width - digits(n).len()) as nat, digits(n));
    }
}

proof fn lemma_leading_zeros(k: nat, s: Seq<char>)
    ensures
        digits_value(zeros(k) + s) == digits_value(s),
    decreases s.len(), k,
{
    let all = zeros(k) + s;
    if s.len() > 0 {
        assert(all.drop_last() =~= zeros(k) + s.drop_last());
        assert(all.last() == s.last());
        lemma_leading_zeros(k, s.drop_last());
    } else if k > 0 {
        assert(all.drop_last() =~= zeros((k - 1) as nat) + s);
        assert(all.last() == '0');
        lemma_leading_zeros((k - 1) as nat, s);
    }
}

/// A number below zero is written as its size behind a minus sign; one that is not as its digits.
pub proof fn law_sign_stands_before_the_digits(n: int)
    ensures
        n >= 0 ==> signed(n) == digits(n as nat),
        n < 0 ==> signed(n).len() > 0 && signed(n)[0] == '-' && signed(n).skip(1) == digits(
            (-n) as nat,
        ),
{
    reveal_strlit("-");
    if n < 0 {
        assert(signed(n).skip(1) =~= digits((-n) as nat));
    }
}

/// Case does not matter where letters are compared: a text has the same letters as its small letters,
/// and stands in itself.
pub proof fn law_case_does_not_matter(a: Seq<char>, b: Seq<char>)
    ensures
        same_letters(a, lowered(a)),
        same_letters(a, b) == same_letters(b, a),
        same_letters(a, b) == same_letters(lowered(a), lowered(b)),
        contains_letters(a, a),
        contains_letters(a + b, a) && contains_letters(a + b, b),
{
    if a.len() == b.len() {
        assert forall|i: int| 0 <= i < a.len() implies lower(#[trigger] lowered(a)[i]) == lower(a[i])
            && lower(lowered(b)[i]) == lower(b[i]) by {}
        assert(forall|i: int|
            0 <= i < a.len() ==> lowered(a)[i] == lower(#[trigger] a[i]));
    }
    assert(a.subrange(0, 0 + a.len() as int) =~= a);
    assert(stands_in(a, a, 0));
    let c = a + b;
    assert(c.subrange(0, 0 + a.len() as int) =~= a);
    assert(stands_in(c, a, 0));
    assert(c.subrange(a.len() as int, a.len() as int + b.len() as int) =~= b);
    assert(stands_in(c, b, a.len() as int));
}

} // verus!
