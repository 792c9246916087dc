//! Text as sequences of characters: trimming, ASCII case and decimal numbers.

use vstd::prelude::*;

verus! {

/// The lower-case form of an ASCII letter; every other character is itself.
pub open spec fn ascii_lower(c: char) -> char {
    if 'A' <= c && c <= 'Z' {
        ((c as u32) + 32) as char
    } else {
        c
    }
}

/// `s` with every ASCII letter in lower case.
pub open spec fn lowercase(s: Seq<char>) -> Seq<char> {
    Seq::new(s.len(), |i: int| ascii_lower(s[i]))
}

/// `s` without the run of `c` at its end.
pub open spec fn trim_end(s: Seq<char>, c: char) -> Seq<char>
    decreases s.len(),
{
    if s.len() > 0 && s.last() == c {
        trim_end(s.drop_last(), c)
    } else {
        s
    }
}

/// `suffix` is where `s` ends.
pub open spec fn ends_with(s: Seq<char>, suffix: Seq<char>) -> bool {
    s.len() >= suffix.len() && s.skip(s.len() - suffix.len()) == suffix
}

/// `prefix` is where `s` begins.
pub open spec fn starts_with(s: Seq<char>, prefix: Seq<char>) -> bool {
    s.len() >= prefix.len() && s.take(prefix.len() as int) == prefix
}

/// The characters with the Unicode property `White_Space`.
pub open spec fn is_white_space(c: char) -> bool {
    let n = c as u32;
    ||| 0x9 <= n <= 0xd
    ||| n == 0x20
    ||| n == 0x85
    ||| n == 0xa0
    ||| n == 0x1680
    ||| 0x2000 <= n <= 0x200a
    ||| n == 0x2028
    ||| n == 0x2029
    ||| n == 0x202f
    ||| n == 0x205f
    ||| n == 0x3000
}

/// `s` without the white space at its end.
pub open spec fn trim_white_end(s: Seq<char>) -> Seq<char>
    decreases s.len(),
{
    if s.len() > 0 && is_white_space(s.last()) {
        trim_white_end(s.drop_last())
    } else {
        s
    }
}

/// `s` without the white space at its start.
pub open spec fn trim_white_start(s: Seq<char>) -> Seq<char>
    decreases s.len(),
{
    if s.len() > 0 && is_white_space(s.first()) {
        trim_white_start(s.drop_first())
    } else {
        s
    }
}

/// `s` without the white space around it.
pub open spec fn trim_white(s: Seq<char>) -> Seq<char> {
    trim_white_end(trim_white_start(s))
}

/// The decimal digit of `d`, a number below ten.
pub open spec fn digit(d: nat) -> char {
    "0123456789"@[d as int]
}

/// `n` in decimal, without leading zeros.
pub open spec fn decimal(n: nat) -> Seq<char>
    decreases n,
{
    if n < 10 {
        seq![digit(n)]
    } else {
        decimal(n / 10).push(digit(n % 10))
    }
}

/// A trimmed text is where the text begins, and does not end in the character
/// that was trimmed; trimming it again changes nothing.
pub proof fn lemma_trim_end(s: Seq<char>, c: char)
    ensures
        trim_end(s, c).is_prefix_of(s),
        trim_end(s, c).len() > 0 ==> trim_end(s, c).last() != c,
        trim_end(trim_end(s, c), c) == trim_end(s, c),
    decreases s.len(),
{
    if s.len() > 0 && s.last() == c {
        lemma_trim_end(s.drop_last(), c);
    }
}

/// A run of the trimmed character at the end makes no difference.
pub proof fn lemma_trim_end_run(s: Seq<char>, run: Seq<char>, c: char)
    requires
        forall|i: int| 0 <= i < run.len() ==> run[i] == c,
    ensures
        trim_end(s + run, c) == trim_end(s, c),
    decreases run.len(),
{
    if run.len() == 0 {
        assert(s + run =~= s);
    } else {
        assert((s + run).drop_last() =~= s + run.drop_last());
        lemma_trim_end_run(s, run.drop_last(), c);
    }
}

proof fn lemma_trim_white_end_run(s: Seq<char>, run: Seq<char>)
    requires
        forall|i: int| 0 <= i < run.len() ==> is_white_space(#[trigger] run[i]),
    ensures
        trim_white_end(s + run) == trim_white_end(s),
    decreases run.len(),
{
    if run.len() == 0 {
        assert(s + run =~= s);
    } else {
        assert((s + run).drop_last() =~= s + run.drop_last());
        assert((s + run).last() == run[run.len() - 1]);
        lemma_trim_white_end_run(s, run.drop_last());
    }
}

proof fn lemma_trim_white_start_run(run: Seq<char>, s: Seq<char>)
    requires
        forall|i: int| 0 <= i < run.len() ==> is_white_space(#[trigger] run[i]),
    ensures
        trim_white_start(run + s) == trim_white_start(s),
    decreases run.len(),
{
    if run.len() == 0 {
        assert(run + s =~= s);
    } else {
        assert((run + s).drop_first() =~= run.drop_first() + s);
        assert((run + s).first() == run[0]);
        lemma_trim_white_start_run(run.drop_first(), s);
    }
}

proof fn lemma_trim_white_start_append(s: Seq<char>, tail: Seq<char>)
    requires
        trim_white_start(s).len() > 0,
    ensures
        trim_white_start(s + tail) == trim_white_start(s) + tail,
    decreases s.len(),
{
    if s.len() > 0 && is_white_space(s.first()) {
        assert((s + tail).drop_first() =~= s.drop_first() + tail);
        lemma_trim_white_start_append(s.drop_first(), tail);
    }
}

proof fn lemma_all_white(s: Seq<char>)
    requires
        trim_white_start(s).len() == 0,
    ensures
        forall|i: int| 0 <= i < s.len() ==> is_white_space(#[trigger] s[i]),
    decreases s.len(),
{
    if s.len() > 0 {
        lemma_all_white(s.drop_first());
        assert forall|i: int| 0 <= i < s.len() implies is_white_space(#[trigger] s[i]) by {
            if i > 0 {
                assert(s.drop_first()[i - 1] == s[i]);
            }
        }
    }
}

/// White space around a text makes no difference to the trimmed text.
pub proof fn lemma_trim_white_around(s: Seq<char>, before: Seq<char>, after: Seq<char>)
    requires
        forall|i: int| 0 <= i < before.len() ==> is_white_space(#[trigger] before[i]),
        forall|i: int| 0 <= i < after.len() ==> is_white_space(#[trigger] after[i]),
    ensures
        trim_white(before + s + after) == trim_white(s),
{
    assert(before + s + after =~= before + (s + after));
    lemma_trim_white_start_run(before, s + after);
    if trim_white_start(s).len() > 0 {
        lemma_trim_white_start_append(s, after);
        lemma_trim_white_end_run(trim_white_start(s), after);
    } else {
        lemma_all_white(s);
        let all = s + after;
        assert forall|i: int| 0 <= i < all.len() implies is_white_space(#[trigger] all[i]) by {
            if i >= s.len() {
                assert(all[i] == after[i - s.len()]);
            }
        }
        assert(all =~= all + Seq::empty());
        lemma_trim_white_start_run(all, Seq::empty());
    }
}

/// `char::is_whitespace`: whether the character has the Unicode property
/// `White_Space`. The contract lists the characters that have it.
pub assume_specification[ char::is_whitespace ](c: char) -> (b: bool)
    ensures
        b == is_white_space(c),
;

/// The characters of `s`.
pub fn chars_of(s: &str) -> (out: Vec<char>)
    ensures
        out@ == s@,
{
    let mut out: Vec<char> = Vec::new();
    for c in it: s.chars()
        invariant
            it.seq() == s@,
            out@ == it.seq().take(it.index() as int),
    {
        out.push(c);
    }
    out
}

/// The lower-case form of an ASCII letter.
pub fn to_ascii_lower(c: char) -> (r: char)
    ensures
        r == ascii_lower(c),
{
    if 'A' <= c && c <= 'Z' {
        let b: u8 = c as u8;
        (b + 32) as char
    } else {
        c
    }
}

/// Whether `s`, its ASCII letters taken in lower case, is `lower`.
pub fn is_case_of(s: &str, lower: &str) -> (r: bool)
    ensures
        r == (lowercase(s@) == lower@),
{
    let a = chars_of(s);
    let b = chars_of(lower);
    if a.len() != b.len() {
        return false;
    }
    let mut i: usize = 0;
    while i < a.len()
        invariant
            i <= a.len(),
            a@ == s@,
            b@ == lower@,
            a.len() == b.len(),
            forall|j: int| 0 <= j < i ==> ascii_lower(a@[j]) == b@[j],
        decreases a.len() - i,
    {
        if to_ascii_lower(a[i]) != b[i] {
            assert(lowercase(s@)[i as int] != lower@[i as int]);
            return false;
        }
        i = i + 1;
    }
    assert(lowercase(s@) =~= lower@);
    true
}

/// Whether `s`, its ASCII letters taken in lower case, begins with `lower`.
pub fn begins_with_case_of(s: &str, lower: &str) -> (r: bool)
    ensures
        r == starts_with(lowercase(s@), lower@),
{
    let a = chars_of(s);
    let b = chars_of(lower);
    if a.len() < b.len() {
        return false;
    }
    let ghost prefix = lowercase(s@).take(lower@.len() as int);
    let mut i: usize = 0;
    while i < b.len()
        invariant
            i <= b.len() <= a.len(),
            a@ == s@,
            b@ == lower@,
            prefix == lowercase(s@).take(lower@.len() as int),
            forall|j: int| 0 <= j < i ==> prefix[j] == b@[j],
        decreases b.len() - i,
    {
        if to_ascii_lower(a[i]) != b[i] {
            assert(prefix[i as int] != lower@[i as int]);
            return false;
        }
        i = i + 1;
    }
    assert(prefix =~= lower@);
    true
}

/// `s` without the run of `c` at its end.
pub fn trim_end_of(s: &str, c: char) -> (r: &str)
    ensures
        r@ == trim_end(s@, c),
{
    let a = chars_of(s);
    let mut n: usize = a.len();
    assert(s@.take(n as int) =~= s@);
    while n > 0 && a[n - 1] == c
        invariant
            n <= a.len(),
            a@ == s@,
            trim_end(s@, c) == trim_end(s@.take(n as int), c),
        decreases n,
    {
        assert(s@.take(n as int).drop_last() =~= s@.take(n - 1));
        n = n - 1;
    }
    assert(s@.subrange(0, n as int) =~= s@.take(n as int));
    s.substring_char(0, n)
}

/// Whether `s` ends with `suffix`.
pub fn has_suffix(s: &str, suffix: &str) -> (r: bool)
    ensures
        r == ends_with(s@, suffix@),
{
    let a = chars_of(s);
    let b = chars_of(suffix);
    if a.len() < b.len() {
        return false;
    }
    let start: usize = a.len() - b.len();
    let mut i: usize = 0;
    while i < b.len()
        invariant
            i <= b.len() <= a.len(),
            start == a.len() - b.len(),
            a@ == s@,
            b@ == suffix@,
            forall|j: int| 0 <= j < i ==> s@.skip(start as int)[j] == suffix@[j],
        decreases b.len() - i,
    {
        assert(s@.skip(start as int)[i as int] == a@[start + i]);
        if a[start + i] != b[i] {
            return false;
        }
        i = i + 1;
    }
    assert(s@.skip(start as int) =~= suffix@);
    true
}

/// `s` without the white space around it.
pub fn trim_white_of(s: &str) -> (r: &str)
    ensures
        r@ == trim_white(s@),
{
    let a = chars_of(s);
    let mut from: usize = 0;
    assert(s@.skip(0) =~= s@);
    while from < a.len() && a[from].is_whitespace()
        invariant
            from <= a.len(),
            a@ == s@,
            trim_white_start(s@) == trim_white_start(s@.skip(from as int)),
        decreases a.len() - from,
    {
        assert(s@.skip(from as int).drop_first() =~= s@.skip(from + 1));
        from = from + 1;
    }
    let ghost rest = s@.skip(from as int);
    assert(trim_white_start(s@) == rest);
    let mut to: usize = a.len();
    assert(s@.subrange(from as int, to as int) =~= rest);
    while from < to && a[to - 1].is_whitespace()
        invariant
            from <= to <= a.len(),
            a@ == s@,
            trim_white_end(rest) == trim_white_end(s@.subrange(from as int, to as int)),
        decreases to - from,
    {
        assert(s@.subrange(from as int, to as int).drop_last() =~= s@.subrange(
            from as int,
            to - 1,
        ));
        to = to - 1;
    }
    s.substring_char(from, to)
}

/// `n` in decimal.
pub fn decimal_of(n: u16) -> (r: String)
    ensures
        r@ == decimal(n as nat),
    decreases n,
{
    proof {
        reveal_strlit("0123456789");
    }
    let digits = "0123456789";
    let last: usize = (n % 10) as usize;
    let mut out = if n < 10 {
        String::new()
    } else {
        decimal_of(n / 10)
    };
    out.append(digits.substring_char(last, last + 1));
    assert(digits@.subrange(last as int, last + 1) =~= seq![digit((n % 10) as nat)]);
    if n < 10 {
        assert(out@ =~= seq![digit(n as nat)]);
    } else {
        assert(out@ =~= decimal((n / 10) as nat).push(digit((n % 10) as nat)));
    }
    out
}

/// Taking a text in lower case keeps its length, moves each of the letters A to Z
/// up by 32 and leaves every other character as it is; doing it again changes
/// nothing.
pub proof fn law_only_capital_letters_change(s: Seq<char>)
    ensures
        lowercase(s).len() == s.len(),
        forall|i: int|
            #![trigger s[i]]
            #![trigger lowercase(s)[i]]
            0 <= i < s.len() ==> lowercase(s)[i] as int == (if 65 <= s[i] as int <= 90 {
                s[i] as int + 32
            } else {
                s[i] as int
            }),
        forall|i: int| 0 <= i < s.len() ==> #[trigger] lowercase(s)[i] == ascii_lower(s[i]),
        lowercase(lowercase(s)) == lowercase(s),
{
    assert(lowercase(lowercase(s)) =~= lowercase(s));
}

/// Of a text that is followed by a run of one character, trimming leaves the
/// text, provided that does not end in the character itself.
pub proof fn law_trimming_takes_the_whole_run(text: Seq<char>, run: Seq<char>, c: char)
    requires
        text.len() > 0 ==> text.last() != c,
        forall|i: int| 0 <= i < run.len() ==> run[i] == c,
    ensures
        trim_end(text + run, c) == text,
{
    lemma_trim_end_run(text, run, c);
}

/// The white space in ASCII is the space and the characters from tab to carriage
/// return.
pub proof fn law_white_space_in_ascii(c: char)
    requires
        (c as int) < 128,
    ensures
        is_white_space(c) <==> c as int == 32 || 9 <= c as int <= 13,
{
}

/// Of a text with white space on both sides, trimming leaves the text, provided
/// that neither begins nor ends with white space itself.
pub proof fn law_trimming_takes_all_white_space(
    before: Seq<char>,
    text: Seq<char>,
    after: Seq<char>,
)
    requires
        forall|i: int| 0 <= i < before.len() ==> is_white_space(#[trigger] before[i]),
        forall|i: int| 0 <= i < after.len() ==> is_white_space(#[trigger] after[i]),
        text.len() > 0 ==> !is_white_space(text[0]) && !is_white_space(text[text.len() - 1]),
    ensures
        trim_white(before + text + after) == text,
{
    lemma_trim_white_around(text, before, after);
}

/// A text begins with another one, or ends with it, if and only if it is at least
/// as long and agrees with it character by character there.
pub proof fn law_affixes_agree_throughout(s: Seq<char>, affix: Seq<char>)
    ensures
        starts_with(s, affix) <==> s.len() >= affix.len() && forall|i: int|
            0 <= i < affix.len() ==> s[i] == #[trigger] affix[i],
        ends_with(s, affix) <==> s.len() >= affix.len() && forall|i: int|
            0 <= i < affix.len() ==> s[s.len() - affix.len() + i] == #[trigger] affix[i],
{
    if s.len() >= affix.len() {
        let n = affix.len() as int;
        let at = s.len() - n;
        assert(forall|i: int| 0 <= i < n ==> s.take(n)[i] == s[i]);
        assert(forall|i: int| 0 <= i < n ==> s.skip(at)[i] == s[at + i]);
        if forall|i: int| 0 <= i < n ==> s[i] == #[trigger] affix[i] {
            assert(s.take(n) =~= affix);
        }
        if forall|i: int| 0 <= i < n ==> s[at + i] == #[trigger] affix[i] {
            assert(s.skip(at) =~= affix);
        }
    }
}

/// The number that decimal digits stand for.
pub open spec fn number_of(digits: Seq<char>) -> int
    decreases digits.len(),
{
    if digits.len() == 0 {
        0
    } else {
        10 * number_of(digits.drop_last()) + (digits.last() as int - '0' as int)
    }
}

/// A number in decimal reads as that number, consists of digits, and begins with
/// a zero only where it is zero.
pub proof fn law_decimal_reads_back(n: nat)
    ensures
        number_of(decimal(n)) == n,
        decimal(n).len() > 0,
        forall|i: int|
            0 <= i < decimal(n).len() ==> '0' <= #[trigger] decimal(n)[i] && decimal(n)[i] <= '9',
        decimal(n)[0] == '0' ==> n == 0 && decimal(n).len() == 1,
    decreases n,
{
    reveal_strlit("0123456789");
    reveal_with_fuel(number_of, 2);
    if n < 10 {
        assert(decimal(n).drop_last() =~= Seq::empty());
    } else {
        law_decimal_reads_back(n / 10);
        assert(decimal(n).drop_last() =~= decimal(n / 10));
        assert(decimal(n)[0] == decimal(n / 10)[0]);
    }
}

} // verus!
