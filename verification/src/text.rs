//! Reading command-line values: trimming, whole numbers, case-insensitive
//! labels, lines.

use vstd::prelude::*;
use vstd::string::*;

verus! {

/// Whether a character is white space, as Unicode defines it.
pub open spec fn is_white(c: char) -> bool {
    let n = c as u32;
    ||| 0x9 <= n <= 0xD
    ||| n == 0x20
    ||| n == 0x85
    ||| n == 0xA0
    ||| n == 0x1680
    ||| 0x2000 <= n <= 0x200A
    ||| n == 0x2028
    ||| n == 0x2029
    ||| n == 0x202F
    ||| n == 0x205F
    ||| n == 0x3000
}

/// Whether a character is white space.
pub fn is_white_space(c: char) -> (r: bool)
    ensures
        r == is_white(c),
{
    let n: u32 = c as u32;
    (0x9 <= n && n <= 0xD) || n == 0x20 || n == 0x85 || n == 0xA0 || n == 0x1680 || (0x2000 <= n
        && n <= 0x200A) || n == 0x2028 || n == 0x2029 || n == 0x202F || n == 0x205F || n == 0x3000
}

/// `s` without its leading white space.
pub open spec fn without_leading(s: Seq<char>) -> Seq<char>
    decreases s.len(),
{
    if s.len() > 0 && is_white(s[0]) {
        without_leading(s.drop_first())
    } else {
        s
    }
}

/// `s` without its trailing white space.
pub open spec fn without_trailing(s: Seq<char>) -> Seq<char>
    decreases s.len(),
{
    if s.len() > 0 && is_white(s.last()) {
        without_trailing(s.drop_last())
    } else {
        s
    }
}

/// `s` without the white space around it.
pub open spec fn trimmed(s: Seq<char>) -> Seq<char> {
    without_trailing(without_leading(s))
}

/// `s` without the white space around it.
pub fn trim(s: &str) -> (r: &str)
    ensures
        r@ == trimmed(s@),
{
    let n: usize = s.unicode_len();
    let mut from: usize = 0;
    assert(s@.subrange(0, n as int) =~= s@);
    while from < n && is_white_space(s.get_char(from))
        invariant
            n == s@.len(),
            from <= n,
            without_leading(s@.subrange(from as int, n as int)) == without_leading(s@),
        decreases n - from,
    {
        assert(s@.subrange(from as int, n as int).drop_first() =~= s@.subrange(
            from + 1,
            n as int,
        ));
        from += 1;
    }
    assert(without_leading(s@) =~= s@.subrange(from as int, n as int));
    let ghost led = s@.subrange(from as int, n as int);
    let mut to: usize = n;
    while to > from && is_white_space(s.get_char(to - 1))
        invariant
            n == s@.len(),
            from <= to <= n,
            led == s@.subrange(from as int, n as int),
            without_trailing(s@.subrange(from as int, to as int)) == without_trailing(led),
        decreases to,
    {
        assert(s@.subrange(from as int, to as int).drop_last() =~= s@.subrange(
            from as int,
            to - 1,
        ));
        assert(s@.subrange(from as int, to as int).last() == s@[to - 1]);
        to -= 1;
    }
    assert(to > from ==> s@.subrange(from as int, to as int).last() == s@[to - 1]);
    s.substring_char(from, to)
}

proof fn lemma_without_leading(s: Seq<char>)
    ensures
        without_leading(s).len() > 0 ==> !is_white(without_leading(s)[0]),
        without_leading(s).len() <= s.len(),
    decreases s.len(),
{
    if s.len() > 0 && is_white(s[0]) {
        lemma_without_leading(s.drop_first());
    }
}

proof fn lemma_without_trailing(s: Seq<char>)
    requires
        s.len() > 0 ==> !is_white(s[0]),
    ensures
        without_trailing(s).len() > 0 ==> !is_white(without_trailing(s)[0]) && !is_white(
            without_trailing(s).last(),
        ),
        without_trailing(s).len() <= s.len(),
    decreases s.len(),
{
    if s.len() > 0 && is_white(s.last()) {
        lemma_without_trailing(s.drop_last());
    }
}

/// Trimming is done once: trimming what was trimmed changes nothing.
pub proof fn law_trim_is_idempotent(s: Seq<char>)
    ensures
        trimmed(trimmed(s)) == trimmed(s),
{
    lemma_without_leading(s);
    lemma_without_trailing(without_leading(s));
}

/// The value of a decimal digit.
pub open spec fn digit(c: char) -> Option<nat> {
    if '0' <= c <= '9' {
        Some((c as u32 - '0' as u32) as nat)
    } else {
        None
    }
}

/// The number that a run of decimal digits denotes, `None` where a character
/// is not a digit. An empty run denotes zero.
pub open spec fn digits_value(s: Seq<char>) -> Option<nat>
    decreases s.len(),
{
    if s.len() == 0 {
        Some(0)
    } else {
        match (digits_value(s.drop_last()), digit(s.last())) {
            (Some(v), Some(d)) => Some(v * 10 + d),
            _ => None,
        }
    }
}

/// The digits of a written number: what follows one plus sign, if there is
/// one.
pub open spec fn number_digits(s: Seq<char>) -> Seq<char> {
    if s.len() > 0 && s[0] == '+' {
        s.drop_first()
    } else {
        s
    }
}

/// The whole number that `s` writes out, where it is at most `max`. A number
/// has at least one digit, and a plus sign may stand before it.
pub open spec fn whole_number(s: Seq<char>, max: nat) -> Option<nat> {
    let digits = number_digits(s);
    if digits.len() == 0 {
        None
    } else {
        match digits_value(digits) {
            Some(v) => if v <= max {
                Some(v)
            } else {
                None
            },
            None => None,
        }
    }
}

/// A longer run of digits denotes no smaller number, and a run with something
/// else in it denotes none however it goes on.
proof fn lemma_digits_prefix(s: Seq<char>, n: int)
    requires
        0 <= n <= s.len(),
    ensures
        digits_value(s) is Some ==> digits_value(s.take(n)) is Some && digits_value(
            s.take(n),
        )->0 <= digits_value(s)->0,
    decreases s.len(),
{
    if n < s.len() {
        lemma_digits_prefix(s.drop_last(), n);
        assert(s.drop_last().take(n) =~= s.take(n));
    } else {
        assert(s.take(n) =~= s);
    }
}

/// The whole number that `s` writes out, where 64 bits hold it.
pub fn parse_u64(s: &str) -> (r: Option<u64>)
    ensures
        match r {
            Some(v) => whole_number(s@, u64::MAX as nat) == Some(v as nat),
            None => whole_number(s@, u64::MAX as nat) is None,
        },
{
    let n: usize = s.unicode_len();
    let start: usize = if n > 0 && s.get_char(0) == '+' {
        1
    } else {
        0
    };
    let ghost digits = number_digits(s@);
    assert(digits =~= s@.subrange(start as int, n as int));
    if start == n {
        return None;
    }
    let mut value: u64 = 0;
    let mut i: usize = start;
    assert(digits.take(0) =~= Seq::<char>::empty());
    while i < n
        invariant
            n == s@.len(),
            start <= i <= n,
            start < n,
            digits == number_digits(s@),
            digits == s@.subrange(start as int, n as int),
            digits_value(digits.take(i - start)) == Some(value as nat),
        decreases n - i,
    {
        let c = s.get_char(i);
        let ghost head = digits.take(i + 1 - start);
        proof {
            assert(head.drop_last() =~= digits.take(i - start));
            assert(head.last() == c);
            lemma_digits_prefix(digits, i + 1 - start);
        }
        let code: u32 = c as u32;
        if code < 48 || code > 57 {
            assert(digit(c) is None);
            return None;
        }
        let d: u64 = (code - 48) as u64;
        assert(digit(c) == Some(d as nat));
        if value > (u64::MAX - d) / 10 {
            assert(value * 10 + d > u64::MAX);
            return None;
        }
        value = value * 10 + d;
        i += 1;
    }
    assert(digits.take(digits.len() as int) =~= digits);
    Some(value)
}

/// The whole number that `s` writes out, where a `usize` holds it.
pub fn parse_usize(s: &str) -> (r: Option<usize>)
    ensures
        match r {
            Some(v) => whole_number(s@, usize::MAX as nat) == Some(v as nat),
            None => whole_number(s@, usize::MAX as nat) is None,
        },
{
    match parse_u64(s) {
        Some(v) => if v <= usize::MAX as u64 {
            Some(v as usize)
        } else {
            None
        },
        None => None,
    }
}

/// A character with an ASCII capital letter made small.
pub open spec fn lowered(c: char) -> u32 {
    let n = c as u32;
    if 65 <= n <= 90 {
        (n + 32) as u32
    } else {
        n
    }
}

/// Whether two texts are equal but for the case of ASCII letters.
pub open spec fn same_but_case(a: Seq<char>, b: Seq<char>) -> bool {
    a.len() == b.len() && forall|i: int| 0 <= i < a.len() ==> lowered(#[trigger] a[i]) == lowered(b[i])
}

/// A character with an ASCII capital letter made small.
fn lower_code(c: char) -> (r: u32)
    ensures
        r == lowered(c),
{
    let n: u32 = c as u32;
    if 65 <= n && n <= 90 {
        n + 32
    } else {
        n
    }
}

/// Whether two texts are equal but for the case of ASCII letters.
pub fn eq_ignore_case(a: &str, b: &str) -> (r: bool)
    ensures
        r == same_but_case(a@, b@),
{
    let n: usize = a.unicode_len();
    if n != b.unicode_len() {
        return false;
    }
    let mut i: usize = 0;
    while i < n
        invariant
            n == a@.len(),
            n == b@.len(),
            i <= n,
            forall|j: int| 0 <= j < i ==> lowered(#[trigger] a@[j]) == lowered(b@[j]),
        decreases n - i,
    {
        if lower_code(a.get_char(i)) != lower_code(b.get_char(i)) {
            assert(lowered(a@[i as int]) != lowered(b@[i as int]));
            return false;
        }
        i += 1;
    }
    true
}

/// Where a character first stands in `s`.
pub open spec fn first_index(s: Seq<char>, c: char) -> Option<int>
    decreases s.len(),
{
    if s.len() == 0 {
        None
    } else if s[0] == c {
        Some(0int)
    } else {
        match first_index(s.drop_first(), c) {
            Some(i) => Some(i + 1),
            None => None,
        }
    }
}

/// A first index is the place of the character, with none before it.
pub proof fn lemma_first_index(s: Seq<char>, c: char)
    ensures
        match first_index(s, c) {
            Some(i) => 0 <= i < s.len() && s[i] == c && forall|j: int|
                0 <= j < i ==> #[trigger] s[j] != c,
            None => !s.contains(c),
        },
    decreases s.len(),
{
    if s.len() > 0 && s[0] != c {
        let rest = s.drop_first();
        lemma_first_index(rest, c);
        match first_index(rest, c) {
            Some(i) => {
                assert forall|j: int| 0 <= j < i + 1 implies #[trigger] s[j] != c by {
                    if j > 0 {
                        assert(rest[j - 1] != c);
                    }
                }
            },
            None => {
                assert forall|j: int| 0 <= j < s.len() implies #[trigger] s[j] != c by {
                    if j > 0 {
                        assert(rest.contains(rest[j - 1]));
                    }
                }
            },
        }
    }
}

/// Where a character first stands in `s`.
pub fn find_char(s: &str, c: char) -> (r: Option<usize>)
    ensures
        match r {
            Some(i) => first_index(s@, c) == Some(i as int),
            None => first_index(s@, c) is None,
        },
        r matches Some(i) ==> i < s@.len(),
{
    let n: usize = s.unicode_len();
    let mut i: usize = 0;
    proof {
        lemma_first_index(s@, c);
    }
    while i < n
        invariant
            n == s@.len(),
            i <= n,
            forall|j: int| 0 <= j < i ==> #[trigger] s@[j] != c,
        decreases n - i,
    {
        if s.get_char(i) == c {
            proof {
                lemma_first_index(s@, c);
                if let Some(k) = first_index(s@, c) {
                    assert(k == i) by {
                        if k < i {
                            assert(s@[k] != c);
                        }
                    }
                } else {
                    assert(s@.contains(s@[i as int]));
                }
            }
            return Some(i);
        }
        i += 1;
    }
    assert(!s@.contains(c));
    None
}

/// Whether `s` begins with `prefix`.
pub fn starts_with(s: &str, prefix: &str) -> (r: bool)
    ensures
        r == prefix@.is_prefix_of(s@),
{
    let n: usize = prefix.unicode_len();
    if s.unicode_len() < n {
        return false;
    }
    let mut i: usize = 0;
    while i < n
        invariant
            n == prefix@.len(),
            n <= s@.len(),
            i <= n,
            forall|j: int| 0 <= j < i ==> #[trigger] prefix@[j] == s@[j],
        decreases n - i,
    {
        if prefix.get_char(i) != s.get_char(i) {
            assert(prefix@[i as int] != s@.subrange(0, n as int)[i as int]);
            return false;
        }
        i += 1;
    }
    assert(prefix@ =~= s@.subrange(0, n as int));
    true
}

/// Whether two texts are equal.
pub fn same_text(a: &str, b: &str) -> (r: bool)
    ensures
        r == (a@ == b@),
{
    a.to_owned() == b.to_owned()
}

/// How `Debug` of `str` writes a text: in quotes, special characters escaped.
pub uninterp spec fn debug_form(s: Seq<char>) -> Seq<char>;

/// A text as `Debug` of `str` writes it (`{:?}`). What is written depends on
/// the text alone; which characters are escaped, and how, is left to `std`.
#[verifier::external_body]
pub(crate) fn debug_text(s: &str) -> (r: String)
    ensures
        r@ == debug_form(s@),
{
    format!("{s:?}")
}

/// What `trim` returns is a part of the text that neither starts nor ends with
/// white space, and nothing but white space stands around it.
pub proof fn law_trim_takes_white_space_alone(s: &str, r: &str)
    requires
        call_ensures(trim, (s,), r),
    ensures
        r@.len() > 0 ==> !is_white(r@[0]) && !is_white(r@.last()),
        exists|from: int, to: int|
            0 <= from <= to <= s@.len() && r@ == #[trigger] s@.subrange(from, to) && (forall|
                i: int,
            |
                0 <= i < from || to <= i < s@.len() ==> is_white(#[trigger] s@[i])),
{
    lemma_without_leading(s@);
    lemma_without_trailing(without_leading(s@));
    lemma_leading_part(s@);
    let led = without_leading(s@);
    let from = s@.len() - led.len();
    lemma_trailing_part(led);
    let to = from + r@.len();
    assert(s@.subrange(from, to) =~= r@) by {
        assert(led == s@.skip(from));
        assert(r@ == led.take(r@.len() as int));
    }
    assert forall|i: int| 0 <= i < from || to <= i < s@.len() implies is_white(
        #[trigger] s@[i],
    ) by {
        if i >= to {
            assert(led[i - from] == s@[i]);
        }
    }
}

/// What is without leading white space is the end of a text, and white space
/// stands before it.
proof fn lemma_leading_part(s: Seq<char>)
    ensures
        without_leading(s).len() <= s.len(),
        without_leading(s) == s.skip(s.len() - without_leading(s).len()),
        forall|i: int|
            0 <= i < s.len() - without_leading(s).len() ==> is_white(#[trigger] s[i]),
    decreases s.len(),
{
    if s.len() > 0 && is_white(s[0]) {
        let rest = s.drop_first();
        lemma_leading_part(rest);
        let led = without_leading(rest);
        assert(rest.skip(rest.len() - led.len()) =~= s.skip(s.len() - led.len()));
        assert forall|i: int| 0 <= i < s.len() - led.len() implies is_white(#[trigger] s[i]) by {
            if i > 0 {
                assert(rest[i - 1] == s[i]);
            }
        }
    } else {
        assert(s.skip(0) =~= s);
    }
}

/// What is without trailing white space is the start of a text, and white space
/// stands behind it.
proof fn lemma_trailing_part(s: Seq<char>)
    ensures
        without_trailing(s).len() <= s.len(),
        without_trailing(s) == s.take(without_trailing(s).len() as int),
        forall|i: int| without_trailing(s).len() <= i < s.len() ==> is_white(#[trigger] s[i]),
    decreases s.len(),
{
    if s.len() > 0 && is_white(s.last()) {
        let rest = s.drop_last();
        lemma_trailing_part(rest);
        let n = without_trailing(rest).len() as int;
        assert(rest.take(n) =~= s.take(n));
        assert forall|i: int| n <= i < s.len() implies is_white(#[trigger] s[i]) by {
            if i < rest.len() {
                assert(rest[i] == s[i]);
            }
        }
    } else {
        assert(s.take(s.len() as int) =~= s);
    }
}

/// White space includes the blank, the tab and the line breaks, and no letter
/// or digit.
pub proof fn law_letters_are_not_white(c: char)
    ensures
        c == ' ' || c == '\t' || c == '\n' || c == '\r' ==> is_white(c),
        '!' <= c <= '~' ==> !is_white(c),
{
}

/// One more digit makes a number ten times as large and adds the digit; no
/// other character leaves a number.
pub proof fn law_digits_count_in_tens(s: Seq<char>, c: char, v: nat)
    requires
        digits_value(s) == Some(v),
    ensures
        c == '0' ==> digits_value(s.push(c)) == Some((10 * v) as nat),
        c == '1' ==> digits_value(s.push(c)) == Some((10 * v + 1) as nat),
        c == '9' ==> digits_value(s.push(c)) == Some((10 * v + 9) as nat),
        '0' <= c <= '9' ==> digits_value(s.push(c)) == Some((10 * v + (c as u32 - 48)) as nat),
        !('0' <= c <= '9') ==> digits_value(s.push(c)) is None,
        digits_value(Seq::<char>::empty()) == Some(0nat),
{
    assert(s.push(c).drop_last() =~= s);
}

/// What `parse_u64` and `parse_usize` return: the number that is written, with
/// at most one plus sign before it; nothing where there is no digit, anything
/// else, or too large a number.
pub proof fn law_whole_numbers_are_parsed(
    s: &str,
    wide: Option<u64>,
    narrow: Option<usize>,
)
    requires
        call_ensures(parse_u64, (s,), wide),
        call_ensures(parse_usize, (s,), narrow),
    ensures
        ({
            let digits = if s@.len() > 0 && s@[0] == '+' {
                s@.skip(1)
            } else {
                s@
            };
            let value = digits_value(digits);
            &&& wide is Some <==> digits.len() > 0 && (value matches Some(v) && v <= u64::MAX)
            &&& narrow is Some <==> digits.len() > 0 && (value matches Some(v) && v <= usize::MAX)
            &&& wide matches Some(n) ==> value == Some(n as nat)
            &&& narrow matches Some(n) ==> value == Some(n as nat)
        }),
{
    if s@.len() > 0 {
        assert(s@.drop_first() =~= s@.skip(1));
    }
}

/// Two texts are equal but for case exactly where each letter is, a capital and
/// its small letter being the same; every text is equal to itself, and order
/// does not matter.
pub proof fn law_case_is_ignored_letter_by_letter(a: &str, b: &str, r: bool)
    requires
        call_ensures(eq_ignore_case, (a, b), r),
    ensures
        a@ == b@ ==> r,
        r ==> same_but_case(b@, a@),
        r ==> a@.len() == b@.len(),
        lowered('A') == 'a' as u32 && lowered('Z') == 'z' as u32 && lowered('a') == 'a' as u32,
        !r && a@.len() == b@.len() ==> exists|i: int|
            0 <= i < a@.len() && #[trigger] lowered(a@[i]) != lowered(b@[i]),
{
}

/// Only a capital and its small letter are told apart by case alone.
pub proof fn law_case_is_a_matter_of_letters(c: char, d: char)
    requires
        lowered(c) == lowered(d),
        c != d,
    ensures
        'A' <= c <= 'Z' || 'A' <= d <= 'Z',
        'A' <= c <= 'Z' ==> d as u32 == c as u32 + 32,
        'A' <= d <= 'Z' ==> c as u32 == d as u32 + 32,
{
}

/// What `find_char` returns is the first place of a character, and nothing only
/// where it does not occur; what `starts_with` and `same_text` say is so letter
/// by letter.
pub proof fn law_searches_find_the_first(
    s: &str,
    c: char,
    place: Option<usize>,
    prefix: &str,
    starts: bool,
    same: bool,
)
    requires
        call_ensures(find_char, (s, c), place),
        call_ensures(starts_with, (s, prefix), starts),
        call_ensures(same_text, (s, prefix), same),
    ensures
        place matches Some(i) ==> s@[i as int] == c && forall|j: int|
            0 <= j < i ==> #[trigger] s@[j] != c,
        place is None ==> !s@.contains(c),
        starts <==> prefix@.len() <= s@.len() && s@.take(prefix@.len() as int) == prefix@,
        same <==> s@ == prefix@,
        same ==> starts,
{
    lemma_first_index(s@, c);
    if prefix@.len() <= s@.len() {
        assert(s@.subrange(0, prefix@.len() as int) =~= s@.take(prefix@.len() as int));
    }
    if same {
        assert(s@.take(s@.len() as int) =~= s@);
    }
}

} // verus!
