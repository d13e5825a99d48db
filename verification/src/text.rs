use vstd::prelude::*;
use vstd::utf8::encode_utf8;

verus! {

/// `needle` stands in `hay` at position `at`.
pub open spec fn occurs_at(hay: Seq<char>, needle: Seq<char>, at: int) -> bool {
    &&& 0 <= at
    &&& at + needle.len() <= hay.len()
    &&& hay.subrange(at, at + needle.len()) == needle
}

/// `needle` stands somewhere in `hay`: what a `LIKE '%needle%'` match means in this library.
pub open spec fn contains(hay: Seq<char>, needle: Seq<char>) -> bool {
    exists|at: int| occurs_at(hay, needle, at)
}

/// `text` begins with `prefix`.
pub open spec fn starts_with(text: Seq<char>, prefix: Seq<char>) -> bool {
    occurs_at(text, prefix, 0)
}

/// The number of bytes of a text in UTF-8, as `str::len` counts them.
pub open spec fn utf8_len(text: Seq<char>) -> usize {
    encode_utf8(text).len() as usize
}

/// The number of bytes of a text in UTF-8.
pub fn text_len(text: &str) -> (size: usize)
    ensures
        size == utf8_len(text@),
{
    text.len()
}

/// A text contains each of the parts it was put together from.
pub proof fn lemma_contains_middle(left: Seq<char>, mid: Seq<char>, right: Seq<char>)
    ensures
        contains(left + mid + right, mid),
{
    let hay = left + mid + right;
    assert(hay.subrange(left.len() as int, (left.len() + mid.len()) as int) =~= mid);
    assert(occurs_at(hay, mid, left.len() as int));
}

/// The characters of a string, in order.
pub fn chars_of(s: &str) -> (out: Vec<char>)
    ensures
        out@ == s@,
{
    let mut out: Vec<char> = Vec::new();
    for c in it: s.chars()
        invariant
            out@ == it.history(),
    {
        out.push(c);
    }
    out
}

/// Whether `needle` stands in `hay` at `at`, one character after the other.
pub fn matches_at(hay: &Vec<char>, needle: &Vec<char>, at: usize) -> (found: bool)
    requires
        at + needle@.len() <= hay@.len(),
    ensures
        found == occurs_at(hay@, needle@, at as int),
{
    let size: usize = hay.len();
    let mut k: usize = 0;
    while k < needle.len()
        invariant
            k <= needle@.len(),
            at + needle@.len() <= hay@.len(),
            size == hay@.len(),
            forall|j: int| 0 <= j < k ==> hay@[at + j] == needle@[j],
        decreases needle@.len() - k,
    {
        if hay[at + k] != needle[k] {
            proof {
                let window = hay@.subrange(at as int, at + needle@.len());
                assert(window[k as int] == hay@[at + k]);
            }
            return false;
        }
        k += 1;
    }
    assert(hay@.subrange(at as int, at + needle@.len()) =~= needle@);
    true
}

/// Whether `needle` stands somewhere in `hay`.
pub fn text_contains(hay: &str, needle: &str) -> (found: bool)
    ensures
        found == contains(hay@, needle@),
{
    let h = chars_of(hay);
    let n = chars_of(needle);
    if n.len() > h.len() {
        return false;
    }
    let last: usize = h.len() - n.len();
    let mut at: usize = 0;
    while at < last
        invariant
            at <= last,
            last == h@.len() - n@.len(),
            h@ == hay@,
            n@ == needle@,
            forall|k: int| 0 <= k < at ==> !occurs_at(h@, n@, k),
        decreases last - at,
    {
        if matches_at(&h, &n, at) {
            return true;
        }
        at += 1;
    }
    matches_at(&h, &n, last)
}

/// Whether `text` begins with `prefix`.
pub fn text_starts_with(text: &str, prefix: &str) -> (found: bool)
    ensures
        found == starts_with(text@, prefix@),
{
    let t = chars_of(text);
    let p = chars_of(prefix);
    if p.len() > t.len() {
        return false;
    }
    matches_at(&t, &p, 0)
}

/// Whether two texts are the same.
pub fn text_is(left: &str, right: &str) -> (same: bool)
    ensures
        same == (left@ == right@),
{
    let l = chars_of(left);
    let r = chars_of(right);
    if l.len() != r.len() {
        return false;
    }
    let same = matches_at(&l, &r, 0);
    proof {
        assert(l@.subrange(0, l@.len() as int) =~= l@);
    }
    same
}

/// `String::push`: the text with one more character at its end.
#[verifier::external_body]
pub(crate) fn push_char(text: &mut String, c: char)
    ensures
        final(text)@ == old(text)@.push(c),
{
    text.push(c)
}

/// `left` followed by `right`.
pub fn join(left: &str, right: &str) -> (out: String)
    ensures
        out@ == left@ + right@,
{
    String::from_str(left).concat(right)
}

/// The character of a decimal digit.
pub open spec fn digit_char(digit: int) -> char {
    if digit == 0 {
        '0'
    } else if digit == 1 {
        '1'
    } else if digit == 2 {
        '2'
    } else if digit == 3 {
        '3'
    } else if digit == 4 {
        '4'
    } else if digit == 5 {
        '5'
    } else if digit == 6 {
        '6'
    } else if digit == 7 {
        '7'
    } else if digit == 8 {
        '8'
    } else {
        '9'
    }
}

/// A natural number in decimal digits, without leading zeros.
pub open spec fn digits(number: nat) -> Seq<char>
    decreases number,
{
    if number < 10 {
        seq![digit_char(number as int)]
    } else {
        digits(number / 10).push(digit_char((number % 10) as int))
    }
}

/// A whole number in decimal digits, with a minus sign before a negative one.
pub open spec fn decimal(number: int) -> Seq<char> {
    if number < 0 {
        seq!['-'] + digits((-number) as nat)
    } else {
        digits(number as nat)
    }
}

/// The text of one decimal digit.
fn digit_text(digit: u128) -> (out: &'static str)
    requires
        digit < 10,
    ensures
        out@ == seq![digit_char(digit as int)],
{
    proof {
        reveal_strlit("0");
        reveal_strlit("1");
        reveal_strlit("2");
        reveal_strlit("3");
        reveal_strlit("4");
        reveal_strlit("5");
        reveal_strlit("6");
        reveal_strlit("7");
        reveal_strlit("8");
        reveal_strlit("9");
    }
    let out = if digit == 0 {
        "0"
    } else if digit == 1 {
        "1"
    } else if digit == 2 {
        "2"
    } else if digit == 3 {
        "3"
    } else if digit == 4 {
        "4"
    } else if digit == 5 {
        "5"
    } else if digit == 6 {
        "6"
    } else if digit == 7 {
        "7"
    } else if digit == 8 {
        "8"
    } else {
        "9"
    };
    assert(out@ =~= seq![digit_char(digit as int)]);
    out
}

/// A natural number as text.
pub fn digits_text(number: u128) -> (out: String)
    ensures
        out@ == digits(number as nat),
    decreases number,
{
    if number < 10 {
        String::from_str(digit_text(number))
    } else {
        let out = digits_text(number / 10).concat(digit_text(number % 10));
        assert(out@ =~= digits(number as nat));
        out
    }
}

/// A whole number as text.
pub fn decimal_text(number: i32) -> (out: String)
    ensures
        out@ == decimal(number as int),
{
    if number < 0 {
        let size: i64 = -(number as i64);
        proof {
            reveal_strlit("-");
        }
        let out = String::from_str("-").concat(digits_text(size as u128).as_str());
        assert(out@ =~= decimal(number as int));
        out
    } else {
        digits_text(number as u128)
    }
}

/// The characters of a number in decimal digits are digits.
pub proof fn lemma_digits_are_digits(number: nat)
    ensures
        digits(number).len() >= 1,
        forall|i: int|
            0 <= i < digits(number).len() ==> '0' <= #[trigger] digits(number)[i] <= '9',
    decreases number,
{
    if number >= 10 {
        lemma_digits_are_digits(number / 10);
    }
}

/// The decimal digits of a number tell the number.
pub proof fn lemma_digits_tell(left: nat, right: nat)
    requires
        digits(left) == digits(right),
    ensures
        left == right,
    decreases left,
{
    lemma_digits_are_digits(left / 10);
    lemma_digits_are_digits(right / 10);
    if left < 10 && right < 10 {
        assert(digits(left)[0] == digit_char(left as int));
        assert(digits(right)[0] == digit_char(right as int));
    } else if left >= 10 && right >= 10 {
        assert(digits(left).drop_last() =~= digits(left / 10));
        assert(digits(right).drop_last() =~= digits(right / 10));
        assert(digits(left).last() == digit_char((left % 10) as int));
        assert(digits(right).last() == digit_char((right % 10) as int));
        lemma_digits_tell(left / 10, right / 10);
        assert(left / 10 == right / 10);
        assert(left % 10 == right % 10);
    } else {
        assert(digits(left).len() != digits(right).len());
    }
}

/// The text of a whole number holds digits and at most a minus sign: no colon.
pub proof fn lemma_decimal_has_no_colon(number: int)
    ensures
        decimal(number).len() >= 1,
        forall|i: int| 0 <= i < decimal(number).len() ==> #[trigger] decimal(number)[i] != ':',
{
    if number < 0 {
        lemma_digits_are_digits((-number) as nat);
        assert forall|i: int| 0 <= i < decimal(number).len() implies #[trigger] decimal(
            number,
        )[i] != ':' by {
            if i > 0 {
                assert(decimal(number)[i] == digits((-number) as nat)[i - 1]);
            }
        }
    } else {
        lemma_digits_are_digits(number as nat);
    }
}

/// The text of a whole number tells the number.
pub proof fn lemma_decimal_tells(left: int, right: int)
    requires
        decimal(left) == decimal(right),
    ensures
        left == right,
{
    if left < 0 {
        lemma_digits_are_digits((-left) as nat);
    } else {
        lemma_digits_are_digits(left as nat);
    }
    if right < 0 {
        lemma_digits_are_digits((-right) as nat);
    } else {
        lemma_digits_are_digits(right as nat);
    }
    assert(decimal(left)[0] == decimal(right)[0]);
    if left < 0 && right < 0 {
        assert(decimal(left).subrange(1, decimal(left).len() as int) =~= digits((-left) as nat));
        assert(decimal(right).subrange(1, decimal(right).len() as int) =~= digits(
            (-right) as nat,
        ));
        lemma_digits_tell((-left) as nat, (-right) as nat);
    } else if left >= 0 && right >= 0 {
        lemma_digits_tell(left as nat, right as nat);
    } else if left < 0 {
        assert(decimal(left)[0] == '-');
        assert(decimal(right)[0] == digits(right as nat)[0]);
    } else {
        assert(decimal(right)[0] == '-');
        assert(decimal(left)[0] == digits(left as nat)[0]);
    }
}

} // verus!
