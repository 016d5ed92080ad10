//! Text: comparison, search and concatenation.

use vstd::prelude::*;
use vstd::string::StringExecFns;

verus! {

/// `part` stands somewhere in `text`.
pub open spec fn occurs_in(part: Seq<char>, text: Seq<char>) -> bool {
    exists|i: int|
        0 <= i <= text.len() - part.len() && #[trigger] text.subrange(i, i + part.len()) == part
}

/// Whether two texts are the same.
pub fn same_text(a: &str, b: &str) -> (r: bool)
    ensures
        r == (a@ == b@),
{
    let x = a.as_bytes();
    let y = b.as_bytes();
    proof {
        vstd::utf8::encode_utf8_decode_utf8(a@);
        vstd::utf8::encode_utf8_decode_utf8(b@);
    }
    if x.len() != y.len() {
        return false;
    }
    let mut i: usize = 0;
    while i < x.len()
        invariant
            i <= x@.len(),
            x@.len() == y@.len(),
            x@ == vstd::utf8::encode_utf8(a@),
            y@ == vstd::utf8::encode_utf8(b@),
            forall|j: int| 0 <= j < i ==> x@[j] == y@[j],
        decreases x@.len() - i,
    {
        if x[i] != y[i] {
            return false;
        }
        i = i + 1;
    }
    assert(x@ =~= y@);
    true
}

/// The characters of a text.
fn characters(text: &str) -> (r: Vec<char>)
    ensures
        r@ == text@,
{
    let mut r: Vec<char> = Vec::new();
    for c in iter: text.chars()
        invariant
            iter.seq() == text@,
            r@ == text@.take(iter.index() as int),
    {
        r.push(c);
    }
    assert(text@.take(text@.len() as int) =~= text@);
    r
}

/// Whether `part` stands somewhere in `text`.
pub fn contains(text: &str, part: &str) -> (r: bool)
    ensures
        r == occurs_in(part@, text@),
{
    let t = characters(text);
    let p = characters(part);
    if t.len() < p.len() {
        return false;
    }
    let last: usize = t.len() - p.len();
    let mut i: usize = 0;
    while i < last
        invariant
            t@ == text@,
            p@ == part@,
            last == t@.len() - p@.len(),
            i <= last,
            forall|k: int| 0 <= k < i ==> #[trigger] text@.subrange(k, k + part@.len()) != part@,
        decreases last - i,
    {
        if stands_at(&t, &p, i) {
            return true;
        }
        i = i + 1;
    }
    stands_at(&t, &p, last)
}

/// Whether `part` stands in `text` from position `at` on.
fn stands_at(text: &Vec<char>, part: &Vec<char>, at: usize) -> (r: bool)
    requires
        at + part@.len() <= text@.len(),
    ensures
        r == (text@.subrange(at as int, at + part@.len()) == part@),
{
    let ghost here = text@.subrange(at as int, at + part@.len());
    let len: usize = text.len();
    let mut j: usize = 0;
    while j < part.len()
        invariant
            j <= part@.len(),
            at + part@.len() <= len,
            len == text@.len(),
            here == text@.subrange(at as int, at + part@.len()),
            forall|k: int| 0 <= k < j ==> here[k] == part@[k],
        decreases part@.len() - j,
    {
        if text[at + j] != part[j] {
            assert(here[j as int] != part@[j as int]);
            return false;
        }
        j = j + 1;
    }
    assert(here =~= part@);
    true
}

/// `a` followed by `b`.
pub fn concatenated(a: &str, b: &str) -> (r: String)
    ensures
        r@ == a@ + b@,
{
    let mut r = a.to_owned();
    r.append(b);
    r
}

/// A decimal digit.
pub open spec fn digit(d: nat) -> Seq<char> {
    if d == 0 {
        "0"@
    } else if d == 1 {
        "1"@
    } else if d == 2 {
        "2"@
    } else if d == 3 {
        "3"@
    } else if d == 4 {
        "4"@
    } else if d == 5 {
        "5"@
    } else if d == 6 {
        "6"@
    } else if d == 7 {
        "7"@
    } else if d == 8 {
        "8"@
    } else {
        "9"@
    }
}

/// A number in decimal notation.
pub open spec fn decimal(n: nat) -> Seq<char>
    decreases n,
{
    if n < 10 {
        digit(n)
    } else {
        decimal(n / 10) + digit(n % 10)
    }
}

/// A decimal digit.
fn digit_text(d: u64) -> (r: &'static str)
    requires
        d < 10,
    ensures
        r@ == digit(d as nat),
{
    match d {
        0 => "0",
        1 => "1",
        2 => "2",
        3 => "3",
        4 => "4",
        5 => "5",
        6 => "6",
        7 => "7",
        8 => "8",
        _ => "9",
    }
}

/// A number in decimal notation.
pub fn decimal_text(n: u64) -> (r: String)
    ensures
        r@ == decimal(n as nat),
    decreases n,
{
    if n < 10 {
        digit_text(n).to_owned()
    } else {
        concatenated(decimal_text(n / 10).as_str(), digit_text(n % 10))
    }
}

/// A number in decimal notation, with its sign where it is negative.
pub open spec fn signed_decimal(v: int) -> Seq<char> {
    if v < 0 {
        "-"@ + decimal((-v) as nat)
    } else {
        decimal(v as nat)
    }
}

/// A number in decimal notation, with its sign where it is negative.
pub fn signed_decimal_text(v: i64) -> (r: String)
    ensures
        r@ == signed_decimal(v as int),
{
    if v < 0 {
        let magnitude: u64 = (-(v + 1)) as u64 + 1;
        concatenated("-", decimal_text(magnitude).as_str())
    } else {
        decimal_text(v as u64)
    }
}

/// A text stands in another exactly when the other is something, then the text, then something.
pub proof fn law_occurrence(part: Seq<char>, text: Seq<char>)
    ensures
        occurs_in(part, text) <==> exists|before: Seq<char>, after: Seq<char>|
            #[trigger] (before + part + after) == text,
{
    if occurs_in(part, text) {
        let i = choose|i: int|
            0 <= i <= text.len() - part.len() && #[trigger] text.subrange(i, i + part.len()) == part;
        let before = text.take(i);
        let after = text.skip(i + part.len());
        let here = text.subrange(i, i + part.len());
        assert(before + here + after =~= text);
        assert(before + part + after == text);
    }
    if exists|before: Seq<char>, after: Seq<char>| #[trigger] (before + part + after) == text {
        let (before, after) = choose|before: Seq<char>, after: Seq<char>|
            #[trigger] (before + part + after) == text;
        let i = before.len() as int;
        assert(text.subrange(i, i + part.len()) =~= part);
    }
}

/// The number that a text of decimal digits stands for.
pub open spec fn number_of(digits: Seq<char>) -> int
    decreases digits.len(),
{
    if digits.len() == 0 {
        0
    } else {
        10 * number_of(digits.drop_last()) + (digits.last() as int - '0' as int)
    }
}

/// A number in decimal notation is a text of decimal digits that stands for the number, without
/// zeros before it; a negative one has its sign in front.
pub proof fn law_decimal(n: nat)
    ensures
        number_of(decimal(n)) == n,
        decimal(n).len() >= 1,
        forall|i: int| 0 <= i < decimal(n).len() ==> '0' <= #[trigger] decimal(n)[i] <= '9',
        n > 0 ==> decimal(n)[0] != '0',
        signed_decimal(n as int) == decimal(n),
        n > 0 ==> signed_decimal(-n) == seq!['-'] + decimal(n),
    decreases n,
{
    reveal_strlit("-");
    assert("-"@ =~= seq!['-']);
    lemma_digit(n % 10);
    let last = digit(n % 10);
    if n < 10 {
        assert(decimal(n).drop_last() =~= Seq::empty());
        assert(number_of(decimal(n).drop_last()) == 0);
    } else {
        let front = decimal(n / 10);
        law_decimal(n / 10);
        assert((front + last).drop_last() =~= front);
        assert((front + last).last() == last[0]);
        assert(number_of(front + last) == 10 * (n / 10) + n % 10);
    }
}

proof fn lemma_digit(d: nat)
    requires
        d < 10,
    ensures
        digit(d).len() == 1,
        digit(d)[0] as int == '0' as int + d,
{
    reveal_strlit("0");
    reveal_strlit("1");
    reveal_strlit("2");
    reveal_strlit("3");
    reveal_strlit("4");
    reveal_strlit("5");
    reveal_strlit("6");
    reveal_strlit("7");
    reveal_strlit("8");
    reveal_strlit("9");
}

} // verus!
