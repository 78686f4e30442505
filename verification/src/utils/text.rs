//! Operations on text, stated over sequences of characters.

use vstd::prelude::*;
use vstd::string::*;

verus! {

/// Whether `c` is white space as Unicode defines it (White_Space).
pub open spec fn is_whitespace(c: char) -> bool {
    let n = c as u32;
    ||| 0x09 <= n <= 0x0D
    ||| n == 0x20
    ||| n == 0x85
    ||| n == 0xA0
    ||| n == 0x1680
    ||| 0x2000 <= n <= 0x200A
    ||| n == 0x2028
    ||| n == 0x2029
    ||| n == 0x202F
    ||| n == 0x205F
    ||| n == 0x3000
}

/// The longest prefix of `s` that does not end in whitespace.
pub open spec fn trim_end(s: Seq<char>) -> Seq<char>
    decreases s.len(),
{
    if s.len() > 0 && is_whitespace(s.last()) {
        trim_end(s.drop_last())
    } else {
        s
    }
}

/// `line` without one trailing carriage return, if it has one.
pub open spec fn strip_cr(line: Seq<char>) -> Seq<char> {
    if line.len() > 0 && line.last() == '\r' {
        line.drop_last()
    } else {
        line
    }
}

/// The lines of `s`. A line ends at a line feed, or at a carriage return
/// followed by a line feed, and holds neither. What follows the last line feed is
/// a line as it stands, unless it is empty.
///
/// The first line feed always lies within `s`; the bounds are asked for only to
/// show that the rest is shorter.
pub open spec fn lines(s: Seq<char>) -> Seq<Seq<char>>
    decreases s.len(),
{
    if s.len() == 0 {
        Seq::empty()
    } else {
        match s.index_of_first('\n') {
            Some(i) => if 0 <= i < s.len() {
                seq![strip_cr(s.subrange(0, i))] + lines(s.subrange(i + 1, s.len() as int))
            } else {
                seq![s]
            },
            None => seq![s],
        }
    }
}

/// Whether `s` begins with `prefix`.
pub open spec fn starts_with(s: Seq<char>, prefix: Seq<char>) -> bool {
    prefix.len() <= s.len() && s.subrange(0, prefix.len() as int) == prefix
}

/// Whether `s` ends with `suffix`.
pub open spec fn ends_with(s: Seq<char>, suffix: Seq<char>) -> bool {
    suffix.len() <= s.len() && s.subrange(s.len() - suffix.len(), s.len() as int) == suffix
}

/// The character that stands for the digit `d`.
pub open spec fn digit(d: nat) -> char
    recommends
        d < 10,
{
    if d == 0 {
        '0'
    } else if d == 1 {
        '1'
    } else if d == 2 {
        '2'
    } else if d == 3 {
        '3'
    } else if d == 4 {
        '4'
    } else if d == 5 {
        '5'
    } else if d == 6 {
        '6'
    } else if d == 7 {
        '7'
    } else if d == 8 {
        '8'
    } else {
        '9'
    }
}

/// `n` written in base ten, without leading zeros.
pub open spec fn decimal(n: nat) -> Seq<char>
    decreases n,
{
    if n < 10 {
        seq![digit(n)]
    } else {
        decimal(n / 10).push(digit(n % 10))
    }
}

/// Returns the characters of `text`.
pub fn chars(text: &str) -> (v: Vec<char>)
    ensures
        v@ == text@,
{
    let mut v: Vec<char> = Vec::new();
    for c in it: text.chars()
        invariant
            v@ == it.seq().take(it.index()),
            it.seq() == text@,
    {
        v.push(c);
    }
    v
}

/// Tells whether `a` and `b` hold the same characters.
pub fn equal(a: &str, b: &str) -> (r: bool)
    ensures
        r == (a@ == b@),
{
    let x = chars(a);
    let y = chars(b);
    if x.len() != y.len() {
        return false;
    }
    let mut i: usize = 0;
    while i < x.len()
        invariant
            i <= x.len(),
            x.len() == y.len(),
            x@ == a@,
            y@ == b@,
            forall|j: int| 0 <= j < i ==> x@[j] == y@[j],
        decreases x.len() - i,
    {
        if x[i] != y[i] {
            return false;
        }
        i += 1;
    }
    assert(x@ =~= y@);
    true
}

/// Returns where `c` first stands in `text`.
pub fn first_index_of(text: &Vec<char>, c: char) -> (r: Option<usize>)
    ensures
        r is Some <==> text@.index_of_first(c) is Some,
        r is Some ==> r->Some_0 == text@.index_of_first(c)->Some_0 && r->Some_0 < text@.len() && text@[r->Some_0 as int] == c,
{
    let mut i: usize = 0;
    while i < text.len()
        invariant
            i <= text.len(),
            forall|j: int| 0 <= j < i ==> text@[j] != c,
        decreases text.len() - i,
    {
        if text[i] == c {
            proof {
                text@.index_of_first_ensures(c);
                assert(text@.contains(c));
            }
            return Some(i);
        }
        i += 1;
    }
    proof {
        text@.index_of_first_ensures(c);
    }
    None
}

/// Returns where `c` first stands in `text` at or after `from`.
pub fn first_index_from(text: &Vec<char>, c: char, from: usize) -> (r: Option<usize>)
    requires
        from <= text@.len(),
    ensures
        r is Some <==> text@.skip(from as int).index_of_first(c) is Some,
        r is Some ==> r->Some_0 == from + text@.skip(from as int).index_of_first(c)->Some_0
            && from <= r->Some_0 < text@.len() && text@[r->Some_0 as int] == c,
{
    let ghost rest = text@.skip(from as int);
    let mut i: usize = from;
    while i < text.len()
        invariant
            from <= i <= text.len(),
            rest == text@.skip(from as int),
            forall|j: int| from <= j < i ==> text@[j] != c,
        decreases text.len() - i,
    {
        if text[i] == c {
            proof {
                rest.index_of_first_ensures(c);
                assert(rest[i - from] == c);
                assert(rest.contains(c));
                let first = rest.index_of_first(c)->Some_0;
                if first < i - from {
                    assert(text@[from + first] == rest[first]);
                }
            }
            return Some(i);
        }
        i += 1;
    }
    proof {
        rest.index_of_first_ensures(c);
        if rest.contains(c) {
            let k = choose|k: int| 0 <= k < rest.len() && rest[k] == c;
            assert(text@[from + k] == rest[k]);
        }
    }
    None
}

/// Returns where `c` last stands in `text`.
pub fn last_index_of(text: &Vec<char>, c: char) -> (r: Option<usize>)
    ensures
        r is Some <==> text@.index_of_last(c) is Some,
        r is Some ==> r->Some_0 == text@.index_of_last(c)->Some_0 && r->Some_0 < text@.len() && text@[r->Some_0 as int] == c,
{
    let mut i: usize = text.len();
    while i > 0
        invariant
            i <= text.len(),
            forall|j: int| i <= j < text.len() ==> text@[j] != c,
        decreases i,
    {
        i -= 1;
        if text[i] == c {
            proof {
                text@.index_of_last_ensures(c);
                assert(text@.contains(c));
            }
            return Some(i);
        }
    }
    proof {
        text@.index_of_last_ensures(c);
    }
    None
}

/// Tells whether `text` begins with `prefix`.
pub fn begins_with(text: &Vec<char>, prefix: &Vec<char>) -> (r: bool)
    ensures
        r == starts_with(text@, prefix@),
{
    if prefix.len() > text.len() {
        return false;
    }
    let mut i: usize = 0;
    while i < prefix.len()
        invariant
            i <= prefix.len() <= text.len(),
            forall|j: int| 0 <= j < i ==> text@[j] == prefix@[j],
        decreases prefix.len() - i,
    {
        if text[i] != prefix[i] {
            assert(text@.subrange(0, prefix@.len() as int)[i as int] != prefix@[i as int]);
            return false;
        }
        i += 1;
    }
    assert(text@.subrange(0, prefix@.len() as int) =~= prefix@);
    true
}

/// Tells whether `text` ends with `suffix`.
pub fn finishes_with(text: &Vec<char>, suffix: &Vec<char>) -> (r: bool)
    ensures
        r == ends_with(text@, suffix@),
{
    if suffix.len() > text.len() {
        return false;
    }
    let start: usize = text.len() - suffix.len();
    let mut i: usize = 0;
    while i < suffix.len()
        invariant
            i <= suffix.len() <= text.len(),
            start == text.len() - suffix.len(),
            forall|j: int| 0 <= j < i ==> text@[start + j] == suffix@[j],
        decreases suffix.len() - i,
    {
        if text[start + i] != suffix[i] {
            assert(text@.subrange(start as int, text@.len() as int)[i as int] != suffix@[i as int]);
            return false;
        }
        i += 1;
    }
    assert(text@.subrange(start as int, text@.len() as int) =~= suffix@);
    true
}

/// Tells whether `c` is whitespace.
pub fn whitespace(c: char) -> (r: bool)
    ensures
        r == is_whitespace(c),
{
    let n: u32 = c as u32;
    (0x09 <= n && n <= 0x0D) || n == 0x20 || n == 0x85 || n == 0xA0 || n == 0x1680 || (0x2000 <= n
        && n <= 0x200A) || n == 0x2028 || n == 0x2029 || n == 0x202F || n == 0x205F || n == 0x3000
}

/// Returns the one character that stands for the digit `d`.
fn digit_text(d: usize) -> (r: &'static str)
    requires
        d < 10,
    ensures
        r@ == seq![digit(d as nat)],
{
    proof {
        reveal_strlit("0");
        reveal_strlit("1");
        reveal_strlit("2");
        reveal_strlit("3");
        reveal_strlit("4");
        reveal_strlit("5");
        reveal_strlit("6");
        reveal_strlit("7");
        reveal_strlit("8");
        reveal_strlit("9");
    }
    let r = if d == 0 {
        "0"
    } else if d == 1 {
        "1"
    } else if d == 2 {
        "2"
    } else if d == 3 {
        "3"
    } else if d == 4 {
        "4"
    } else if d == 5 {
        "5"
    } else if d == 6 {
        "6"
    } else if d == 7 {
        "7"
    } else if d == 8 {
        "8"
    } else {
        "9"
    };
    assert(r@ =~= seq![digit(d as nat)]);
    r
}

/// Writes `n` in base ten.
pub fn to_decimal(n: usize) -> (r: String)
    ensures
        r@ == decimal(n as nat),
    decreases n,
{
    if n < 10 {
        String::from_str(digit_text(n))
    } else {
        let mut r = to_decimal(n / 10);
        r.append(digit_text(n % 10));
        assert(r@ =~= decimal(n as nat));
        r
    }
}

} // verus!
