//! Text as sequences of characters: taking a string apart, putting one
//! together, and replacing one run of characters by another.

use vstd::prelude::*;
use vstd::std_specs::iter::IteratorSpec;

verus! {

/// Whether `prefix` is an initial segment of `text`.
pub open spec fn is_prefix_of(prefix: Seq<char>, text: Seq<char>) -> bool {
    prefix.len() <= text.len() && text.subrange(0, prefix.len() as int) == prefix
}

/// Whether `part` stands in `text` at position `at`.
pub open spec fn occurs_at(text: Seq<char>, part: Seq<char>, at: int) -> bool {
    0 <= at && at + part.len() <= text.len() && text.subrange(at, at + part.len()) == part
}

/// `text` with every occurrence of `from` replaced by `to`, found from left
/// to right, the search going on behind each occurrence. An empty `from`
/// occurs nowhere.
pub open spec fn replaced(text: Seq<char>, from: Seq<char>, to: Seq<char>) -> Seq<char>
    decreases text.len(),
{
    if from.len() == 0 || text.len() < from.len() {
        text
    } else if occurs_at(text, from, 0) {
        to + replaced(text.skip(from.len() as int), from, to)
    } else {
        seq![text[0]] + replaced(text.skip(1), from, to)
    }
}

/// Appends one character with `String::push`: the text grows by exactly that
/// character at its end.
#[verifier::external_body]
fn push_char(s: &mut String, c: char)
    ensures
        final(s)@ == old(s)@.push(c),
{
    s.push(c)
}

/// The characters of a string.
pub fn chars_of(s: &str) -> (v: Vec<char>)
    ensures
        v@ == s@,
{
    broadcast use vstd::string::group_string_axioms;

    let mut it = s.chars();
    let mut v: Vec<char> = Vec::new();
    let ghost all = s@;
    assert(it.remaining() == all);
    loop
        invariant
            it.obeys_prophetic_iter_laws(),
            it.decrease() is Some,
            v@ + it.remaining() == all,
            all == s@,
        decreases it.decrease()->0,
    {
        let ghost before = it.remaining();
        match it.next() {
            Some(c) => {
                v.push(c);
                assert(v@ + it.remaining() =~= all) by {
                    assert(before =~= seq![c] + before.drop_first());
                }
            },
            None => {
                assert(v@ =~= all);
                return v;
            },
        }
    }
}

/// The string made of the characters.
pub fn text_of(v: &Vec<char>) -> (s: String)
    ensures
        s@ == v@,
{
    let mut s = String::new();
    let mut i: usize = 0;
    while i < v.len()
        invariant
            i <= v.len(),
            s@ == v@.take(i as int),
        decreases v.len() - i,
    {
        push_char(&mut s, v[i]);
        assert(v@.take(i + 1) =~= v@.take(i as int).push(v@[i as int]));
        i += 1;
    }
    assert(v@.take(v.len() as int) =~= v@);
    s
}

/// Tests whether `part` stands in `text` at position `at`.
pub fn matches_at(text: &Vec<char>, part: &Vec<char>, at: usize) -> (b: bool)
    requires
        at <= text.len(),
    ensures
        b == occurs_at(text@, part@, at as int),
{
    if part.len() > text.len() - at {
        return false;
    }
    let mut j: usize = 0;
    while j < part.len()
        invariant
            j <= part.len(),
            at + part.len() <= text.len(),
            forall|k: int| 0 <= k < j ==> text@[at + k] == part@[k],
        decreases part.len() - j,
    {
        if text[at + j] != part[j] {
            assert(text@.subrange(at as int, at + part.len())[j as int] != part@[j as int]);
            return false;
        }
        j += 1;
    }
    assert(text@.subrange(at as int, at + part.len()) =~= part@);
    true
}

/// Tests whether `text` begins with `prefix`.
pub fn starts_with(text: &str, prefix: &str) -> (b: bool)
    ensures
        b == is_prefix_of(prefix@, text@),
{
    let t = chars_of(text);
    let p = chars_of(prefix);
    matches_at(&t, &p, 0)
}

/// Replaces every occurrence of `from` in `text` by `to`.
pub fn replace_chars(text: &Vec<char>, from: &Vec<char>, to: &Vec<char>) -> (out: Vec<char>)
    ensures
        out@ == replaced(text@, from@, to@),
{
    let mut out: Vec<char> = Vec::new();
    if from.len() == 0 {
        let mut k: usize = 0;
        while k < text.len()
            invariant
                k <= text.len(),
                out@ == text@.take(k as int),
            decreases text.len() - k,
        {
            out.push(text[k]);
            assert(text@.take(k + 1) =~= text@.take(k as int).push(text@[k as int]));
            k += 1;
        }
        assert(text@.take(text.len() as int) =~= text@);
        return out;
    }
    let mut i: usize = 0;
    assert(text@.skip(0) =~= text@);
    assert(out@ + replaced(text@, from@, to@) =~= replaced(text@, from@, to@));
    while i < text.len()
        invariant
            from.len() > 0,
            i <= text.len(),
            out@ + replaced(text@.skip(i as int), from@, to@) == replaced(text@, from@, to@),
        decreases text.len() - i,
    {
        let ghost rest = text@.skip(i as int);
        let ghost done = out@;
        if matches_at(text, from, i) {
            assert(occurs_at(rest, from@, 0)) by {
                assert(rest.subrange(0, from@.len() as int) =~= text@.subrange(
                    i as int,
                    i + from@.len(),
                ));
            }
            let mut k: usize = 0;
            while k < to.len()
                invariant
                    k <= to.len(),
                    out@ == done + to@.take(k as int),
                decreases to.len() - k,
            {
                out.push(to[k]);
                assert(to@.take(k + 1) =~= to@.take(k as int).push(to@[k as int]));
                k += 1;
            }
            assert(to@.take(to.len() as int) =~= to@);
            assert(rest.skip(from@.len() as int) =~= text@.skip(i + from@.len()));
            assert(out@ + replaced(text@.skip(i + from@.len()), from@, to@) =~= done + replaced(
                rest,
                from@,
                to@,
            ));
            i += from.len();
        } else {
            out.push(text[i]);
            assert(rest.skip(1) =~= text@.skip(i + 1));
            proof {
                if rest.len() < from@.len() {
                    lemma_short_tail(rest, from@, to@);
                } else {
                    assert(!occurs_at(rest, from@, 0)) by {
                        assert(rest.subrange(0, from@.len() as int) =~= text@.subrange(
                            i as int,
                            i + from@.len(),
                        ));
                    }
                }
                assert(out@ + replaced(text@.skip(i + 1), from@, to@) =~= done + replaced(
                    rest,
                    from@,
                    to@,
                ));
            }
            i += 1;
        }
    }
    assert(text@.skip(text.len() as int) =~= Seq::<char>::empty());
    assert(out@ =~= out@ + replaced(text@.skip(text.len() as int), from@, to@));
    out
}

/// A text shorter than what is looked for stays as it is, and so does it
/// with its first character split off.
pub proof fn lemma_short_tail(text: Seq<char>, from: Seq<char>, to: Seq<char>)
    requires
        0 < text.len() < from.len(),
    ensures
        replaced(text, from, to) == text,
        replaced(text.skip(1), from, to) == text.skip(1),
        text == seq![text[0]] + text.skip(1),
{
    assert(text =~= seq![text[0]] + text.skip(1));
}

/// Where the first character of what is looked for does not occur at all,
/// replacing changes nothing.
pub proof fn lemma_replaced_without(text: Seq<char>, from: Seq<char>, to: Seq<char>)
    requires
        from.len() > 0,
        !text.contains(from[0]),
    ensures
        replaced(text, from, to) == text,
    decreases text.len(),
{
    if text.len() >= from.len() {
        assert(text[0] != from[0]) by {
            assert(text.contains(text[0]));
        }
        assert(!occurs_at(text, from, 0)) by {
            if occurs_at(text, from, 0) {
                assert(text.subrange(0, from.len() as int)[0] == from[0]);
            }
        }
        assert(!text.skip(1).contains(from[0])) by {
            if text.skip(1).contains(from[0]) {
                let i = choose|i: int| 0 <= i < text.skip(1).len() && text.skip(1)[i] == from[0];
                assert(text[i + 1] == from[0]);
            }
        }
        lemma_replaced_without(text.skip(1), from, to);
        assert(text =~= seq![text[0]] + text.skip(1));
    }
}

/// The character of a decimal digit.
pub open spec fn digit(d: nat) -> char {
    if d == 0 {
        '0'
    } else if d == 1 {
        '1'
    } else if d == 2 {
        '2'
    } else if d == 3 {
        '3'
    } else if d == 4 {
        '4'
    } else if d == 5 {
        '5'
    } else if d == 6 {
        '6'
    } else if d == 7 {
        '7'
    } else if d == 8 {
        '8'
    } else {
        '9'
    }
}

/// A number in decimal digits, without leading zeros.
pub open spec fn digits(n: nat) -> Seq<char>
    decreases n,
{
    if n < 10 {
        seq![digit(n)]
    } else {
        digits(n / 10).push(digit(n % 10))
    }
}

/// The character of a decimal digit.
pub fn digit_char(d: u32) -> (c: char)
    requires
        d < 10,
    ensures
        c == digit(d as nat),
{
    if d == 0 {
        '0'
    } else if d == 1 {
        '1'
    } else if d == 2 {
        '2'
    } else if d == 3 {
        '3'
    } else if d == 4 {
        '4'
    } else if d == 5 {
        '5'
    } else if d == 6 {
        '6'
    } else if d == 7 {
        '7'
    } else if d == 8 {
        '8'
    } else {
        '9'
    }
}

/// Writes a number in decimal digits.
pub fn decimal(n: u32) -> (s: String)
    ensures
        s@ == digits(n as nat),
    decreases n,
{
    if n < 10 {
        let mut s = String::new();
        push_char(&mut s, digit_char(n));
        assert(s@ =~= seq![digit(n as nat)]);
        s
    } else {
        let mut s = decimal(n / 10);
        push_char(&mut s, digit_char(n % 10));
        s
    }
}

/// Whether the character is white space, that is, whether it has the
/// Unicode property White_Space: the controls from tab to carriage return,
/// the space, next line, the no-break space, the Ogham space mark, the spaces
/// from en quad to hair space, the line and paragraph separators, the narrow
/// no-break space, the medium mathematical space and the ideographic space.
pub open spec fn is_white_space(c: char) -> bool {
    let n = c as u32;
    ||| 0x09 <= n <= 0x0d
    ||| n == 0x20
    ||| n == 0x85
    ||| n == 0xa0
    ||| n == 0x1680
    ||| 0x2000 <= n <= 0x200a
    ||| n == 0x2028
    ||| n == 0x2029
    ||| n == 0x202f
    ||| n == 0x205f
    ||| n == 0x3000
}

/// Tests whether a character is white space.
pub fn white_space(c: char) -> (b: bool)
    ensures
        b == is_white_space(c),
{
    let n = c as u32;
    (0x09 <= n && n <= 0x0d) || n == 0x20 || n == 0x85 || n == 0xa0 || n == 0x1680 || (0x2000 <= n
        && n <= 0x200a) || n == 0x2028 || n == 0x2029 || n == 0x202f || n == 0x205f || n == 0x3000
}

/// How many characters of white space stand at the front of the text.
pub open spec fn leading_space(text: Seq<char>) -> nat
    decreases text.len(),
{
    if text.len() > 0 && is_white_space(text[0]) {
        1 + leading_space(text.skip(1))
    } else {
        0
    }
}

/// How many characters of white space stand at the end of the text.
pub open spec fn trailing_space(text: Seq<char>) -> nat
    decreases text.len(),
{
    if text.len() > 0 && is_white_space(text.last()) {
        1 + trailing_space(text.drop_last())
    } else {
        0
    }
}

/// The text without the white space at its front and at its end.
pub open spec fn trimmed(text: Seq<char>) -> Seq<char> {
    let front = text.skip(leading_space(text) as int);
    front.take(front.len() - trailing_space(front))
}

/// The text without the white space at its front and at its end.
pub fn trim(text: &str) -> (out: String)
    ensures
        out@ == trimmed(text@),
{
    let v = chars_of(text);
    let mut from: usize = 0;
    assert(v@.skip(0) =~= v@);
    while from < v.len() && white_space(v[from])
        invariant
            from <= v.len(),
            leading_space(v@) == from + leading_space(v@.skip(from as int)),
        decreases v.len() - from,
    {
        assert(v@.skip(from as int).skip(1) =~= v@.skip(from + 1));
        from += 1;
    }
    assert(leading_space(v@) == from);
    let ghost front = v@.skip(from as int);
    let mut to: usize = v.len();
    assert(front.take(front.len() as int) =~= front);
    while to > from && white_space(v[to - 1])
        invariant
            from <= to <= v.len(),
            front == v@.skip(from as int),
            trailing_space(front) == (v.len() - to) + trailing_space(front.take(to - from)),
        decreases to - from,
    {
        assert(front.take(to - from).last() == v@[to - 1]);
        assert(front.take(to - from).drop_last() =~= front.take(to - from - 1));
        to -= 1;
    }
    assert(trailing_space(front) == v.len() - to) by {
        if to > from {
            assert(front.take(to - from).last() == v@[to - 1]);
        }
    }
    let mut out: Vec<char> = Vec::new();
    let mut i: usize = from;
    while i < to
        invariant
            from <= i <= to <= v.len(),
            out@ == v@.subrange(from as int, i as int),
        decreases to - i,
    {
        out.push(v[i]);
        assert(v@.subrange(from as int, i + 1) =~= v@.subrange(from as int, i as int).push(
            v@[i as int],
        ));
        i += 1;
    }
    assert(v@.subrange(from as int, to as int) =~= front.take(front.len() - (v.len() - to)));
    text_of(&out)
}

} // verus!
