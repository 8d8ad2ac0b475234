//! Character-level text primitives: trimming, substring search and
//! replacement, and zero-padded decimal numbers.
//!
//! Every function here is stated over `Seq<char>`, the view of a string.

use crate::std_text::{is_white_space, push_char, white_space};
use vstd::prelude::*;

verus! {

/// The characters of a string slice, in order.
pub fn chars_of(s: &str) -> (v: Vec<char>)
    ensures
        v@ == s@,
{
    let mut v: Vec<char> = Vec::new();
    for c in it: s.chars()
        invariant
            v@ == it.history(),
            it.seq() == s@,
    {
        v.push(c);
    }
    v
}

/// The string made of the given characters, in order.
pub fn string_of(v: &Vec<char>) -> (s: String)
    ensures
        s@ == v@,
{
    let mut s = String::new();
    let mut i: usize = 0;
    while i < v.len()
        invariant
            i <= v.len(),
            s@ == v@.take(i as int),
        decreases v.len() - i,
    {
        push_char(&mut s, v[i]);
        i += 1;
    }
    s
}

/// `s` without its trailing white space.
pub open spec fn trim_end_spec(s: Seq<char>) -> Seq<char>
    decreases s.len(),
{
    if s.len() > 0 && white_space(s.last()) {
        trim_end_spec(s.drop_last())
    } else {
        s
    }
}

/// `s` without its leading white space.
pub open spec fn trim_start_spec(s: Seq<char>) -> Seq<char>
    decreases s.len(),
{
    if s.len() > 0 && white_space(s.first()) {
        trim_start_spec(s.drop_first())
    } else {
        s
    }
}

/// `s` without its leading and trailing white space.
pub open spec fn trim_spec(s: Seq<char>) -> Seq<char> {
    trim_end_spec(trim_start_spec(s))
}

/// The length of `v` once its trailing white space is cut off.
pub fn trim_end_len(v: &Vec<char>) -> (end: usize)
    ensures
        end <= v.len(),
        v@.take(end as int) == trim_end_spec(v@),
{
    let mut end: usize = v.len();
    assert(v@.take(end as int) == v@);
    while end > 0 && is_white_space(v[end - 1])
        invariant
            end <= v.len(),
            trim_end_spec(v@.take(end as int)) == trim_end_spec(v@),
        decreases end,
    {
        assert(v@.take(end as int).drop_last() == v@.take(end - 1));
        end -= 1;
    }
    end
}

/// The number of leading white-space characters of `v`.
pub fn trim_start_len(v: &Vec<char>) -> (start: usize)
    ensures
        start <= v.len(),
        v@.skip(start as int) == trim_start_spec(v@),
{
    let mut start: usize = 0;
    assert(v@.skip(0) == v@);
    while start < v.len() && is_white_space(v[start])
        invariant
            start <= v.len(),
            trim_start_spec(v@.skip(start as int)) == trim_start_spec(v@),
        decreases v.len() - start,
    {
        assert(v@.skip(start as int).drop_first() == v@.skip(start + 1));
        start += 1;
    }
    start
}

/// Trailing white space removed.
pub fn trim_end(s: &str) -> (r: &str)
    ensures
        r@ == trim_end_spec(s@),
{
    let v = chars_of(s);
    let end = trim_end_len(&v);
    s.substring_char(0, end)
}

/// Leading and trailing white space removed.
pub fn trim(s: &str) -> (r: &str)
    ensures
        r@ == trim_spec(s@),
{
    let v = chars_of(s);
    let start = trim_start_len(&v);
    let rest = s.substring_char(start, v.len());
    trim_end(rest)
}

/// Whether `pat` stands in `s` at position `k`.
pub open spec fn occurs_at(s: Seq<char>, pat: Seq<char>, k: int) -> bool {
    &&& 0 <= k
    &&& k + pat.len() <= s.len()
    &&& s.subrange(k, k + pat.len()) == pat
}

/// Whether `pat` stands somewhere in `s`.
pub open spec fn contains_spec(s: Seq<char>, pat: Seq<char>) -> bool {
    exists|k: int| occurs_at(s, pat, k)
}

/// Whether `s` ends with the character `c`.
pub open spec fn ends_with_spec(s: Seq<char>, c: char) -> bool {
    s.len() > 0 && s.last() == c
}

/// `to`, then each character of `s` followed by `to`.
pub open spec fn interleaved(s: Seq<char>, to: Seq<char>) -> Seq<char>
    decreases s.len(),
{
    if s.len() == 0 {
        to
    } else {
        to + seq![s[0]] + interleaved(s.skip(1), to)
    }
}

/// `s` with every occurrence of `pat` replaced by `to`, occurrences being
/// found from left to right and not overlapping. The empty `pat` occurs in
/// front of every character and at the end.
pub open spec fn replace_spec(s: Seq<char>, pat: Seq<char>, to: Seq<char>) -> Seq<char>
    decreases s.len(),
{
    if pat.len() == 0 {
        interleaved(s, to)
    } else if s.len() < pat.len() {
        s
    } else if occurs_at(s, pat, 0) {
        to + replace_spec(s.skip(pat.len() as int), pat, to)
    } else {
        seq![s[0]] + replace_spec(s.skip(1), pat, to)
    }
}

/// Whether `pat` stands in `v` at position `k`.
pub fn matches_at(v: &Vec<char>, pat: &Vec<char>, k: usize) -> (b: bool)
    ensures
        b == occurs_at(v@, pat@, k as int),
{
    if pat.len() > v.len() || k > v.len() - pat.len() {
        return false;
    }
    let mut j: usize = 0;
    while j < pat.len()
        invariant
            j <= pat.len(),
            k + pat.len() <= v.len(),
            forall|t: int| 0 <= t < j ==> v@[k + t] == pat@[t],
        decreases pat.len() - j,
    {
        if v[k + j] != pat[j] {
            return false;
        }
        j += 1;
    }
    assert(v@.subrange(k as int, k + pat.len()) =~= pat@);
    true
}

/// Whether `needle` stands somewhere in `hay`.
pub fn contains(hay: &str, needle: &str) -> (b: bool)
    ensures
        b == contains_spec(hay@, needle@),
{
    let v = chars_of(hay);
    let pat = chars_of(needle);
    if pat.len() > v.len() {
        return false;
    }
    let last: usize = v.len() - pat.len();
    let mut k: usize = 0;
    loop
        invariant
            k <= last,
            last == v.len() - pat.len(),
            v@ == hay@,
            pat@ == needle@,
            forall|t: int| 0 <= t < k ==> !occurs_at(hay@, needle@, t),
        decreases last - k,
    {
        if matches_at(&v, &pat, k) {
            return true;
        }
        if k == last {
            return false;
        }
        k += 1;
    }
}

/// Whether `s` ends with the character `c`.
pub fn ends_with(s: &str, c: char) -> (b: bool)
    ensures
        b == ends_with_spec(s@, c),
{
    let v = chars_of(s);
    v.len() > 0 && v[v.len() - 1] == c
}

/// Replacing changes nothing where the text to replace does not occur.
pub proof fn lemma_replace_nothing(s: Seq<char>, pat: Seq<char>, to: Seq<char>)
    requires
        pat.len() > 0,
        !contains_spec(s, pat),
    ensures
        replace_spec(s, pat, to) == s,
    decreases s.len(),
{
    if s.len() >= pat.len() {
        assert(!occurs_at(s, pat, 0));
        assert forall|k: int| !occurs_at(s.skip(1), pat, k) by {
            if occurs_at(s.skip(1), pat, k) {
                assert(s.subrange(k + 1, k + 1 + pat.len()) =~= s.skip(1).subrange(
                    k,
                    k + pat.len(),
                ));
                assert(occurs_at(s, pat, k + 1));
            }
        }
        lemma_replace_nothing(s.skip(1), pat, to);
        assert(seq![s[0]] + s.skip(1) =~= s);
    }
}

/// Replacing in a text that holds its first occurrence of `pat` behind
/// `front` keeps `front`, puts `to` in the place of that occurrence, and
/// goes on behind it.
pub proof fn lemma_replace_first(front: Seq<char>, pat: Seq<char>, back: Seq<char>, to: Seq<char>)
    requires
        pat.len() > 0,
        forall|k: int| 0 <= k < front.len() ==> !occurs_at(front + pat + back, pat, k),
    ensures
        replace_spec(front + pat + back, pat, to) == front + to + replace_spec(back, pat, to),
    decreases front.len(),
{
    let s = front + pat + back;
    if front.len() == 0 {
        assert(s.subrange(0, pat.len() as int) =~= pat);
        assert(s.skip(pat.len() as int) =~= back);
        assert(front + to + replace_spec(back, pat, to) =~= to + replace_spec(back, pat, to));
    } else {
        let rest = front.skip(1);
        assert(s.skip(1) =~= rest + pat + back);
        assert forall|k: int| 0 <= k < rest.len() implies !occurs_at(rest + pat + back, pat, k) by {
            if occurs_at(rest + pat + back, pat, k) {
                assert(s.subrange(k + 1, k + 1 + pat.len()) =~= s.skip(1).subrange(
                    k,
                    k + pat.len(),
                ));
                assert(occurs_at(s, pat, k + 1));
            }
        }
        lemma_replace_first(rest, pat, back, to);
        assert(!occurs_at(s, pat, 0));
        assert(seq![s[0]] + (rest + to + replace_spec(back, pat, to)) =~= front + to + replace_spec(
            back,
            pat,
            to,
        ));
    }
}

/// `hay` with every occurrence of `pat` replaced by `to`.
pub fn replace_all(hay: &str, pat: &str, to: &str) -> (r: String)
    ensures
        r@ == replace_spec(hay@, pat@, to@),
{
    let v = chars_of(hay);
    let p = chars_of(pat);
    let mut out = String::new();
    let mut i: usize = 0;
    assert(v@.skip(0) == v@);
    if p.len() == 0 {
        while i < v.len()
            invariant
                i <= v.len(),
                out@ + interleaved(v@.skip(i as int), to@) == interleaved(v@, to@),
            decreases v.len() - i,
        {
            assert(v@.skip(i as int).skip(1) == v@.skip(i + 1));
            out.append(to);
            push_char(&mut out, v[i]);
            i += 1;
        }
        out.append(to);
        return out;
    }
    while i < v.len()
        invariant
            i <= v.len(),
            p@.len() > 0,
            v@ == hay@,
            p@ == pat@,
            out@ + replace_spec(v@.skip(i as int), p@, to@) == replace_spec(v@, p@, to@),
        decreases v.len() - i,
    {
        let ghost rest = v@.skip(i as int);
        if matches_at(&v, &p, i) {
            assert(rest.subrange(0, p@.len() as int) == v@.subrange(i as int, i + p@.len()));
            assert(rest.skip(p@.len() as int) == v@.skip(i + p@.len()));
            out.append(to);
            i += p.len();
        } else {
            assert(rest.len() >= p@.len() ==> rest.subrange(0, p@.len() as int)
                == v@.subrange(i as int, i + p@.len()));
            assert(rest.skip(1) == v@.skip(i + 1));
            proof {
                lemma_replace_step(rest, p@, to@);
            }
            push_char(&mut out, v[i]);
            i += 1;
        }
    }
    out
}

/// Where `pat` does not stand at the front of a non-empty `s`, replacement
/// keeps the first character and goes on behind it.
proof fn lemma_replace_step(s: Seq<char>, pat: Seq<char>, to: Seq<char>)
    requires
        s.len() > 0,
        pat.len() > 0,
        !occurs_at(s, pat, 0),
    ensures
        replace_spec(s, pat, to) == seq![s[0]] + replace_spec(s.skip(1), pat, to),
{
    if s.len() < pat.len() {
        assert(replace_spec(s.skip(1), pat, to) == s.skip(1));
        assert(seq![s[0]] + s.skip(1) == s);
    }
}

/// How many characters of `s` stand before the first `c`, or the length of
/// `s` where it holds no `c`.
pub open spec fn len_before(s: Seq<char>, c: char) -> nat
    decreases s.len(),
{
    if s.len() == 0 || s[0] == c {
        0
    } else {
        1 + len_before(s.skip(1), c)
    }
}

/// `len_before` is the position of the first `c`: nothing before it is `c`,
/// and unless it is the end of `s`, the character there is `c`.
pub proof fn lemma_len_before(s: Seq<char>, c: char)
    ensures
        len_before(s, c) <= s.len(),
        forall|t: int| 0 <= t < len_before(s, c) ==> s[t] != c,
        len_before(s, c) < s.len() ==> s[len_before(s, c) as int] == c,
    decreases s.len(),
{
    if s.len() > 0 && s[0] != c {
        lemma_len_before(s.skip(1), c);
        assert forall|t: int| 0 <= t < len_before(s, c) implies s[t] != c by {
            if t > 0 {
                assert(s.skip(1)[t - 1] == s[t]);
            }
        }
    }
}

/// The number of characters of `v` before the first `c`.
pub fn find_char(v: &Vec<char>, c: char) -> (k: usize)
    ensures
        k == len_before(v@, c),
{
    let mut k: usize = 0;
    assert(v@.skip(0) == v@);
    while k < v.len() && v[k] != c
        invariant
            k <= v.len(),
            k + len_before(v@.skip(k as int), c) == len_before(v@, c),
        decreases v.len() - k,
    {
        assert(v@.skip(k as int).skip(1) == v@.skip(k + 1));
        k += 1;
    }
    k
}

/// The decimal digit for `d`, which is below ten.
pub open spec fn digit(d: nat) -> char {
    if d == 0 {
        '0'
    } else if d == 1 {
        '1'
    } else if d == 2 {
        '2'
    } else if d == 3 {
        '3'
    } else if d == 4 {
        '4'
    } else if d == 5 {
        '5'
    } else if d == 6 {
        '6'
    } else if d == 7 {
        '7'
    } else if d == 8 {
        '8'
    } else {
        '9'
    }
}

/// `n` in decimal digits, without leading zeros.
pub open spec fn decimal(n: nat) -> Seq<char>
    decreases n,
{
    if n < 10 {
        seq![digit(n)]
    } else {
        decimal(n / 10).push(digit(n % 10))
    }
}

/// `n` in decimal digits, with zeros in front up to `width` digits.
pub open spec fn zero_padded(n: nat, width: nat) -> Seq<char> {
    let digits = decimal(n);
    if digits.len() >= width {
        digits
    } else {
        Seq::new((width - digits.len()) as nat, |i: int| '0') + digits
    }
}

/// The decimal digit for `d`.
fn digit_of(d: usize) -> (c: char)
    requires
        d < 10,
    ensures
        c == digit(d as nat),
{
    if d == 0 {
        '0'
    } else if d == 1 {
        '1'
    } else if d == 2 {
        '2'
    } else if d == 3 {
        '3'
    } else if d == 4 {
        '4'
    } else if d == 5 {
        '5'
    } else if d == 6 {
        '6'
    } else if d == 7 {
        '7'
    } else if d == 8 {
        '8'
    } else {
        '9'
    }
}

/// The decimal digits of `n`.
fn decimal_digits(n: usize) -> (v: Vec<char>)
    ensures
        v@ == decimal(n as nat),
    decreases n,
{
    if n < 10 {
        let mut v: Vec<char> = Vec::new();
        v.push(digit_of(n));
        v
    } else {
        let mut v = decimal_digits(n / 10);
        v.push(digit_of(n % 10));
        v
    }
}

/// `n` in decimal, with zeros in front up to `width` digits.
pub fn format_padded(n: usize, width: usize) -> (s: String)
    ensures
        s@ == zero_padded(n as nat, width as nat),
{
    let digits = decimal_digits(n);
    let mut s = String::new();
    if digits.len() < width {
        let fill: usize = width - digits.len();
        let mut i: usize = 0;
        while i < fill
            invariant
                i <= fill,
                s@ == Seq::new(i as nat, |k: int| '0'),
            decreases fill - i,
        {
            push_char(&mut s, '0');
            i += 1;
        }
    }
    let tail = string_of(&digits);
    s.append(tail.as_str());
    s
}

/// How many characters of `s` stand behind the last `c`, or the length of
/// `s` where it holds no `c`.
pub open spec fn len_behind(s: Seq<char>, c: char) -> nat
    decreases s.len(),
{
    if s.len() == 0 || s.last() == c {
        0
    } else {
        1 + len_behind(s.drop_last(), c)
    }
}

/// What stands in `s` behind the last `c`; all of `s` where it holds no `c`.
pub open spec fn after_last_spec(s: Seq<char>, c: char) -> Seq<char> {
    s.skip(s.len() - len_behind(s, c))
}

/// `len_behind` marks the last `c`: nothing behind it is `c`, and unless
/// all of `s` is behind it, the character in front is `c`.
pub proof fn lemma_len_behind(s: Seq<char>, c: char)
    ensures
        len_behind(s, c) <= s.len(),
        forall|t: int| s.len() - len_behind(s, c) <= t < s.len() ==> s[t] != c,
        len_behind(s, c) < s.len() ==> s[s.len() - len_behind(s, c) - 1] == c,
    decreases s.len(),
{
    if s.len() > 0 && s.last() != c {
        lemma_len_behind(s.drop_last(), c);
        assert forall|t: int| s.len() - len_behind(s, c) <= t < s.len() implies s[t] != c by {
            if t < s.len() - 1 {
                assert(s.drop_last()[t] == s[t]);
            }
        }
    }
}

/// What stands in `s` behind the last `c`; all of `s` where it holds no `c`.
pub fn after_last(s: &str, c: char) -> (r: &str)
    ensures
        r@ == after_last_spec(s@, c),
        r@.len() <= s@.len(),
        r@ == s@.skip(s@.len() - r@.len()),
        !r@.contains(c),
        r@.len() < s@.len() ==> s@[s@.len() - r@.len() - 1] == c,
{
    proof {
        lemma_len_behind(s@, c);
    }
    let v = chars_of(s);
    let mut start: usize = v.len();
    assert(v@.take(start as int) == v@);
    while start > 0 && v[start - 1] != c
        invariant
            start <= v.len(),
            len_behind(v@, c) == (v.len() - start) + len_behind(v@.take(start as int), c),
        decreases start,
    {
        assert(v@.take(start as int).drop_last() == v@.take(start - 1));
        start -= 1;
    }
    s.substring_char(start, v.len())
}

} // verus!
