//! Text primitives over sequences of characters.
//!
//! Every function here states its result over the `Seq<char>` view of its
//! arguments, so that callers can reason about URLs, header names and
//! identifiers as plain sequences.

use vstd::prelude::*;
use vstd::string::*;

verus! {

/// `s` without its trailing run of `c`.
pub open spec fn trim_trailing(s: Seq<char>, c: char) -> Seq<char>
    decreases s.len(),
{
    if s.len() > 0 && s.last() == c {
        trim_trailing(s.drop_last(), c)
    } else {
        s
    }
}

/// The part of `s` before the first `c`; all of `s` where `c` does not occur.
pub open spec fn before_first(s: Seq<char>, c: char) -> Seq<char>
    decreases s.len(),
{
    if s.len() == 0 || s.first() == c {
        Seq::empty()
    } else {
        seq![s.first()] + before_first(s.drop_first(), c)
    }
}

/// The part of `s` after the last `c`; all of `s` where `c` does not occur.
pub open spec fn after_last(s: Seq<char>, c: char) -> Seq<char>
    decreases s.len(),
{
    if s.len() == 0 || s.last() == c {
        Seq::empty()
    } else {
        after_last(s.drop_last(), c).push(s.last())
    }
}

/// The part of `s` before the last `c`; empty where `c` does not occur.
pub open spec fn before_last(s: Seq<char>, c: char) -> Seq<char>
    decreases s.len(),
{
    if s.len() == 0 {
        Seq::empty()
    } else if s.last() == c {
        s.drop_last()
    } else {
        before_last(s.drop_last(), c)
    }
}

/// The code of `c` with the letters `A` to `Z` mapped onto `a` to `z`.
pub open spec fn ascii_fold(c: char) -> u32 {
    if 'A' <= c && c <= 'Z' {
        (c as u32 + 32) as u32
    } else {
        c as u32
    }
}

/// Equality of two texts up to the case of ASCII letters.
pub open spec fn eq_ignoring_ascii_case(a: Seq<char>, b: Seq<char>) -> bool {
    &&& a.len() == b.len()
    &&& forall|i: int| 0 <= i < a.len() ==> ascii_fold(#[trigger] a[i]) == ascii_fold(b[i])
}

/// `s` begins with `prefix`, up to the case of ASCII letters.
pub open spec fn has_prefix_ignoring_ascii_case(s: Seq<char>, prefix: Seq<char>) -> bool {
    &&& prefix.len() <= s.len()
    &&& eq_ignoring_ascii_case(s.take(prefix.len() as int), prefix)
}

/// Equality up to the case of ASCII letters is symmetric and transitive.
pub proof fn lemma_eq_ignoring_ascii_case(a: Seq<char>, b: Seq<char>, c: Seq<char>)
    ensures
        eq_ignoring_ascii_case(a, a),
        eq_ignoring_ascii_case(a, b) ==> eq_ignoring_ascii_case(b, a),
        eq_ignoring_ascii_case(a, b) && eq_ignoring_ascii_case(b, c) ==> eq_ignoring_ascii_case(
            a,
            c,
        ),
{
    if eq_ignoring_ascii_case(a, b) {
        assert forall|i: int| 0 <= i < b.len() implies ascii_fold(#[trigger] b[i])
            == ascii_fold(a[i]) by {
            assert(ascii_fold(a[i]) == ascii_fold(b[i]));
        }
        if eq_ignoring_ascii_case(b, c) {
            assert forall|i: int| 0 <= i < a.len() implies ascii_fold(
                #[trigger] a[i],
            ) == ascii_fold(c[i]) by {
                assert(ascii_fold(b[i]) == ascii_fold(c[i]));
            }
        }
    }
}

/// `before_first` is the longest prefix of `s` that holds no `c`.
pub proof fn lemma_before_first(s: Seq<char>, c: char)
    ensures
        before_first(s, c).len() <= s.len(),
        before_first(s, c) == s.take(before_first(s, c).len() as int),
        !before_first(s, c).contains(c),
        before_first(s, c).len() < s.len() ==> s[before_first(s, c).len() as int] == c,
        s.contains(c) <==> before_first(s, c).len() < s.len(),
    decreases s.len(),
{
    if s.len() == 0 || s.first() == c {
        assert(s.take(0) =~= Seq::<char>::empty());
        if s.len() > 0 {
            assert(s[0] == c);
        }
    } else {
        let rest = s.drop_first();
        lemma_before_first(rest, c);
        let r = before_first(rest, c);
        let whole = seq![s.first()] + r;
        assert(whole =~= s.take(whole.len() as int)) by {
            assert(r == rest.take(r.len() as int));
            assert forall|i: int| 0 <= i < whole.len() implies whole[i] == s[i] by {
                if i > 0 {
                    assert(whole[i] == r[i - 1]);
                    assert(r[i - 1] == rest.take(r.len() as int)[i - 1]);
                }
            }
        }
        assert(!whole.contains(c)) by {
            if whole.contains(c) {
                let i = choose|i: int| 0 <= i < whole.len() && whole[i] == c;
                assert(i > 0);
                assert(r[i - 1] == c);
                assert(r.contains(c));
            }
        }
        if r.len() < rest.len() {
            assert(s[whole.len() as int] == rest[r.len() as int]);
        }
        if s.contains(c) {
            let i = choose|i: int| 0 <= i < s.len() && s[i] == c;
            assert(rest[i - 1] == c);
            assert(rest.contains(c));
        }
        if rest.contains(c) {
            let i = choose|i: int| 0 <= i < rest.len() && rest[i] == c;
            assert(s[i + 1] == c);
        }
    }
}

/// `after_last` is the longest suffix of `s` that holds no `c`.
pub proof fn lemma_after_last(s: Seq<char>, c: char)
    ensures
        after_last(s, c).len() <= s.len(),
        after_last(s, c) == s.skip(s.len() - after_last(s, c).len()),
        !after_last(s, c).contains(c),
        after_last(s, c).len() < s.len() ==> s[s.len() - after_last(s, c).len() - 1] == c,
        s.contains(c) <==> after_last(s, c).len() < s.len(),
    decreases s.len(),
{
    if s.len() == 0 || s.last() == c {
        assert(s.skip(s.len() as int) =~= Seq::<char>::empty());
        if s.len() > 0 {
            assert(s[s.len() - 1] == c);
        }
    } else {
        let rest = s.drop_last();
        lemma_after_last(rest, c);
        let r = after_last(rest, c);
        let whole = r.push(s.last());
        let start = s.len() - whole.len();
        assert(whole =~= s.skip(start)) by {
            assert(r == rest.skip(rest.len() - r.len()));
            assert forall|i: int| 0 <= i < whole.len() implies whole[i] == s[start + i] by {
                if i < r.len() {
                    assert(r[i] == rest.skip(rest.len() - r.len())[i]);
                }
            }
        }
        assert(!whole.contains(c)) by {
            if whole.contains(c) {
                let i = choose|i: int| 0 <= i < whole.len() && whole[i] == c;
                assert(i < r.len());
                assert(r[i] == c);
                assert(r.contains(c));
            }
        }
        if r.len() < rest.len() {
            assert(s[start - 1] == rest[rest.len() - r.len() - 1]);
        }
        if s.contains(c) {
            let i = choose|i: int| 0 <= i < s.len() && s[i] == c;
            assert(rest[i] == c);
            assert(rest.contains(c));
        }
        if rest.contains(c) {
            let i = choose|i: int| 0 <= i < rest.len() && rest[i] == c;
            assert(s[i] == c);
        }
    }
}

/// `before_last` and `after_last` split `s` around its last `c`.
pub proof fn lemma_before_last(s: Seq<char>, c: char)
    ensures
        s.contains(c) ==> before_last(s, c) == s.take(s.len() - after_last(s, c).len() - 1),
        !s.contains(c) ==> before_last(s, c) == Seq::<char>::empty(),
    decreases s.len(),
{
    lemma_after_last(s, c);
    if s.len() == 0 {
    } else if s.last() == c {
        assert(s.drop_last() =~= s.take(s.len() - 1));
    } else {
        let rest = s.drop_last();
        lemma_before_last(rest, c);
        lemma_after_last(rest, c);
        if s.contains(c) {
            let i = choose|i: int| 0 <= i < s.len() && s[i] == c;
            assert(rest[i] == c);
            assert(rest.contains(c));
            let n = rest.len() - after_last(rest, c).len() - 1;
            assert(rest.take(n) =~= s.take(n));
        } else {
            if rest.contains(c) {
                let i = choose|i: int| 0 <= i < rest.len() && rest[i] == c;
                assert(s[i] == c);
            }
        }
    }
}

/// How many characters of `v` come before the first `c`.
pub fn before_first_len(v: &Vec<char>, c: char) -> (n: usize)
    ensures
        n <= v.len(),
        v@.take(n as int) == before_first(v@, c),
{
    proof {
        lemma_before_first(v@, c);
    }
    let mut n: usize = 0;
    while n < v.len() && v[n] != c
        invariant
            n <= v.len(),
            forall|k: int| 0 <= k < n ==> v@[k] != c,
        decreases v.len() - n,
    {
        n += 1;
    }
    proof {
        let len = before_first(v@, c).len() as int;
        if len < n {
            assert(v@[len] == c);
        }
        if n < len {
            assert(v@.take(len)[n as int] == c);
            assert(v@.take(len).contains(c));
        }
    }
    n
}

/// How many of the first `end` characters of `v` are left when the
/// trailing run of `c` is taken off.
pub fn trim_trailing_len(v: &Vec<char>, end: usize, c: char) -> (n: usize)
    requires
        end <= v.len(),
    ensures
        n <= end,
        v@.take(n as int) == trim_trailing(v@.take(end as int), c),
{
    let mut n: usize = end;
    while n > 0 && v[n - 1] == c
        invariant
            n <= end,
            end <= v.len(),
            trim_trailing(v@.take(end as int), c) == trim_trailing(v@.take(n as int), c),
        decreases n,
    {
        assert(v@.take(n as int).drop_last() =~= v@.take(n - 1));
        n -= 1;
    }
    n
}

/// Where, among the first `end` characters of `v`, the part after the last
/// `c` begins: 0 where `c` does not occur.
pub fn after_last_start(v: &Vec<char>, end: usize, c: char) -> (start: usize)
    requires
        end <= v.len(),
    ensures
        start <= end,
        v@.subrange(start as int, end as int) == after_last(v@.take(end as int), c),
        start > 0 <==> v@.take(end as int).contains(c),
        start > 0 ==> before_last(v@.take(end as int), c) == v@.take(start - 1),
{
    let ghost s = v@.take(end as int);
    proof {
        lemma_after_last(s, c);
        lemma_before_last(s, c);
    }
    let mut start: usize = end;
    while start > 0 && v[start - 1] != c
        invariant
            start <= end,
            end <= v.len(),
            forall|k: int| start <= k < end ==> v@[k] != c,
        decreases start,
    {
        start -= 1;
    }
    proof {
        let len = after_last(s, c).len() as int;
        let spec_start = s.len() - len;
        if spec_start < start {
            assert(s[start - 1] == v@[start - 1]);
            assert(s.skip(spec_start)[start - 1 - spec_start] == c);
            assert(s.skip(spec_start).contains(c));
        }
        if start < spec_start {
            assert(s[spec_start - 1] == c);
            assert(v@[spec_start - 1] == c);
        }
        assert(v@.subrange(start as int, end as int) =~= s.skip(spec_start));
        if start > 0 {
            assert(s[start - 1] == c);
            assert(s.contains(c));
            assert(s.take(start - 1) =~= v@.take(start - 1));
        } else {
            if s.contains(c) {
                let k = choose|k: int| 0 <= k < s.len() && s[k] == c;
                assert(v@[k] == c);
            }
        }
    }
    start
}

/// The ten decimal digits.
pub open spec fn decimal_digits() -> Seq<char> {
    seq!['0', '1', '2', '3', '4', '5', '6', '7', '8', '9']
}

/// `n` in decimal, without leading zeros.
pub open spec fn decimal(n: nat) -> Seq<char>
    decreases n,
{
    if n < 10 {
        seq![decimal_digits()[n as int]]
    } else {
        decimal(n / 10).push(decimal_digits()[(n % 10) as int])
    }
}

fn decimal_digit(n: u64) -> (r: &'static str)
    requires
        n < 10,
    ensures
        r@ == seq![decimal_digits()[n as int]],
{
    proof {
        reveal_strlit("0");
        reveal_strlit("1");
        reveal_strlit("2");
        reveal_strlit("3");
        reveal_strlit("4");
        reveal_strlit("5");
        reveal_strlit("6");
        reveal_strlit("7");
        reveal_strlit("8");
        reveal_strlit("9");
    }
    let r = match n {
        0 => "0",
        1 => "1",
        2 => "2",
        3 => "3",
        4 => "4",
        5 => "5",
        6 => "6",
        7 => "7",
        8 => "8",
        _ => "9",
    };
    assert(r@ =~= seq![decimal_digits()[n as int]]);
    r
}

/// Appends `n` in decimal to `out`.
pub fn push_decimal(out: &mut String, n: u64)
    ensures
        final(out)@ == old(out)@ + decimal(n as nat),
    decreases n,
{
    if n >= 10 {
        push_decimal(out, n / 10);
    }
    let ghost before = out@;
    out.append(decimal_digit(n % 10));
    proof {
        if n >= 10 {
            assert(out@ =~= old(out)@ + decimal(n as nat));
        } else {
            assert(out@ =~= old(out)@ + decimal(n as nat));
        }
    }
}

/// Whether two texts hold the same characters.
pub fn str_eq(a: &str, b: &str) -> (r: bool)
    ensures
        r == (a@ == b@),
{
    let x = a.as_bytes();
    let y = b.as_bytes();
    proof {
        vstd::utf8::encode_utf8_decode_utf8(a@);
        vstd::utf8::encode_utf8_decode_utf8(b@);
    }
    if x.len() != y.len() {
        return false;
    }
    let mut i: usize = 0;
    while i < x.len()
        invariant
            i <= x.len(),
            x.len() == y.len(),
            x@ == a.spec_bytes(),
            y@ == b.spec_bytes(),
            forall|k: int| 0 <= k < i ==> x@[k] == y@[k],
        decreases x.len() - i,
    {
        if x[i] != y[i] {
            return false;
        }
        i += 1;
    }
    assert(x@ =~= y@);
    true
}

/// The characters of `s`, one element each.
pub fn chars_of(s: &str) -> (v: Vec<char>)
    ensures
        v@ == s@,
{
    let mut v: Vec<char> = Vec::new();
    for c in it: s.chars()
        invariant
            v@ == it.seq().take(it.index() as int),
            it.seq() == s@,
    {
        v.push(c);
    }
    v
}

/// Whether `c` occurs in `s`.
pub fn contains_char(s: &str, c: char) -> (r: bool)
    ensures
        r == s@.contains(c),
{
    let v = chars_of(s);
    let mut i: usize = 0;
    while i < v.len()
        invariant
            i <= v.len(),
            v@ == s@,
            forall|k: int| 0 <= k < i ==> v@[k] != c,
        decreases v.len() - i,
    {
        if v[i] == c {
            return true;
        }
        i += 1;
    }
    false
}

/// `s` without its trailing run of `c`.
pub fn trim_end_matches<'a>(s: &'a str, c: char) -> (r: &'a str)
    ensures
        r@ == trim_trailing(s@, c),
{
    let v = chars_of(s);
    assert(v@.take(v.len() as int) =~= v@);
    let n = trim_trailing_len(&v, v.len(), c);
    s.substring_char(0, n)
}

/// Whether two texts are equal up to the case of ASCII letters.
pub fn eq_ignore_ascii_case(a: &str, b: &str) -> (r: bool)
    ensures
        r == eq_ignoring_ascii_case(a@, b@),
{
    let x = chars_of(a);
    let y = chars_of(b);
    assert(x@.take(x.len() as int) =~= x@);
    chars_eq_ignore_ascii_case(&x, &y, x.len())
}

/// Whether `s` begins with `prefix`, up to the case of ASCII letters.
pub fn starts_with_ignore_ascii_case(s: &str, prefix: &str) -> (r: bool)
    ensures
        r == has_prefix_ignoring_ascii_case(s@, prefix@),
{
    let x = chars_of(s);
    let y = chars_of(prefix);
    if y.len() > x.len() {
        return false;
    }
    chars_eq_ignore_ascii_case(&x, &y, y.len())
}

fn fold_char(c: char) -> (r: u32)
    ensures
        r == ascii_fold(c),
{
    if 'A' <= c && c <= 'Z' {
        c as u32 + 32
    } else {
        c as u32
    }
}

fn chars_eq_ignore_ascii_case(x: &Vec<char>, y: &Vec<char>, n: usize) -> (r: bool)
    requires
        n <= x.len(),
    ensures
        r == eq_ignoring_ascii_case(x@.take(n as int), y@),
{
    if y.len() != n {
        return false;
    }
    let mut i: usize = 0;
    while i < n
        invariant
            i <= n,
            n <= x.len(),
            n == y.len(),
            forall|k: int| 0 <= k < i ==> ascii_fold(x@[k]) == ascii_fold(y@[k]),
        decreases n - i,
    {
        if fold_char(x[i]) != fold_char(y[i]) {
            assert(x@.take(n as int)[i as int] == x@[i as int]);
            return false;
        }
        i += 1;
    }
    assert forall|k: int| 0 <= k < n implies ascii_fold(#[trigger] x@.take(n as int)[k])
        == ascii_fold(y@[k]) by {
        assert(x@.take(n as int)[k] == x@[k]);
    }
    true
}

} // verus!
