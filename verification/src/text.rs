//! Text building blocks: character access, substring replacement and
//! decimal rendering of integers, each with its specification over `Seq<char>`.

use vstd::prelude::*;

verus! {

broadcast use vstd::string::group_string_axioms;

/// Appends one character to a string.
///
/// Trusted: calls `String::push`, which std documents as appending the
/// given `char` to the end of the string.
#[verifier::external_body]
pub(crate) fn push_char(s: &mut String, c: char)
    ensures
        final(s)@ == old(s)@.push(c),
{
    s.push(c);
}

/// The characters of `s`, in order.
pub fn chars_of(s: &str) -> (r: Vec<char>)
    ensures
        r@ == s@,
{
    let mut r: Vec<char> = Vec::new();
    for c in it: s.chars()
        invariant
            it.seq() == s@,
            r@ == it.seq().take(it.index() as int),
    {
        r.push(c);
    }
    r
}


/// Whether `pat` occurs in `s` at position `i`.
pub open spec fn matches_at(s: Seq<char>, i: int, pat: Seq<char>) -> bool {
    0 <= i && i + pat.len() <= s.len() && s.subrange(i, i + pat.len()) == pat
}

/// `s` with every occurrence of `pat` replaced by `rep`, scanning from the
/// left and never letting two replaced occurrences overlap: the semantics of
/// `str::replace` for a non-empty pattern.
pub open spec fn replace_seq(s: Seq<char>, pat: Seq<char>, rep: Seq<char>) -> Seq<char>
    recommends
        pat.len() > 0,
    decreases s.len(),
{
    if s.len() == 0 || pat.len() == 0 {
        s
    } else if matches_at(s, 0, pat) {
        rep + replace_seq(s.skip(pat.len() as int), pat, rep)
    } else {
        seq![s[0]] + replace_seq(s.skip(1), pat, rep)
    }
}

/// Whether `pat` occurs in `text` at character position `i`.
fn occurs_at(text: &Vec<char>, i: usize, pat: &Vec<char>) -> (r: bool)
    requires
        i <= text@.len(),
    ensures
        r == matches_at(text@, i as int, pat@),
{
    if pat.len() > text.len() - i {
        return false;
    }
    let mut j: usize = 0;
    while j < pat.len()
        invariant
            i + pat@.len() <= text@.len(),
            text@.len() == text.len(),
            j <= pat@.len(),
            forall|k: int| 0 <= k < j ==> text@[i + k] == pat@[k],
        decreases pat@.len() - j,
    {
        if text[i + j] != pat[j] {
            assert(text@.subrange(i as int, i + pat@.len())[j as int] != pat@[j as int]);
            return false;
        }
        j = j + 1;
    }
    assert(text@.subrange(i as int, i + pat@.len()) =~= pat@);
    true
}

/// Whether the two texts are the same sequence of characters.
pub fn same_text(a: &str, b: &str) -> (r: bool)
    ensures
        r == (a@ == b@),
{
    let av = chars_of(a);
    let bv = chars_of(b);
    if av.len() != bv.len() {
        return false;
    }
    let r = occurs_at(&av, 0, &bv);
    assert(a@.subrange(0, a@.len() as int) =~= a@);
    r
}

/// Replaces every occurrence of the non-empty pattern `from` in `text` by `to`,
/// leftmost first and without overlaps.
pub fn replace_all(text: &str, from: &str, to: &str) -> (r: String)
    requires
        from@.len() > 0,
    ensures
        r@ == replace_seq(text@, from@, to@),
{
    let t = chars_of(text);
    let p = chars_of(from);
    let mut out = String::new();
    let mut i: usize = 0;
    assert(t@.skip(0) =~= t@);
    while i < t.len()
        invariant
            t@ == text@,
            p@ == from@,
            p@.len() > 0,
            i <= t@.len(),
            replace_seq(text@, from@, to@) == out@ + replace_seq(t@.skip(i as int), p@, to@),
        decreases t@.len() - i,
    {
        let ghost rest = t@.skip(i as int);
        if occurs_at(&t, i, &p) {
            assert(rest.subrange(0, p@.len() as int) =~= t@.subrange(i as int, i + p@.len()));
            assert(rest.skip(p@.len() as int) =~= t@.skip(i + p@.len()));
            out.append(to);
            i = i + p.len();
        } else {
            assert(!matches_at(rest, 0, p@)) by {
                if matches_at(rest, 0, p@) {
                    assert(rest.subrange(0, p@.len() as int) =~= t@.subrange(
                        i as int,
                        i + p@.len(),
                    ));
                }
            }
            assert(rest.skip(1) =~= t@.skip(i + 1));
            push_char(&mut out, t[i]);
            i = i + 1;
        }
        assert(replace_seq(text@, from@, to@) == out@ + replace_seq(t@.skip(i as int), p@, to@));
    }
    assert(t@.skip(i as int) =~= Seq::<char>::empty());
    assert(out@ + Seq::<char>::empty() =~= out@);
    out
}


/// The decimal digit character for `d` in `0..10`.
pub open spec fn digit_char(d: int) -> char {
    if d == 0 {
        '0'
    } else if d == 1 {
        '1'
    } else if d == 2 {
        '2'
    } else if d == 3 {
        '3'
    } else if d == 4 {
        '4'
    } else if d == 5 {
        '5'
    } else if d == 6 {
        '6'
    } else if d == 7 {
        '7'
    } else if d == 8 {
        '8'
    } else {
        '9'
    }
}

/// The decimal digits of `n`, most significant first, without leading zeros.
pub open spec fn decimal_digits(n: nat) -> Seq<char>
    decreases n,
{
    if n < 10 {
        seq![digit_char(n as int)]
    } else {
        decimal_digits(n / 10).push(digit_char((n % 10) as int))
    }
}

/// The decimal rendering of an integer, as `Display` writes it: a `-`
/// before the digits of a negative number.
pub open spec fn decimal(i: int) -> Seq<char> {
    if i < 0 {
        seq!['-'] + decimal_digits((-i) as nat)
    } else {
        decimal_digits(i as nat)
    }
}

fn digit(d: u64) -> (c: char)
    requires
        d < 10,
    ensures
        c == digit_char(d as int),
{
    match d {
        0 => '0',
        1 => '1',
        2 => '2',
        3 => '3',
        4 => '4',
        5 => '5',
        6 => '6',
        7 => '7',
        8 => '8',
        _ => '9',
    }
}

/// Appends the decimal digits of `n` to `s`.
pub fn push_decimal_u64(s: &mut String, n: u64)
    ensures
        final(s)@ == old(s)@ + decimal_digits(n as nat),
    decreases n,
{
    if n >= 10 {
        push_decimal_u64(s, n / 10);
        push_char(s, digit(n % 10));
        assert(s@ =~= old(s)@ + decimal_digits(n as nat));
    } else {
        push_char(s, digit(n));
        assert(s@ =~= old(s)@ + decimal_digits(n as nat));
    }
}

/// Appends the decimal rendering of `v` to `s`.
pub fn push_decimal_i64(s: &mut String, v: i64)
    ensures
        final(s)@ == old(s)@ + decimal(v as int),
{
    if v < 0 {
        push_char(s, '-');
        let magnitude: u64 = (0i128 - v as i128) as u64;
        push_decimal_u64(s, magnitude);
        assert(s@ =~= old(s)@ + decimal(v as int));
    } else {
        push_decimal_u64(s, v as u64);
    }
}

/// Appends the decimal rendering of an index to `s`.
pub fn push_decimal_usize(s: &mut String, n: usize)
    ensures
        final(s)@ == old(s)@ + decimal(n as int),
{
    push_decimal_u64(s, n as u64);
}

/// `c` occurs nowhere in `s`.
pub open spec fn lacks(s: Seq<char>, c: char) -> bool {
    forall|i: int| 0 <= i < s.len() ==> s[i] != c
}

/// Replacing never brings in a character that neither the text nor the
/// replacement holds.
pub proof fn lemma_replace_keeps_lacking(s: Seq<char>, pat: Seq<char>, rep: Seq<char>, c: char)
    requires
        lacks(s, c),
        lacks(rep, c),
    ensures
        lacks(replace_seq(s, pat, rep), c),
    decreases s.len(),
{
    if s.len() == 0 || pat.len() == 0 {
    } else if matches_at(s, 0, pat) {
        lemma_replace_keeps_lacking(s.skip(pat.len() as int), pat, rep, c);
        let tail = replace_seq(s.skip(pat.len() as int), pat, rep);
        assert forall|i: int| 0 <= i < (rep + tail).len() implies (rep + tail)[i] != c by {
            if i >= rep.len() {
                assert((rep + tail)[i] == tail[i - rep.len()]);
            }
        }
    } else {
        lemma_replace_keeps_lacking(s.skip(1), pat, rep, c);
        let tail = replace_seq(s.skip(1), pat, rep);
        assert forall|i: int| 0 <= i < (seq![s[0]] + tail).len() implies (seq![s[0]]
            + tail)[i] != c by {
            if i >= 1 {
                assert((seq![s[0]] + tail)[i] == tail[i - 1]);
            }
        }
    }
}

/// Replacing a single character by a text that does not hold it leaves no
/// occurrence of that character.
pub proof fn lemma_replace_removes(s: Seq<char>, c: char, rep: Seq<char>)
    requires
        lacks(rep, c),
    ensures
        lacks(replace_seq(s, seq![c], rep), c),
    decreases s.len(),
{
    let pat = seq![c];
    if s.len() == 0 {
    } else if matches_at(s, 0, pat) {
        lemma_replace_removes(s.skip(1), c, rep);
        let tail = replace_seq(s.skip(1), pat, rep);
        assert forall|i: int| 0 <= i < (rep + tail).len() implies (rep + tail)[i] != c by {
            if i >= rep.len() {
                assert((rep + tail)[i] == tail[i - rep.len()]);
            }
        }
    } else {
        assert(s[0] != c) by {
            if s[0] == c {
                assert(s.subrange(0, 1) =~= pat);
            }
        }
        lemma_replace_removes(s.skip(1), c, rep);
        let tail = replace_seq(s.skip(1), pat, rep);
        assert forall|i: int| 0 <= i < (seq![s[0]] + tail).len() implies (seq![s[0]]
            + tail)[i] != c by {
            if i >= 1 {
                assert((seq![s[0]] + tail)[i] == tail[i - 1]);
            }
        }
    }
}

/// A text in which the pattern's first character never occurs is left as it is.
pub proof fn lemma_replace_absent(s: Seq<char>, pat: Seq<char>, rep: Seq<char>)
    requires
        pat.len() > 0,
        lacks(s, pat[0]),
    ensures
        replace_seq(s, pat, rep) == s,
    decreases s.len(),
{
    if s.len() > 0 {
        assert(!matches_at(s, 0, pat)) by {
            if matches_at(s, 0, pat) {
                assert(s.subrange(0, pat.len() as int)[0] == s[0]);
            }
        }
        lemma_replace_absent(s.skip(1), pat, rep);
        assert(seq![s[0]] + s.skip(1) =~= s);
    }
}

/// Decimal renderings are never empty.
pub proof fn lemma_decimal_digits_len(n: nat)
    ensures
        decimal_digits(n).len() >= 1,
        n >= 10 ==> decimal_digits(n).len() >= 2,
    decreases n,
{
    if n >= 10 {
        lemma_decimal_digits_len(n / 10);
    }
}

/// Distinct numbers have distinct decimal renderings.
pub proof fn lemma_decimal_digits_injective(n: nat, m: nat)
    requires
        decimal_digits(n) == decimal_digits(m),
    ensures
        n == m,
    decreases n,
{
    lemma_decimal_digits_len(n);
    lemma_decimal_digits_len(m);
    if n < 10 && m < 10 {
        assert(decimal_digits(n)[0] == digit_char(n as int));
        assert(decimal_digits(m)[0] == digit_char(m as int));
    } else if n >= 10 && m >= 10 {
        let dn = decimal_digits(n);
        let dm = decimal_digits(m);
        assert(dn.last() == digit_char((n % 10) as int));
        assert(dm.last() == digit_char((m % 10) as int));
        assert(dn.drop_last() =~= decimal_digits(n / 10));
        assert(dm.drop_last() =~= decimal_digits(m / 10));
        lemma_decimal_digits_injective(n / 10, m / 10);
    } else {
        assert(decimal_digits(n).len() != decimal_digits(m).len());
    }
}

/// No occurrence of `pat` in `a + b` starts inside `a` and ends inside `b`.
pub open spec fn no_straddle(a: Seq<char>, b: Seq<char>, pat: Seq<char>) -> bool {
    forall|i: int| 0 <= i < a.len() && a.len() < i + pat.len() ==> !matches_at(a + b, i, pat)
}

/// Replacing in a concatenation replaces in each part, when no occurrence of
/// the pattern crosses the seam.
pub proof fn lemma_replace_concat(a: Seq<char>, b: Seq<char>, pat: Seq<char>, rep: Seq<char>)
    requires
        pat.len() > 0,
        no_straddle(a, b, pat),
    ensures
        replace_seq(a + b, pat, rep) == replace_seq(a, pat, rep) + replace_seq(b, pat, rep),
    decreases a.len(),
{
    let n = pat.len() as int;
    if a.len() == 0 {
        assert(a + b =~= b);
        assert(replace_seq(a, pat, rep) + replace_seq(b, pat, rep) =~= replace_seq(b, pat, rep));
    } else {
        let k: int = if matches_at(a + b, 0, pat) {
            n
        } else {
            1
        };
        if matches_at(a + b, 0, pat) {
            assert(n <= a.len());
            assert((a + b).subrange(0, n) =~= a.subrange(0, n));
            assert(matches_at(a, 0, pat));
        } else {
            assert(!matches_at(a, 0, pat)) by {
                if matches_at(a, 0, pat) {
                    assert((a + b).subrange(0, n) =~= a.subrange(0, n));
                }
            }
            assert((a + b)[0] == a[0]);
        }
        assert((a + b).skip(k) =~= a.skip(k) + b);
        assert forall|i: int|
            0 <= i < a.skip(k).len() && a.skip(k).len() < i + n implies !matches_at(
            a.skip(k) + b,
            i,
            pat,
        ) by {
            if matches_at(a.skip(k) + b, i, pat) {
                assert((a.skip(k) + b).subrange(i, i + n) =~= (a + b).subrange(i + k, i + k + n));
                assert(matches_at(a + b, i + k, pat));
            }
        }
        lemma_replace_concat(a.skip(k), b, pat, rep);
        if matches_at(a + b, 0, pat) {
            assert(rep + (replace_seq(a.skip(k), pat, rep) + replace_seq(b, pat, rep)) =~= (rep
                + replace_seq(a.skip(k), pat, rep)) + replace_seq(b, pat, rep));
        } else {
            assert(seq![a[0]] + (replace_seq(a.skip(k), pat, rep) + replace_seq(b, pat, rep))
                =~= (seq![a[0]] + replace_seq(a.skip(k), pat, rep)) + replace_seq(b, pat, rep));
        }
    }
}

/// A text that is the pattern itself becomes the replacement.
pub proof fn lemma_replace_whole(pat: Seq<char>, rep: Seq<char>)
    requires
        pat.len() > 0,
    ensures
        replace_seq(pat, pat, rep) == rep,
{
    assert(pat.subrange(0, pat.len() as int) =~= pat);
    assert(matches_at(pat, 0, pat));
    let rest = pat.skip(pat.len() as int);
    assert(rest =~= Seq::<char>::empty());
    assert(replace_seq(rest, pat, rep) == rest);
    assert(rep + rest =~= rep);
}

/// The first character after replacing is the text's own or the replacement's.
pub proof fn lemma_replace_first(s: Seq<char>, pat: Seq<char>, rep: Seq<char>)
    requires
        s.len() > 0,
        pat.len() > 0,
        rep.len() > 0,
    ensures
        replace_seq(s, pat, rep).len() > 0,
        replace_seq(s, pat, rep)[0] == s[0] || replace_seq(s, pat, rep)[0] == rep[0],
{
}

/// The last character after replacing is the text's own or the replacement's.
pub proof fn lemma_replace_last(s: Seq<char>, pat: Seq<char>, rep: Seq<char>)
    requires
        s.len() > 0,
        pat.len() > 0,
        rep.len() > 0,
    ensures
        replace_seq(s, pat, rep).len() > 0,
        replace_seq(s, pat, rep).last() == s.last() || replace_seq(s, pat, rep).last()
            == rep.last(),
    decreases s.len(),
{
    let r = replace_seq(s, pat, rep);
    if matches_at(s, 0, pat) {
        let rest = s.skip(pat.len() as int);
        if rest.len() > 0 {
            lemma_replace_last(rest, pat, rep);
            assert(rest.last() == s.last());
            assert(r.last() == replace_seq(rest, pat, rep).last());
        } else {
            assert(r =~= rep);
        }
    } else {
        let rest = s.skip(1);
        if rest.len() > 0 {
            lemma_replace_last(rest, pat, rep);
            assert(rest.last() == s.last());
            assert(r.last() == replace_seq(rest, pat, rep).last());
        } else {
            assert(r =~= seq![s[0]]);
        }
    }
}

/// A one-character pattern never crosses a seam.
pub proof fn lemma_no_straddle_single(a: Seq<char>, b: Seq<char>, pat: Seq<char>)
    requires
        pat.len() == 1,
    ensures
        no_straddle(a, b, pat),
{
}

/// A two-character pattern crosses the seam only where `a` ends with its
/// first character and `b` starts with its second.
pub proof fn lemma_no_straddle_pair(a: Seq<char>, b: Seq<char>, pat: Seq<char>)
    requires
        pat.len() == 2,
        !(a.len() > 0 && b.len() > 0 && a.last() == pat[0] && b[0] == pat[1]),
    ensures
        no_straddle(a, b, pat),
{
    assert forall|i: int| 0 <= i < a.len() && a.len() < i + pat.len() implies !matches_at(
        a + b,
        i,
        pat,
    ) by {
        if matches_at(a + b, i, pat) {
            assert(i == a.len() - 1);
            assert((a + b).subrange(i, i + 2)[0] == (a + b)[i]);
            assert((a + b).subrange(i, i + 2)[1] == (a + b)[i + 1]);
            assert((a + b)[i] == a.last());
            assert((a + b)[i + 1] == b[0]);
        }
    }
}

/// A text starts with `e` when it is `e` followed by anything.
pub proof fn lemma_matches_prefix(e: Seq<char>, x: Seq<char>)
    ensures
        matches_at(e + x, 0, e),
        (e + x).skip(e.len() as int) == x,
{
    assert((e + x).subrange(0, e.len() as int) =~= e);
    assert((e + x).skip(e.len() as int) =~= x);
}

/// A text does not start with `pat` when they differ at position `j`.
pub proof fn lemma_differs_at(s: Seq<char>, pat: Seq<char>, j: int)
    requires
        0 <= j < pat.len(),
        j < s.len(),
        s[j] != pat[j],
    ensures
        !matches_at(s, 0, pat),
{
    if matches_at(s, 0, pat) {
        assert(s.subrange(0, pat.len() as int)[j] == s[j]);
    }
}

/// A text shorter than the pattern is left as it is.
pub proof fn lemma_replace_short(s: Seq<char>, pat: Seq<char>, rep: Seq<char>)
    requires
        s.len() < pat.len(),
    ensures
        replace_seq(s, pat, rep) == s,
    decreases s.len(),
{
    if s.len() > 0 {
        lemma_replace_short(s.skip(1), pat, rep);
        assert(seq![s[0]] + s.skip(1) =~= s);
    }
}

/// Whether `x` occurs somewhere in `y`, as a contiguous piece.
pub open spec fn is_infix(x: Seq<char>, y: Seq<char>) -> bool {
    exists|p: int| matches_at(y, p, x)
}

/// Every text occurs in itself.
pub proof fn lemma_infix_self(x: Seq<char>)
    ensures
        is_infix(x, x),
{
    assert(x.subrange(0, x.len() as int) =~= x);
    assert(matches_at(x, 0, x));
}

/// A piece of `y` is also a piece of `y` with text added before or after it.
pub proof fn lemma_infix_grow(x: Seq<char>, y: Seq<char>, a: Seq<char>, b: Seq<char>)
    requires
        is_infix(x, y),
    ensures
        is_infix(x, a + y),
        is_infix(x, y + b),
        is_infix(x, a + y + b),
{
    let p = choose|p: int| matches_at(y, p, x);
    let n = x.len() as int;
    assert((a + y).subrange(a.len() + p, a.len() + p + n) =~= y.subrange(p, p + n));
    assert(matches_at(a + y, a.len() + p, x));
    assert((y + b).subrange(p, p + n) =~= y.subrange(p, p + n));
    assert(matches_at(y + b, p, x));
    assert((a + y + b).subrange(a.len() + p, a.len() + p + n) =~= y.subrange(p, p + n));
    assert(matches_at(a + y + b, a.len() + p, x));
}

/// A piece of a piece of `z` is a piece of `z`.
pub proof fn lemma_infix_trans(x: Seq<char>, y: Seq<char>, z: Seq<char>)
    requires
        is_infix(x, y),
        is_infix(y, z),
    ensures
        is_infix(x, z),
{
    let p = choose|p: int| matches_at(y, p, x);
    let q = choose|q: int| matches_at(z, q, y);
    let n = x.len() as int;
    assert(z.subrange(q + p, q + p + n) =~= z.subrange(q, q + y.len()).subrange(p, p + n));
    assert(matches_at(z, q + p, x));
}

/// Where `a` ends with `pre` and `b` starts with `post`, the text `a + x + b`
/// holds `x` framed by `pre` and `post`.
pub proof fn lemma_infix_framed(
    a: Seq<char>,
    x: Seq<char>,
    b: Seq<char>,
    pre: Seq<char>,
    post: Seq<char>,
)
    requires
        pre.len() <= a.len(),
        a.skip(a.len() - pre.len()) == pre,
        post.len() <= b.len(),
        b.take(post.len() as int) == post,
    ensures
        is_infix(pre + x + post, a + x + b),
{
    let p = a.len() - pre.len();
    let w = pre + x + post;
    assert((a + x + b).subrange(p, p + w.len()) =~= w);
    assert(matches_at(a + x + b, p, w));
}

} // verus!
