//! Small verified helpers on text.

use vstd::prelude::*;

verus! {

/// Whether two string slices hold the same characters.
pub fn str_equals(a: &str, b: &str) -> (r: bool)
    ensures
        r == (a@ == b@),
{
    let n = a.unicode_len();
    let m = b.unicode_len();
    if n != m {
        return false;
    }
    let mut i: usize = 0;
    while i < n
        invariant
            i <= n,
            n == a@.len(),
            m == b@.len(),
            n == m,
            forall|j: int| 0 <= j < i ==> a@[j] == b@[j],
        decreases n - i,
    {
        if a.get_char(i) != b.get_char(i) {
            return false;
        }
        i = i + 1;
    }
    assert(a@ =~= b@);
    true
}

/// An owned copy of a string slice.
pub fn owned(s: &str) -> (r: String)
    ensures
        r@ == s@,
{
    String::from_str(s)
}

/// The character of a decimal digit.
pub open spec fn digit_char(d: nat) -> char {
    if d == 0 {
        '0'
    } else if d == 1 {
        '1'
    } else if d == 2 {
        '2'
    } else if d == 3 {
        '3'
    } else if d == 4 {
        '4'
    } else if d == 5 {
        '5'
    } else if d == 6 {
        '6'
    } else if d == 7 {
        '7'
    } else if d == 8 {
        '8'
    } else {
        '9'
    }
}

/// A number written in decimal, without leading zeros.
pub open spec fn decimal_text(n: nat) -> Seq<char>
    decreases n,
{
    if n < 10 {
        seq![digit_char(n)]
    } else {
        decimal_text(n / 10).push(digit_char(n % 10))
    }
}

/// The text of a decimal digit.
fn digit_text(d: u64) -> (s: &'static str)
    requires
        d < 10,
    ensures
        s@ == seq![digit_char(d as nat)],
{
    proof {
        reveal_strlit("0");
        reveal_strlit("1");
        reveal_strlit("2");
        reveal_strlit("3");
        reveal_strlit("4");
        reveal_strlit("5");
        reveal_strlit("6");
        reveal_strlit("7");
        reveal_strlit("8");
        reveal_strlit("9");
    }
    if d == 0 {
        "0"
    } else if d == 1 {
        "1"
    } else if d == 2 {
        "2"
    } else if d == 3 {
        "3"
    } else if d == 4 {
        "4"
    } else if d == 5 {
        "5"
    } else if d == 6 {
        "6"
    } else if d == 7 {
        "7"
    } else if d == 8 {
        "8"
    } else {
        "9"
    }
}

/// A number written in decimal.
pub fn decimal(n: u64) -> (s: String)
    ensures
        s@ == decimal_text(n as nat),
    decreases n,
{
    if n < 10 {
        String::from_str(digit_text(n))
    } else {
        let mut s = decimal(n / 10);
        s.append(digit_text(n % 10));
        s
    }
}

/// `n` in decimal, with leading zeros up to `width` digits.
pub open spec fn zero_padded(n: nat, width: nat) -> Seq<char> {
    let digits = decimal_text(n);
    if digits.len() >= width {
        digits
    } else {
        Seq::new((width - digits.len()) as nat, |_i: int| '0') + digits
    }
}

/// `n` in decimal, with leading zeros up to `width` digits.
pub fn padded(n: u64, width: u64) -> (s: String)
    ensures
        s@ == zero_padded(n as nat, width as nat),
{
    let digits = decimal(n);
    let len = digits.unicode_len();
    if len as u64 >= width {
        return digits;
    }
    let fill: u64 = width - len as u64;
    let mut s = String::new();
    let mut i: u64 = 0;
    while i < fill
        invariant
            i <= fill,
            s@ == Seq::new(i as nat, |_j: int| '0'),
        decreases fill - i,
    {
        proof {
            reveal_strlit("0");
        }
        s.append("0");
        assert(s@ =~= Seq::new((i + 1) as nat, |_j: int| '0'));
        i = i + 1;
    }
    s.append(digits.as_str());
    s
}

/// An integer in decimal, with a minus sign when it is negative.
pub open spec fn signed_decimal_text(i: int) -> Seq<char> {
    if i < 0 {
        seq!['-'] + decimal_text((-i) as nat)
    } else {
        decimal_text(i as nat)
    }
}

/// An integer in decimal, with a minus sign when it is negative.
pub fn signed_decimal(i: i64) -> (s: String)
    ensures
        s@ == signed_decimal_text(i as int),
{
    if i < 0 {
        let magnitude: u64 = ((-(i + 1)) as u64) + 1;
        let mut s = String::from_str("-");
        proof {
            reveal_strlit("-");
        }
        let digits = decimal(magnitude);
        s.append(digits.as_str());
        s
    } else {
        decimal(i as u64)
    }
}

/// `a` comes before `b` in the order of Rust's strings: character by character by
/// their code points, a proper prefix first. (Comparing the UTF-8 bytes, as `String`
/// does, gives the same order.)
pub open spec fn text_less(a: Seq<char>, b: Seq<char>) -> bool
    decreases a.len(),
{
    if a.len() == 0 {
        b.len() > 0
    } else if b.len() == 0 {
        false
    } else if a[0] != b[0] {
        (a[0] as u32) < (b[0] as u32)
    } else {
        text_less(a.drop_first(), b.drop_first())
    }
}

/// No text comes before itself.
pub proof fn lemma_text_less_irreflexive(a: Seq<char>)
    ensures
        !text_less(a, a),
    decreases a.len(),
{
    if a.len() > 0 {
        lemma_text_less_irreflexive(a.drop_first());
    }
}

/// The order of texts is transitive.
pub proof fn lemma_text_less_transitive(a: Seq<char>, b: Seq<char>, c: Seq<char>)
    requires
        text_less(a, b),
        text_less(b, c),
    ensures
        text_less(a, c),
    decreases a.len(),
{
    if a.len() > 0 && b.len() > 0 && c.len() > 0 && a[0] == b[0] && b[0] == c[0] {
        lemma_text_less_transitive(a.drop_first(), b.drop_first(), c.drop_first());
    }
}

/// Of two different texts, one comes before the other.
pub proof fn lemma_text_less_total(a: Seq<char>, b: Seq<char>)
    ensures
        a == b || text_less(a, b) || text_less(b, a),
    decreases a.len(),
{
    if a.len() > 0 && b.len() > 0 && a[0] == b[0] {
        lemma_text_less_total(a.drop_first(), b.drop_first());
        if a.drop_first() == b.drop_first() {
            assert(a =~= seq![a[0]] + a.drop_first());
            assert(b =~= seq![b[0]] + b.drop_first());
        }
    } else if a.len() == 0 && b.len() == 0 {
        assert(a =~= b);
    } else if a.len() > 0 && b.len() > 0 {
        lemma_code_points_differ(a[0], b[0]);
    }
}

/// Different characters have different code points.
proof fn lemma_code_points_differ(x: char, y: char)
    requires
        x != y,
    ensures
        (x as u32) != (y as u32),
{
    assert((x as int) != (y as int));
}

/// Texts that agree on their first `k` characters compare as what follows them does.
proof fn lemma_text_less_skip(a: Seq<char>, b: Seq<char>, k: int)
    requires
        0 <= k <= a.len(),
        k <= b.len(),
        a.take(k) == b.take(k),
    ensures
        text_less(a, b) == text_less(a.skip(k), b.skip(k)),
    decreases k,
{
    if k > 0 {
        assert(a[0] == a.take(k)[0]);
        assert(b[0] == b.take(k)[0]);
        assert(a.drop_first().take(k - 1) =~= a.take(k).drop_first());
        assert(b.drop_first().take(k - 1) =~= b.take(k).drop_first());
        lemma_text_less_skip(a.drop_first(), b.drop_first(), k - 1);
        assert(a.drop_first().skip(k - 1) =~= a.skip(k));
        assert(b.drop_first().skip(k - 1) =~= b.skip(k));
    } else {
        assert(a.skip(0) =~= a);
        assert(b.skip(0) =~= b);
    }
}

/// Compares two texts in the order of Rust's strings: negative when `a` comes first,
/// zero when they are equal, positive when `b` comes first.
pub fn text_compare(a: &str, b: &str) -> (r: i8)
    ensures
        (r < 0) == text_less(a@, b@),
        (r == 0) == (a@ == b@),
        (r > 0) == text_less(b@, a@),
{
    let n = a.unicode_len();
    let m = b.unicode_len();
    let mut k: usize = 0;
    while k < n && k < m
        invariant
            n == a@.len(),
            m == b@.len(),
            k <= n,
            k <= m,
            a@.take(k as int) == b@.take(k as int),
        decreases n - k,
    {
        let ca = a.get_char(k);
        let cb = b.get_char(k);
        if ca != cb {
            proof {
                lemma_text_less_skip(a@, b@, k as int);
                lemma_text_less_skip(b@, a@, k as int);
                assert(a@.skip(k as int)[0] == ca);
                assert(b@.skip(k as int)[0] == cb);
                assert(a@ != b@) by {
                    assert(a@[k as int] != b@[k as int]);
                }
            }
            if (ca as u32) < (cb as u32) {
                return -1;
            } else {
                return 1;
            }
        }
        proof {
            assert(a@.take(k + 1) =~= a@.take(k as int).push(ca));
            assert(b@.take(k + 1) =~= b@.take(k as int).push(cb));
        }
        k = k + 1;
    }
    proof {
        lemma_text_less_skip(a@, b@, k as int);
        lemma_text_less_skip(b@, a@, k as int);
    }
    if n == m {
        proof {
            assert(a@ =~= a@.take(k as int));
            assert(b@ =~= b@.take(k as int));
            lemma_text_less_irreflexive(a@);
        }
        0
    } else if n < m {
        proof {
            assert(a@.skip(k as int).len() == 0);
            assert(a@ != b@);
        }
        -1
    } else {
        proof {
            assert(b@.skip(k as int).len() == 0);
            assert(a@ != b@);
        }
        1
    }
}

/// `v` with `x` put right after the last element that comes before it, or first when
/// none does; in a sorted sequence, where `x` belongs.
pub open spec fn sorted_insert<T>(v: Seq<T>, x: T, less: spec_fn(T, T) -> bool) -> Seq<T>
    decreases v.len(),
{
    if v.len() == 0 {
        seq![x]
    } else if less(v.last(), x) {
        v.push(x)
    } else {
        sorted_insert(v.drop_last(), x, less).push(v.last())
    }
}

/// Where the elements before position `i` come before `x` and the others do not,
/// `sorted_insert` puts `x` at position `i`.
pub proof fn lemma_sorted_insert_at<T>(v: Seq<T>, x: T, less: spec_fn(T, T) -> bool, i: int)
    requires
        0 <= i <= v.len(),
        forall|j: int| 0 <= j < i ==> less(#[trigger] v[j], x),
        forall|j: int| i <= j < v.len() ==> !less(#[trigger] v[j], x),
    ensures
        sorted_insert(v, x, less) == v.insert(i, x),
    decreases v.len(),
{
    if v.len() == 0 {
        assert(v.insert(i, x) =~= seq![x]);
    } else if i == v.len() {
        assert(less(v[v.len() - 1], x));
        assert(v.insert(i, x) =~= v.push(x));
    } else {
        let w = v.drop_last();
        assert(!less(v[v.len() - 1], x));
        assert forall|j: int| 0 <= j < i implies less(#[trigger] w[j], x) by {
            assert(w[j] == v[j]);
        }
        assert forall|j: int| i <= j < w.len() implies !less(#[trigger] w[j], x) by {
            assert(w[j] == v[j]);
        }
        lemma_sorted_insert_at(w, x, less, i);
        assert(w.insert(i, x).push(v.last()) =~= v.insert(i, x));
    }
}

/// `sorted_insert` puts `x` at some position.
pub proof fn lemma_sorted_insert_some<T>(v: Seq<T>, x: T, less: spec_fn(T, T) -> bool)
    ensures
        exists|i: int| 0 <= i <= v.len() && sorted_insert(v, x, less) == v.insert(i, x),
    decreases v.len(),
{
    if v.len() == 0 {
        assert(v.insert(0, x) =~= seq![x]);
        assert(sorted_insert(v, x, less) == v.insert(0, x));
    } else if less(v.last(), x) {
        assert(v.insert(v.len() as int, x) =~= v.push(x));
        assert(sorted_insert(v, x, less) == v.insert(v.len() as int, x));
    } else {
        let w = v.drop_last();
        lemma_sorted_insert_some(w, x, less);
        let i = choose|i: int| 0 <= i <= w.len() && sorted_insert(w, x, less) == w.insert(i, x);
        assert(w.insert(i, x).push(v.last()) =~= v.insert(i, x));
        assert(sorted_insert(v, x, less) == v.insert(i, x));
    }
}

} // verus!
