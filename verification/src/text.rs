//! Building and comparing text.
use vstd::prelude::*;
use vstd::string::*;

verus! {

/// `String::push`: appends one character.
pub assume_specification[ String::push ](s: &mut String, c: char)
    ensures
        final(s)@ == old(s)@.push(c),
;

/// One character, `n` times over.
pub open spec fn run_of(c: char, n: nat) -> Seq<char> {
    Seq::new(n, |i: int| c)
}

/// How many characters are missing to a width.
pub open spec fn missing(len: nat, width: nat) -> nat {
    if len < width {
        (width - len) as nat
    } else {
        0
    }
}

/// Text, followed by spaces up to a width.
pub open spec fn left_aligned(s: Seq<char>, width: nat) -> Seq<char> {
    s + run_of(' ', missing(s.len(), width))
}

/// Text, preceded by spaces up to a width.
pub open spec fn right_aligned(s: Seq<char>, width: nat) -> Seq<char> {
    run_of(' ', missing(s.len(), width)) + s
}

/// Text in the middle of a filled width; where the filling cannot be split
/// evenly, the larger half follows.
pub open spec fn centered(s: Seq<char>, fill: char, width: nat) -> Seq<char> {
    let m = missing(s.len(), width);
    run_of(fill, m / 2) + s + run_of(fill, (m - m / 2) as nat)
}

/// A decimal digit.
pub open spec fn digit(d: nat) -> char {
    (48 + d) as char
}

/// A number in decimal notation.
pub open spec fn decimal(n: nat) -> Seq<char>
    decreases n,
{
    if n < 10 {
        seq![digit(n)]
    } else {
        decimal(n / 10).push(digit(n % 10))
    }
}

/// The characters of a text.
pub fn chars_of(s: &str) -> (r: Vec<char>)
    ensures
        r@ == s@,
{
    let mut v: Vec<char> = Vec::new();
    for c in iter: s.chars()
        invariant
            iter.seq() == s@,
            v@ == s@.take(iter.index()),
    {
        v.push(c);
    }
    v
}

/// The text with the given characters.
pub fn text_of(chars: &Vec<char>) -> (s: String)
    ensures
        s@ == chars@,
{
    let mut s = String::new();
    for i in 0..chars.len()
        invariant
            s@ == chars@.take(i as int),
    {
        s.push(chars[i]);
    }
    s
}

/// Appends a character `n` times.
pub fn push_run(out: &mut String, c: char, n: usize)
    ensures
        final(out)@ == old(out)@ + run_of(c, n as nat),
{
    let ghost before = out@;
    for i in 0..n
        invariant
            out@ == before + run_of(c, i as nat),
    {
        out.push(c);
    }
}

/// How many characters `s` is short of `width`.
fn missing_of(s: &str, width: usize) -> (m: usize)
    ensures
        m == missing(s@.len(), width as nat),
{
    let len: usize = s.unicode_len();
    if len < width {
        width - len
    } else {
        0
    }
}

/// Appends text followed by spaces up to a width.
pub fn push_left_aligned(out: &mut String, s: &str, width: usize)
    ensures
        final(out)@ == old(out)@ + left_aligned(s@, width as nat),
{
    out.append(s);
    push_run(out, ' ', missing_of(s, width));
}

/// Appends text preceded by spaces up to a width.
pub fn push_right_aligned(out: &mut String, s: &str, width: usize)
    ensures
        final(out)@ == old(out)@ + right_aligned(s@, width as nat),
{
    push_run(out, ' ', missing_of(s, width));
    out.append(s);
}

/// Appends text in the middle of a filled width.
pub fn push_centered(out: &mut String, s: &str, fill: char, width: usize)
    ensures
        final(out)@ == old(out)@ + centered(s@, fill, width as nat),
{
    let m: usize = missing_of(s, width);
    push_run(out, fill, m / 2);
    out.append(s);
    push_run(out, fill, m - m / 2);
}

/// Text in the middle of a filled width.
pub fn center(s: &str, fill: char, width: usize) -> (r: String)
    ensures
        r@ == centered(s@, fill, width as nat),
{
    let mut r = String::new();
    push_centered(&mut r, s, fill, width);
    r
}

/// Appends a number in decimal notation.
pub fn push_decimal(out: &mut String, n: u128)
    ensures
        final(out)@ == old(out)@ + decimal(n as nat),
    decreases n,
{
    if n >= 10 {
        push_decimal(out, n / 10);
    }
    out.push((48 + (n % 10) as u8) as char);
}

/// A number in decimal notation.
pub fn decimal_of(n: u128) -> (r: String)
    ensures
        r@ == decimal(n as nat),
{
    let mut r = String::new();
    push_decimal(&mut r, n);
    r
}

/// Whether two texts are the same.
pub fn same_text(a: &str, b: &str) -> (r: bool)
    ensures
        r == (a@ == b@),
{
    a.to_owned() == b.to_owned()
}

/// Whether text `a` comes before text `b` or is the same: the first character
/// in which they differ decides, and a text comes before its continuations.
pub open spec fn text_le(a: Seq<char>, b: Seq<char>) -> bool
    decreases a.len(),
{
    if a.len() == 0 {
        true
    } else if b.len() == 0 {
        false
    } else if a[0] != b[0] {
        a[0] < b[0]
    } else {
        text_le(a.drop_first(), b.drop_first())
    }
}

/// Two texts that come before each other are the same.
pub proof fn lemma_text_antisymmetric(a: Seq<char>, b: Seq<char>)
    requires
        text_le(a, b),
        text_le(b, a),
    ensures
        a == b,
    decreases a.len(),
{
    if a.len() > 0 {
        lemma_text_antisymmetric(a.drop_first(), b.drop_first());
        assert(b =~= seq![b[0]] + b.drop_first());
    }
}

/// The order of texts is transitive.
pub proof fn lemma_text_transitive(a: Seq<char>, b: Seq<char>, c: Seq<char>)
    requires
        text_le(a, b),
        text_le(b, c),
    ensures
        text_le(a, c),
    decreases a.len(),
{
    if a.len() > 0 && a[0] == b[0] && b[0] == c[0] {
        lemma_text_transitive(a.drop_first(), b.drop_first(), c.drop_first());
    }
}

/// Of any two texts one comes before the other.
pub proof fn lemma_text_total(a: Seq<char>, b: Seq<char>)
    ensures
        text_le(a, b) || text_le(b, a),
    decreases a.len(),
{
    if a.len() > 0 && b.len() > 0 && a[0] == b[0] {
        lemma_text_total(a.drop_first(), b.drop_first());
    }
}

/// Whether two texts are the same up to some place, in which the first has ended
/// or has the lesser character.
pub open spec fn lesser_from(a: Seq<char>, b: Seq<char>, k: int) -> bool {
    &&& 0 <= k <= a.len() && k <= b.len()
    &&& forall|i: int| 0 <= i < k ==> #[trigger] a[i] == b[i]
    &&& k == a.len() || (k < b.len() && a[k] < b[k])
}

/// Of two texts in order, the first ends within the second or has the lesser
/// character where they first differ; and the other way around.
pub proof fn law_first_difference_decides(a: Seq<char>, b: Seq<char>)
    ensures
        text_le(a, b) <==> exists|k: int| lesser_from(a, b, k),
    decreases a.len(),
{
    if a.len() == 0 {
        assert(lesser_from(a, b, 0));
    } else if b.len() > 0 && a[0] == b[0] {
        let (c, d) = (a.drop_first(), b.drop_first());
        law_first_difference_decides(c, d);
        if exists|k: int| lesser_from(c, d, k) {
            let k = choose|k: int| lesser_from(c, d, k);
            assert forall|i: int| 0 <= i < k + 1 implies #[trigger] a[i] == b[i] by {
                if i > 0 {
                    assert(c[i - 1] == d[i - 1]);
                }
            }
            assert(lesser_from(a, b, k + 1));
        }
        if exists|k: int| lesser_from(a, b, k) {
            let k = choose|k: int| lesser_from(a, b, k);
            assert(k > 0);
            assert forall|i: int| 0 <= i < k - 1 implies #[trigger] c[i] == d[i] by {
                assert(a[i + 1] == b[i + 1]);
            }
            assert(lesser_from(c, d, k - 1));
        }
    } else {
        if exists|k: int| lesser_from(a, b, k) {
            let k = choose|k: int| lesser_from(a, b, k);
            if k > 0 {
                assert(a[0] == b[0]);
            }
        }
        if b.len() > 0 && a[0] < b[0] {
            assert(lesser_from(a, b, 0));
        }
    }
}

/// Whether one text comes before another or is the same.
pub fn text_not_after(a: &str, b: &str) -> (r: bool)
    ensures
        r == text_le(a@, b@),
{
    let ca = chars_of(a);
    let cb = chars_of(b);
    let mut i: usize = 0;
    assert(ca@.skip(0) =~= ca@ && cb@.skip(0) =~= cb@);
    while i < ca.len() && i < cb.len() && ca[i] == cb[i]
        invariant
            i <= ca@.len(),
            i <= cb@.len(),
            text_le(ca@, cb@) == text_le(ca@.skip(i as int), cb@.skip(i as int)),
        decreases ca@.len() - i,
    {
        assert(ca@.skip(i as int).drop_first() =~= ca@.skip(i + 1));
        assert(cb@.skip(i as int).drop_first() =~= cb@.skip(i + 1));
        i = i + 1;
    }
    if i == ca.len() {
        true
    } else if i == cb.len() {
        false
    } else {
        ca[i] < cb[i]
    }
}

/// The number that decimal digits stand for.
pub open spec fn value_of(s: Seq<char>) -> int
    decreases s.len(),
{
    if s.len() == 0 {
        0
    } else {
        10 * value_of(s.drop_last()) + (s.last() as int - '0' as int)
    }
}

/// A number in decimal notation is made of digits, has no zero before them and
/// stands for the number.
pub proof fn law_decimal_reads_back(n: nat)
    ensures
        value_of(decimal(n)) == n,
        decimal(n).len() > 0,
        decimal(n)[0] == '0' ==> n == 0 && decimal(n).len() == 1,
        forall|i: int| 0 <= i < decimal(n).len() ==> '0' <= #[trigger] decimal(n)[i] <= '9',
    decreases n,
{
    reveal_with_fuel(value_of, 2);
    if n < 10 {
        assert(decimal(n).drop_last() =~= Seq::empty());
    } else {
        law_decimal_reads_back(n / 10);
        assert(decimal(n).drop_last() =~= decimal(n / 10));
    }
}

/// Text that is aligned is as wide as it is to be, unless it is wider by itself, and
/// has nothing added to it but what fills the width: after it, before it, or on
/// both sides, evenly but for one character that follows.
pub proof fn law_aligned_text_fills_the_width(s: Seq<char>, fill: char, width: nat, i: int)
    ensures
        left_aligned(s, width).len() == if s.len() < width {
            width
        } else {
            s.len()
        },
        0 <= i < left_aligned(s, width).len() ==> left_aligned(s, width)[i] == if i < s.len() {
            s[i]
        } else {
            ' '
        },
        right_aligned(s, width).len() == left_aligned(s, width).len(),
        ({
            let shift = right_aligned(s, width).len() - s.len();
            0 <= i < right_aligned(s, width).len() ==> right_aligned(s, width)[i] == if i < shift {
                ' '
            } else {
                s[i - shift]
            }
        }),
        centered(s, fill, width).len() == left_aligned(s, width).len(),
        ({
            let before = (centered(s, fill, width).len() - s.len()) / 2;
            0 <= i < centered(s, fill, width).len() ==> centered(s, fill, width)[i] == if before <= i
                < before + s.len() {
                s[i - before]
            } else {
                fill
            }
        }),
{
}

} // verus!
