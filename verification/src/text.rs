//! Character-level string utilities with exact specifications.

use vstd::prelude::*;

verus! {

/// Appends one character to a string by calling `String::push`. Trusted,
/// as its documentation states: the character is added at the end.
#[verifier::external_body]
pub fn push_char(s: &mut String, c: char)
    ensures
        final(s)@ == old(s)@.push(c),
{
    s.push(c);
}

/// The characters of a string slice, in order.
pub fn chars_of(s: &str) -> (v: Vec<char>)
    ensures
        v@ == s@,
{
    let mut v: Vec<char> = Vec::new();
    for c in it: s.chars()
        invariant
            v@ == it.seq().take(it.index() as int),
    {
        v.push(c);
    }
    v
}

/// A string holding the characters of `v` from `start` up to `end`.
pub fn string_from_range(v: &[char], start: usize, end: usize) -> (s: String)
    requires
        start <= end <= v@.len(),
    ensures
        s@ == v@.subrange(start as int, end as int),
{
    let mut s = String::new();
    let mut i = start;
    while i < end
        invariant
            start <= i <= end <= v@.len(),
            s@ == v@.subrange(start as int, i as int),
        decreases end - i,
    {
        push_char(&mut s, v[i]);
        assert(v@.subrange(start as int, i + 1) =~= v@.subrange(start as int, i as int).push(
            v@[i as int],
        ));
        i = i + 1;
    }
    s
}

/// Appends the characters of `v` to `s`.
pub fn push_all(s: &mut String, v: &str)
    ensures
        final(s)@ == old(s)@ + v@,
{
    let cs = chars_of(v);
    let n = cs.len();
    for i in 0..n
        invariant
            n == cs@.len(),
            cs@ == v@,
            s@ == old(s)@ + cs@.take(i as int),
    {
        push_char(s, cs[i]);
        assert(cs@.take(i + 1) =~= cs@.take(i as int).push(cs@[i as int]));
    }
    assert(cs@.take(n as int) =~= cs@);
}

/// The concatenation of two string slices as a new string.
pub fn concat(a: &str, b: &str) -> (s: String)
    ensures
        s@ == a@ + b@,
{
    let mut s = String::new();
    push_all(&mut s, a);
    push_all(&mut s, b);
    assert(s@ =~= a@ + b@);
    s
}

/// A copy of a string slice as an owned string.
pub fn owned(a: &str) -> (s: String)
    ensures
        s@ == a@,
{
    let mut s = String::new();
    push_all(&mut s, a);
    assert(s@ =~= a@);
    s
}

/// Unicode `White_Space`, the set that `char::is_whitespace` tests.
pub open spec fn is_ws(c: char) -> bool {
    let u = c as u32;
    (0x9 <= u <= 0xD) || u == 0x20 || u == 0x85 || u == 0xA0 || u == 0x1680 || (0x2000 <= u
        <= 0x200A) || u == 0x2028 || u == 0x2029 || u == 0x202F || u == 0x205F || u == 0x3000
}

/// Whether a character is Unicode white space.
pub fn is_whitespace(c: char) -> (b: bool)
    ensures
        b == is_ws(c),
{
    let u = c as u32;
    (0x9 <= u && u <= 0xD) || u == 0x20 || u == 0x85 || u == 0xA0 || u == 0x1680 || (0x2000 <= u
        && u <= 0x200A) || u == 0x2028 || u == 0x2029 || u == 0x202F || u == 0x205F || u == 0x3000
}

/// `s` without its leading white space.
pub open spec fn trim_start(s: Seq<char>) -> Seq<char>
    decreases s.len(),
{
    if s.len() > 0 && is_ws(s[0]) {
        trim_start(s.drop_first())
    } else {
        s
    }
}

/// `s` without its trailing white space.
pub open spec fn trim_end(s: Seq<char>) -> Seq<char>
    decreases s.len(),
{
    if s.len() > 0 && is_ws(s.last()) {
        trim_end(s.drop_last())
    } else {
        s
    }
}

/// `s` without leading and trailing white space, as `str::trim` gives it.
pub open spec fn trim(s: Seq<char>) -> Seq<char> {
    trim_end(trim_start(s))
}

/// A text that neither begins nor ends with white space is its own trim.
pub proof fn lemma_trim_unpadded(s: Seq<char>)
    requires
        s.len() > 0,
        !is_ws(s[0]),
        !is_ws(s.last()),
    ensures
        trim(s) == s,
{
}

/// The index range of `trim(v)` inside `v`.
pub fn trim_bounds(v: &Vec<char>) -> (r: (usize, usize))
    ensures
        r.0 <= r.1 <= v@.len(),
        v@.subrange(r.0 as int, r.1 as int) == trim(v@),
{
    let n = v.len();
    let mut a: usize = 0;
    assert(v@.subrange(0, n as int) =~= v@);
    while a < n && is_whitespace(v[a])
        invariant
            a <= n == v@.len(),
            trim_start(v@) == trim_start(v@.subrange(a as int, n as int)),
        decreases n - a,
    {
        assert(v@.subrange(a as int, n as int).drop_first() =~= v@.subrange(a + 1, n as int));
        a = a + 1;
    }
    assert(trim_start(v@.subrange(a as int, n as int)) == v@.subrange(a as int, n as int));
    let mut b: usize = n;
    while b > a && is_whitespace(v[b - 1])
        invariant
            a <= b <= n == v@.len(),
            trim(v@) == trim_end(v@.subrange(a as int, b as int)),
        decreases b,
    {
        assert(v@.subrange(a as int, b as int).drop_last() =~= v@.subrange(a as int, b - 1));
        b = b - 1;
    }
    (a, b)
}

/// `str::trim`: the string without leading and trailing white space.
pub fn trimmed(s: &str) -> (r: String)
    ensures
        r@ == trim(s@),
{
    let v = chars_of(s);
    let (a, b) = trim_bounds(&v);
    string_from_range(v.as_slice(), a, b)
}

/// The character of a decimal digit.
pub open spec fn digit_char(d: nat) -> char {
    if d == 0 {
        '0'
    } else if d == 1 {
        '1'
    } else if d == 2 {
        '2'
    } else if d == 3 {
        '3'
    } else if d == 4 {
        '4'
    } else if d == 5 {
        '5'
    } else if d == 6 {
        '6'
    } else if d == 7 {
        '7'
    } else if d == 8 {
        '8'
    } else {
        '9'
    }
}

/// The decimal representation of `n`, as `Display` writes an unsigned integer.
pub open spec fn decimal(n: nat) -> Seq<char>
    decreases n,
{
    if n < 10 {
        seq![digit_char(n)]
    } else {
        decimal(n / 10).push(digit_char(n % 10))
    }
}

fn digit(d: u64) -> (c: char)
    requires
        d < 10,
    ensures
        c == digit_char(d as nat),
{
    if d == 0 {
        '0'
    } else if d == 1 {
        '1'
    } else if d == 2 {
        '2'
    } else if d == 3 {
        '3'
    } else if d == 4 {
        '4'
    } else if d == 5 {
        '5'
    } else if d == 6 {
        '6'
    } else if d == 7 {
        '7'
    } else if d == 8 {
        '8'
    } else {
        '9'
    }
}

/// Appends the decimal representation of `n` to `s`.
pub fn push_decimal(s: &mut String, n: u64)
    ensures
        final(s)@ == old(s)@ + decimal(n as nat),
{
    let mut rev: Vec<char> = Vec::new();
    let mut m: u64 = n;
    let ghost mut acc: Seq<char> = Seq::empty();
    while m >= 10
        invariant
            decimal(n as nat) == decimal(m as nat) + acc,
            rev@.len() == acc.len(),
            forall|i: int| 0 <= i < acc.len() ==> rev@[i] == acc[acc.len() - 1 - i],
        decreases m,
    {
        let d = m % 10;
        let c = digit(d);
        proof {
            assert(decimal(m as nat) == decimal((m / 10) as nat).push(digit_char((m % 10) as nat)));
            assert(decimal((m / 10) as nat).push(c) + acc =~= decimal((m / 10) as nat) + (seq![c]
                + acc));
            acc = seq![c] + acc;
        }
        rev.push(c);
        m = m / 10;
    }
    let c = digit(m);
    push_char(s, c);
    let ghost start = s@;
    let mut i = rev.len();
    while i > 0
        invariant
            i <= rev@.len() == acc.len(),
            forall|k: int| 0 <= k < acc.len() ==> rev@[k] == acc[acc.len() - 1 - k],
            s@ == start + acc.take(acc.len() - i),
        decreases i,
    {
        i = i - 1;
        push_char(s, rev[i]);
        assert(acc.take(acc.len() - i) =~= acc.take(acc.len() - (i + 1)).push(acc[acc.len() - 1 - i]));
    }
    assert(acc.take(acc.len() as int) =~= acc);
    assert(decimal(m as nat) == seq![c]);
    assert(s@ =~= old(s)@ + decimal(n as nat));
}

} // verus!

verus! {

/// Number of bytes of the UTF-8 encoding of a character.
pub open spec fn char_utf8_len(c: char) -> nat {
    let u = c as u32;
    if u < 0x80 {
        1
    } else if u < 0x800 {
        2
    } else if u < 0x10000 {
        3
    } else {
        4
    }
}

/// Number of bytes of the UTF-8 encoding of a character sequence.
pub open spec fn utf8_len(s: Seq<char>) -> nat
    decreases s.len(),
{
    if s.len() == 0 {
        0
    } else {
        utf8_len(s.drop_last()) + char_utf8_len(s.last())
    }
}

/// Number of leading characters of `s` whose encoding fits in `n` bytes.
pub open spec fn chars_within(s: Seq<char>, n: nat) -> nat
    decreases s.len(),
{
    if utf8_len(s) <= n {
        s.len()
    } else {
        chars_within(s.drop_last(), n)
    }
}

/// Whether `&s[..min(len, n)]` is defined: byte `n` is a character boundary
/// or lies past the end.
pub open spec fn cut_is_boundary(s: Seq<char>, n: nat) -> bool {
    utf8_len(s) <= n || exists|k: int| 0 <= k <= s.len() && #[trigger] utf8_len(s.take(k)) == n
}

/// The characters of `&s[..min(len, n)]`, where that slice is defined.
pub open spec fn byte_prefix(s: Seq<char>, n: nat) -> Seq<char> {
    s.take(chars_within(s, n) as int)
}

/// Byte length of the UTF-8 encoding of a character.
pub fn len_utf8(c: char) -> (r: usize)
    ensures
        r == char_utf8_len(c),
{
    let u = c as u32;
    if u < 0x80 {
        1
    } else if u < 0x800 {
        2
    } else if u < 0x10000 {
        3
    } else {
        4
    }
}

/// Extending a prefix by one character adds that character's encoding length.
pub proof fn lemma_utf8_len_take(s: Seq<char>, i: int)
    requires
        0 <= i < s.len(),
    ensures
        utf8_len(s.take(i + 1)) == utf8_len(s.take(i)) + char_utf8_len(s[i]),
{
    assert(s.take(i + 1).drop_last() =~= s.take(i));
}

/// The encoding length of prefixes grows with the prefix.
pub proof fn lemma_utf8_len_mono(s: Seq<char>, i: int, j: int)
    requires
        0 <= i <= j <= s.len(),
    ensures
        utf8_len(s.take(i)) <= utf8_len(s.take(j)),
    decreases j - i,
{
    if i < j {
        lemma_utf8_len_take(s, j - 1);
        lemma_utf8_len_mono(s, i, j - 1);
    }
}

proof fn lemma_chars_within(s: Seq<char>, n: nat, i: int)
    requires
        0 <= i <= s.len(),
        utf8_len(s.take(i)) <= n,
        i == s.len() || utf8_len(s.take(i + 1)) > n,
    ensures
        chars_within(s, n) == i,
    decreases s.len(),
{
    assert(s.take(s.len() as int) =~= s);
    if utf8_len(s) <= n {
        if i < s.len() {
            lemma_utf8_len_mono(s, i + 1, s.len() as int);
        }
    } else {
        let t = s.drop_last();
        assert(i < s.len());
        assert(t.take(i) =~= s.take(i));
        if i + 1 < s.len() {
            assert(t.take(i + 1) =~= s.take(i + 1));
        } else {
            assert(i == t.len());
        }
        lemma_chars_within(t, n, i);
    }
}

/// Number of leading characters of `v` whose encoding fits in `n` bytes.
pub fn chars_within_bytes(v: &Vec<char>, n: usize) -> (k: usize)
    ensures
        k == chars_within(v@, n as nat),
        k <= v@.len(),
{
    let mut i: usize = 0;
    let mut used: usize = 0;
    while i < v.len()
        invariant
            i <= v@.len(),
            used == utf8_len(v@.take(i as int)),
            used <= n,
        decreases v@.len() - i,
    {
        let w = len_utf8(v[i]);
        proof {
            lemma_utf8_len_take(v@, i as int);
        }
        if w > n || used > n - w {
            proof {
                lemma_chars_within(v@, n as nat, i as int);
            }
            return i;
        }
        used = used + w;
        i = i + 1;
    }
    proof {
        lemma_chars_within(v@, n as nat, i as int);
    }
    i
}

/// Appends `byte_prefix(s@, n)` to `out`: the characters of `&s[..min(len, n)]`.
pub fn push_byte_prefix(out: &mut String, s: &str, n: usize)
    ensures
        final(out)@ == old(out)@ + byte_prefix(s@, n as nat),
{
    let v = chars_of(s);
    let k = chars_within_bytes(&v, n);
    let p = string_from_range(v.as_slice(), 0, k);
    push_all(out, p.as_str());
    assert(v@.subrange(0, k as int) =~= byte_prefix(s@, n as nat));
}

/// Whether byte `n` of the encoding of `s` is a character boundary or lies
/// past its end.
pub fn is_cut_boundary(s: &str, n: usize) -> (b: bool)
    ensures
        b == cut_is_boundary(s@, n as nat),
{
    let v = chars_of(s);
    let mut i: usize = 0;
    let mut used: usize = 0;
    while i < v.len()
        invariant
            v@ == s@,
            i <= v@.len(),
            used == utf8_len(v@.take(i as int)),
            used <= n,
            forall|k: int| 0 <= k < i ==> utf8_len(#[trigger] v@.take(k)) < n,
        decreases v@.len() - i,
    {
        if used == n {
            assert(utf8_len(v@.take(i as int)) == n);
            return true;
        }
        let w = len_utf8(v[i]);
        proof {
            lemma_utf8_len_take(v@, i as int);
        }
        if w > n || used > n - w {
            proof {
                assert forall|k: int| 0 <= k <= v@.len() implies #[trigger] utf8_len(v@.take(k))
                    != n by {
                    if k > i {
                        lemma_utf8_len_mono(v@, i + 1, k);
                    }
                }
                assert(v@.take(v@.len() as int) =~= v@);
                lemma_utf8_len_mono(v@, i + 1, v@.len() as int);
            }
            return false;
        }
        used = used + w;
        i = i + 1;
    }
    assert(v@.take(i as int) =~= v@);
    true
}

} // verus!

verus! {

/// Whether two strings hold the same characters.
pub fn str_eq(a: &str, b: &str) -> (r: bool)
    ensures
        r == (a@ == b@),
{
    let x = chars_of(a);
    let y = chars_of(b);
    if x.len() != y.len() {
        return false;
    }
    let n = x.len();
    for i in 0..n
        invariant
            n == x@.len() == y@.len(),
            x@ == a@,
            y@ == b@,
            forall|j: int| 0 <= j < i ==> x@[j] == y@[j],
    {
        if x[i] != y[i] {
            return false;
        }
    }
    assert(x@ =~= y@);
    true
}

/// Whether `s` begins with `prefix`.
pub fn starts_with(s: &str, prefix: &str) -> (r: bool)
    ensures
        r == (prefix@.len() <= s@.len() && s@.subrange(0, prefix@.len() as int) == prefix@),
{
    let x = chars_of(s);
    let p = chars_of(prefix);
    if p.len() > x.len() {
        return false;
    }
    let n = p.len();
    for i in 0..n
        invariant
            n == p@.len() <= x@.len(),
            x@ == s@,
            p@ == prefix@,
            forall|j: int| 0 <= j < i ==> x@[j] == p@[j],
    {
        if x[i] != p[i] {
            assert(s@.subrange(0, n as int)[i as int] != prefix@[i as int]);
            return false;
        }
    }
    assert(s@.subrange(0, n as int) =~= prefix@);
    true
}

} // verus!

verus! {

/// The index of the first `'\n'` of `s` at or after `i`, or `s.len()`.
pub open spec fn newline_from(s: Seq<char>, i: int) -> int
    decreases s.len() - i,
{
    if i < 0 || i >= s.len() {
        s.len() as int
    } else if s[i] == '\n' {
        i
    } else {
        newline_from(s, i + 1)
    }
}

/// A line ended by `'\n'`, without a `'\r'` that precedes the newline.
pub open spec fn strip_cr(l: Seq<char>) -> Seq<char> {
    if l.len() > 0 && l.last() == '\r' {
        l.drop_last()
    } else {
        l
    }
}

/// The lines of `s` from index `i` on, as `str::lines` yields them: split at
/// `'\n'`, each line ended by a newline loses a `'\r'` before it, and a
/// final newline does not start an empty line.
pub open spec fn lines_from(s: Seq<char>, i: int) -> Seq<Seq<char>>
    decreases s.len() - i,
{
    if i < 0 || i >= s.len() {
        Seq::empty()
    } else {
        let e = newline_from(s, i);
        proof {
            lemma_newline_from(s, i);
        }
        if e >= s.len() {
            seq![s.subrange(i, s.len() as int)]
        } else {
            seq![strip_cr(s.subrange(i, e))] + lines_from(s, e + 1)
        }
    }
}

/// The lines of `s`, as `str::lines` yields them.
pub open spec fn lines(s: Seq<char>) -> Seq<Seq<char>> {
    lines_from(s, 0)
}

/// Where `newline_from` points: at a newline, or at the end.
pub proof fn lemma_newline_from(s: Seq<char>, i: int)
    requires
        0 <= i <= s.len(),
    ensures
        i <= newline_from(s, i) <= s.len(),
        newline_from(s, i) < s.len() ==> s[newline_from(s, i)] == '\n',
        forall|j: int| i <= j < newline_from(s, i) ==> s[j] != '\n',
    decreases s.len() - i,
{
    if i < s.len() && s[i] != '\n' {
        lemma_newline_from(s, i + 1);
    }
}

/// The lines of `s`, as `str::lines` yields them.
pub fn split_lines(s: &str) -> (r: Vec<String>)
    ensures
        r@.len() == lines(s@).len(),
        forall|i: int| 0 <= i < r@.len() ==> #[trigger] r@[i]@ == lines(s@)[i],
{
    let v = chars_of(s);
    let n = v.len();
    let mut r: Vec<String> = Vec::new();
    let mut start: usize = 0;
    let ghost mut done: Seq<Seq<char>> = Seq::empty();
    while start < n
        invariant
            n == v@.len(),
            v@ == s@,
            start <= n,
            done + lines_from(v@, start as int) == lines(v@),
            r@.len() == done.len(),
            forall|i: int| 0 <= i < r@.len() ==> #[trigger] r@[i]@ == done[i],
        decreases n - start,
    {
        let mut e = start;
        while e < n && v[e] != '\n'
            invariant
                start <= e <= n == v@.len(),
                newline_from(v@, start as int) == newline_from(v@, e as int),
            decreases n - e,
        {
            e = e + 1;
        }
        proof {
            lemma_newline_from(v@, e as int);
        }
        let ghost line: Seq<char>;
        if e >= n {
            let l = string_from_range(v.as_slice(), start, n);
            proof {
                line = v@.subrange(start as int, n as int);
                assert(lines_from(v@, start as int) == seq![line]);
                assert(lines_from(v@, n as int) =~= Seq::<Seq<char>>::empty());
            }
            r.push(l);
            proof {
                done = done.push(line);
            }
            start = n;
            assert(done + lines_from(v@, start as int) =~= lines(v@));
        } else {
            let end = if e > start && v[e - 1] == '\r' {
                e - 1
            } else {
                e
            };
            let l = string_from_range(v.as_slice(), start, end);
            proof {
                line = strip_cr(v@.subrange(start as int, e as int));
                assert(v@.subrange(start as int, end as int) =~= line);
                assert(lines_from(v@, start as int) == seq![line] + lines_from(v@, e + 1));
            }
            r.push(l);
            proof {
                assert(done + lines_from(v@, start as int) =~= done.push(line) + lines_from(v@, e + 1));
                done = done.push(line);
            }
            start = e + 1;
        }
    }
    proof {
        assert(lines_from(v@, start as int) =~= Seq::<Seq<char>>::empty());
        assert(done =~= done + lines_from(v@, start as int));
    }
    r
}

/// The texts of `ls` joined with `sep` between neighbours.
pub open spec fn join(ls: Seq<Seq<char>>, sep: Seq<char>) -> Seq<char>
    decreases ls.len(),
{
    if ls.len() == 0 {
        Seq::empty()
    } else if ls.len() == 1 {
        ls[0]
    } else {
        join(ls.drop_last(), sep) + sep + ls.last()
    }
}

/// The first `k` strings of `ls` joined with `sep` between neighbours.
pub fn join_prefix(ls: &Vec<String>, k: usize, sep: &str) -> (r: String)
    requires
        k <= ls@.len(),
    ensures
        r@ == join(ls@.take(k as int).map_values(|l: String| l@), sep@),
{
    let mut r = String::new();
    let mut i: usize = 0;
    while i < k
        invariant
            k <= ls@.len(),
            i <= k,
            r@ == join(ls@.take(i as int).map_values(|l: String| l@), sep@),
        decreases k - i,
    {
        let ghost prev = ls@.take(i as int).map_values(|l: String| l@);
        let ghost next = ls@.take(i + 1).map_values(|l: String| l@);
        assert(next.drop_last() =~= prev);
        assert(next.last() == ls@[i as int]@);
        if i > 0 {
            push_all(&mut r, sep);
        }
        push_all(&mut r, ls[i].as_str());
        proof {
            if i == 0 {
                assert(next.len() == 1);
                assert(r@ =~= next[0]);
            } else {
                assert(r@ =~= join(prev, sep@) + sep@ + next.last());
            }
        }
        i = i + 1;
    }
    r
}

} // verus!

verus! {

/// What `str::to_lowercase` returns for a text: its lowercase equivalent
/// by the Unicode `Lowercase` property.
pub uninterp spec fn lowercase(s: Seq<char>) -> Seq<char>;

/// Calls `str::to_lowercase`. Trusted: the result is `lowercase` of the
/// argument; the mapping itself, which takes the Unicode tables, is left
/// unstated.
#[verifier::external_body]
pub(crate) fn to_lowercase(s: &str) -> (r: String)
    ensures
        r@ == lowercase(s@),
{
    s.to_lowercase()
}

} // verus!

verus! {

/// `a` comes no later than `b` in the order of `str::cmp`: by character
/// codes, a prefix first.
pub open spec fn text_le(a: Seq<char>, b: Seq<char>) -> bool
    decreases a.len(),
{
    if a.len() == 0 {
        true
    } else if b.len() == 0 {
        false
    } else if (a[0] as u32) < (b[0] as u32) {
        true
    } else if (a[0] as u32) > (b[0] as u32) {
        false
    } else {
        text_le(a.drop_first(), b.drop_first())
    }
}

/// Any two texts are ordered one way or the other.
pub proof fn lemma_text_le_total(a: Seq<char>, b: Seq<char>)
    ensures
        text_le(a, b) || text_le(b, a),
    decreases a.len(),
{
    if a.len() > 0 && b.len() > 0 && a[0] as u32 == b[0] as u32 {
        lemma_text_le_total(a.drop_first(), b.drop_first());
    }
}

/// The order is transitive.
pub proof fn lemma_text_le_trans(a: Seq<char>, b: Seq<char>, c: Seq<char>)
    requires
        text_le(a, b),
        text_le(b, c),
    ensures
        text_le(a, c),
    decreases a.len(),
{
    if a.len() > 0 && b.len() > 0 && c.len() > 0 && a[0] as u32 == b[0] as u32 && b[0] as u32
        == c[0] as u32 {
        lemma_text_le_trans(a.drop_first(), b.drop_first(), c.drop_first());
    }
}

/// Whether `a` comes no later than `b` in the order of `str::cmp`.
pub fn text_le_exec(a: &str, b: &str) -> (r: bool)
    ensures
        r == text_le(a@, b@),
{
    let x = chars_of(a);
    let y = chars_of(b);
    let mut i: usize = 0;
    assert(x@.subrange(0, x@.len() as int) =~= x@);
    assert(y@.subrange(0, y@.len() as int) =~= y@);
    while i < x.len()
        invariant
            i <= x@.len(),
            x@ == a@,
            y@ == b@,
            i <= y@.len(),
            text_le(a@, b@) == text_le(x@.subrange(i as int, x@.len() as int), y@.subrange(i as int, y@.len() as int)),
        decreases x@.len() - i,
    {
        let ghost xs = x@.subrange(i as int, x@.len() as int);
        let ghost ys = y@.subrange(i as int, y@.len() as int);
        if i >= y.len() {
            return false;
        }
        let cx = x[i] as u32;
        let cy = y[i] as u32;
        assert(xs[0] == x@[i as int]);
        assert(ys[0] == y@[i as int]);
        if cx < cy {
            return true;
        }
        if cx > cy {
            return false;
        }
        assert(xs.drop_first() =~= x@.subrange(i + 1, x@.len() as int));
        assert(ys.drop_first() =~= y@.subrange(i + 1, y@.len() as int));
        i = i + 1;
    }
    true
}

/// Every text comes no later than itself.
pub proof fn lemma_text_le_refl(a: Seq<char>)
    ensures
        text_le(a, a),
    decreases a.len(),
{
    if a.len() > 0 {
        lemma_text_le_refl(a.drop_first());
    }
}

/// Two texts ordered both ways are equal.
pub proof fn lemma_text_le_antisym(a: Seq<char>, b: Seq<char>)
    requires
        text_le(a, b),
        text_le(b, a),
    ensures
        a == b,
    decreases a.len(),
{
    if a.len() > 0 && b.len() > 0 {
        lemma_text_le_antisym(a.drop_first(), b.drop_first());
        assert(a[0] as u32 == b[0] as u32);
        vstd::utf8::char_u32_cast(a[0], a[0] as u32);
        vstd::utf8::char_u32_cast(b[0], b[0] as u32);
        assert(a[0] == b[0]);
        assert(a =~= seq![a[0]] + a.drop_first());
        assert(b =~= seq![b[0]] + b.drop_first());
    }
}

/// The order of `str::cmp` on texts, as a relation.
pub open spec fn text_order() -> spec_fn(Seq<char>, Seq<char>) -> bool {
    |a: Seq<char>, b: Seq<char>| text_le(a, b)
}

/// The order of `str::cmp` is a total order.
pub proof fn lemma_text_order_total()
    ensures
        vstd::relations::total_ordering(text_order()),
{
    assert forall|a: Seq<char>| #[trigger] text_order()(a, a) by {
        lemma_text_le_refl(a);
    }
    assert forall|a: Seq<char>, b: Seq<char>| #[trigger] text_order()(a, b) && #[trigger] text_order()(b, a) implies a == b by {
        lemma_text_le_antisym(a, b);
    }
    assert forall|a: Seq<char>, b: Seq<char>, c: Seq<char>| #[trigger] text_order()(a, b) && #[trigger] text_order()(b, c) implies text_order()(a, c) by {
        lemma_text_le_trans(a, b, c);
    }
    assert forall|a: Seq<char>, b: Seq<char>| #[trigger] text_order()(a, b) || text_order()(b, a) by {
        lemma_text_le_total(a, b);
    }
}

} // verus!

verus! {

/// Calls `String::pop`. Trusted, as its documentation states: it removes
/// and returns the last character, or returns `None` and leaves an empty
/// string as it is.
#[verifier::external_body]
pub fn pop_char(s: &mut String) -> (r: Option<char>)
    ensures
        old(s)@.len() == 0 ==> r is None && final(s)@ == old(s)@,
        old(s)@.len() > 0 ==> r == Some(old(s)@.last()) && final(s)@ == old(s)@.drop_last(),
{
    s.pop()
}

} // verus!
