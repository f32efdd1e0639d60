//! Character-level text helpers shared by the code generator and the
//! assembler back end. Strings are modelled by their `Seq<char>` views.
use vstd::prelude::*;

verus! {

/// The Unicode `White_Space` property, which `char::is_whitespace` tests.
pub open spec fn is_white_space(c: char) -> bool {
    let n = c as u32;
    (0x9 <= n && n <= 0xd) || n == 0x20 || n == 0x85 || n == 0xa0 || n == 0x1680 || (0x2000 <= n
        && n <= 0x200a) || n == 0x2028 || n == 0x2029 || n == 0x202f || n == 0x205f || n == 0x3000
}

pub fn char_is_white_space(c: char) -> (r: bool)
    ensures
        r == is_white_space(c),
{
    let n = c as u32;
    (0x9 <= n && n <= 0xd) || n == 0x20 || n == 0x85 || n == 0xa0 || n == 0x1680 || (0x2000 <= n
        && n <= 0x200a) || n == 0x2028 || n == 0x2029 || n == 0x202f || n == 0x205f || n == 0x3000
}

/// What `str::trim_start` leaves.
pub open spec fn trim_start(s: Seq<char>) -> Seq<char>
    decreases s.len(),
{
    if s.len() > 0 && is_white_space(s[0]) {
        trim_start(s.drop_first())
    } else {
        s
    }
}

/// What `str::trim_end` leaves.
pub open spec fn trim_end(s: Seq<char>) -> Seq<char>
    decreases s.len(),
{
    if s.len() > 0 && is_white_space(s.last()) {
        trim_end(s.drop_last())
    } else {
        s
    }
}

/// What `str::trim` leaves.
pub open spec fn trim(s: Seq<char>) -> Seq<char> {
    trim_end(trim_start(s))
}

/// What `str::trim_end_matches(c)` leaves for a single character `c`.
pub open spec fn trim_end_char(s: Seq<char>, c: char) -> Seq<char>
    decreases s.len(),
{
    if s.len() > 0 && s.last() == c {
        trim_end_char(s.drop_last(), c)
    } else {
        s
    }
}

/// `p` is a prefix of `s`.
pub open spec fn starts_with(s: Seq<char>, p: Seq<char>) -> bool {
    p.len() <= s.len() && s.subrange(0, p.len() as int) == p
}

/// `p` is a suffix of `s`.
pub open spec fn ends_with(s: Seq<char>, p: Seq<char>) -> bool {
    p.len() <= s.len() && s.subrange(s.len() - p.len(), s.len() as int) == p
}

/// The pieces of `s` between occurrences of `sep`, as `str::split(sep)` yields them.
pub open spec fn split_on(s: Seq<char>, sep: char) -> Seq<Seq<char>>
    decreases s.len(),
{
    if s.len() == 0 {
        seq![Seq::<char>::empty()]
    } else {
        let pre = split_on(s.drop_last(), sep);
        if s.last() == sep {
            pre.push(Seq::<char>::empty())
        } else {
            pre.update(pre.len() - 1, pre.last().push(s.last()))
        }
    }
}

/// The pieces of `s` between runs of white space, as `str::split(char::is_whitespace)` yields them.
pub open spec fn split_white(s: Seq<char>) -> Seq<Seq<char>>
    decreases s.len(),
{
    if s.len() == 0 {
        seq![Seq::<char>::empty()]
    } else {
        let pre = split_white(s.drop_last());
        if is_white_space(s.last()) {
            pre.push(Seq::<char>::empty())
        } else {
            pre.update(pre.len() - 1, pre.last().push(s.last()))
        }
    }
}

/// The non-empty pieces, in order.
pub open spec fn non_empty_pieces(ps: Seq<Seq<char>>) -> Seq<Seq<char>>
    decreases ps.len(),
{
    if ps.len() == 0 {
        ps
    } else if ps.last().len() > 0 {
        non_empty_pieces(ps.drop_last()).push(ps.last())
    } else {
        non_empty_pieces(ps.drop_last())
    }
}

/// What `str::split_whitespace` yields.
pub open spec fn words(s: Seq<char>) -> Seq<Seq<char>> {
    non_empty_pieces(split_white(s))
}

/// The concatenation of all pieces, what `join("")` builds.
pub open spec fn concat_all(parts: Seq<Seq<char>>) -> Seq<char>
    decreases parts.len(),
{
    if parts.len() == 0 {
        Seq::<char>::empty()
    } else {
        concat_all(parts.drop_last()) + parts.last()
    }
}

/// The pieces joined with `sep` between them, what `join(sep)` builds.
pub open spec fn join_with(parts: Seq<Seq<char>>, sep: Seq<char>) -> Seq<char>
    decreases parts.len(),
{
    if parts.len() == 0 {
        Seq::<char>::empty()
    } else if parts.len() == 1 {
        parts[0]
    } else {
        join_with(parts.drop_last(), sep) + sep + parts.last()
    }
}

/// Every non-overlapping occurrence of `pat`, scanned from the left, replaced by `rep`:
/// what `str::replace(pat, rep)` builds for a non-empty pattern.
pub open spec fn replace_all(s: Seq<char>, pat: Seq<char>, rep: Seq<char>) -> Seq<char>
    recommends
        pat.len() > 0,
    decreases s.len(),
{
    if s.len() == 0 || pat.len() == 0 {
        s
    } else if starts_with(s, pat) {
        rep + replace_all(s.subrange(pat.len() as int, s.len() as int), pat, rep)
    } else {
        seq![s[0]] + replace_all(s.drop_first(), pat, rep)
    }
}

/// The character for a decimal digit.
pub open spec fn digit_char(d: nat) -> char {
    if d == 0 {
        '0'
    } else if d == 1 {
        '1'
    } else if d == 2 {
        '2'
    } else if d == 3 {
        '3'
    } else if d == 4 {
        '4'
    } else if d == 5 {
        '5'
    } else if d == 6 {
        '6'
    } else if d == 7 {
        '7'
    } else if d == 8 {
        '8'
    } else {
        '9'
    }
}

/// The decimal text of `n`, as `format!("{}", n)` writes it.
pub open spec fn decimal(n: nat) -> Seq<char>
    decreases n,
{
    if n < 10 {
        seq![digit_char(n)]
    } else {
        decimal(n / 10).push(digit_char(n % 10))
    }
}

pub open spec fn is_digit(c: char) -> bool {
    48 <= (c as u32) && (c as u32) <= 57
}

pub open spec fn digit_value(c: char) -> nat {
    ((c as u32) - 48) as nat
}

/// The value of a string of decimal digits.
pub open spec fn digits_value(s: Seq<char>) -> nat
    decreases s.len(),
{
    if s.len() == 0 {
        0
    } else {
        digits_value(s.drop_last()) * 10 + digit_value(s.last())
    }
}

pub open spec fn all_digits(s: Seq<char>) -> bool {
    forall|i: int| 0 <= i < s.len() ==> is_digit(#[trigger] s[i])
}

/// What `str::parse::<u32>` gives: an optional `+`, then at least one decimal digit,
/// with a value that fits in 32 bits.
pub open spec fn parse_u32(s: Seq<char>) -> Option<u32> {
    let d = if s.len() > 0 && s[0] == '+' {
        s.drop_first()
    } else {
        s
    };
    if d.len() > 0 && all_digits(d) && digits_value(d) <= u32::MAX {
        Some(digits_value(d) as u32)
    } else {
        None
    }
}

/// The decimal text of a number is a non-empty string of digits whose value is
/// the number.
pub proof fn lemma_decimal(n: nat)
    ensures
        decimal(n).len() >= 1,
        all_digits(decimal(n)),
        digits_value(decimal(n)) == n,
    decreases n,
{
    if n >= 10 {
        lemma_decimal(n / 10);
        let d = decimal(n / 10);
        let s = d.push(digit_char(n % 10));
        assert(s.drop_last() =~= d);
        assert forall|i: int| 0 <= i < s.len() implies is_digit(#[trigger] s[i]) by {
            if i < d.len() {
                assert(s[i] == d[i]);
            }
        }
        assert(digit_value(digit_char(n % 10)) == n % 10);
        assert((n / 10) * 10 + n % 10 == n) by (nonlinear_arith);
    } else {
        let s = seq![digit_char(n)];
        assert(s.drop_last() =~= Seq::<char>::empty());
        assert(digits_value(s.drop_last()) == 0);
        assert(s.last() == digit_char(n));
        assert(digit_value(digit_char(n)) == n);
    }
}

/// Different numbers have different decimal texts.
pub proof fn lemma_decimal_injective(a: nat, b: nat)
    ensures
        decimal(a) == decimal(b) ==> a == b,
{
    lemma_decimal(a);
    lemma_decimal(b);
}

pub fn digit_to_char(d: u64) -> (c: char)
    requires
        d < 10,
    ensures
        c == digit_char(d as nat),
{
    if d == 0 {
        '0'
    } else if d == 1 {
        '1'
    } else if d == 2 {
        '2'
    } else if d == 3 {
        '3'
    } else if d == 4 {
        '4'
    } else if d == 5 {
        '5'
    } else if d == 6 {
        '6'
    } else if d == 7 {
        '7'
    } else if d == 8 {
        '8'
    } else {
        '9'
    }
}

/// The decimal digits of `n`.
pub fn decimal_chars(n: u64) -> (v: Vec<char>)
    ensures
        v@ == decimal(n as nat),
    decreases n,
{
    if n < 10 {
        let mut v: Vec<char> = Vec::new();
        v.push(digit_to_char(n));
        v
    } else {
        let mut v = decimal_chars(n / 10);
        v.push(digit_to_char(n % 10));
        v
    }
}

/// The characters of a string slice.
pub fn chars_of(s: &str) -> (v: Vec<char>)
    ensures
        v@ == s@,
{
    let n = s.unicode_len();
    let mut v: Vec<char> = Vec::new();
    let mut i: usize = 0;
    while i < n
        invariant
            n == s@.len(),
            i <= n,
            v@ == s@.subrange(0, i as int),
        decreases n - i,
    {
        v.push(s.get_char(i));
        i += 1;
    }
    v
}

/// Builds a `String` from its characters: calls `String::from_iter` on the
/// characters, which the std documentation gives as their concatenation.
#[verifier::external_body]
pub(crate) fn string_of(v: &Vec<char>) -> (s: String)
    ensures
        s@ == v@,
{
    String::from_iter(v.iter())
}

/// Appends the characters of `s` to `v`.
pub fn push_str(v: &mut Vec<char>, s: &str)
    ensures
        final(v)@ == old(v)@ + s@,
{
    let n = s.unicode_len();
    let mut i: usize = 0;
    let ghost v0 = v@;
    while i < n
        invariant
            n == s@.len(),
            i <= n,
            v@ == v0 + s@.subrange(0, i as int),
        decreases n - i,
    {
        v.push(s.get_char(i));
        i += 1;
        assert(s@.subrange(0, i as int) == s@.subrange(0, i - 1).push(s@[i - 1]));
    }
    assert(s@.subrange(0, n as int) == s@);
}

/// Appends the characters of `w` to `v`.
pub fn push_chars(v: &mut Vec<char>, w: &Vec<char>)
    ensures
        final(v)@ == old(v)@ + w@,
{
    let mut i: usize = 0;
    let ghost v0 = v@;
    while i < w.len()
        invariant
            i <= w@.len(),
            v@ == v0 + w@.subrange(0, i as int),
        decreases w.len() - i,
    {
        v.push(w[i]);
        i += 1;
        assert(w@.subrange(0, i as int) == w@.subrange(0, i - 1).push(w@[i - 1]));
    }
    assert(w@.subrange(0, w@.len() as int) == w@);
}

/// Two string slices hold the same characters.
pub fn str_eq(a: &str, b: &str) -> (r: bool)
    ensures
        r == (a@ == b@),
{
    let va = chars_of(a);
    let vb = chars_of(b);
    chars_eq(&va, &vb)
}

/// Two character vectors are equal.
pub fn chars_eq(a: &Vec<char>, b: &Vec<char>) -> (r: bool)
    ensures
        r == (a@ == b@),
{
    if a.len() != b.len() {
        return false;
    }
    let mut i: usize = 0;
    while i < a.len()
        invariant
            a@.len() == b@.len(),
            i <= a@.len(),
            forall|j: int| 0 <= j < i ==> a@[j] == b@[j],
        decreases a.len() - i,
    {
        if a[i] != b[i] {
            return false;
        }
        i += 1;
    }
    assert(a@ =~= b@);
    true
}

/// A character vector spells the given string slice.
pub fn chars_eq_str(a: &Vec<char>, b: &str) -> (r: bool)
    ensures
        r == (a@ == b@),
{
    let vb = chars_of(b);
    chars_eq(a, &vb)
}

/// `p` is a prefix of `s`.
pub fn chars_starts_with(s: &Vec<char>, p: &Vec<char>) -> (r: bool)
    ensures
        r == starts_with(s@, p@),
{
    if p.len() > s.len() {
        return false;
    }
    let mut i: usize = 0;
    while i < p.len()
        invariant
            p@.len() <= s@.len(),
            i <= p@.len(),
            forall|j: int| 0 <= j < i ==> s@[j] == p@[j],
        decreases p.len() - i,
    {
        if s[i] != p[i] {
            assert(s@.subrange(0, p@.len() as int)[i as int] != p@[i as int]);
            return false;
        }
        i += 1;
    }
    assert(s@.subrange(0, p@.len() as int) =~= p@);
    true
}

/// `p` is a suffix of `s`.
pub fn chars_ends_with(s: &Vec<char>, p: &Vec<char>) -> (r: bool)
    ensures
        r == ends_with(s@, p@),
{
    if p.len() > s.len() {
        return false;
    }
    let off = s.len() - p.len();
    let mut i: usize = 0;
    while i < p.len()
        invariant
            p@.len() <= s@.len(),
            off == s@.len() - p@.len(),
            off + p@.len() == s@.len(),
            s@.len() <= usize::MAX,
            i <= p@.len(),
            forall|j: int| 0 <= j < i ==> s@[off + j] == p@[j],
        decreases p.len() - i,
    {
        if s[off + i] != p[i] {
            assert(s@.subrange(off as int, s@.len() as int)[i as int] != p@[i as int]);
            return false;
        }
        i += 1;
    }
    assert(s@.subrange(off as int, s@.len() as int) =~= p@);
    true
}

/// The characters `v[lo..hi]`.
pub fn sub_chars(v: &Vec<char>, lo: usize, hi: usize) -> (r: Vec<char>)
    requires
        lo <= hi <= v@.len(),
    ensures
        r@ == v@.subrange(lo as int, hi as int),
{
    let mut r: Vec<char> = Vec::new();
    let mut i = lo;
    while i < hi
        invariant
            lo <= i <= hi <= v@.len(),
            r@ == v@.subrange(lo as int, i as int),
        decreases hi - i,
    {
        r.push(v[i]);
        i += 1;
        assert(v@.subrange(lo as int, i as int) == v@.subrange(lo as int, i - 1).push(v@[i - 1]));
    }
    r
}

proof fn lemma_trim_start_skip(s: Seq<char>, i: int)
    requires
        0 <= i <= s.len(),
        forall|j: int| 0 <= j < i ==> is_white_space(#[trigger] s[j]),
    ensures
        trim_start(s) == trim_start(s.subrange(i, s.len() as int)),
    decreases i,
{
    if i > 0 {
        assert(s.drop_first().subrange(i - 1, s.drop_first().len() as int) =~= s.subrange(
            i,
            s.len() as int,
        ));
        assert forall|j: int| 0 <= j < i - 1 implies is_white_space(#[trigger] s.drop_first()[j]) by {
            assert(s.drop_first()[j] == s[j + 1]);
        }
        lemma_trim_start_skip(s.drop_first(), i - 1);
    } else {
        assert(s.subrange(0, s.len() as int) =~= s);
    }
}

proof fn lemma_trim_end_cut(s: Seq<char>, i: int)
    requires
        0 <= i <= s.len(),
        forall|j: int| i <= j < s.len() ==> is_white_space(#[trigger] s[j]),
    ensures
        trim_end(s) == trim_end(s.subrange(0, i)),
    decreases s.len() - i,
{
    if i < s.len() {
        assert(s.drop_last().subrange(0, i) =~= s.subrange(0, i));
        lemma_trim_end_cut(s.drop_last(), i);
    } else {
        assert(s.subrange(0, i) =~= s);
    }
}

proof fn lemma_trim_end_char_cut(s: Seq<char>, c: char, i: int)
    requires
        0 <= i <= s.len(),
        forall|j: int| i <= j < s.len() ==> #[trigger] s[j] == c,
    ensures
        trim_end_char(s, c) == trim_end_char(s.subrange(0, i), c),
    decreases s.len() - i,
{
    if i < s.len() {
        assert(s.drop_last().subrange(0, i) =~= s.subrange(0, i));
        lemma_trim_end_char_cut(s.drop_last(), c, i);
    } else {
        assert(s.subrange(0, i) =~= s);
    }
}

/// `str::trim` on characters.
pub fn trim_chars(v: &Vec<char>) -> (r: Vec<char>)
    ensures
        r@ == trim(v@),
{
    let n = v.len();
    let mut lo: usize = 0;
    while lo < n && char_is_white_space(v[lo])
        invariant
            n == v@.len(),
            lo <= n,
            forall|j: int| 0 <= j < lo ==> is_white_space(#[trigger] v@[j]),
        decreases n - lo,
    {
        lo += 1;
    }
    proof {
        lemma_trim_start_skip(v@, lo as int);
        assert(trim_start(v@.subrange(lo as int, n as int)) == v@.subrange(lo as int, n as int));
    }
    let mut hi: usize = n;
    while hi > lo && char_is_white_space(v[hi - 1])
        invariant
            n == v@.len(),
            lo <= hi <= n,
            forall|j: int| hi <= j < n ==> is_white_space(#[trigger] v@[j]),
        decreases hi,
    {
        hi -= 1;
    }
    proof {
        let t = v@.subrange(lo as int, n as int);
        assert forall|j: int| hi - lo <= j < t.len() implies is_white_space(#[trigger] t[j]) by {
            assert(t[j] == v@[lo + j]);
        }
        lemma_trim_end_cut(t, hi - lo);
        assert(t.subrange(0, hi - lo) =~= v@.subrange(lo as int, hi as int));
        let u = v@.subrange(lo as int, hi as int);
        if u.len() > 0 {
            assert(u.last() == v@[hi - 1]);
        }
    }
    sub_chars(v, lo, hi)
}

/// `str::trim_end_matches(c)` on characters.
pub fn trim_end_char_chars(v: &Vec<char>, c: char) -> (r: Vec<char>)
    ensures
        r@ == trim_end_char(v@, c),
{
    let n = v.len();
    let mut hi: usize = n;
    while hi > 0 && v[hi - 1] == c
        invariant
            n == v@.len(),
            hi <= n,
            forall|j: int| hi <= j < n ==> #[trigger] v@[j] == c,
        decreases hi,
    {
        hi -= 1;
    }
    proof {
        lemma_trim_end_char_cut(v@, c, hi as int);
        let u = v@.subrange(0, hi as int);
        if u.len() > 0 {
            assert(u.last() == v@[hi - 1]);
        }
    }
    sub_chars(v, 0, hi)
}


/// The views of a sequence of character vectors.
pub open spec fn views(v: Seq<Vec<char>>) -> Seq<Seq<char>> {
    v.map_values(|w: Vec<char>| w@)
}

proof fn lemma_split_on_nonempty(s: Seq<char>, sep: char)
    ensures
        split_on(s, sep).len() >= 1,
    decreases s.len(),
{
    if s.len() > 0 {
        lemma_split_on_nonempty(s.drop_last(), sep);
    }
}

proof fn lemma_split_white_nonempty(s: Seq<char>)
    ensures
        split_white(s).len() >= 1,
    decreases s.len(),
{
    if s.len() > 0 {
        lemma_split_white_nonempty(s.drop_last());
    }
}

/// `str::split(sep)` on characters.
pub fn split_on_chars(s: &Vec<char>, sep: char) -> (r: Vec<Vec<char>>)
    ensures
        views(r@) == split_on(s@, sep),
{
    let mut pieces: Vec<Vec<char>> = Vec::new();
    let mut cur: Vec<char> = Vec::new();
    let mut i: usize = 0;
    assert(s@.subrange(0, 0) =~= Seq::<char>::empty());
    assert(views(pieces@).push(cur@) =~= split_on(s@.subrange(0, 0), sep));
    while i < s.len()
        invariant
            i <= s@.len(),
            views(pieces@).push(cur@) == split_on(s@.subrange(0, i as int), sep),
        decreases s.len() - i,
    {
        let ghost p = s@.subrange(0, i as int);
        let ghost p2 = s@.subrange(0, i + 1);
        assert(p2.drop_last() =~= p);
        assert(p2.last() == s@[i as int]);
        proof {
            lemma_split_on_nonempty(p, sep);
        }
        let c = s[i];
        if c == sep {
            pieces.push(cur);
            cur = Vec::new();
            assert(views(pieces@).push(cur@) =~= split_on(p2, sep));
        } else {
            let ghost old_pieces = views(pieces@);
            cur.push(c);
            assert(views(pieces@).push(cur@) =~= split_on(p2, sep));
        }
        i += 1;
    }
    assert(s@.subrange(0, s@.len() as int) =~= s@);
    pieces.push(cur);
    assert(views(pieces@) =~= split_on(s@, sep));
    pieces
}

proof fn lemma_non_empty_push(ps: Seq<Seq<char>>, w: Seq<char>)
    ensures
        non_empty_pieces(ps.push(w)) == if w.len() > 0 {
            non_empty_pieces(ps).push(w)
        } else {
            non_empty_pieces(ps)
        },
{
    assert(ps.push(w).drop_last() =~= ps);
}

/// `str::split_whitespace` on characters.
pub fn words_chars(s: &Vec<char>) -> (r: Vec<Vec<char>>)
    ensures
        views(r@) == words(s@),
{
    let mut out: Vec<Vec<char>> = Vec::new();
    let mut cur: Vec<char> = Vec::new();
    let mut i: usize = 0;
    assert(s@.subrange(0, 0) =~= Seq::<char>::empty());
    assert(split_white(s@.subrange(0, 0)) =~= seq![Seq::<char>::empty()]);
    assert(split_white(s@.subrange(0, 0)).drop_last() =~= Seq::<Seq<char>>::empty());
    assert(views(out@) =~= non_empty_pieces(split_white(s@.subrange(0, 0)).drop_last()));
    while i < s.len()
        invariant
            i <= s@.len(),
            split_white(s@.subrange(0, i as int)).len() >= 1,
            views(out@) == non_empty_pieces(split_white(s@.subrange(0, i as int)).drop_last()),
            cur@ == split_white(s@.subrange(0, i as int)).last(),
        decreases s.len() - i,
    {
        let ghost p = s@.subrange(0, i as int);
        let ghost p2 = s@.subrange(0, i + 1);
        let ghost sw = split_white(p);
        assert(p2.drop_last() =~= p);
        assert(p2.last() == s@[i as int]);
        let c = s[i];
        if char_is_white_space(c) {
            assert(split_white(p2) == sw.push(Seq::<char>::empty()));
            assert(split_white(p2).drop_last() =~= sw);
            proof {
                assert(sw =~= sw.drop_last().push(sw.last()));
                lemma_non_empty_push(sw.drop_last(), sw.last());
            }
            if cur.len() > 0 {
                out.push(cur);
                assert(views(out@) =~= non_empty_pieces(sw.drop_last()).push(sw.last()));
            }
            cur = Vec::new();
        } else {
            assert(split_white(p2) == sw.update(sw.len() - 1, sw.last().push(c)));
            assert(split_white(p2).drop_last() =~= sw.drop_last());
            cur.push(c);
        }
        i += 1;
    }
    assert(s@.subrange(0, s@.len() as int) =~= s@);
    let ghost sw = split_white(s@);
    proof {
        assert(sw =~= sw.drop_last().push(sw.last()));
        lemma_non_empty_push(sw.drop_last(), sw.last());
    }
    if cur.len() > 0 {
        out.push(cur);
        assert(views(out@) =~= non_empty_pieces(sw.drop_last()).push(sw.last()));
    }
    out
}

/// The concatenation of the given pieces.
pub fn concat_chars(parts: &Vec<Vec<char>>, from: usize) -> (r: Vec<char>)
    requires
        from <= parts@.len(),
    ensures
        r@ == concat_all(views(parts@).subrange(from as int, parts@.len() as int)),
{
    let mut r: Vec<char> = Vec::new();
    let mut i = from;
    assert(views(parts@).subrange(from as int, from as int) =~= Seq::<Seq<char>>::empty());
    while i < parts.len()
        invariant
            from <= i <= parts@.len(),
            r@ == concat_all(views(parts@).subrange(from as int, i as int)),
        decreases parts.len() - i,
    {
        let ghost q = views(parts@).subrange(from as int, i + 1);
        assert(q.drop_last() =~= views(parts@).subrange(from as int, i as int));
        push_chars(&mut r, &parts[i]);
        i += 1;
    }
    r
}

/// The pieces joined with `sep` between them.
pub fn join_chars(parts: &Vec<Vec<char>>, sep: &str) -> (r: Vec<char>)
    ensures
        r@ == join_with(views(parts@), sep@),
{
    let mut r: Vec<char> = Vec::new();
    let mut i: usize = 0;
    assert(views(parts@).subrange(0, 0) =~= Seq::<Seq<char>>::empty());
    while i < parts.len()
        invariant
            i <= parts@.len(),
            r@ == join_with(views(parts@).subrange(0, i as int), sep@),
        decreases parts.len() - i,
    {
        let ghost q = views(parts@).subrange(0, i + 1);
        assert(q.drop_last() =~= views(parts@).subrange(0, i as int));
        if i > 0 {
            push_str(&mut r, sep);
        } else {
            assert(q =~= seq![parts@[0]@]);
        }
        push_chars(&mut r, &parts[i]);
        i += 1;
    }
    assert(views(parts@).subrange(0, parts@.len() as int) =~= views(parts@));
    r
}

/// `str::parse::<u32>` on characters.
pub fn parse_u32_chars(s: &Vec<char>) -> (r: Option<u32>)
    ensures
        r == parse_u32(s@),
{
    let mut start: usize = 0;
    if s.len() > 0 && s[0] == '+' {
        start = 1;
    }
    let ghost d = if s@.len() > 0 && s@[0] == '+' {
        s@.drop_first()
    } else {
        s@
    };
    assert(d =~= s@.subrange(start as int, s@.len() as int));
    if start >= s.len() {
        return None;
    }
    let mut acc: u64 = 0;
    let mut i = start;
    assert(s@.subrange(start as int, start as int) =~= Seq::<char>::empty());
    while i < s.len()
        invariant
            start <= i <= s@.len(),
            d == s@.subrange(start as int, s@.len() as int),
            d == (if s@.len() > 0 && s@[0] == '+' {
                s@.drop_first()
            } else {
                s@
            }),
            all_digits(s@.subrange(start as int, i as int)),
            acc == if digits_value(s@.subrange(start as int, i as int)) < 0x1_0000_0000 {
                digits_value(s@.subrange(start as int, i as int))
            } else {
                0x1_0000_0000
            },
        decreases s.len() - i,
    {
        let c = s[i];
        let n = c as u32;
        if n < 48 || n > 57 {
            assert(d[i - start] == c);
            assert(!is_digit(d[i - start]));
            assert(!all_digits(d));
            return None;
        }
        let ghost pre = s@.subrange(start as int, i as int);
        let ghost pre2 = s@.subrange(start as int, i + 1);
        assert(pre2.drop_last() =~= pre);
        assert(pre2.last() == c);
        assert(digits_value(pre2) == digits_value(pre) * 10 + digit_value(c));
        acc = acc * 10 + (n - 48) as u64;
        if acc > 0x1_0000_0000 {
            acc = 0x1_0000_0000;
        }
        assert forall|j: int| 0 <= j < pre2.len() implies is_digit(#[trigger] pre2[j]) by {
            if j < pre.len() {
                assert(pre2[j] == pre[j]);
            }
        }
        i += 1;
    }
    if acc > 0xffff_ffff {
        None
    } else {
        Some(acc as u32)
    }
}


/// The number of bytes of the UTF-8 encoding of `c`.
pub open spec fn utf8_len(c: char) -> nat {
    let n = c as u32;
    if n < 0x80 {
        1
    } else if n < 0x800 {
        2
    } else if n < 0x10000 {
        3
    } else {
        4
    }
}

pub open spec fn is_hex_digit(c: char) -> bool {
    let n = c as u32;
    (48 <= n && n <= 57) || (97 <= n && n <= 102) || (65 <= n && n <= 70)
}

pub open spec fn hex_value(c: char) -> nat {
    let n = c as u32;
    if 48 <= n && n <= 57 {
        (n - 48) as nat
    } else if 97 <= n && n <= 102 {
        (n - 87) as nat
    } else {
        (n - 55) as nat
    }
}

/// The value of a string of hexadecimal digits.
pub open spec fn hex_digits_value(s: Seq<char>) -> nat
    decreases s.len(),
{
    if s.len() == 0 {
        0
    } else {
        hex_digits_value(s.drop_last()) * 16 + hex_value(s.last())
    }
}

pub open spec fn all_hex_digits(s: Seq<char>) -> bool {
    forall|i: int| 0 <= i < s.len() ==> is_hex_digit(#[trigger] s[i])
}

/// What `u32::from_str_radix(s, 16)` gives: an optional `+`, then at least one
/// hexadecimal digit (either case), with a value that fits in 32 bits.
pub open spec fn parse_hex_u32(s: Seq<char>) -> Option<u32> {
    let d = if s.len() > 0 && s[0] == '+' {
        s.drop_first()
    } else {
        s
    };
    if d.len() > 0 && all_hex_digits(d) && hex_digits_value(d) <= u32::MAX {
        Some(hex_digits_value(d) as u32)
    } else {
        None
    }
}

/// `u32::from_str_radix(s, 16)` on characters.
pub fn parse_hex_u32_chars(s: &Vec<char>) -> (r: Option<u32>)
    ensures
        r == parse_hex_u32(s@),
{
    let mut start: usize = 0;
    if s.len() > 0 && s[0] == '+' {
        start = 1;
    }
    let ghost d = if s@.len() > 0 && s@[0] == '+' {
        s@.drop_first()
    } else {
        s@
    };
    assert(d =~= s@.subrange(start as int, s@.len() as int));
    if start >= s.len() {
        return None;
    }
    let mut acc: u64 = 0;
    let mut i = start;
    assert(s@.subrange(start as int, start as int) =~= Seq::<char>::empty());
    while i < s.len()
        invariant
            start <= i <= s@.len(),
            d == s@.subrange(start as int, s@.len() as int),
            d == (if s@.len() > 0 && s@[0] == '+' {
                s@.drop_first()
            } else {
                s@
            }),
            all_hex_digits(s@.subrange(start as int, i as int)),
            acc == if hex_digits_value(s@.subrange(start as int, i as int)) < 0x1_0000_0000 {
                hex_digits_value(s@.subrange(start as int, i as int))
            } else {
                0x1_0000_0000
            },
        decreases s.len() - i,
    {
        let c = s[i];
        let n = c as u32;
        let dv: u64;
        if 48 <= n && n <= 57 {
            dv = (n - 48) as u64;
        } else if 97 <= n && n <= 102 {
            dv = (n - 87) as u64;
        } else if 65 <= n && n <= 70 {
            dv = (n - 55) as u64;
        } else {
            assert(d[i - start] == c);
            assert(!is_hex_digit(d[i - start]));
            assert(!all_hex_digits(d));
            return None;
        }
        let ghost pre = s@.subrange(start as int, i as int);
        let ghost pre2 = s@.subrange(start as int, i + 1);
        assert(pre2.drop_last() =~= pre);
        assert(pre2.last() == c);
        assert(hex_digits_value(pre2) == hex_digits_value(pre) * 16 + hex_value(c));
        acc = acc * 16 + dv;
        if acc > 0x1_0000_0000 {
            acc = 0x1_0000_0000;
        }
        assert forall|j: int| 0 <= j < pre2.len() implies is_hex_digit(#[trigger] pre2[j]) by {
            if j < pre.len() {
                assert(pre2[j] == pre[j]);
            }
        }
        i += 1;
    }
    if acc > 0xffff_ffff {
        None
    } else {
        Some(acc as u32)
    }
}


/// `pat` occurs in `s` at index `i`.
pub fn matches_at(s: &Vec<char>, i: usize, pat: &Vec<char>) -> (r: bool)
    requires
        i <= s@.len(),
    ensures
        r == starts_with(s@.subrange(i as int, s@.len() as int), pat@),
{
    let ghost rest = s@.subrange(i as int, s@.len() as int);
    if pat.len() > s.len() - i {
        return false;
    }
    let mut j: usize = 0;
    while j < pat.len()
        invariant
            i <= s@.len(),
            pat@.len() <= s@.len() - i,
            s@.len() <= usize::MAX,
            rest == s@.subrange(i as int, s@.len() as int),
            j <= pat@.len(),
            forall|m: int| 0 <= m < j ==> s@[i + m] == pat@[m],
        decreases pat.len() - j,
    {
        if s[i + j] != pat[j] {
            assert(rest.subrange(0, pat@.len() as int)[j as int] != pat@[j as int]);
            return false;
        }
        j += 1;
    }
    assert(rest.subrange(0, pat@.len() as int) =~= pat@);
    true
}

/// `str::replace(pat, rep)` on characters, for a non-empty pattern.
pub fn replace_all_chars(s: &Vec<char>, pat: &Vec<char>, rep: &Vec<char>) -> (r: Vec<char>)
    requires
        pat@.len() > 0,
    ensures
        r@ == replace_all(s@, pat@, rep@),
{
    let mut out: Vec<char> = Vec::new();
    let mut i: usize = 0;
    let n = s.len();
    assert(s@.subrange(0, n as int) =~= s@);
    while i < n
        invariant
            n == s@.len(),
            pat@.len() > 0,
            i <= n,
            replace_all(s@, pat@, rep@) == out@ + replace_all(
                s@.subrange(i as int, n as int),
                pat@,
                rep@,
            ),
        decreases n - i,
    {
        let ghost rest = s@.subrange(i as int, n as int);
        let ghost o0 = out@;
        if matches_at(s, i, pat) {
            assert(rest.subrange(pat@.len() as int, rest.len() as int) =~= s@.subrange(
                i + pat@.len(),
                n as int,
            ));
            push_chars(&mut out, rep);
            i += pat.len();
            assert(o0 + (rep@ + replace_all(s@.subrange(i as int, n as int), pat@, rep@)) =~= out@
                + replace_all(s@.subrange(i as int, n as int), pat@, rep@));
        } else {
            assert(rest.drop_first() =~= s@.subrange(i + 1, n as int));
            out.push(s[i]);
            i += 1;
            assert(o0 + (seq![rest[0]] + replace_all(s@.subrange(i as int, n as int), pat@, rep@))
                =~= out@ + replace_all(s@.subrange(i as int, n as int), pat@, rep@));
        }
    }
    assert(out@ + replace_all(s@.subrange(n as int, n as int), pat@, rep@) =~= out@);
    out
}

/// A copy of the characters.
pub fn copy_chars(v: &Vec<char>) -> (r: Vec<char>)
    ensures
        r@ == v@,
{
    let r = sub_chars(v, 0, v.len());
    assert(v@.subrange(0, v@.len() as int) =~= v@);
    r
}

/// The vector holds these characters.
pub fn contains_chars(acc: &Vec<Vec<char>>, name: &Vec<char>) -> (r: bool)
    ensures
        r == views(acc@).contains(name@),
{
    let mut i: usize = 0;
    while i < acc.len()
        invariant
            i <= acc@.len(),
            forall|j: int| 0 <= j < i ==> views(acc@)[j] != name@,
        decreases acc.len() - i,
    {
        if chars_eq(&acc[i], name) {
            assert(views(acc@)[i as int] == name@);
            return true;
        }
        i += 1;
    }
    false
}


/// `a` comes before `b` in the order of `String`'s `Ord`: byte-wise on UTF-8,
/// which is character-wise by code point.
pub open spec fn chars_lt(a: Seq<char>, b: Seq<char>) -> bool
    decreases a.len(),
{
    if a.len() == 0 {
        b.len() > 0
    } else if b.len() == 0 {
        false
    } else if a[0] != b[0] {
        a[0] < b[0]
    } else {
        chars_lt(a.drop_first(), b.drop_first())
    }
}

pub proof fn lemma_lt_irreflexive(a: Seq<char>)
    ensures
        !chars_lt(a, a),
    decreases a.len(),
{
    if a.len() > 0 {
        lemma_lt_irreflexive(a.drop_first());
    }
}

pub proof fn lemma_lt_transitive(a: Seq<char>, b: Seq<char>, c: Seq<char>)
    requires
        chars_lt(a, b),
        chars_lt(b, c),
    ensures
        chars_lt(a, c),
    decreases a.len(),
{
    if a.len() > 0 && b.len() > 0 && c.len() > 0 && a[0] == b[0] && b[0] == c[0] {
        lemma_lt_transitive(a.drop_first(), b.drop_first(), c.drop_first());
    }
}

pub proof fn lemma_lt_total(a: Seq<char>, b: Seq<char>)
    requires
        a != b,
    ensures
        chars_lt(a, b) || chars_lt(b, a),
    decreases a.len(),
{
    if a.len() > 0 && b.len() > 0 && a[0] == b[0] {
        if a.drop_first() == b.drop_first() {
            assert(a =~= seq![a[0]] + a.drop_first());
            assert(b =~= seq![b[0]] + b.drop_first());
        }
        lemma_lt_total(a.drop_first(), b.drop_first());
    } else if a.len() == 0 && b.len() == 0 {
        assert(a =~= b);
    }
}

proof fn lemma_lt_skip(a: Seq<char>, b: Seq<char>, i: int)
    requires
        0 <= i <= a.len(),
        i <= b.len(),
        forall|j: int| 0 <= j < i ==> a[j] == b[j],
    ensures
        chars_lt(a, b) == chars_lt(a.subrange(i, a.len() as int), b.subrange(i, b.len() as int)),
    decreases i,
{
    if i == 0 {
        assert(a.subrange(0, a.len() as int) =~= a);
        assert(b.subrange(0, b.len() as int) =~= b);
    } else {
        assert(a.drop_first().subrange(i - 1, a.len() - 1) =~= a.subrange(i, a.len() as int));
        assert(b.drop_first().subrange(i - 1, b.len() - 1) =~= b.subrange(i, b.len() as int));
        assert forall|j: int| 0 <= j < i - 1 implies a.drop_first()[j] == b.drop_first()[j] by {
            assert(a[j + 1] == b[j + 1]);
        }
        lemma_lt_skip(a.drop_first(), b.drop_first(), i - 1);
    }
}

/// `a` comes before `b` (see `chars_lt`).
pub fn chars_lt_exec(a: &Vec<char>, b: &Vec<char>) -> (r: bool)
    ensures
        r == chars_lt(a@, b@),
{
    let mut i: usize = 0;
    while i < a.len() && i < b.len() && a[i] == b[i]
        invariant
            i <= a@.len(),
            i <= b@.len(),
            forall|j: int| 0 <= j < i ==> a@[j] == b@[j],
        decreases a.len() - i,
    {
        i += 1;
    }
    proof {
        lemma_lt_skip(a@, b@, i as int);
    }
    let ghost ra = a@.subrange(i as int, a@.len() as int);
    let ghost rb = b@.subrange(i as int, b@.len() as int);
    if i == a.len() {
        i < b.len()
    } else if i == b.len() {
        false
    } else {
        assert(ra[0] == a@[i as int] && rb[0] == b@[i as int]);
        a[i] < b[i]
    }
}

} // verus!
