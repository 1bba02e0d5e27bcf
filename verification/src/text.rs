//! Character-level string helpers shared by the other modules: whitespace
//! trimming, substring search, code-point order and case mapping.

use vstd::prelude::*;

verus! {

/// Unicode `White_Space`, the class that `char::is_whitespace` tests.
pub open spec fn is_ws(c: char) -> bool {
    let u = c as u32;
    ||| 9 <= u <= 13
    ||| u == 32
    ||| u == 0x85
    ||| u == 0xA0
    ||| u == 0x1680
    ||| 0x2000 <= u <= 0x200A
    ||| u == 0x2028
    ||| u == 0x2029
    ||| u == 0x202F
    ||| u == 0x205F
    ||| u == 0x3000
}

/// `s` without its leading whitespace.
pub open spec fn trim_start_spec(s: Seq<char>) -> Seq<char>
    decreases s.len(),
{
    if s.len() > 0 && is_ws(s[0]) {
        trim_start_spec(s.drop_first())
    } else {
        s
    }
}

/// `s` without its trailing whitespace.
pub open spec fn trim_end_spec(s: Seq<char>) -> Seq<char>
    decreases s.len(),
{
    if s.len() > 0 && is_ws(s.last()) {
        trim_end_spec(s.drop_last())
    } else {
        s
    }
}

/// `s` without leading and trailing whitespace, as `str::trim` gives it.
pub open spec fn trim_spec(s: Seq<char>) -> Seq<char> {
    trim_end_spec(trim_start_spec(s))
}

/// Whether `c` is whitespace.
pub fn is_whitespace(c: char) -> (b: bool)
    ensures
        b == is_ws(c),
{
    let u = c as u32;
    (9 <= u && u <= 13) || u == 32 || u == 0x85 || u == 0xA0 || u == 0x1680 || (0x2000 <= u
        && u <= 0x200A) || u == 0x2028 || u == 0x2029 || u == 0x202F || u == 0x205F || u
        == 0x3000
}

/// The characters of `s`, in order.
pub fn to_chars(s: &str) -> (v: Vec<char>)
    ensures
        v@ == s@,
{
    let mut v: Vec<char> = Vec::new();
    for c in it: s.chars()
        invariant
            v@ == it.seq().take(it.index() as int),
            it.seq() == s@,
    {
        v.push(c);
        assert(it.seq().take(it.index() + 1) == it.seq().take(it.index() as int).push(c));
    }
    v
}

/// `String::push`: appends one character at the end.
#[verifier::external_body]
pub(crate) fn push_char(s: &mut String, c: char)
    ensures
        final(s)@ == old(s)@.push(c),
{
    s.push(c)
}

/// The string made of `v[lo..hi]`.
pub fn string_from(v: &Vec<char>, lo: usize, hi: usize) -> (s: String)
    requires
        lo <= hi <= v.len(),
    ensures
        s@ == v@.subrange(lo as int, hi as int),
{
    let mut s = String::new();
    let mut i = lo;
    while i < hi
        invariant
            lo <= i <= hi <= v.len(),
            s@ == v@.subrange(lo as int, i as int),
        decreases hi - i,
    {
        push_char(&mut s, v[i]);
        assert(v@.subrange(lo as int, i + 1) == v@.subrange(lo as int, i as int).push(v@[i as int]));
        i = i + 1;
    }
    s
}

/// The bounds of `v[lo..hi]` once whitespace is trimmed from both ends.
pub fn trim_bounds(v: &Vec<char>, lo: usize, hi: usize) -> (r: (usize, usize))
    requires
        lo <= hi <= v.len(),
    ensures
        lo <= r.0 <= r.1 <= hi,
        v@.subrange(r.0 as int, r.1 as int) == trim_spec(v@.subrange(lo as int, hi as int)),
{
    let mut a = lo;
    while a < hi && is_whitespace(v[a])
        invariant
            lo <= a <= hi <= v.len(),
            trim_start_spec(v@.subrange(lo as int, hi as int)) == trim_start_spec(
                v@.subrange(a as int, hi as int),
            ),
        decreases hi - a,
    {
        assert(v@.subrange(a as int, hi as int).drop_first() == v@.subrange(a + 1, hi as int));
        a = a + 1;
    }
    let mut b = hi;
    while b > a && is_whitespace(v[b - 1])
        invariant
            lo <= a <= b <= hi <= v.len(),
            trim_end_spec(v@.subrange(a as int, hi as int)) == trim_end_spec(
                v@.subrange(a as int, b as int),
            ),
        decreases b - a,
    {
        assert(v@.subrange(a as int, b as int).drop_last() == v@.subrange(a as int, b - 1));
        b = b - 1;
    }
    (a, b)
}

/// `str::trim`: `s` without leading and trailing whitespace.
pub fn trim(s: &str) -> (r: String)
    ensures
        r@ == trim_spec(s@),
{
    let v = to_chars(s);
    let (a, b) = trim_bounds(&v, 0, v.len());
    assert(v@.subrange(0, v@.len() as int) == v@);
    string_from(&v, a, b)
}

/// `str::trim_start`: `s` without leading whitespace.
pub fn trim_start(s: &str) -> (r: String)
    ensures
        r@ == trim_start_spec(s@),
{
    let v = to_chars(s);
    let mut a: usize = 0;
    assert(v@.subrange(0, v@.len() as int) == v@);
    while a < v.len() && is_whitespace(v[a])
        invariant
            a <= v.len(),
            trim_start_spec(s@) == trim_start_spec(v@.subrange(a as int, v@.len() as int)),
            v@ == s@,
        decreases v.len() - a,
    {
        assert(v@.subrange(a as int, v@.len() as int).drop_first() == v@.subrange(
            a + 1,
            v@.len() as int,
        ));
        a = a + 1;
    }
    string_from(&v, a, v.len())
}

/// `n` occurs in `h` starting at index `i`.
pub open spec fn occurs_at(h: Seq<char>, n: Seq<char>, i: int) -> bool {
    0 <= i && i + n.len() <= h.len() && h.subrange(i, i + n.len()) == n
}

/// `n` is a substring of `h`, as `str::contains` with a string pattern tests.
pub open spec fn has_sub(h: Seq<char>, n: Seq<char>) -> bool {
    exists|i: int| #[trigger] occurs_at(h, n, i)
}

/// Whether the pattern `n` occurs in `h`.
pub fn contains(h: &Vec<char>, n: &str) -> (b: bool)
    ensures
        b == has_sub(h@, n@),
{
    let nv = to_chars(n);
    let nl = nv.len();
    if nl > h.len() {
        assert forall|i: int| !occurs_at(h@, n@, i) by {}
        return false;
    }
    let last = h.len() - nl;
    let mut i: usize = 0;
    while i <= last
        invariant
            nv@ == n@,
            nl == nv.len(),
            last + nl == h.len(),
            forall|j: int| 0 <= j < i ==> !#[trigger] occurs_at(h@, n@, j),
        decreases last + 1 - i,
    {
        let mut k: usize = 0;
        while k < nl && h[i + k] == nv[k]
            invariant
                nv@ == n@,
                nl == nv.len(),
                last + nl == h.len(),
                i <= last,
                k <= nl,
                forall|m: int| 0 <= m < k ==> h@[i + m] == nv@[m],
            decreases nl - k,
        {
            k = k + 1;
        }
        if k == nl {
            assert(h@.subrange(i as int, i + nl) =~= n@);
            assert(occurs_at(h@, n@, i as int));
            return true;
        }
        assert(h@.subrange(i as int, i + nl)[k as int] != n@[k as int]);
        i = i + 1;
    }
    assert forall|j: int| !occurs_at(h@, n@, j) by {
        if 0 <= j < i {
        }
    }
    false
}

/// Code-point order on character sequences, which is the order `str::cmp`
/// gives on their UTF-8 encodings: `a` sorts no later than `b`.
pub open spec fn lex_le(a: Seq<char>, b: Seq<char>) -> bool
    decreases a.len(),
{
    if a.len() == 0 {
        true
    } else if b.len() == 0 {
        false
    } else if a[0] != b[0] {
        (a[0] as u32) < (b[0] as u32)
    } else {
        lex_le(a.drop_first(), b.drop_first())
    }
}

/// Any two sequences are ordered one way or the other.
pub proof fn lemma_lex_total(a: Seq<char>, b: Seq<char>)
    ensures
        lex_le(a, b) || lex_le(b, a),
    decreases a.len(),
{
    if a.len() > 0 && b.len() > 0 {
        if a[0] == b[0] {
            lemma_lex_total(a.drop_first(), b.drop_first());
        } else {
            vstd::utf8::char_u32_cast(a[0], a[0] as u32);
            vstd::utf8::char_u32_cast(b[0], b[0] as u32);
        }
    }
}

/// The order is transitive.
pub proof fn lemma_lex_trans(a: Seq<char>, b: Seq<char>, c: Seq<char>)
    requires
        lex_le(a, b),
        lex_le(b, c),
    ensures
        lex_le(a, c),
    decreases a.len(),
{
    if a.len() > 0 && b.len() > 0 && c.len() > 0 && a[0] == b[0] && b[0] == c[0] {
        lemma_lex_trans(a.drop_first(), b.drop_first(), c.drop_first());
    }
}

/// Two sequences ordered both ways are equal.
pub proof fn lemma_lex_antisym(a: Seq<char>, b: Seq<char>)
    requires
        lex_le(a, b),
        lex_le(b, a),
    ensures
        a == b,
    decreases a.len(),
{
    if a.len() > 0 && b.len() > 0 {
        lemma_lex_antisym(a.drop_first(), b.drop_first());
        assert(a =~= seq![a[0]] + a.drop_first());
        assert(b =~= seq![b[0]] + b.drop_first());
    } else {
        assert(a =~= b);
    }
}

/// Whether `a` sorts no later than `b` in code-point order.
pub fn lex_le_exec(a: &Vec<char>, b: &Vec<char>) -> (r: bool)
    ensures
        r == lex_le(a@, b@),
{
    let mut i: usize = 0;
    assert(a@.skip(0) == a@ && b@.skip(0) == b@);
    while i < a.len() && i < b.len() && a[i] == b[i]
        invariant
            i <= a.len(),
            i <= b.len(),
            lex_le(a@, b@) == lex_le(a@.skip(i as int), b@.skip(i as int)),
        decreases a.len() - i,
    {
        assert(a@.skip(i as int).drop_first() == a@.skip(i + 1));
        assert(b@.skip(i as int).drop_first() == b@.skip(i + 1));
        i = i + 1;
    }
    if i == a.len() {
        true
    } else if i == b.len() {
        false
    } else {
        (a[i] as u32) < (b[i] as u32)
    }
}

/// The lowercase mapping of `s` under the Unicode tables that
/// `str::to_lowercase` applies.
pub uninterp spec fn lowercase(s: Seq<char>) -> Seq<char>;

/// The uppercase mapping of `s` under the Unicode tables that
/// `str::to_uppercase` applies.
pub uninterp spec fn uppercase(s: Seq<char>) -> Seq<char>;

/// `str::to_lowercase`; its result is named `lowercase`, a function of `s`
/// alone (the Unicode case tables are fixed).
#[verifier::external_body]
pub(crate) fn to_lowercase(s: &str) -> (r: String)
    ensures
        r@ == lowercase(s@),
{
    s.to_lowercase()
}

/// `str::to_uppercase`; its result is named `uppercase`, a function of `s`
/// alone (the Unicode case tables are fixed).
#[verifier::external_body]
pub(crate) fn to_uppercase(s: &str) -> (r: String)
    ensures
        r@ == uppercase(s@),
{
    s.to_uppercase()
}

/// Whether `a` and `b` hold the same characters.
pub fn same_text(a: &str, b: &str) -> (r: bool)
    ensures
        r == (a@ == b@),
{
    let av = to_chars(a);
    let bv = to_chars(b);
    if av.len() != bv.len() {
        return false;
    }
    let mut i: usize = 0;
    while i < av.len()
        invariant
            av@ == a@,
            bv@ == b@,
            av.len() == bv.len(),
            i <= av.len(),
            forall|j: int| 0 <= j < i ==> av@[j] == bv@[j],
        decreases av.len() - i,
    {
        if av[i] != bv[i] {
            return false;
        }
        i = i + 1;
    }
    assert(av@ =~= bv@);
    true
}

/// The pieces of `s` between occurrences of `sep`, as `str::split` with a
/// character pattern yields them (always at least one piece).
pub open spec fn split_spec(s: Seq<char>, sep: char) -> Seq<Seq<char>>
    decreases s.len(),
{
    if s.len() == 0 {
        seq![Seq::<char>::empty()]
    } else {
        let pre = split_spec(s.drop_last(), sep);
        if s.last() == sep {
            pre.push(Seq::<char>::empty())
        } else {
            pre.update(pre.len() - 1, pre.last().push(s.last()))
        }
    }
}

/// Splitting always yields at least one piece.
pub proof fn lemma_split_nonempty(s: Seq<char>, sep: char)
    ensures
        split_spec(s, sep).len() >= 1,
    decreases s.len(),
{
    if s.len() > 0 {
        lemma_split_nonempty(s.drop_last(), sep);
    }
}

/// The index ranges of the pieces of `v` between occurrences of `sep`.
pub fn split_ranges(v: &Vec<char>, sep: char) -> (r: Vec<(usize, usize)>)
    ensures
        r.len() == split_spec(v@, sep).len(),
        forall|j: int| 0 <= j < r.len() ==> #[trigger] r@[j].0 <= r@[j].1 <= v.len(),
        forall|j: int|
            0 <= j < r.len() ==> v@.subrange(r@[j].0 as int, r@[j].1 as int)
                == #[trigger] split_spec(v@, sep)[j],
{
    let mut r: Vec<(usize, usize)> = Vec::new();
    let mut start: usize = 0;
    let mut i: usize = 0;
    while i < v.len()
        invariant
            start <= i <= v.len(),
            r.len() + 1 == split_spec(v@.take(i as int), sep).len(),
            forall|j: int| 0 <= j < r.len() ==> #[trigger] r@[j].0 <= r@[j].1 <= start,
            forall|j: int|
                0 <= j < r.len() ==> v@.subrange(r@[j].0 as int, r@[j].1 as int)
                    == #[trigger] split_spec(v@.take(i as int), sep)[j],
            v@.subrange(start as int, i as int) == split_spec(v@.take(i as int), sep).last(),
        decreases v.len() - i,
    {
        let ghost pre = split_spec(v@.take(i as int), sep);
        let ghost cur = v@.take(i + 1);
        let ghost old_len = r.len();
        let ghost r0 = r@;
        let ghost s0 = start;
        assert(cur.drop_last() == v@.take(i as int));
        assert(cur.last() == v@[i as int]);
        proof {
            lemma_split_nonempty(v@.take(i as int), sep);
        }
        if v[i] == sep {
            assert(split_spec(cur, sep) == pre.push(Seq::<char>::empty()));
            r.push((start, i));
            start = i + 1;
            assert(v@.subrange(start as int, i + 1) =~= Seq::<char>::empty());
            assert forall|j: int| 0 <= j < r.len() implies #[trigger] r@[j].0 <= r@[j].1 <= start by {
                if j < old_len {
                    assert(r@[j] == r0[j]);
                    assert(r0[j].0 <= r0[j].1 <= s0);
                }
            }
            assert forall|j: int| 0 <= j < r.len() implies v@.subrange(r@[j].0 as int, r@[j].1 as int)
                == #[trigger] split_spec(cur, sep)[j] by {
                if j < old_len {
                    assert(r@[j] == r0[j]);
                    assert(split_spec(cur, sep)[j] == pre[j]);
                } else {
                    assert(split_spec(cur, sep)[j] == pre.last());
                }
            }
        } else {
            assert(split_spec(cur, sep) == pre.update(pre.len() - 1, pre.last().push(v@[i as int])));
            assert(v@.subrange(start as int, i + 1) == v@.subrange(start as int, i as int).push(
                v@[i as int],
            ));
            assert forall|j: int| 0 <= j < r.len() implies v@.subrange(r@[j].0 as int, r@[j].1 as int)
                == #[trigger] split_spec(cur, sep)[j] by {
                assert(split_spec(cur, sep)[j] == pre[j]);
            }
        }
        i = i + 1;
    }
    let ghost old_len = r.len();
    let ghost r0 = r@;
    assert(v@.take(v.len() as int) == v@);
    r.push((start, i));
    assert forall|j: int| 0 <= j < r.len() implies #[trigger] r@[j].0 <= r@[j].1 <= v.len() by {
        if j < old_len {
            assert(r@[j] == r0[j]);
            assert(r0[j].0 <= r0[j].1 <= start);
        }
    }
    assert forall|j: int| 0 <= j < r.len() implies v@.subrange(r@[j].0 as int, r@[j].1 as int)
        == #[trigger] split_spec(v@, sep)[j] by {
        if j < old_len {
            assert(r@[j] == r0[j]);
            assert(v@.subrange(r0[j].0 as int, r0[j].1 as int) == split_spec(v@.take(i as int), sep)[j]);
        }
    }
    r
}

} // verus!
