//! Character-level helpers on strings: whitespace, trimming, splitting into
//! words and decimal rendering.
use vstd::prelude::*;
use vstd::string::StrSliceExecFns;

verus! {

/// Unicode `White_Space`: the characters for which `char::is_whitespace` holds.
pub open spec fn is_ws(c: char) -> bool {
    let u = c as u32;
    (0x09 <= u && u <= 0x0d) || u == 0x20 || u == 0x85 || u == 0xa0 || u == 0x1680
        || (0x2000 <= u && u <= 0x200a) || u == 0x2028 || u == 0x2029 || u == 0x202f
        || u == 0x205f || u == 0x3000
}

/// Whether `c` is whitespace, as `char::is_whitespace` says.
pub fn is_whitespace(c: char) -> (r: bool)
    ensures
        r == is_ws(c),
{
    let u = c as u32;
    (0x09 <= u && u <= 0x0d) || u == 0x20 || u == 0x85 || u == 0xa0 || u == 0x1680
        || (0x2000 <= u && u <= 0x200a) || u == 0x2028 || u == 0x2029 || u == 0x202f
        || u == 0x205f || u == 0x3000
}

/// `s` without its leading whitespace.
pub open spec fn trim_start(s: Seq<char>) -> Seq<char>
    decreases s.len(),
{
    if s.len() > 0 && is_ws(s[0]) {
        trim_start(s.drop_first())
    } else {
        s
    }
}

/// `s` without its trailing whitespace.
pub open spec fn trim_end(s: Seq<char>) -> Seq<char>
    decreases s.len(),
{
    if s.len() > 0 && is_ws(s.last()) {
        trim_end(s.drop_last())
    } else {
        s
    }
}

/// `s` without whitespace at either end, as `str::trim` gives it.
pub open spec fn trim(s: Seq<char>) -> Seq<char> {
    trim_end(trim_start(s))
}

proof fn lemma_trim_start_skip(s: Seq<char>, i: int)
    requires
        0 <= i <= s.len(),
        forall|k: int| 0 <= k < i ==> is_ws(s[k]),
    ensures
        trim_start(s) == trim_start(s.subrange(i, s.len() as int)),
    decreases i,
{
    if i > 0 {
        assert(s.drop_first().subrange(i - 1, s.drop_first().len() as int)
            =~= s.subrange(i, s.len() as int));
        lemma_trim_start_skip(s.drop_first(), i - 1);
    } else {
        assert(s.subrange(0, s.len() as int) =~= s);
    }
}

proof fn lemma_trim_end_skip(s: Seq<char>, j: int)
    requires
        0 <= j <= s.len(),
        forall|k: int| j <= k < s.len() ==> is_ws(s[k]),
    ensures
        trim_end(s) == trim_end(s.subrange(0, j)),
    decreases s.len() - j,
{
    if j < s.len() {
        assert(s.drop_last().subrange(0, j) =~= s.subrange(0, j));
        lemma_trim_end_skip(s.drop_last(), j);
    } else {
        assert(s.subrange(0, j) =~= s);
    }
}

/// The characters of `s`, one by one.
pub fn chars_of(s: &str) -> (r: Vec<char>)
    ensures
        r@ == s@,
{
    let n = s.unicode_len();
    let mut v: Vec<char> = Vec::new();
    let mut i: usize = 0;
    while i < n
        invariant
            n == s@.len(),
            i <= n,
            v@ == s@.subrange(0, i as int),
        decreases n - i,
    {
        let c = s.get_char(i);
        v.push(c);
        i = i + 1;
        assert(v@ =~= s@.subrange(0, i as int));
    }
    assert(v@ =~= s@);
    v
}

/// The bounds of what `trim` keeps of `s[lo..hi]`.
pub fn trim_range(s: &Vec<char>, lo: usize, hi: usize) -> (r: (usize, usize))
    requires
        lo <= hi <= s@.len(),
    ensures
        lo <= r.0 <= r.1 <= hi,
        trim(s@.subrange(lo as int, hi as int)) == s@.subrange(r.0 as int, r.1 as int),
{
    let ghost w = s@.subrange(lo as int, hi as int);
    let mut i: usize = lo;
    while i < hi && is_whitespace(s[i])
        invariant
            lo <= i <= hi <= s@.len(),
            forall|k: int| lo <= k < i ==> is_ws(s@[k]),
        decreases hi - i,
    {
        i = i + 1;
    }
    proof {
        assert forall|k: int| 0 <= k < i - lo implies is_ws(w[k]) by {
            assert(w[k] == s@[lo + k]);
        }
        lemma_trim_start_skip(w, i - lo);
        assert(w.subrange(i - lo, w.len() as int) =~= s@.subrange(i as int, hi as int));
    }
    let mut j: usize = hi;
    while j > i && is_whitespace(s[j - 1])
        invariant
            lo <= i <= j <= hi <= s@.len(),
            forall|k: int| j <= k < hi ==> is_ws(s@[k]),
        decreases j,
    {
        j = j - 1;
    }
    proof {
        let t = s@.subrange(i as int, hi as int);
        assert(trim_start(t) == t);
        assert forall|k: int| j - i <= k < t.len() implies is_ws(t[k]) by {
            assert(t[k] == s@[i + k]);
        }
        lemma_trim_end_skip(t, j - i);
        assert(t.subrange(0, j - i) =~= s@.subrange(i as int, j as int));
        let u = s@.subrange(i as int, j as int);
        assert(trim_end(u) == u);
    }
    (i, j)
}

proof fn lemma_trim_end_after(x: Seq<char>, y: Seq<char>)
    requires
        x.len() > 0,
        !is_ws(x.last()),
    ensures
        trim_end(x + y) == x + trim_end(y),
    decreases y.len(),
{
    if y.len() == 0 {
        assert(x + y =~= x);
        assert(x + trim_end(y) =~= x);
    } else {
        assert((x + y).drop_last() =~= x + y.drop_last());
        lemma_trim_end_after(x, y.drop_last());
    }
}

/// Whitespace after the last non-whitespace character does not change `trim`.
proof fn lemma_trim_ignores_trailing_ws(x: Seq<char>, w: Seq<char>)
    requires
        forall|k: int| 0 <= k < w.len() ==> is_ws(w[k]),
    ensures
        trim(x + w) == trim(x),
    decreases x.len(),
{
    if x.len() == 0 {
        assert(x + w =~= w);
        lemma_trim_start_skip(w, w.len() as int);
        assert(w.subrange(w.len() as int, w.len() as int) =~= Seq::<char>::empty());
    } else if is_ws(x[0]) {
        assert((x + w).drop_first() =~= x.drop_first() + w);
        lemma_trim_ignores_trailing_ws(x.drop_first(), w);
    } else {
        let s = x + w;
        assert forall|k: int| x.len() <= k < s.len() implies is_ws(s[k]) by {
            assert(s[k] == w[k - x.len()]);
        }
        lemma_trim_end_skip(s, x.len() as int);
        assert(s.subrange(0, x.len() as int) =~= x);
    }
}

/// `s` is what `trim_end` keeps of it, followed by whitespace.
proof fn lemma_trim_end_split(s: Seq<char>)
    ensures
        trim_end(s).len() <= s.len(),
        trim_end(s) == s.subrange(0, trim_end(s).len() as int),
        forall|k: int| trim_end(s).len() <= k < s.len() ==> is_ws(#[trigger] s[k]),
    decreases s.len(),
{
    if !(s.len() > 0 && is_ws(s.last())) {
        assert(s.subrange(0, s.len() as int) =~= s);
    } else {
        lemma_trim_end_split(s.drop_last());
        assert(s.drop_last().subrange(0, trim_end(s).len() as int) =~= s.subrange(
            0,
            trim_end(s).len() as int,
        ));
        assert forall|k: int| trim_end(s).len() <= k < s.len() implies is_ws(#[trigger] s[k]) by {
            if k < s.len() - 1 {
                assert(s[k] == s.drop_last()[k]);
            }
        }
    }
}

/// Trimming the end first does not change what `trim` gives.
pub proof fn lemma_trim_of_trim_end(s: Seq<char>)
    ensures
        trim(trim_end(s)) == trim(s),
{
    lemma_trim_end_split(s);
    let w = s.subrange(trim_end(s).len() as int, s.len() as int);
    assert(s =~= trim_end(s) + w);
    lemma_trim_ignores_trailing_ws(trim_end(s), w);
}

/// Text that starts with a non-whitespace character and ends with `y` trims
/// only at the end of `y`.
pub proof fn lemma_trim_after_prefix(x: Seq<char>, y: Seq<char>)
    requires
        x.len() > 0,
        !is_ws(x[0]),
        !is_ws(x.last()),
    ensures
        trim(x + y) == x + trim_end(y),
{
    assert((x + y)[0] == x[0]);
    lemma_trim_end_after(x, y);
}

/// The `(start, end)` bounds of the maximal runs of non-whitespace characters
/// of `s`, left to right: the words that `str::split_whitespace` yields.
pub open spec fn word_spans(s: Seq<char>) -> Seq<(int, int)>
    decreases s.len(),
{
    if s.len() == 0 {
        seq![]
    } else {
        let p = s.drop_last();
        let sp = word_spans(p);
        if is_ws(s.last()) {
            sp
        } else if p.len() > 0 && !is_ws(p.last()) && sp.len() > 0 {
            sp.update(sp.len() - 1, (sp.last().0, s.len() as int))
        } else {
            sp.push((p.len() as int, s.len() as int))
        }
    }
}

/// The words of `s`, as `str::split_whitespace` yields them.
pub open spec fn words(s: Seq<char>) -> Seq<Seq<char>> {
    word_spans(s).map_values(|sp: (int, int)| s.subrange(sp.0, sp.1))
}

/// True when `w` is one word: not empty, and without whitespace.
pub open spec fn is_word(w: Seq<char>) -> bool {
    w.len() > 0 && forall|k: int| 0 <= k < w.len() ==> !is_ws(w[k])
}

proof fn lemma_word_spans_shape(s: Seq<char>)
    ensures
        forall|k: int| 0 <= k < word_spans(s).len() ==>
            0 <= (#[trigger] word_spans(s)[k]).0 < word_spans(s)[k].1 <= s.len(),
        s.len() > 0 && !is_ws(s.last()) ==> word_spans(s).len() > 0 && word_spans(s).last().1
            == s.len(),
    decreases s.len(),
{
    if s.len() > 0 {
        let p = s.drop_last();
        lemma_word_spans_shape(p);
        let sp = word_spans(p);
        if !is_ws(s.last()) && p.len() > 0 && !is_ws(p.last()) && sp.len() > 0 {
            let r = sp.update(sp.len() - 1, (sp.last().0, s.len() as int));
            assert forall|k: int| 0 <= k < r.len() implies 0 <= (#[trigger] r[k]).0 < r[k].1
                <= s.len() by {
                if k < sp.len() - 1 {
                    assert(sp[k] == r[k]);
                }
            }
        }
    }
}

/// Each word span lies inside `s` and is not empty.
pub proof fn lemma_word_spans_bounds(s: Seq<char>)
    ensures
        forall|k: int| 0 <= k < word_spans(s).len() ==>
            0 <= (#[trigger] word_spans(s)[k]).0 < word_spans(s)[k].1 <= s.len(),
{
    lemma_word_spans_shape(s);
}

/// Appending one word after whitespace (or at the start) adds one span.
proof fn lemma_word_spans_append_word(a: Seq<char>, w: Seq<char>)
    requires
        a.len() == 0 || is_ws(a.last()),
        is_word(w),
    ensures
        word_spans(a + w) == word_spans(a).push((a.len() as int, (a.len() + w.len()) as int)),
    decreases w.len(),
{
    let s = a + w;
    assert(s.drop_last() =~= a + w.drop_last());
    if w.len() == 1 {
        assert(a + w.drop_last() =~= a);
    } else {
        lemma_word_spans_append_word(a, w.drop_last());
        lemma_word_spans_shape(a);
    }
}

/// Appending whitespace adds no span.
proof fn lemma_word_spans_append_ws(a: Seq<char>, c: char)
    requires
        is_ws(c),
    ensures
        word_spans(a.push(c)) == word_spans(a),
{
    assert(a.push(c).drop_last() =~= a);
}

/// Words separated by single spaces split back into those words.
pub proof fn lemma_words_of_joined(a: Seq<char>, b: Seq<char>, c: Seq<char>)
    requires
        is_word(a),
        is_word(b),
        is_word(c),
    ensures
        words(a + seq![' '] + b + seq![' '] + c) == seq![a, b, c],
{
    let e: Seq<char> = seq![];
    assert(e + a =~= a);
    lemma_word_spans_append_word(e, a);
    assert(is_ws(' '));
    lemma_word_spans_append_ws(a, ' ');
    assert(a.push(' ') =~= a + seq![' ']);
    let a1 = a + seq![' '];
    lemma_word_spans_append_word(a1, b);
    let a2 = a1 + b;
    lemma_word_spans_append_ws(a2, ' ');
    assert(a2.push(' ') =~= a2 + seq![' ']);
    let a3 = a2 + seq![' '];
    lemma_word_spans_append_word(a3, c);
    let s = a3 + c;
    assert(s =~= a + seq![' '] + b + seq![' '] + c);
    assert(s.subrange(0, a.len() as int) =~= a);
    assert(s.subrange((a.len() + 1) as int, (a.len() + 1 + b.len()) as int) =~= b);
    assert(s.subrange((a.len() + 2 + b.len()) as int, s.len() as int) =~= c);
    assert(words(s) =~= seq![a, b, c]);
}

/// The word spans of `s`, computed left to right.
pub fn word_bounds(s: &Vec<char>) -> (r: Vec<(usize, usize)>)
    ensures
        r@.len() == word_spans(s@).len(),
        forall|k: int| 0 <= k < r@.len() ==>
            (#[trigger] r@[k]).0 as int == word_spans(s@)[k].0 && r@[k].1 as int
                == word_spans(s@)[k].1,
{
    let n = s.len();
    let mut r: Vec<(usize, usize)> = Vec::new();
    let mut i: usize = 0;
    while i < n
        invariant
            i <= n == s@.len(),
            r@.len() == word_spans(s@.subrange(0, i as int)).len(),
            forall|k: int| 0 <= k < r@.len() ==>
                (#[trigger] r@[k]).0 as int == word_spans(s@.subrange(0, i as int))[k].0
                    && r@[k].1 as int == word_spans(s@.subrange(0, i as int))[k].1,
        decreases n - i,
    {
        let ghost p = s@.subrange(0, i as int);
        let ghost q = s@.subrange(0, i + 1);
        assert(q.drop_last() =~= p);
        proof { lemma_word_spans_shape(p); }
        if is_whitespace(s[i]) {
        } else if i > 0 && !is_whitespace(s[i - 1]) && r.len() > 0 {
            let last = r.len() - 1;
            let start = r[last].0;
            r.set(last, (start, i + 1));
        } else {
            r.push((i, i + 1));
        }
        i = i + 1;
    }
    assert(s@.subrange(0, n as int) =~= s@);
    r
}

/// Decimal digit for `d < 10`.
pub open spec fn digit(d: nat) -> char {
    if d == 0 { '0' }
    else if d == 1 { '1' }
    else if d == 2 { '2' }
    else if d == 3 { '3' }
    else if d == 4 { '4' }
    else if d == 5 { '5' }
    else if d == 6 { '6' }
    else if d == 7 { '7' }
    else if d == 8 { '8' }
    else { '9' }
}

/// The decimal rendering of `n`, without leading zeros.
pub open spec fn decimal(n: nat) -> Seq<char>
    decreases n,
{
    if n < 10 {
        seq![digit(n)]
    } else {
        decimal(n / 10).push(digit(n % 10))
    }
}

fn digit_text(d: u64) -> (r: &'static str)
    requires
        d < 10,
    ensures
        r@ == seq![digit(d as nat)],
{
    proof {
        reveal_strlit("0");
        reveal_strlit("1");
        reveal_strlit("2");
        reveal_strlit("3");
        reveal_strlit("4");
        reveal_strlit("5");
        reveal_strlit("6");
        reveal_strlit("7");
        reveal_strlit("8");
        reveal_strlit("9");
    }
    let r = if d == 0 { "0" }
    else if d == 1 { "1" }
    else if d == 2 { "2" }
    else if d == 3 { "3" }
    else if d == 4 { "4" }
    else if d == 5 { "5" }
    else if d == 6 { "6" }
    else if d == 7 { "7" }
    else if d == 8 { "8" }
    else { "9" };
    assert(r@ =~= seq![digit(d as nat)]);
    r
}

/// Appends the decimal rendering of `n` to `out`.
pub fn push_decimal(out: &mut String, n: u64)
    ensures
        final(out)@ == old(out)@ + decimal(n as nat),
    decreases n,
{
    if n >= 10 {
        push_decimal(out, n / 10);
    }
    let d = digit_text(n % 10);
    out.append(d);
    assert(final(out)@ =~= old(out)@ + decimal(n as nat));
}

} // verus!
