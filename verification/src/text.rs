use vstd::prelude::*;

verus! {

broadcast use vstd::string::group_string_axioms, crate::views::lemma_chars_deep_view;

// ---------------------------------------------------------------------------
// Character classes
// ---------------------------------------------------------------------------

/// The Unicode `White_Space` property: the characters `char::is_whitespace`
/// accepts, and so the ones `str::trim` and `str::split_whitespace` act on.
pub open spec fn is_space(c: char) -> bool {
    ||| ('\u{9}' <= c && c <= '\u{d}')
    ||| c == ' '
    ||| c == '\u{85}'
    ||| c == '\u{a0}'
    ||| c == '\u{1680}'
    ||| ('\u{2000}' <= c && c <= '\u{200a}')
    ||| c == '\u{2028}'
    ||| c == '\u{2029}'
    ||| c == '\u{202f}'
    ||| c == '\u{205f}'
    ||| c == '\u{3000}'
}

/// Whether `c` is a Unicode white-space character.
pub fn char_is_space(c: char) -> (r: bool)
    ensures
        r == is_space(c),
{
    ('\u{9}' <= c && c <= '\u{d}') || c == ' ' || c == '\u{85}' || c == '\u{a0}' || c == '\u{1680}'
        || ('\u{2000}' <= c && c <= '\u{200a}') || c == '\u{2028}' || c == '\u{2029}' || c
        == '\u{202f}' || c == '\u{205f}' || c == '\u{3000}'
}

/// What `char::is_alphanumeric` answers for `c` (Unicode `Alphabetic` or
/// `Numeric`).
pub uninterp spec fn is_alphanumeric(c: char) -> bool;

/// `char::is_alphanumeric`: the answer is named by `is_alphanumeric`; among
/// ASCII characters exactly the letters and digits are alphabetic or numeric.
#[verifier::external_body]
pub(crate) fn char_is_alphanumeric(c: char) -> (r: bool)
    ensures
        r == is_alphanumeric(c),
        (c as u32) < 128 ==> (r <==> ('0' <= c <= '9' || 'a' <= c <= 'z' || 'A' <= c <= 'Z')),
{
    c.is_alphanumeric()
}

/// What `str::to_lowercase` returns for a text (full Unicode case mapping).
pub uninterp spec fn lowercase(s: Seq<char>) -> Seq<char>;

/// What `str::to_uppercase` returns for a text (full Unicode case mapping).
pub uninterp spec fn uppercase(s: Seq<char>) -> Seq<char>;

/// Every character of `s` is ASCII and none is a capital letter, so lower
/// casing leaves it as it is.
pub open spec fn lower_stable(s: Seq<char>) -> bool {
    forall|i: int| 0 <= i < s.len() ==> (#[trigger] s[i] as u32) < 128 && !('A' <= s[i] <= 'Z')
}

/// Every character of `s` is ASCII and none is a small letter, so upper
/// casing leaves it as it is.
pub open spec fn upper_stable(s: Seq<char>) -> bool {
    forall|i: int| 0 <= i < s.len() ==> (#[trigger] s[i] as u32) < 128 && !('a' <= s[i] <= 'z')
}

/// `str::to_lowercase`: the result is named by `lowercase`; an ASCII text
/// without capitals comes back unchanged (an ASCII character that is not a
/// capital letter has no lowercase mapping of its own).
#[verifier::external_body]
pub(crate) fn to_lower(s: &str) -> (r: String)
    ensures
        r@ == lowercase(s@),
        lower_stable(s@) ==> r@ == s@,
{
    s.to_lowercase()
}

/// `str::to_uppercase`: the result is named by `uppercase`; an ASCII text
/// without small letters comes back unchanged (an ASCII character that is not
/// a small letter has no uppercase mapping of its own).
#[verifier::external_body]
pub(crate) fn to_upper(s: &str) -> (r: String)
    ensures
        r@ == uppercase(s@),
        upper_stable(s@) ==> r@ == s@,
{
    s.to_uppercase()
}

// ---------------------------------------------------------------------------
// Conversions between strings and character vectors
// ---------------------------------------------------------------------------

/// The characters of a string slice, in order.
pub fn chars_of(s: &str) -> (r: Vec<char>)
    ensures
        r@ == s@,
{
    let mut v: Vec<char> = Vec::new();
    for c in it: s.chars()
        invariant
            v@ == it.seq().take(it.index() as int),
    {
        v.push(c);
    }
    v
}

/// `String::from_iter` over a slice of characters.
#[verifier::external_body]
pub(crate) fn string_from_chars(v: &Vec<char>) -> (r: String)
    ensures
        r@ == v@,
{
    String::from_iter(v.iter())
}

/// A fresh `String` holding the text of `s`.
pub fn owned(s: &str) -> (r: String)
    ensures
        r@ == s@,
{
    String::from_str(s)
}

/// Whether two texts are equal, character by character.
pub fn same_text(a: &str, b: &str) -> (r: bool)
    ensures
        r == (a@ == b@),
{
    let x = chars_of(a);
    let y = chars_of(b);
    if x.len() != y.len() {
        return false;
    }
    let n = x.len();
    for i in 0..n
        invariant
            n == x@.len(),
            n == y@.len(),
            x@ == a@,
            y@ == b@,
            forall|k: int| 0 <= k < i ==> x@[k] == y@[k],
    {
        if x[i] != y[i] {
            assert(x@[i as int] != y@[i as int]);
            return false;
        }
    }
    assert(x@ =~= y@);
    true
}

/// Whether an optional text equals an optional text.
pub fn same_opt_text(a: &Option<String>, b: Option<&str>) -> (r: bool)
    ensures
        r == (match (a, b) {
            (Some(x), Some(y)) => x@ == y@,
            (None, None) => true,
            _ => false,
        }),
{
    match (a, b) {
        (Some(x), Some(y)) => same_text(x.as_str(), y),
        (None, None) => true,
        _ => false,
    }
}

/// A copy of `v[lo..hi]`.
pub fn slice_chars(v: &Vec<char>, lo: usize, hi: usize) -> (r: Vec<char>)
    requires
        lo <= hi <= v@.len(),
    ensures
        r@ == v@.subrange(lo as int, hi as int),
{
    let mut r: Vec<char> = Vec::new();
    let mut i = lo;
    while i < hi
        invariant
            lo <= i <= hi <= v@.len(),
            r@ == v@.subrange(lo as int, i as int),
        decreases hi - i,
    {
        r.push(v[i]);
        i = i + 1;
        assert(r@ =~= v@.subrange(lo as int, i as int));
    }
    r
}

/// Appends all of `src` to `dst`.
pub fn extend_chars(dst: &mut Vec<char>, src: &Vec<char>)
    ensures
        final(dst)@ == old(dst)@ + src@,
{
    let n = src.len();
    for i in 0..n
        invariant
            n == src@.len(),
            dst@ == old(dst)@ + src@.take(i as int),
    {
        dst.push(src[i]);
        assert(src@.take(i + 1) =~= src@.take(i as int).push(src@[i as int]));
        assert(dst@ =~= old(dst)@ + src@.take(i + 1));
    }
    assert(src@.take(n as int) =~= src@);
}

// ---------------------------------------------------------------------------
// Trimming
// ---------------------------------------------------------------------------

/// The text without its leading white space.
pub open spec fn trim_start(s: Seq<char>) -> Seq<char>
    decreases s.len(),
{
    if s.len() > 0 && is_space(s[0]) {
        trim_start(s.drop_first())
    } else {
        s
    }
}

/// The text without its trailing white space.
pub open spec fn trim_end(s: Seq<char>) -> Seq<char>
    decreases s.len(),
{
    if s.len() > 0 && is_space(s.last()) {
        trim_end(s.drop_last())
    } else {
        s
    }
}

/// The text without leading and trailing white space (`str::trim`).
pub open spec fn trimmed(s: Seq<char>) -> Seq<char> {
    trim_end(trim_start(s))
}

proof fn lemma_trim_start_shape(s: Seq<char>)
    ensures
        trim_start(s).len() <= s.len(),
        trim_start(s) == s.subrange(s.len() - trim_start(s).len(), s.len() as int),
        trim_start(s).len() > 0 ==> !is_space(trim_start(s)[0]),
    decreases s.len(),
{
    if s.len() > 0 && is_space(s[0]) {
        lemma_trim_start_shape(s.drop_first());
        assert(s.drop_first().subrange(
            s.drop_first().len() - trim_start(s).len(),
            s.drop_first().len() as int,
        ) =~= s.subrange(s.len() - trim_start(s).len(), s.len() as int));
    } else {
        assert(s.subrange(0, s.len() as int) =~= s);
    }
}

proof fn lemma_trim_end_shape(s: Seq<char>)
    ensures
        trim_end(s).len() <= s.len(),
        trim_end(s) == s.subrange(0, trim_end(s).len() as int),
        trim_end(s).len() > 0 ==> !is_space(trim_end(s).last()),
    decreases s.len(),
{
    if s.len() > 0 && is_space(s.last()) {
        lemma_trim_end_shape(s.drop_last());
        assert(s.drop_last().subrange(0, trim_end(s).len() as int) =~= s.subrange(
            0,
            trim_end(s).len() as int,
        ));
    } else {
        assert(s.subrange(0, s.len() as int) =~= s);
    }
}

/// A trimmed text neither starts nor ends with white space, and trimming it
/// again changes nothing.
pub proof fn law_trimmed_has_no_outer_space(s: Seq<char>)
    ensures
        trimmed(s).len() > 0 ==> !is_space(trimmed(s)[0]) && !is_space(trimmed(s).last()),
        trimmed(trimmed(s)) == trimmed(s),
{
    let a = trim_start(s);
    lemma_trim_start_shape(s);
    lemma_trim_end_shape(a);
    let t = trim_end(a);
    if t.len() > 0 {
        assert(t[0] == a[0]);
    }
    assert(trim_start(t) == t);
    assert(trim_end(t) == t);
}

/// A text that neither starts nor ends with white space is its own trim.
pub proof fn lemma_trimmed_when_no_outer_space(t: Seq<char>)
    requires
        t.len() > 0 ==> !is_space(t[0]) && !is_space(t.last()),
    ensures
        trimmed(t) == t,
{
}

/// `str::trim` on a character vector.
pub fn trim_chars(v: &Vec<char>) -> (r: Vec<char>)
    ensures
        r@ == trimmed(v@),
{
    let n = v.len();
    let mut lo: usize = 0;
    assert(v@.skip(0) =~= v@);
    while lo < n && char_is_space(v[lo])
        invariant
            lo <= n == v@.len(),
            trim_start(v@) == trim_start(v@.skip(lo as int)),
        decreases n - lo,
    {
        assert(v@.skip(lo as int).drop_first() =~= v@.skip(lo + 1));
        lo = lo + 1;
    }
    let ghost start = v@.skip(lo as int);
    assert(trim_start(start) == start);
    assert(start =~= v@.subrange(lo as int, n as int));
    let mut hi: usize = n;
    while hi > lo && char_is_space(v[hi - 1])
        invariant
            lo <= hi <= n == v@.len(),
            trim_end(v@.subrange(lo as int, n as int)) == trim_end(v@.subrange(lo as int, hi as int)),
        decreases hi,
    {
        assert(v@.subrange(lo as int, hi as int).drop_last() =~= v@.subrange(lo as int, hi - 1));
        hi = hi - 1;
    }
    slice_chars(v, lo, hi)
}

/// `str::trim`, giving a new `String`.
pub fn trim_text(s: &str) -> (r: String)
    ensures
        r@ == trimmed(s@),
{
    let v = chars_of(s);
    let t = trim_chars(&v);
    string_from_chars(&t)
}

// ---------------------------------------------------------------------------
// Splitting and joining
// ---------------------------------------------------------------------------

/// The pieces of `s` between the characters that satisfy `is_sep`, like
/// `str::split` with a character predicate: `k` separators give `k + 1` pieces,
/// empty ones included.
pub open spec fn split_by(s: Seq<char>, is_sep: spec_fn(char) -> bool) -> Seq<Seq<char>>
    decreases s.len(),
{
    if s.len() == 0 {
        seq![Seq::<char>::empty()]
    } else {
        let pre = split_by(s.drop_last(), is_sep);
        if is_sep(s.last()) {
            pre.push(Seq::<char>::empty())
        } else {
            pre.update(pre.len() - 1, pre.last().push(s.last()))
        }
    }
}

/// `split_by` always gives at least one piece.
pub proof fn lemma_split_nonempty(s: Seq<char>, is_sep: spec_fn(char) -> bool)
    ensures
        split_by(s, is_sep).len() >= 1,
    decreases s.len(),
{
    if s.len() > 0 {
        lemma_split_nonempty(s.drop_last(), is_sep);
    }
}

/// The non-empty elements of a list of texts, in order.
pub open spec fn nonempty_pieces(p: Seq<Seq<char>>) -> Seq<Seq<char>>
    decreases p.len(),
{
    if p.len() == 0 {
        p
    } else {
        let pre = nonempty_pieces(p.drop_last());
        if p.last().len() == 0 {
            pre
        } else {
            pre.push(p.last())
        }
    }
}

/// The white-space separated words of a text (`str::split_whitespace`).
pub open spec fn words(s: Seq<char>) -> Seq<Seq<char>> {
    nonempty_pieces(split_by(s, |c: char| is_space(c)))
}

/// The texts of a list joined with `sep` between neighbours (`[T]::join`).
pub open spec fn join_with(p: Seq<Seq<char>>, sep: Seq<char>) -> Seq<char>
    decreases p.len(),
{
    if p.len() == 0 {
        Seq::<char>::empty()
    } else if p.len() == 1 {
        p[0]
    } else {
        join_with(p.drop_last(), sep) + sep + p.last()
    }
}

/// Splits `v` at every character of `seps` (`str::split` with a character
/// slice as the pattern).
pub fn split_on_chars(v: &Vec<char>, seps: &Vec<char>) -> (r: Vec<Vec<char>>)
    ensures
        r.deep_view() == split_by(v@, |c: char| seps@.contains(c)),
{
    let ghost is_sep = |c: char| seps@.contains(c);
    let mut done: Vec<Vec<char>> = Vec::new();
    let mut cur: Vec<char> = Vec::new();
    let n = v.len();
    for i in 0..n
        invariant
            n == v@.len(),
            is_sep == (|c: char| seps@.contains(c)),
            done.deep_view().push(cur@) == split_by(v@.take(i as int), is_sep),
    {
        let c = v[i];
        let mut hit = false;
        let m = seps.len();
        for j in 0..m
            invariant
                m == seps@.len(),
                hit == (exists|k: int| 0 <= k < j && seps@[k] == c),
        {
            if seps[j] == c {
                hit = true;
            }
        }
        assert(hit == seps@.contains(c));
        let ghost before = done.deep_view().push(cur@);
        assert(v@.take(i + 1).drop_last() =~= v@.take(i as int));
        proof { lemma_split_nonempty(v@.take(i as int), is_sep); }
        if hit {
            let ghost dv = done.deep_view();
            let piece = cur;
            let ghost pv = piece.deep_view();
            done.push(piece);
            cur = Vec::new();
            assert(done.deep_view() =~= dv.push(pv));
            assert(done.deep_view().push(cur@) =~= before.push(Seq::<char>::empty()));
        } else {
            cur.push(c);
            assert(done.deep_view().push(cur@) =~= before.update(
                before.len() - 1,
                before.last().push(c),
            ));
        }
    }
    assert(v@.take(n as int) =~= v@);
    let ghost dv = done.deep_view();
    let ghost cv = cur.deep_view();
    done.push(cur);
    assert(done.deep_view() =~= dv.push(cv));
    done
}

/// Splits `v` at every white-space character (`str::split` with
/// `char::is_whitespace`).
pub fn split_on_space(v: &Vec<char>) -> (r: Vec<Vec<char>>)
    ensures
        r.deep_view() == split_by(v@, |c: char| is_space(c)),
{
    let ghost is_sep = |c: char| is_space(c);
    let mut done: Vec<Vec<char>> = Vec::new();
    let mut cur: Vec<char> = Vec::new();
    let n = v.len();
    for i in 0..n
        invariant
            n == v@.len(),
            is_sep == (|c: char| is_space(c)),
            done.deep_view().push(cur@) == split_by(v@.take(i as int), is_sep),
    {
        let c = v[i];
        let ghost before = done.deep_view().push(cur@);
        assert(v@.take(i + 1).drop_last() =~= v@.take(i as int));
        proof { lemma_split_nonempty(v@.take(i as int), is_sep); }
        if char_is_space(c) {
            let ghost dv = done.deep_view();
            let piece = cur;
            let ghost pv = piece.deep_view();
            done.push(piece);
            cur = Vec::new();
            assert(done.deep_view() =~= dv.push(pv));
            assert(done.deep_view().push(cur@) =~= before.push(Seq::<char>::empty()));
        } else {
            cur.push(c);
            assert(done.deep_view().push(cur@) =~= before.update(
                before.len() - 1,
                before.last().push(c),
            ));
        }
    }
    assert(v@.take(n as int) =~= v@);
    let ghost dv = done.deep_view();
    let ghost cv = cur.deep_view();
    done.push(cur);
    assert(done.deep_view() =~= dv.push(cv));
    done
}

/// Keeps the non-empty pieces, in order.
pub fn keep_nonempty(p: &Vec<Vec<char>>) -> (r: Vec<Vec<char>>)
    ensures
        r.deep_view() == nonempty_pieces(p.deep_view()),
{
    let mut out: Vec<Vec<char>> = Vec::new();
    let n = p.len();
    for i in 0..n
        invariant
            n == p.deep_view().len(),
            out.deep_view() == nonempty_pieces(p.deep_view().take(i as int)),
    {
        assert(p.deep_view().take(i + 1).drop_last() =~= p.deep_view().take(i as int));
        assert(p.deep_view().take(i + 1).last() == p@[i as int]@);
        if p[i].len() > 0 {
            let piece = p[i].clone();
            proof {
                assert(piece@ == p@[i as int]@);
            }
            out.push(piece);
            assert(out.deep_view() =~= nonempty_pieces(p.deep_view().take(i as int)).push(
                p@[i as int]@,
            ));
        }
    }
    assert(p.deep_view().take(n as int) =~= p.deep_view());
    out
}

/// Joins pieces with `sep` between neighbours.
pub fn join_chars(p: &Vec<Vec<char>>, sep: &Vec<char>) -> (r: Vec<char>)
    ensures
        r@ == join_with(p.deep_view(), sep@),
{
    let mut out: Vec<char> = Vec::new();
    let n = p.len();
    for i in 0..n
        invariant
            n == p.deep_view().len(),
            out@ == join_with(p.deep_view().take(i as int), sep@),
    {
        assert(p.deep_view().take(i + 1).drop_last() =~= p.deep_view().take(i as int));
        assert(p.deep_view().take(i + 1).last() == p@[i as int]@);
        if i > 0 {
            extend_chars(&mut out, sep);
        }
        extend_chars(&mut out, &p[i]);
        if i == 0 {
            assert(out@ =~= p.deep_view().take(1)[0]);
        }
    }
    assert(p.deep_view().take(n as int) =~= p.deep_view());
    out
}

/// The words of a text joined by single spaces
/// (`s.split_whitespace().collect::<Vec<_>>().join(" ")`).
pub open spec fn squeeze_spaces(s: Seq<char>) -> Seq<char> {
    join_with(words(s), seq![' '])
}

/// Every piece that `split_by` cuts holds no separator, and only characters
/// of the text.
pub proof fn lemma_split_pieces(s: Seq<char>, is_sep: spec_fn(char) -> bool)
    ensures
        forall|k: int, j: int|
            0 <= k < split_by(s, is_sep).len() && 0 <= j < split_by(s, is_sep)[k].len() ==> {
                let c = #[trigger] split_by(s, is_sep)[k][j];
                !is_sep(c) && s.contains(c)
            },
    decreases s.len(),
{
    lemma_split_nonempty(s, is_sep);
    if s.len() > 0 {
        let pre = split_by(s.drop_last(), is_sep);
        lemma_split_pieces(s.drop_last(), is_sep);
        lemma_split_nonempty(s.drop_last(), is_sep);
        let p = split_by(s, is_sep);
        assert forall|k: int, j: int| 0 <= k < p.len() && 0 <= j < p[k].len() implies {
            let c = #[trigger] p[k][j];
            !is_sep(c) && s.contains(c)
        } by {
            let c = p[k][j];
            if k < pre.len() && !(k == pre.len() - 1 && !is_sep(s.last()) && j == pre[k].len()) {
                assert(c == pre[k][j]);
                let i = choose|i: int| 0 <= i < s.drop_last().len() && s.drop_last()[i] == c;
                assert(s[i] == c);
            } else {
                assert(c == s.last());
                assert(s[s.len() - 1] == c);
            }
        }
    }
}

/// Every element that `nonempty_pieces` keeps is non-empty and one of the
/// pieces it was given.
pub proof fn lemma_nonempty_pieces_kept(p: Seq<Seq<char>>)
    ensures
        forall|i: int|
            0 <= i < nonempty_pieces(p).len() ==> (#[trigger] nonempty_pieces(p)[i]).len() > 0
                && exists|k: int| 0 <= k < p.len() && p[k] == nonempty_pieces(p)[i],
    decreases p.len(),
{
    if p.len() > 0 {
        lemma_nonempty_pieces_kept(p.drop_last());
        let pre = nonempty_pieces(p.drop_last());
        assert forall|i: int| 0 <= i < nonempty_pieces(p).len() implies (#[trigger] nonempty_pieces(
            p,
        )[i]).len() > 0 && exists|k: int| 0 <= k < p.len() && p[k] == nonempty_pieces(p)[i] by {
            if i < pre.len() {
                let k = choose|k: int| 0 <= k < p.drop_last().len() && p.drop_last()[k] == pre[i];
                assert(p[k] == nonempty_pieces(p)[i]);
            } else {
                assert(p[p.len() - 1] == nonempty_pieces(p)[i]);
            }
        }
    }
}

/// The shape of a text of words joined by single spaces, for non-empty words
/// whose characters are no white space and satisfy `q`: every character is a
/// space or satisfies `q`, the text neither starts nor ends with white space,
/// and no space follows a space.
pub open spec fn spaced_words(t: Seq<char>, q: spec_fn(char) -> bool) -> bool {
    &&& forall|i: int| 0 <= i < t.len() ==> #[trigger] t[i] == ' ' || (q(t[i]) && !is_space(t[i]))
    &&& t.len() > 0 ==> !is_space(t[0]) && !is_space(t.last())
    &&& forall|i: int| 0 <= i < t.len() - 1 && #[trigger] t[i] == ' ' ==> t[i + 1] != ' '
}

proof fn lemma_join_words(p: Seq<Seq<char>>, q: spec_fn(char) -> bool)
    requires
        forall|k: int| 0 <= k < p.len() ==> (#[trigger] p[k]).len() > 0,
        forall|k: int, j: int|
            0 <= k < p.len() && 0 <= j < p[k].len() ==> q(#[trigger] p[k][j]) && !is_space(p[k][j]),
    ensures
        spaced_words(join_with(p, seq![' ']), q),
    decreases p.len(),
{
    let t = join_with(p, seq![' ']);
    if p.len() == 1 {
        assert(t == p[0]);
        assert forall|i: int| 0 <= i < t.len() implies #[trigger] t[i] == ' ' || (q(t[i]) && !is_space(t[i])) by {
            assert(t[i] == p[0][i]);
        }
        assert(t[t.len() - 1] == p[0][p[0].len() - 1]);
        assert(is_space(' '));
    } else if p.len() > 1 {
        let pre = p.drop_last();
        lemma_join_words(pre, q);
        let a = join_with(pre, seq![' ']);
        let w = p.last();
        assert(t == a + seq![' '] + w);
        assert(pre.len() > 0 && a.len() > 0) by {
            if pre.len() == 1 {
            } else {
                assert(join_with(pre, seq![' ']) == join_with(pre.drop_last(), seq![' ']) + seq![' '] + pre.last());
            }
        }
        assert(w == p[p.len() - 1]);
        assert(is_space(' '));
        assert forall|i: int| 0 <= i < t.len() implies #[trigger] t[i] == ' ' || (q(t[i]) && !is_space(t[i])) by {
            if i < a.len() {
                assert(t[i] == a[i]);
            } else if i > a.len() {
                assert(t[i] == w[i - a.len() - 1]);
            }
        }
        assert(t[0] == a[0]);
        assert(t[t.len() - 1] == w[w.len() - 1]);
        assert forall|i: int| 0 <= i < t.len() - 1 && #[trigger] t[i] == ' ' implies t[i + 1] != ' ' by {
            if i < a.len() - 1 {
                assert(t[i] == a[i] && t[i + 1] == a[i + 1]);
            } else if i == a.len() - 1 {
                assert(t[i] == a[a.len() - 1]);
            } else if i == a.len() {
                assert(t[i + 1] == w[0]);
            } else {
                assert(t[i] == w[i - a.len() - 1]);
            }
        }
    }
}

/// Squeezing a text whose characters all satisfy `q` gives single-spaced
/// words of such characters, with no white space at either end.
pub proof fn lemma_squeeze_shape(s: Seq<char>, q: spec_fn(char) -> bool)
    requires
        forall|i: int| 0 <= i < s.len() ==> q(#[trigger] s[i]),
    ensures
        spaced_words(squeeze_spaces(s), q),
{
    let pieces = split_by(s, |c: char| is_space(c));
    lemma_split_pieces(s, |c: char| is_space(c));
    lemma_nonempty_pieces_kept(pieces);
    let ws = nonempty_pieces(pieces);
    assert forall|k: int, j: int| 0 <= k < ws.len() && 0 <= j < ws[k].len() implies q(
        #[trigger] ws[k][j],
    ) && !is_space(ws[k][j]) by {
        let m = choose|m: int| 0 <= m < pieces.len() && pieces[m] == ws[k];
        assert(ws[k][j] == pieces[m][j]);
        let i = choose|i: int| 0 <= i < s.len() && s[i] == pieces[m][j];
        assert(q(s[i]));
    }
    if ws.len() > 0 {
        lemma_join_words(ws, q);
    }
}

/// Collapses every run of white space to one space and drops white space at
/// both ends.
pub fn squeeze_space_chars(v: &Vec<char>) -> (r: Vec<char>)
    ensures
        r@ == squeeze_spaces(v@),
{
    let pieces = split_on_space(v);
    let ws = keep_nonempty(&pieces);
    let mut sep: Vec<char> = Vec::new();
    sep.push(' ');
    assert(sep@ =~= seq![' ']);
    join_chars(&ws, &sep)
}

// ---------------------------------------------------------------------------
// Searching and replacing
// ---------------------------------------------------------------------------

/// `p` occurs in `s` starting at position `i`.
pub open spec fn occurs_at(s: Seq<char>, p: Seq<char>, i: int) -> bool {
    0 <= i && i + p.len() <= s.len() && s.subrange(i, i + p.len()) == p
}

/// `p` occurs somewhere in `s` (`str::contains` with a text pattern; the
/// empty text occurs in every text).
pub open spec fn has_substring(s: Seq<char>, p: Seq<char>) -> bool {
    exists|i: int| occurs_at(s, p, i)
}

/// Whether `p` occurs in `s` starting at `i`.
pub fn matches_at(s: &Vec<char>, p: &Vec<char>, i: usize) -> (r: bool)
    ensures
        r == occurs_at(s@, p@, i as int),
{
    let n = s.len();
    let m = p.len();
    if i > n || m > n - i {
        return false;
    }
    for k in 0..m
        invariant
            n == s@.len(),
            m == p@.len(),
            i + m <= n,
            forall|j: int| 0 <= j < k ==> s@[i + j] == p@[j],
    {
        if s[i + k] != p[k] {
            assert(s@.subrange(i as int, i + m)[k as int] != p@[k as int]);
            return false;
        }
    }
    assert(s@.subrange(i as int, i + m) =~= p@);
    true
}

/// Whether `p` occurs anywhere in `s`.
pub fn contains_chars(s: &Vec<char>, p: &Vec<char>) -> (r: bool)
    ensures
        r == has_substring(s@, p@),
{
    let n = s.len();
    let m = p.len();
    if m > n {
        return false;
    }
    if m == 0 {
        assert(s@.subrange(0, 0) =~= p@);
        assert(occurs_at(s@, p@, 0));
        return true;
    }
    let last = n - m;
    let mut i: usize = 0;
    while i < last + 1
        invariant
            n == s@.len(),
            m == p@.len() > 0,
            last == n - m,
            i <= last + 1,
            forall|j: int| 0 <= j < i ==> !occurs_at(s@, p@, j),
        decreases last + 1 - i,
    {
        if matches_at(s, p, i) {
            return true;
        }
        i = i + 1;
    }
    assert forall|j: int| !occurs_at(s@, p@, j) by {
        if 0 <= j < i {
        }
    }
    false
}

/// `str::contains` with a text pattern.
pub fn text_contains(s: &str, p: &str) -> (r: bool)
    ensures
        r == has_substring(s@, p@),
{
    let a = chars_of(s);
    let b = chars_of(p);
    contains_chars(&a, &b)
}

/// `s` with every occurrence of the non-empty text `from` replaced by `to`,
/// scanning left to right without overlaps (`str::replace`).
pub open spec fn replace_all(s: Seq<char>, from: Seq<char>, to: Seq<char>) -> Seq<char>
    decreases s.len(),
{
    if from.len() == 0 || s.len() < from.len() {
        s
    } else if s.take(from.len() as int) == from {
        to + replace_all(s.skip(from.len() as int), from, to)
    } else {
        seq![s[0]] + replace_all(s.drop_first(), from, to)
    }
}

/// Replaces every occurrence of `from` in `s` by `to`.
pub fn replace_chars(s: &Vec<char>, from: &Vec<char>, to: &Vec<char>) -> (r: Vec<char>)
    requires
        from@.len() > 0,
    ensures
        r@ == replace_all(s@, from@, to@),
{
    let n = s.len();
    let m = from.len();
    let mut out: Vec<char> = Vec::new();
    let mut i: usize = 0;
    assert(s@.skip(0) =~= s@);
    while i < n
        invariant
            i <= n == s@.len(),
            m == from@.len() > 0,
            replace_all(s@, from@, to@) == out@ + replace_all(s@.skip(i as int), from@, to@),
        decreases n - i,
    {
        let ghost rest = s@.skip(i as int);
        let ghost prev = out@;
        if m <= n - i && matches_at(s, from, i) {
            assert(rest.take(m as int) =~= s@.subrange(i as int, i + m));
            assert(rest.skip(m as int) =~= s@.skip(i + m));
            extend_chars(&mut out, to);
            i = i + m;
            let ghost tail = replace_all(s@.skip(i as int), from@, to@);
            assert(prev + (to@ + tail) =~= out@ + tail);
        } else {
            if m <= n - i {
                assert(rest.take(m as int) =~= s@.subrange(i as int, i + m));
                assert(rest.drop_first() =~= s@.skip(i + 1));
            } else {
                assert(rest.drop_first() =~= s@.skip(i + 1));
                assert(rest =~= seq![s@[i as int]] + s@.skip(i + 1));
            }
            out.push(s[i]);
            i = i + 1;
        }
    }
    assert(s@.skip(n as int) =~= Seq::<char>::empty());
    assert(out@ + Seq::<char>::empty() =~= out@);
    out
}

// ---------------------------------------------------------------------------
// Decimal numbers
// ---------------------------------------------------------------------------

/// The ASCII digit for `d < 10`.
pub open spec fn digit_char(d: nat) -> char {
    seq!['0', '1', '2', '3', '4', '5', '6', '7', '8', '9'][d as int]
}

/// The decimal text of `n`, without leading zeros (`n.to_string()`).
pub open spec fn decimal(n: nat) -> Seq<char>
    decreases n,
{
    if n < 10 {
        seq![digit_char(n)]
    } else {
        decimal(n / 10).push(digit_char(n % 10))
    }
}

/// The decimal text of `n` padded on the left with `0` to at least two
/// characters (`format!("{:02}", n)`).
pub open spec fn two_digits(n: nat) -> Seq<char> {
    if n < 10 {
        seq!['0', digit_char(n)]
    } else {
        decimal(n)
    }
}

fn digit_of(d: u64) -> (c: char)
    requires
        d < 10,
    ensures
        c == digit_char(d as nat),
{
    if d == 0 {
        '0'
    } else if d == 1 {
        '1'
    } else if d == 2 {
        '2'
    } else if d == 3 {
        '3'
    } else if d == 4 {
        '4'
    } else if d == 5 {
        '5'
    } else if d == 6 {
        '6'
    } else if d == 7 {
        '7'
    } else if d == 8 {
        '8'
    } else {
        '9'
    }
}

/// The decimal digits of `n`.
pub fn decimal_chars(n: u64) -> (r: Vec<char>)
    ensures
        r@ == decimal(n as nat),
    decreases n,
{
    if n < 10 {
        let mut v: Vec<char> = Vec::new();
        v.push(digit_of(n));
        assert(v@ =~= seq![digit_char(n as nat)]);
        v
    } else {
        let mut v = decimal_chars(n / 10);
        v.push(digit_of(n % 10));
        v
    }
}

/// The decimal digits of `n`, at least two of them.
pub fn two_digit_chars(n: u64) -> (r: Vec<char>)
    ensures
        r@ == two_digits(n as nat),
{
    if n < 10 {
        let mut v: Vec<char> = Vec::new();
        v.push('0');
        v.push(digit_of(n));
        assert(v@ =~= seq!['0', digit_char(n as nat)]);
        v
    } else {
        decimal_chars(n)
    }
}

/// `n.to_string()`.
pub fn decimal_text(n: u64) -> (r: String)
    ensures
        r@ == decimal(n as nat),
{
    let v = decimal_chars(n);
    string_from_chars(&v)
}

/// Whether `c` is an ASCII digit.
pub open spec fn is_digit(c: char) -> bool {
    '0' <= c && c <= '9'
}

/// The value of the digit `c`.
pub open spec fn digit_value(c: char) -> nat {
    ((c as int) - ('0' as int)) as nat
}

/// The value of a text of ASCII digits read in base ten.
pub open spec fn digits_value(s: Seq<char>) -> nat
    decreases s.len(),
{
    if s.len() == 0 {
        0
    } else {
        digits_value(s.drop_last()) * 10 + digit_value(s.last())
    }
}

/// Every character of `s` is an ASCII digit.
pub open spec fn all_digits(s: Seq<char>) -> bool {
    forall|i: int| 0 <= i < s.len() ==> is_digit(#[trigger] s[i])
}

/// What `str::parse` into an unsigned integer reads, before the range check:
/// an optional `+` and then at least one ASCII digit, nothing else.
pub open spec fn unsigned_value(s: Seq<char>) -> Option<nat> {
    let body = if s.len() > 1 && s[0] == '+' {
        s.drop_first()
    } else {
        s
    };
    if body.len() > 0 && all_digits(body) {
        Some(digits_value(body))
    } else {
        None
    }
}

/// What `s.parse::<u64>().ok()` gives.
pub open spec fn parsed_u64(s: Seq<char>) -> Option<u64> {
    match unsigned_value(s) {
        Some(v) => if v <= u64::MAX {
            Some(v as u64)
        } else {
            None
        },
        None => None,
    }
}

/// What `s.parse::<u32>().ok()` gives.
pub open spec fn parsed_u32(s: Seq<char>) -> Option<u32> {
    match unsigned_value(s) {
        Some(v) => if v <= u32::MAX {
            Some(v as u32)
        } else {
            None
        },
        None => None,
    }
}

/// Reading more digits never makes the value smaller.
pub proof fn lemma_digits_value_grows(s: Seq<char>, i: int)
    requires
        0 <= i <= s.len(),
    ensures
        digits_value(s.take(i)) <= digits_value(s),
    decreases s.len() - i,
{
    if i < s.len() {
        lemma_digits_value_grows(s, i + 1);
        assert(s.take(i + 1).drop_last() =~= s.take(i));
    } else {
        assert(s.take(i) =~= s);
    }
}

/// `s.parse::<u64>().ok()`.
pub fn parse_u64(s: &str) -> (r: Option<u64>)
    ensures
        r == parsed_u64(s@),
{
    let v = chars_of(s);
    let n = v.len();
    let start: usize = if n > 1 && v[0] == '+' {
        1
    } else {
        0
    };
    let ghost body = if s@.len() > 1 && s@[0] == '+' {
        s@.drop_first()
    } else {
        s@
    };
    assert(body =~= v@.skip(start as int));
    if start == n {
        assert(body.len() == 0);
        return None;
    }
    let mut acc: u64 = 0;
    let mut i = start;
    while i < n
        invariant
            start <= i <= n == v@.len(),
            v@ == s@,
            body == (if s@.len() > 1 && s@[0] == '+' {
                s@.drop_first()
            } else {
                s@
            }),
            body == v@.skip(start as int),
            forall|k: int| 0 <= k < i - start ==> is_digit(#[trigger] body[k]),
            acc as nat == digits_value(body.take(i - start)),
        decreases n - i,
    {
        let c = v[i];
        if !('0' <= c && c <= '9') {
            assert(!is_digit(body[i - start]));
            assert(!all_digits(body));
            return None;
        }
        let d = (c as u32 - '0' as u32) as u64;
        assert(body.take(i - start + 1).drop_last() =~= body.take(i - start));
        assert(body.take(i - start + 1).last() == c);
        assert(d as nat == digit_value(c));
        if acc > (u64::MAX - d) / 10 {
            proof {
                assert(acc * 10 + d > u64::MAX) by (nonlinear_arith)
                    requires
                        acc > (u64::MAX - d) / 10,
                        d < 10,
                ;
                assert forall|k: int| 0 <= k < i - start + 1 implies is_digit(
                    #[trigger] body[k],
                ) by {}
                lemma_digits_value_grows(body, i - start + 1);
                assert(digits_value(body.take(i - start + 1)) == acc * 10 + d);
                assert(digits_value(body) > u64::MAX);
                match unsigned_value(s@) {
                    Some(w) => assert(w == digits_value(body)),
                    None => {},
                }
            }
            return None;
        }
        proof {
            assert(acc * 10 + d <= u64::MAX) by (nonlinear_arith)
                requires
                    acc <= (u64::MAX - d) / 10,
                    d < 10,
            ;
        }
        acc = acc * 10 + d;
        i = i + 1;
    }
    assert(body.take(n - start) =~= body);
    Some(acc)
}

/// `s.parse::<u32>().ok()`.
pub fn parse_u32(s: &str) -> (r: Option<u32>)
    ensures
        r == parsed_u32(s@),
{
    match parse_u64(s) {
        Some(v) => if v <= 0xffff_ffff {
            Some(v as u32)
        } else {
            None
        },
        None => None,
    }
}

} // verus!
