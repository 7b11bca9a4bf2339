//! Character-level helpers shared by the parsers and renderers: conversion
//! between strings and character sequences, Unicode whitespace, trimming,
//! line splitting and zero-padded decimal numbers.
use vstd::prelude::*;

verus! {

/// Unicode `White_Space` property, the set that `char::is_whitespace` tests.
pub open spec fn is_ws(c: char) -> bool {
    let u = c as u32;
    ||| 0x09 <= u <= 0x0d
    ||| u == 0x20
    ||| u == 0x85
    ||| u == 0xa0
    ||| u == 0x1680
    ||| 0x2000 <= u <= 0x200a
    ||| u == 0x2028
    ||| u == 0x2029
    ||| u == 0x202f
    ||| u == 0x205f
    ||| u == 0x3000
}

/// Every character of `s` is whitespace (so `s.trim()` is empty).
pub open spec fn all_ws(s: Seq<char>) -> bool {
    forall|i: int| 0 <= i < s.len() ==> is_ws(#[trigger] s[i])
}

/// `s` with leading whitespace removed.
pub open spec fn trim_start(s: Seq<char>) -> Seq<char>
    decreases s.len(),
{
    if s.len() > 0 && is_ws(s[0]) {
        trim_start(s.drop_first())
    } else {
        s
    }
}

/// `s` with trailing whitespace removed.
pub open spec fn trim_end(s: Seq<char>) -> Seq<char>
    decreases s.len(),
{
    if s.len() > 0 && is_ws(s.last()) {
        trim_end(s.drop_last())
    } else {
        s
    }
}

/// `s` with leading and trailing whitespace removed, as `str::trim` does.
pub open spec fn trim(s: Seq<char>) -> Seq<char> {
    trim_end(trim_start(s))
}

/// `s` contains a line break character (`\n` or `\r`).
pub open spec fn has_line_break(s: Seq<char>) -> bool {
    s.contains('\n') || s.contains('\r')
}

/// The pieces of `s` between `\n` separators, as `str::split('\n')`
/// yields them (an empty input gives one empty piece).
pub open spec fn split_lines(s: Seq<char>) -> Seq<Seq<char>>
    decreases s.len(),
{
    if s.len() == 0 {
        seq![Seq::<char>::empty()]
    } else {
        let pieces = split_lines(s.drop_last());
        if s.last() == '\n' {
            pieces.push(Seq::<char>::empty())
        } else {
            pieces.update(pieces.len() - 1, pieces.last().push(s.last()))
        }
    }
}

/// `s` without one leading byte order mark.
pub open spec fn strip_bom(s: Seq<char>) -> Seq<char> {
    if s.len() > 0 && s[0] == '\u{feff}' {
        s.drop_first()
    } else {
        s
    }
}

/// `s` without one trailing carriage return.
pub open spec fn strip_cr(s: Seq<char>) -> Seq<char> {
    if s.len() > 0 && s.last() == '\r' {
        s.drop_last()
    } else {
        s
    }
}

/// The decimal digit character for `d` (`0 <= d < 10`).
pub open spec fn digit_char(d: nat) -> char {
    if d == 0 { '0' }
    else if d == 1 { '1' }
    else if d == 2 { '2' }
    else if d == 3 { '3' }
    else if d == 4 { '4' }
    else if d == 5 { '5' }
    else if d == 6 { '6' }
    else if d == 7 { '7' }
    else if d == 8 { '8' }
    else { '9' }
}

/// Decimal representation of `n` without leading zeros.
pub open spec fn decimal(n: nat) -> Seq<char>
    decreases n,
{
    if n < 10 {
        seq![digit_char(n)]
    } else {
        decimal(n / 10).push(digit_char(n % 10))
    }
}

/// `s` left-padded with `'0'` up to `width` characters, as `{:0width$}`.
pub open spec fn zero_pad(s: Seq<char>, width: nat) -> Seq<char> {
    if s.len() >= width {
        s
    } else {
        Seq::new((width - s.len()) as nat, |i: int| '0') + s
    }
}

/// `{:02}` applied to `n`.
pub open spec fn two_digits(n: nat) -> Seq<char> {
    zero_pad(decimal(n), 2)
}

/// `prefix` put in front of a successful text; errors pass through.
pub open spec fn after_prefix(prefix: Seq<char>, r: Result<Seq<char>, Seq<char>>) -> Result<
    Seq<char>,
    Seq<char>,
> {
    match r {
        Ok(text) => Ok(prefix + text),
        Err(e) => Err(e),
    }
}

/// The view of a text-or-message result.
pub open spec fn result_view(r: Result<String, String>) -> Result<Seq<char>, Seq<char>> {
    match r {
        Ok(s) => Ok(s@),
        Err(e) => Err(e@),
    }
}

/// Splitting `s` at the items that `sep` marks, left to right: the
/// non-empty runs completed so far and the run still open.
pub open spec fn runs_state<A>(s: Seq<A>, sep: spec_fn(A) -> bool) -> (Seq<Seq<A>>, Seq<A>)
    decreases s.len(),
{
    if s.len() == 0 {
        (Seq::empty(), Seq::empty())
    } else {
        let (done, open) = runs_state(s.drop_last(), sep);
        if sep(s.last()) {
            if open.len() > 0 {
                (done.push(open), Seq::empty())
            } else {
                (done, Seq::empty())
            }
        } else {
            (done, open.push(s.last()))
        }
    }
}

/// The maximal non-empty runs of `s` between items that `sep` marks, in
/// order (as `str::split_whitespace` yields words).
pub open spec fn runs<A>(s: Seq<A>, sep: spec_fn(A) -> bool) -> Seq<Seq<A>> {
    let (done, open) = runs_state(s, sep);
    if open.len() > 0 {
        done.push(open)
    } else {
        done
    }
}

/// How [`split_lines`] grows by one character.
pub proof fn lemma_split_push(s: Seq<char>, c: char)
    ensures
        split_lines(s.push(c)) == (if c == '\n' {
            split_lines(s).push(Seq::<char>::empty())
        } else {
            split_lines(s).update(
                split_lines(s).len() - 1,
                split_lines(s).last().push(c),
            )
        }),
{
    assert(s.push(c).drop_last() == s);
    assert(s.push(c).last() == c);
}

/// `s` with every `\r\n` pair replaced by `\n` (as `str::replace` does;
/// the pattern cannot overlap itself, so scanning from either end agrees).
pub open spec fn crlf_to_lf(s: Seq<char>) -> Seq<char>
    decreases s.len(),
{
    if s.len() < 2 {
        s
    } else if s[s.len() - 2] == '\r' && s.last() == '\n' {
        crlf_to_lf(s.subrange(0, s.len() - 2)).push('\n')
    } else {
        crlf_to_lf(s.drop_last()).push(s.last())
    }
}

/// The number of `\n` characters in `s`.
pub open spec fn newline_count(s: Seq<char>) -> nat
    decreases s.len(),
{
    if s.len() == 0 {
        0
    } else {
        newline_count(s.drop_last()) + if s.last() == '\n' {
            1nat
        } else {
            0nat
        }
    }
}

/// Every `\r` in `s`, except possibly its last character, is followed by
/// `\n`.
pub open spec fn cr_before_lf_inside(s: Seq<char>) -> bool {
    forall|i: int| 0 <= i < s.len() - 1 ==> #[trigger] cr_then_lf(s, i)
}

/// If position `i` of `s` holds `\r`, position `i + 1` holds `\n`.
pub open spec fn cr_then_lf(s: Seq<char>, i: int) -> bool {
    s[i] == '\r' ==> s[i + 1] == '\n'
}

/// No row holds a `\r` anywhere but as its last character.
pub open spec fn cr_only_at_row_ends(rows: Seq<Seq<char>>) -> bool {
    forall|k: int, j: int|
        0 <= k < rows.len() && 0 <= j < rows[k].len() - 1 ==> #[trigger] rows[k][j] != '\r'
}

/// The last row of [`split_lines`] ends with the text's last character,
/// unless that character is a separator.
pub proof fn lemma_split_last_row(s: Seq<char>)
    ensures
        split_lines(s).len() >= 1,
        split_lines(s).last().len() > 0 ==> s.len() > 0 && s.last() != '\n'
            && split_lines(s).last().last() == s.last(),
    decreases s.len(),
{
    if s.len() > 0 {
        lemma_split_last_row(s.drop_last());
    }
}

/// One row per separator, plus one.
pub proof fn lemma_split_len(s: Seq<char>)
    ensures
        split_lines(s).len() == newline_count(s) + 1,
    decreases s.len(),
{
    if s.len() > 0 {
        lemma_split_len(s.drop_last());
    }
}

/// How the rows of `s` and of `crlf_to_lf(s)` correspond while every inner
/// `\r` precedes a `\n`: each row but the last loses its trailing `\r`,
/// the last row is unchanged, and no row holds an inner `\r`.
pub proof fn lemma_crlf_rows(s: Seq<char>)
    requires
        cr_before_lf_inside(s),
    ensures
        split_lines(crlf_to_lf(s)).len() == split_lines(s).len(),
        forall|k: int|
            0 <= k < split_lines(s).len() - 1 ==> #[trigger] split_lines(crlf_to_lf(s))[k] == strip_cr(
                split_lines(s)[k],
            ),
        split_lines(crlf_to_lf(s)).last() == split_lines(s).last(),
        cr_only_at_row_ends(split_lines(s)),
    decreases s.len(),
{
    let n = s.len();
    if n < 2 {
        lemma_split_last_row(s);
        if n == 1 {
            assert(s.drop_last() == Seq::<char>::empty());
        }
    } else if s[n - 2] == '\r' && s.last() == '\n' {
        let p = s.subrange(0, n - 2);
        let q = s.drop_last();
        assert(q == p.push('\r'));
        assert(cr_before_lf_inside(p)) by {
            assert forall|i: int| 0 <= i < p.len() - 1 implies #[trigger] cr_then_lf(p, i) by {
                assert(cr_then_lf(s, i));
                assert(s[i] == p[i] && s[i + 1] == p[i + 1]);
            }
        }
        lemma_crlf_rows(p);
        lemma_split_last_row(p);
        lemma_split_push(p, '\r');
        lemma_split_push(q, '\n');
        lemma_split_push(crlf_to_lf(p), '\n');
        assert(s == q.push('\n'));
        let ap = split_lines(p);
        let bp = split_lines(crlf_to_lf(p));
        let a = split_lines(s);
        let b = split_lines(crlf_to_lf(s));
        assert(ap.last().len() > 0 ==> ap.last().last() != '\r') by {
            if ap.last().len() > 0 {
                assert(p.last() == s[n - 3]);
                assert(cr_then_lf(s, n - 3));
            }
        }
        assert(ap.last().push('\r').drop_last() == ap.last());
        assert(a.len() == b.len());
        assert forall|k: int| 0 <= k < a.len() - 1 implies #[trigger] b[k] == strip_cr(a[k]) by {
            if k < ap.len() - 1 {
                assert(a[k] == ap[k]);
                assert(b[k] == bp[k]);
            } else {
                assert(a[k] == ap.last().push('\r'));
                assert(b[k] == bp.last());
            }
        }
        assert forall|k: int, j: int| 0 <= k < a.len() && 0 <= j < a[k].len() - 1 implies #[trigger] a[k][j] != '\r' by {
            if k < ap.len() - 1 {
                assert(a[k] == ap[k]);
            } else if k == ap.len() - 1 {
                assert(a[k] == ap.last().push('\r'));
                assert(a[k][j] == ap.last()[j]);
                if j < ap.last().len() - 1 {
                    assert(ap[k][j] != '\r');
                }
            }
        }
    } else {
        let d = s.drop_last();
        let c = s.last();
        assert(s == d.push(c));
        assert(cr_before_lf_inside(d)) by {
            assert forall|i: int| 0 <= i < d.len() - 1 implies #[trigger] cr_then_lf(d, i) by {
                assert(cr_then_lf(s, i));
                assert(s[i] == d[i] && s[i + 1] == d[i + 1]);
            }
        }
        lemma_crlf_rows(d);
        lemma_split_last_row(d);
        lemma_split_push(d, c);
        lemma_split_push(crlf_to_lf(d), c);
        let ad = split_lines(d);
        let bd = split_lines(crlf_to_lf(d));
        let a = split_lines(s);
        let b = split_lines(crlf_to_lf(s));
        assert(ad.last().len() > 0 ==> ad.last().last() != '\r') by {
            if ad.last().len() > 0 {
                assert(d.last() == s[n - 2]);
                assert(cr_then_lf(s, n - 2));
            }
        }
        if c == '\n' {
            assert forall|k: int| 0 <= k < a.len() - 1 implies #[trigger] b[k] == strip_cr(a[k]) by {
                assert(a[k] == ad[k]);
                assert(b[k] == bd[k]);
            }
            assert forall|k: int, j: int| 0 <= k < a.len() && 0 <= j < a[k].len() - 1 implies #[trigger] a[k][j] != '\r' by {
                if k < ad.len() {
                    assert(a[k] == ad[k]);
                    assert(ad[k][j] != '\r');
                }
            }
        } else {
            assert forall|k: int| 0 <= k < a.len() - 1 implies #[trigger] b[k] == strip_cr(a[k]) by {
                assert(a[k] == ad[k]);
                assert(b[k] == bd[k]);
            }
            assert forall|k: int, j: int| 0 <= k < a.len() && 0 <= j < a[k].len() - 1 implies #[trigger] a[k][j] != '\r' by {
                if k < ad.len() - 1 {
                    assert(a[k] == ad[k]);
                    assert(ad[k][j] != '\r');
                } else {
                    assert(a[k] == ad.last().push(c));
                    assert(a[k][j] == ad.last()[j]);
                    if j < ad.last().len() - 1 {
                        assert(ad[k][j] != '\r');
                    }
                }
            }
        }
    }
}

/// The first character of `crlf_to_lf(s)` is a byte order mark only when
/// the first character of `s` is.
pub proof fn lemma_crlf_first(s: Seq<char>)
    requires
        s.len() > 0,
    ensures
        crlf_to_lf(s).len() > 0,
        crlf_to_lf(s)[0] == '\u{feff}' ==> s[0] == '\u{feff}',
    decreases s.len(),
{
    let n = s.len();
    if n >= 2 {
        if s[n - 2] == '\r' && s.last() == '\n' {
            let p = s.subrange(0, n - 2);
            if p.len() > 0 {
                lemma_crlf_first(p);
                assert(p[0] == s[0]);
                assert(crlf_to_lf(s)[0] == crlf_to_lf(p)[0]);
            } else {
                assert(crlf_to_lf(p) == p);
                assert(crlf_to_lf(s)[0] == '\n');
            }
        } else {
            let d = s.drop_last();
            lemma_crlf_first(d);
            assert(d[0] == s[0]);
            assert(crlf_to_lf(s)[0] == crlf_to_lf(d)[0]);
        }
    }
}

/// The pieces of `s` between `\n` separators.
pub fn lines_of(s: &str) -> (rows: Vec<Vec<char>>)
    ensures
        rows@.len() == split_lines(s@).len(),
        forall|k: int| 0 <= k < rows@.len() ==> #[trigger] rows@[k]@ == split_lines(s@)[k],
{
    let cs = chars_of(s);
    let mut rows: Vec<Vec<char>> = Vec::new();
    let mut current: Vec<char> = Vec::new();
    let ghost mut pieces: Seq<Seq<char>> = Seq::empty();
    let mut i: usize = 0;
    assert(cs@.take(0) == Seq::<char>::empty());
    while i < cs.len()
        invariant
            i <= cs.len(),
            cs@ == s@,
            split_lines(cs@.take(i as int)) == pieces.push(current@),
            rows@.len() == pieces.len(),
            forall|k: int| 0 <= k < rows@.len() ==> #[trigger] rows@[k]@ == pieces[k],
        decreases cs.len() - i,
    {
        let c = cs[i];
        proof {
            lemma_split_push(cs@.take(i as int), c);
            assert(cs@.take(i + 1) == cs@.take(i as int).push(c));
        }
        if c == '\n' {
            proof {
                pieces = pieces.push(current@);
            }
            rows.push(current);
            current = Vec::new();
        } else {
            current.push(c);
        }
        i = i + 1;
    }
    proof {
        pieces = pieces.push(current@);
        assert(cs@.take(cs.len() as int) == cs@);
    }
    rows.push(current);
    rows
}

/// The separator test of `str::split_whitespace`.
pub open spec fn whitespace() -> spec_fn(char) -> bool {
    |c: char| is_ws(c)
}

/// The whitespace-separated words of `s`, as `str::split_whitespace` yields
/// them.
pub open spec fn split_ws(s: Seq<char>) -> Seq<Seq<char>> {
    runs(s, whitespace())
}

/// The views of a sequence of strings.
pub open spec fn strs(v: Seq<String>) -> Seq<Seq<char>> {
    v.map_values(|s: String| s@)
}

/// The whitespace-separated words of `s[from..to]`.
pub fn split_whitespace(s: &Vec<char>, from: usize, to: usize) -> (words: Vec<String>)
    requires
        from <= to <= s.len(),
    ensures
        strs(words@) == split_ws(s@.subrange(from as int, to as int)),
{
    let mut words: Vec<String> = Vec::new();
    let mut current: Vec<char> = Vec::new();
    let mut i = from;
    assert(s@.subrange(from as int, from as int) == Seq::<char>::empty());
    assert(strs(words@) == Seq::<Seq<char>>::empty());
    while i < to
        invariant
            from <= i <= to <= s.len(),
            runs_state(s@.subrange(from as int, i as int), whitespace()) == (strs(words@), current@),
        decreases to - i,
    {
        let ghost words0 = words@;
        let ghost current0 = current@;
        assert(s@.subrange(from as int, i + 1).drop_last() == s@.subrange(from as int, i as int));
        assert(s@.subrange(from as int, i + 1).last() == s@[i as int]);
        if is_whitespace(s[i]) {
            if current.len() > 0 {
                words.push(string_from(&current));
                current = Vec::new();
                assert(strs(words@) == strs(words0).push(current0));
            }
        } else {
            current.push(s[i]);
        }
        i = i + 1;
    }
    if current.len() > 0 {
        let ghost words0 = words@;
        words.push(string_from(&current));
        assert(strs(words@) == strs(words0).push(current@));
    }
    words
}

/// Lexicographic order on character sequences (the order of `str`'s `Ord`,
/// since UTF-8 preserves the order of code points).
pub open spec fn text_less(a: Seq<char>, b: Seq<char>) -> bool
    decreases a.len(),
{
    if a.len() == 0 {
        b.len() > 0
    } else if b.len() == 0 {
        false
    } else if a[0] != b[0] {
        a[0] < b[0]
    } else {
        text_less(a.skip(1), b.skip(1))
    }
}

/// [`text_less`] is a strict total order.
pub proof fn lemma_text_order(a: Seq<char>, b: Seq<char>)
    ensures
        !(text_less(a, b) && text_less(b, a)),
        !text_less(a, a),
        a != b ==> text_less(a, b) || text_less(b, a),
    decreases a.len(),
{
    if a.len() > 0 && b.len() > 0 && a[0] == b[0] {
        lemma_text_order(a.skip(1), b.skip(1));
        if a != b {
            assert(a.skip(1) != b.skip(1)) by {
                if a.skip(1) == b.skip(1) {
                    assert(a == seq![a[0]] + a.skip(1));
                    assert(b == seq![b[0]] + b.skip(1));
                }
            }
        }
    }
    if a.len() > 0 {
        lemma_text_order(a.skip(1), a.skip(1));
    }
    if a.len() == 0 && b.len() == 0 {
        assert(a == b);
    }
}

/// [`text_less`] is transitive.
pub proof fn lemma_text_less_transitive(a: Seq<char>, b: Seq<char>, c: Seq<char>)
    requires
        text_less(a, b),
        text_less(b, c),
    ensures
        text_less(a, c),
    decreases a.len(),
{
    if a.len() > 0 && b.len() > 0 && c.len() > 0 && a[0] == b[0] && b[0] == c[0] {
        lemma_text_less_transitive(a.skip(1), b.skip(1), c.skip(1));
    }
}

/// Three-way comparison of two texts.
#[derive(Debug, Clone, Copy, PartialEq, Eq, Structural)]
pub enum TextOrder {
    Less,
    Equal,
    Greater,
}

/// Compares two texts in [`text_less`] order.
pub fn compare_text(a: &str, b: &str) -> (r: TextOrder)
    ensures
        r == TextOrder::Less <==> text_less(a@, b@),
        r == TextOrder::Equal <==> a@ == b@,
        r == TextOrder::Greater <==> text_less(b@, a@),
{
    let x = chars_of(a);
    let y = chars_of(b);
    proof {
        lemma_text_order(a@, b@);
    }
    let mut i: usize = 0;
    assert(x@.skip(0) == x@);
    assert(y@.skip(0) == y@);
    while i < x.len() && i < y.len() && x[i] == y[i]
        invariant
            i <= x@.len(),
            i <= y@.len(),
            x@ == a@,
            y@ == b@,
            x@.take(i as int) == y@.take(i as int),
            text_less(a@, b@) == text_less(x@.skip(i as int), y@.skip(i as int)),
            text_less(b@, a@) == text_less(y@.skip(i as int), x@.skip(i as int)),
        decreases x.len() - i,
    {
        assert(x@.skip(i as int).skip(1) == x@.skip(i + 1));
        assert(y@.skip(i as int).skip(1) == y@.skip(i + 1));
        assert(x@.take(i + 1) == x@.take(i as int).push(x@[i as int]));
        assert(y@.take(i + 1) == y@.take(i as int).push(y@[i as int]));
        i = i + 1;
    }
    if i == x.len() && i == y.len() {
        assert(x@ == x@.take(i as int));
        assert(y@ == y@.take(i as int));
        TextOrder::Equal
    } else if i == x.len() {
        assert(a@ != b@) by {
            assert(a@.len() != b@.len());
        }
        TextOrder::Less
    } else if i == y.len() {
        assert(a@ != b@) by {
            assert(a@.len() != b@.len());
        }
        TextOrder::Greater
    } else {
        assert(a@[i as int] != b@[i as int]);
        assert(a@ != b@);
        if x[i] < y[i] {
            TextOrder::Less
        } else {
            TextOrder::Greater
        }
    }
}

/// Converts a string slice into its sequence of characters.
pub fn chars_of(s: &str) -> (out: Vec<char>)
    ensures
        out@ == s@,
{
    let mut out: Vec<char> = Vec::new();
    for c in it: s.chars()
        invariant
            out@ == it.seq().take(it.index() as int),
            it.seq() == s@,
    {
        out.push(c);
    }
    out
}

/// `String::push`: appends one character.
#[verifier::external_body]
pub fn push_char(s: &mut String, c: char)
    ensures
        final(s)@ == old(s)@.push(c),
{
    s.push(c);
}

/// Builds a string holding exactly the given characters.
pub fn string_from(chars: &Vec<char>) -> (out: String)
    ensures
        out@ == chars@,
{
    let mut out = String::new();
    let mut i: usize = 0;
    while i < chars.len()
        invariant
            i <= chars.len(),
            out@ == chars@.take(i as int),
        decreases chars.len() - i,
    {
        push_char(&mut out, chars[i]);
        i = i + 1;
        assert(chars@.take(i as int) == chars@.take(i - 1).push(chars@[i - 1]));
    }
    assert(chars@.take(chars.len() as int) == chars@);
    out
}

/// Appends every character of `s` to `out`.
pub fn extend_chars(out: &mut Vec<char>, s: &Vec<char>)
    ensures
        final(out)@ == old(out)@ + s@,
{
    let mut i: usize = 0;
    while i < s.len()
        invariant
            i <= s.len(),
            out@ == old(out)@ + s@.take(i as int),
        decreases s.len() - i,
    {
        out.push(s[i]);
        i = i + 1;
        assert(s@.take(i as int) == s@.take(i - 1).push(s@[i - 1]));
    }
    assert(s@.take(s.len() as int) == s@);
}

/// Appends every character of the string slice `s` to `out`.
pub fn extend_str(out: &mut Vec<char>, s: &str)
    ensures
        final(out)@ == old(out)@ + s@,
{
    let cs = chars_of(s);
    extend_chars(out, &cs);
}

/// `char::is_whitespace`.
pub fn is_whitespace(c: char) -> (b: bool)
    ensures
        b == is_ws(c),
{
    let u = c as u32;
    (0x09 <= u && u <= 0x0d) || u == 0x20 || u == 0x85 || u == 0xa0 || u == 0x1680 || (0x2000
        <= u && u <= 0x200a) || u == 0x2028 || u == 0x2029 || u == 0x202f || u == 0x205f || u
        == 0x3000
}

proof fn lemma_trim_start_all_ws(s: Seq<char>)
    ensures
        all_ws(s) <==> trim_start(s).len() == 0,
    decreases s.len(),
{
    if s.len() > 0 && is_ws(s[0]) {
        lemma_trim_start_all_ws(s.drop_first());
        if all_ws(s.drop_first()) {
            assert forall|i: int| 0 <= i < s.len() implies is_ws(#[trigger] s[i]) by {
                if i > 0 {
                    assert(s[i] == s.drop_first()[i - 1]);
                }
            }
        }
        if all_ws(s) {
            assert forall|i: int| 0 <= i < s.drop_first().len() implies is_ws(
                #[trigger] s.drop_first()[i],
            ) by {
                assert(s.drop_first()[i] == s[i + 1]);
            }
        }
    } else if s.len() > 0 {
        assert(!is_ws(s[0]));
    }
}

proof fn lemma_trim_end_empty(s: Seq<char>)
    ensures
        s.len() == 0 ==> trim_end(s).len() == 0,
        s.len() > 0 && !is_ws(s[0]) ==> trim_end(s).len() > 0,
    decreases s.len(),
{
    if s.len() > 0 && is_ws(s.last()) {
        lemma_trim_end_empty(s.drop_last());
        if s.len() > 0 && !is_ws(s[0]) {
            assert(s.len() > 1);
            assert(s.drop_last()[0] == s[0]);
        }
    }
}

/// A string is blank after trimming exactly when every character is
/// whitespace.
pub proof fn lemma_trim_empty_iff_all_ws(s: Seq<char>)
    ensures
        trim(s).len() == 0 <==> all_ws(s),
{
    lemma_trim_start_all_ws(s);
    let t = trim_start(s);
    lemma_trim_end_empty(t);
    lemma_trim_start_first(s);
}

proof fn lemma_trim_start_first(s: Seq<char>)
    ensures
        trim_start(s).len() > 0 ==> !is_ws(trim_start(s)[0]),
    decreases s.len(),
{
    if s.len() > 0 && is_ws(s[0]) {
        lemma_trim_start_first(s.drop_first());
    }
}

/// Whether every character of `s` is whitespace (`s.trim().is_empty()`).
pub fn is_blank(s: &Vec<char>) -> (b: bool)
    ensures
        b == all_ws(s@),
        b == (trim(s@).len() == 0),
{
    proof {
        lemma_trim_empty_iff_all_ws(s@);
    }
    let ghost g = s@;
    let mut i: usize = 0;
    while i < s.len()
        invariant
            i <= s.len(),
            forall|j: int| 0 <= j < i ==> is_ws(#[trigger] s@[j]),
            g == s@,
            trim(g).len() == 0 <==> all_ws(g),
        decreases s.len() - i,
    {
        if !is_whitespace(s[i]) {
            assert(!is_ws(s@[i as int]));
            return false;
        }
        i = i + 1;
    }
    true
}

/// Whether the string slice is blank after trimming.
pub fn str_is_blank(s: &str) -> (b: bool)
    ensures
        b == all_ws(s@),
        b == (trim(s@).len() == 0),
{
    let cs = chars_of(s);
    is_blank(&cs)
}

/// Whether `s` contains `\n` or `\r`.
pub fn contains_line_break(s: &Vec<char>) -> (b: bool)
    ensures
        b == has_line_break(s@),
{
    let mut i: usize = 0;
    while i < s.len()
        invariant
            i <= s.len(),
            forall|j: int| 0 <= j < i ==> s@[j] != '\n' && s@[j] != '\r',
        decreases s.len() - i,
    {
        if s[i] == '\n' || s[i] == '\r' {
            assert(s@[i as int] == '\n' ==> s@.contains('\n'));
            assert(s@[i as int] == '\r' ==> s@.contains('\r'));
            return true;
        }
        i = i + 1;
    }
    false
}

/// Copies the subrange `from..to` of `s`.
pub fn slice_chars(s: &Vec<char>, from: usize, to: usize) -> (out: Vec<char>)
    requires
        from <= to <= s.len(),
    ensures
        out@ == s@.subrange(from as int, to as int),
{
    let mut out: Vec<char> = Vec::new();
    let mut i = from;
    while i < to
        invariant
            from <= i <= to <= s.len(),
            out@ == s@.subrange(from as int, i as int),
        decreases to - i,
    {
        out.push(s[i]);
        i = i + 1;
    }
    out
}

proof fn lemma_trim_start_skip(s: Seq<char>, k: int)
    requires
        0 <= k <= s.len(),
        forall|j: int| 0 <= j < k ==> is_ws(#[trigger] s[j]),
    ensures
        trim_start(s) == trim_start(s.subrange(k, s.len() as int)),
    decreases k,
{
    if k > 0 {
        assert(s.drop_first() == s.subrange(1, s.len() as int));
        lemma_trim_start_skip(s.drop_first(), k - 1);
        assert(s.drop_first().subrange(k - 1, s.drop_first().len() as int) == s.subrange(
            k,
            s.len() as int,
        ));
    } else {
        assert(s.subrange(0, s.len() as int) == s);
    }
}

proof fn lemma_trim_end_skip(s: Seq<char>, k: int)
    requires
        0 <= k <= s.len(),
        forall|j: int| k <= j < s.len() ==> is_ws(#[trigger] s[j]),
    ensures
        trim_end(s) == trim_end(s.subrange(0, k)),
    decreases s.len() - k,
{
    if k < s.len() {
        lemma_trim_end_skip(s.drop_last(), k);
        assert(s.drop_last().subrange(0, k) == s.subrange(0, k));
    } else {
        assert(s.subrange(0, s.len() as int) == s);
    }
}

/// `str::trim` on a character sequence.
pub fn trim_chars(s: &Vec<char>) -> (out: Vec<char>)
    ensures
        out@ == trim(s@),
{
    let mut start: usize = 0;
    while start < s.len() && is_whitespace(s[start])
        invariant
            start <= s.len(),
            forall|j: int| 0 <= j < start ==> is_ws(#[trigger] s@[j]),
        decreases s.len() - start,
    {
        start = start + 1;
    }
    let ghost rest = s@.subrange(start as int, s.len() as int);
    proof {
        lemma_trim_start_skip(s@, start as int);
    }
    assert(trim_start(rest) == rest);
    let mut end: usize = s.len();
    while end > start && is_whitespace(s[end - 1])
        invariant
            start <= end <= s.len(),
            forall|j: int| end <= j < s.len() ==> is_ws(#[trigger] s@[j]),
        decreases end,
    {
        end = end - 1;
    }
    proof {
        let e = end - start;
        assert forall|j: int| e <= j < rest.len() implies is_ws(#[trigger] rest[j]) by {
            assert(rest[j] == s@[j + start]);
        }
        lemma_trim_end_skip(rest, e);
        assert(rest.subrange(0, e) == s@.subrange(start as int, end as int));
        let t = s@.subrange(start as int, end as int);
        if t.len() > 0 {
            assert(t.last() == s@[end - 1]);
        }
    }
    slice_chars(s, start, end)
}

/// The decimal digit character for `d`.
pub fn digit(d: u64) -> (c: char)
    requires
        d < 10,
    ensures
        c == digit_char(d as nat),
{
    if d == 0 { '0' }
    else if d == 1 { '1' }
    else if d == 2 { '2' }
    else if d == 3 { '3' }
    else if d == 4 { '4' }
    else if d == 5 { '5' }
    else if d == 6 { '6' }
    else if d == 7 { '7' }
    else if d == 8 { '8' }
    else { '9' }
}

/// Appends the decimal representation of `n` to `out`.
pub fn push_decimal(out: &mut Vec<char>, n: u64)
    ensures
        final(out)@ == old(out)@ + decimal(n as nat),
    decreases n,
{
    if n < 10 {
        out.push(digit(n));
        assert(decimal(n as nat) == seq![digit_char(n as nat)]);
    } else {
        push_decimal(out, n / 10);
        out.push(digit(n % 10));
        assert(decimal(n as nat) == decimal((n / 10) as nat).push(digit_char((n % 10) as nat)));
    }
}

/// Appends `n` formatted as `{:02}` to `out`.
pub fn push_two_digits(out: &mut Vec<char>, n: u64)
    ensures
        final(out)@ == old(out)@ + two_digits(n as nat),
{
    if n < 10 {
        out.push('0');
        push_decimal(out, n);
        assert(decimal(n as nat) == seq![digit_char(n as nat)]);
        assert(Seq::new((2 - decimal(n as nat).len()) as nat, |i: int| '0') =~= seq!['0']);
    } else {
        proof {
            lemma_decimal_len_ge_two(n as nat);
        }
        push_decimal(out, n);
    }
}

proof fn lemma_decimal_len_ge_two(n: nat)
    requires
        n >= 10,
    ensures
        decimal(n).len() >= 2,
    decreases n,
{
    assert(decimal(n) == decimal(n / 10).push(digit_char(n % 10)));
}

} // verus!
