//! Numbering the lines of a text, as a cosmetic and reversible transform.
use vstd::prelude::*;
use vstd::string::*;
use crate::text::{chars_of, string_of, push_chars};

verus! {

/// The pieces of `s` between newline characters, in order; there is always
/// one more piece than there are newlines.
pub open spec fn segments(s: Seq<char>) -> Seq<Seq<char>>
    decreases s.len(),
{
    if s.len() == 0 {
        seq![Seq::empty()]
    } else {
        let rest = segments(s.drop_last());
        if s.last() == '\n' {
            rest.push(Seq::empty())
        } else {
            rest.update(rest.len() - 1, rest.last().push(s.last()))
        }
    }
}

/// `l` without a carriage return at its end.
pub open spec fn strip_cr(l: Seq<char>) -> Seq<char> {
    if l.len() > 0 && l.last() == '\r' {
        l.drop_last()
    } else {
        l
    }
}

/// The lines of `s`: the pieces between newlines, where a final newline ends
/// the last line rather than starting an empty one, and a carriage return just
/// before a newline belongs to the line ending.
pub open spec fn lines_of(s: Seq<char>) -> Seq<Seq<char>> {
    if s.len() == 0 {
        Seq::empty()
    } else {
        let segs = segments(s);
        let m: int = if s.last() == '\n' { segs.len() - 1 } else { segs.len() as int };
        Seq::new(m as nat, |k: int| if k < segs.len() - 1 { strip_cr(segs[k]) } else { segs[k] })
    }
}

/// The lines of `s` as they are numbered: the pieces between newline
/// characters, carriage returns and a final empty piece included; an empty
/// text has no lines.
pub open spec fn pieces_of(s: Seq<char>) -> Seq<Seq<char>> {
    if s.len() == 0 {
        Seq::empty()
    } else {
        segments(s)
    }
}

/// The lines `ls` separated by newlines.
pub open spec fn join_lines(ls: Seq<Seq<char>>) -> Seq<char>
    decreases ls.len(),
{
    if ls.len() == 0 {
        Seq::empty()
    } else if ls.len() == 1 {
        ls[0]
    } else {
        join_lines(ls.drop_last()) + seq!['\n'] + ls.last()
    }
}

/// The decimal digit for `d`.
pub open spec fn digit_char(d: nat) -> char {
    if d == 0 { '0' } else if d == 1 { '1' } else if d == 2 { '2' } else if d == 3 { '3' }
    else if d == 4 { '4' } else if d == 5 { '5' } else if d == 6 { '6' } else if d == 7 { '7' }
    else if d == 8 { '8' } else { '9' }
}

/// The decimal notation of `n`.
pub open spec fn digits_of(n: nat) -> Seq<char>
    decreases n,
{
    if n < 10 {
        seq![digit_char(n)]
    } else {
        digits_of(n / 10).push(digit_char(n % 10))
    }
}

/// `n` spaces.
pub open spec fn spaces(n: nat) -> Seq<char> {
    Seq::new(n, |i: int| ' ')
}

/// `n` in decimal, right-aligned in a field of `w` characters.
pub open spec fn right_aligned(n: nat, w: nat) -> Seq<char> {
    spaces((w - digits_of(n).len()) as nat) + digits_of(n)
}

/// The width of the line numbers of `s`: the number of decimal digits of its
/// line count.
pub open spec fn number_width(s: Seq<char>) -> nat {
    digits_of(pieces_of(s).len()).len()
}

/// The lines of `s`, each prefixed with its 1-based number right-aligned to
/// the common width and a single space.
pub open spec fn numbered_lines(s: Seq<char>) -> Seq<Seq<char>> {
    Seq::new(
        pieces_of(s).len(),
        |k: int| right_aligned((k + 1) as nat, number_width(s)) + seq![' '] + pieces_of(s)[k],
    )
}

/// `s` with numbered lines.
pub open spec fn numbered(s: Seq<char>) -> Seq<char> {
    join_lines(numbered_lines(s))
}

proof fn lemma_segments_nonempty(s: Seq<char>)
    ensures
        segments(s).len() >= 1,
    decreases s.len(),
{
    if s.len() > 0 {
        lemma_segments_nonempty(s.drop_last());
    }
}

proof fn lemma_digits_len_mono(a: nat, b: nat)
    requires
        a <= b,
    ensures
        1 <= digits_of(a).len() <= digits_of(b).len(),
    decreases b,
{
    if b >= 10 {
        if a >= 10 {
            vstd::arithmetic::div_mod::lemma_div_is_ordered(a as int, b as int, 10);
            lemma_digits_len_mono(a / 10, b / 10);
        } else {
            lemma_digits_len_mono(0, b / 10);
        }
    }
}

/// `c` does not occur in `s`.
pub open spec fn free_of(s: Seq<char>, c: char) -> bool {
    forall|i: int| 0 <= i < s.len() ==> s[i] != c
}

proof fn lemma_segments_append(a: Seq<char>, b: Seq<char>)
    requires
        free_of(b, '\n'),
    ensures
        segments(a + b) == segments(a).update(
            segments(a).len() - 1,
            segments(a).last() + b,
        ),
    decreases b.len(),
{
    lemma_segments_nonempty(a);
    let sa = segments(a);
    if b.len() == 0 {
        assert(a + b =~= a);
        assert(sa.last() + b =~= sa.last());
        assert(sa.update(sa.len() - 1, sa.last() + b) =~= sa);
    } else {
        let b0 = b.drop_last();
        assert((a + b).drop_last() =~= a + b0);
        lemma_segments_append(a, b0);
        assert(b[b.len() - 1] != '\n');
        let r = segments(a + b0);
        assert(r.last() =~= sa.last() + b0);
        assert((sa.last() + b0).push(b.last()) =~= sa.last() + b);
        assert(r.update(r.len() - 1, r.last().push(b.last())) =~= sa.update(
            sa.len() - 1,
            sa.last() + b,
        ));
    }
}

proof fn lemma_join_segments(s: Seq<char>)
    ensures
        join_lines(segments(s)) == s,
    decreases s.len(),
{
    if s.len() > 0 {
        let t = s.drop_last();
        lemma_join_segments(t);
        lemma_segments_nonempty(t);
        let st = segments(t);
        if s.last() == '\n' {
            assert(st.push(Seq::<char>::empty()).drop_last() =~= st);
            assert(s =~= t + seq!['\n'] + Seq::<char>::empty());
        } else {
            let u = st.update(st.len() - 1, st.last().push(s.last()));
            if st.len() == 1 {
                assert(s =~= t.push(s.last()));
            } else {
                assert(u.drop_last() =~= st.drop_last());
                assert(t == join_lines(st.drop_last()) + seq!['\n'] + st.last());
                assert(s =~= t.push(s.last()));
                assert(s =~= join_lines(st.drop_last()) + seq!['\n'] + st.last().push(s.last()));
            }
        }
    }
}

proof fn lemma_segments_of_joined(xs: Seq<Seq<char>>)
    requires
        xs.len() >= 1,
        forall|k: int| 0 <= k < xs.len() ==> free_of(#[trigger] xs[k], '\n'),
    ensures
        segments(join_lines(xs)) == xs,
    decreases xs.len(),
{
    if xs.len() == 1 {
        let e = Seq::<char>::empty();
        lemma_segments_append(e, xs[0]);
        assert(e + xs[0] =~= xs[0]);
        assert(segments(e).update(0, segments(e).last() + xs[0]) =~= xs);
    } else {
        let ys = xs.drop_last();
        assert forall|k: int| 0 <= k < ys.len() implies free_of(#[trigger] ys[k], '\n') by {
            assert(ys[k] == xs[k]);
        }
        lemma_segments_of_joined(ys);
        let j = join_lines(ys) + seq!['\n'];
        assert(j.drop_last() =~= join_lines(ys));
        assert(xs[xs.len() - 1] == xs.last());
        lemma_segments_append(j, xs.last());
        let sj = segments(j);
        assert(sj == ys.push(Seq::<char>::empty()));
        assert(sj.last() + xs.last() =~= xs.last());
        assert(sj.update(sj.len() - 1, sj.last() + xs.last()) =~= xs);
    }
}

proof fn lemma_segments_free_of(s: Seq<char>, c: char)
    requires
        free_of(s, c) || c == '\n',
    ensures
        forall|k: int| 0 <= k < segments(s).len() ==> free_of(#[trigger] segments(s)[k], c),
    decreases s.len(),
{
    if s.len() > 0 {
        let t = s.drop_last();
        assert(free_of(s, c) ==> free_of(t, c));
        lemma_segments_free_of(t, c);
        lemma_segments_nonempty(t);
        let st = segments(t);
        let ss = segments(s);
        assert(free_of(st[st.len() - 1], c));
        if s.last() == '\n' {
            assert forall|k: int| 0 <= k < ss.len() implies free_of(#[trigger] ss[k], c) by {
                if k < st.len() {
                    assert(ss[k] == st[k]);
                }
            }
        } else {
            assert(s.last() != c) by {
                if free_of(s, c) {
                    assert(s[s.len() - 1] != c);
                }
            }
            assert forall|k: int| 0 <= k < ss.len() implies free_of(#[trigger] ss[k], c) by {
                if k < st.len() - 1 {
                    assert(ss[k] == st[k]);
                } else {
                    let l = st.last();
                    assert(ss[k] == l.push(s.last()));
                    assert forall|i: int| 0 <= i < ss[k].len() implies ss[k][i] != c by {
                        if i < l.len() {
                            assert(ss[k][i] == l[i]);
                        }
                    }
                }
            }
        }
    }
}

/// Numbering the lines of a non-empty text can be undone: the numbered text
/// has as many lines, and removing the number, its padding and the one space
/// from each of them, then joining them with newlines, gives the text back.
pub proof fn lemma_line_numbers_reversible(s: Seq<char>)
    requires
        s.len() > 0,
    ensures
        pieces_of(numbered(s)) == numbered_lines(s),
        join_lines(
            Seq::new(
                pieces_of(numbered(s)).len(),
                |k: int|
                    pieces_of(numbered(s))[k].subrange(
                        number_width(s) + 1int,
                        pieces_of(numbered(s))[k].len() as int,
                    ),
            ),
        ) == s,
{
    let ls = pieces_of(s);
    let segs = segments(s);
    lemma_segments_nonempty(s);
    assert(ls == segs);
    lemma_join_segments(s);
    let w = number_width(s);
    let nl = numbered_lines(s);
    // Each numbered line: a prefix of exactly `w + 1` characters, then the line.
    assert forall|k: int| 0 <= k < nl.len() implies (#[trigger] nl[k]).subrange(
        w + 1int,
        nl[k].len() as int,
    ) == ls[k] && nl[k].len() > 0 by {
        lemma_digits_len_mono((k + 1) as nat, ls.len());
        let pre = right_aligned((k + 1) as nat, w) + seq![' '];
        assert(pre.len() == w + 1);
        assert(nl[k] == pre + ls[k]);
        assert(nl[k].subrange(w + 1int, nl[k].len() as int) =~= ls[k]);
    }
    // No numbered line holds a newline.
    lemma_segments_free_of(s, '\n');
    assert forall|k: int| 0 <= k < nl.len() implies free_of(#[trigger] nl[k], '\n') by {
        lemma_digits_len_mono((k + 1) as nat, ls.len());
        let d = digits_of((k + 1) as nat);
        lemma_digits_free((k + 1) as nat);
        let pre = right_aligned((k + 1) as nat, w) + seq![' '];
        assert(nl[k] == pre + ls[k]);
        assert(free_of(segs[k], '\n'));
        assert forall|i: int| 0 <= i < nl[k].len() implies nl[k][i] != '\n' by {
            if i < pre.len() {
                if i >= spaces((w - d.len()) as nat).len() && i < w {
                    assert(pre[i] == d[i - (w - d.len())]);
                }
            } else {
                assert(nl[k][i] == ls[k][i - pre.len()]);
            }
        }
    }
    let out = numbered(s);
    lemma_segments_of_joined(nl);
    lemma_join_last(nl);
    assert(out.len() > 0);
    assert(pieces_of(out) =~= nl);
    let back = Seq::new(
        pieces_of(out).len(),
        |k: int| pieces_of(out)[k].subrange(w + 1int, pieces_of(out)[k].len() as int),
    );
    assert(back =~= ls);
}

proof fn lemma_digits_free(n: nat)
    ensures
        free_of(digits_of(n), '\n'),
    decreases n,
{
    if n >= 10 {
        lemma_digits_free(n / 10);
    }
}

proof fn lemma_join_last(xs: Seq<Seq<char>>)
    requires
        xs.len() >= 1,
        xs.last().len() > 0,
    ensures
        join_lines(xs).len() > 0,
        join_lines(xs).last() == xs.last().last(),
{
}

/// The decimal digit for `d`.
fn digit(d: usize) -> (c: char)
    requires
        d < 10,
    ensures
        c == digit_char(d as nat),
{
    if d == 0 { '0' } else if d == 1 { '1' } else if d == 2 { '2' } else if d == 3 { '3' }
    else if d == 4 { '4' } else if d == 5 { '5' } else if d == 6 { '6' } else if d == 7 { '7' }
    else if d == 8 { '8' } else { '9' }
}

/// The decimal notation of `n`.
pub fn decimal(n: usize) -> (r: Vec<char>)
    ensures
        r@ == digits_of(n as nat),
    decreases n,
{
    if n < 10 {
        let mut r: Vec<char> = Vec::new();
        r.push(digit(n));
        assert(r@ =~= digits_of(n as nat));
        r
    } else {
        let mut r = decimal(n / 10);
        r.push(digit(n % 10));
        r
    }
}

/// The lines of `s`.
pub fn split_lines(s: &Vec<char>) -> (r: Vec<Vec<char>>)
    ensures
        r@.len() == lines_of(s@).len(),
        forall|k: int| 0 <= k < r@.len() ==> #[trigger] r@[k]@ == lines_of(s@)[k],
{
    let n = s.len();
    let mut done: Vec<Vec<char>> = Vec::new();
    let mut cur: Vec<char> = Vec::new();
    let mut i: usize = 0;
    assert(s@.subrange(0, 0) =~= Seq::<char>::empty());
    while i < n
        invariant
            i <= n,
            n == s@.len(),
            segments(s@.subrange(0, i as int)).len() == done@.len() + 1,
            forall|k: int| 0 <= k < done@.len() ==>
                #[trigger] done@[k]@ == strip_cr(segments(s@.subrange(0, i as int))[k]),
            cur@ == segments(s@.subrange(0, i as int)).last(),
        decreases n - i,
    {
        let ghost before = s@.subrange(0, i as int);
        let ghost after = s@.subrange(0, i + 1);
        assert(after.drop_last() =~= before);
        proof {
            lemma_segments_nonempty(before);
        }
        let c = s[i];
        if c == '\n' {
            let l = cur.len();
            let line = if l > 0 && cur[l - 1] == '\r' {
                crate::paths::slice_of(&cur, 0, l - 1)
            } else {
                crate::paths::slice_of(&cur, 0, l)
            };
            assert(cur@.subrange(0, l as int) =~= cur@);
            assert(cur@.drop_last() =~= cur@.subrange(0, l - 1));
            done.push(line);
            cur = Vec::new();
            assert(segments(after) == segments(before).push(Seq::<char>::empty()));
        } else {
            cur.push(c);
        }
        i = i + 1;
    }
    assert(s@.subrange(0, n as int) =~= s@);
    proof {
        lemma_segments_nonempty(s@);
    }
    if n > 0 && s[n - 1] != '\n' {
        done.push(cur);
    }
    assert(done@.len() == lines_of(s@).len());
    done
}

/// The lines of `s` as they are numbered.
pub fn split_pieces(s: &Vec<char>) -> (r: Vec<Vec<char>>)
    ensures
        r@.len() == pieces_of(s@).len(),
        forall|k: int| 0 <= k < r@.len() ==> #[trigger] r@[k]@ == pieces_of(s@)[k],
{
    let n = s.len();
    let mut done: Vec<Vec<char>> = Vec::new();
    if n == 0 {
        return done;
    }
    let mut cur: Vec<char> = Vec::new();
    let mut i: usize = 0;
    assert(s@.subrange(0, 0) =~= Seq::<char>::empty());
    while i < n
        invariant
            i <= n,
            n == s@.len(),
            segments(s@.subrange(0, i as int)).len() == done@.len() + 1,
            forall|k: int| 0 <= k < done@.len() ==>
                #[trigger] done@[k]@ == segments(s@.subrange(0, i as int))[k],
            cur@ == segments(s@.subrange(0, i as int)).last(),
        decreases n - i,
    {
        let ghost before = s@.subrange(0, i as int);
        let ghost after = s@.subrange(0, i + 1);
        assert(after.drop_last() =~= before);
        proof {
            lemma_segments_nonempty(before);
        }
        let c = s[i];
        if c == '\n' {
            let line = crate::paths::slice_of(&cur, 0, cur.len());
            assert(cur@.subrange(0, cur@.len() as int) =~= cur@);
            done.push(line);
            cur = Vec::new();
            assert(segments(after) == segments(before).push(Seq::<char>::empty()));
        } else {
            cur.push(c);
        }
        i = i + 1;
    }
    assert(s@.subrange(0, n as int) =~= s@);
    done.push(cur);
    assert(done@.len() == pieces_of(s@).len());
    done
}

/// `s` with each line prefixed by its 1-based number, right-aligned to the
/// width of the line count, and a space; the lines joined by newlines.
pub fn add_line_nbs(s: &str) -> (r: String)
    ensures
        r@ == numbered(s@),
{
    let chars = chars_of(s);
    let lines = split_pieces(&chars);
    let count = lines.len();
    let w = decimal(count).len();
    let ghost nl = numbered_lines(s@);
    let mut out: Vec<char> = Vec::new();
    let mut k: usize = 0;
    while k < count
        invariant
            k <= count,
            count == lines@.len(),
            count == pieces_of(s@).len(),
            nl == numbered_lines(s@),
            w == number_width(s@),
            forall|j: int| 0 <= j < lines@.len() ==> #[trigger] lines@[j]@ == pieces_of(s@)[j],
            out@ == join_lines(nl.subrange(0, k as int)),
        decreases count - k,
    {
        let ghost prev = out@;
        if k > 0 {
            out.push('\n');
        }
        let digits = decimal(k + 1);
        proof {
            lemma_digits_len_mono((k + 1) as nat, count as nat);
        }
        let pad = w - digits.len();
        let mut line: Vec<char> = Vec::new();
        let mut i: usize = 0;
        while i < pad
            invariant
                i <= pad,
                line@ == spaces(i as nat),
            decreases pad - i,
        {
            line.push(' ');
            i = i + 1;
            assert(line@ =~= spaces(i as nat));
        }
        push_chars(&mut line, &digits);
        line.push(' ');
        push_chars(&mut line, &lines[k]);
        assert(line@ =~= nl[k as int]);
        push_chars(&mut out, &line);
        assert(nl.subrange(0, k + 1).drop_last() =~= nl.subrange(0, k as int));
        if k == 0 {
            assert(out@ =~= join_lines(nl.subrange(0, 1)));
        }
        k = k + 1;
    }
    assert(nl.subrange(0, count as int) =~= nl);
    string_of(&out)
}

} // verus!
