//! Small text-layout helpers shared across screens.

use vstd::prelude::*;
use crate::chars::{chars_of, is_whitespace, is_ws, lemma_trim_window, trim_ws};

verus! {

/// Length of the whitespace run that `s` starts with.
pub open spec fn ws_run(s: Seq<char>) -> nat
    decreases s.len(),
{
    if s.len() > 0 && is_ws(s[0]) {
        1 + ws_run(s.drop_first())
    } else {
        0
    }
}

/// Length of the word (non-whitespace run) that `s` starts with.
pub open spec fn word_run(s: Seq<char>) -> nat
    decreases s.len(),
{
    if s.len() > 0 && !is_ws(s[0]) {
        1 + word_run(s.drop_first())
    } else {
        0
    }
}

pub proof fn lemma_ws_run_bound(s: Seq<char>)
    ensures
        ws_run(s) <= s.len(),
    decreases s.len(),
{
    if s.len() > 0 && is_ws(s[0]) {
        lemma_ws_run_bound(s.drop_first());
    }
}

pub proof fn lemma_word_run_bound(s: Seq<char>)
    ensures
        word_run(s) <= s.len(),
    decreases s.len(),
{
    if s.len() > 0 && !is_ws(s[0]) {
        lemma_word_run_bound(s.drop_first());
    }
}

/// The words of `s` in order, each paired with the length of the whitespace
/// run in front of it: `(gap, word_len)`.
pub open spec fn gaps_and_words(s: Seq<char>) -> Seq<(nat, nat)>
    decreases s.len(),
{
    let g = ws_run(s);
    let rest = s.skip(g as int);
    let w = word_run(rest);
    if w == 0 {
        seq![]
    } else {
        proof {
            lemma_ws_run_bound(s);
            lemma_word_run_bound(rest);
        }
        seq![(g, w)] + gaps_and_words(rest.skip(w as int))
    }
}

/// Greedy filling of `width` columns with the given words, starting on line
/// `lines` with `cur` columns already used. A word that does not fit on a
/// non-empty line starts a new one; the gap in front of a word that starts a
/// line does not count. Returns the final line count.
pub open spec fn fill(tokens: Seq<(nat, nat)>, width: nat, lines: nat, cur: nat) -> nat
    decreases tokens.len(),
{
    if tokens.len() == 0 {
        lines
    } else {
        let g = tokens[0].0;
        let w = tokens[0].1;
        let needed = if cur == 0 { w } else { cur + g + w };
        if needed > width && cur > 0 {
            fill(tokens.drop_first(), width, lines + 1, w)
        } else {
            fill(tokens.drop_first(), width, lines, needed)
        }
    }
}

/// Number of lines that word-wrapping `s` at `width` columns takes.
pub open spec fn wrapped_lines(s: Seq<char>, width: nat) -> nat {
    if width == 0 {
        1
    } else {
        fill(gaps_and_words(s), width, 1, 0)
    }
}

pub proof fn lemma_fill_at_least(tokens: Seq<(nat, nat)>, width: nat, lines: nat, cur: nat)
    ensures
        fill(tokens, width, lines, cur) >= lines,
    decreases tokens.len(),
{
    if tokens.len() > 0 {
        let g = tokens[0].0;
        let w = tokens[0].1;
        let needed = if cur == 0 { w } else { cur + g + w };
        if needed > width && cur > 0 {
            lemma_fill_at_least(tokens.drop_first(), width, lines + 1, w);
        } else {
            lemma_fill_at_least(tokens.drop_first(), width, lines, needed);
        }
    }
}

pub proof fn lemma_ws_run_step(v: Seq<char>, j: int)
    requires
        0 <= j < v.len(),
    ensures
        ws_run(v.skip(j)) == if is_ws(v[j]) { 1 + ws_run(v.skip(j + 1)) } else { 0 },
        word_run(v.skip(j)) == if !is_ws(v[j]) { 1 + word_run(v.skip(j + 1)) } else { 0 },
{
    assert(v.skip(j).drop_first() =~= v.skip(j + 1));
}

pub proof fn lemma_runs_at_end(v: Seq<char>)
    ensures
        ws_run(v.skip(v.len() as int)) == 0,
        word_run(v.skip(v.len() as int)) == 0,
{
}

proof fn lemma_fill_fits(s: Seq<char>, width: nat, lines: nat, cur: nat)
    requires
        cur + s.len() <= width,
    ensures
        fill(gaps_and_words(s), width, lines, cur) == lines,
    decreases s.len(),
{
    let g = ws_run(s);
    let rest = s.skip(g as int);
    let w = word_run(rest);
    lemma_ws_run_bound(s);
    lemma_word_run_bound(rest);
    if w > 0 {
        let toks = gaps_and_words(s);
        let next = rest.skip(w as int);
        assert(toks.drop_first() =~= gaps_and_words(next));
        let needed = if cur == 0 { w } else { cur + g + w };
        lemma_fill_fits(next, width, lines, needed);
    }
}

pub proof fn lemma_word_run_no_ws(s: Seq<char>)
    requires
        forall|i: int| 0 <= i < s.len() ==> !is_ws(#[trigger] s[i]),
    ensures
        word_run(s) == s.len(),
    decreases s.len(),
{
    if s.len() > 0 {
        let t = s.drop_first();
        assert forall|i: int| 0 <= i < t.len() implies !is_ws(#[trigger] t[i]) by {
            assert(t[i] == s[i + 1]);
        }
        lemma_word_run_no_ws(t);
    }
}

/// Text that fits in `width` columns takes a single line.
pub proof fn law_short_text_fits_one_line(s: Seq<char>, width: nat)
    requires
        s.len() <= width,
    ensures
        wrapped_lines(s, width) == 1,
{
    if width > 0 {
        lemma_fill_fits(s, width, 1, 0);
    }
}

/// A single word (text without whitespace) is never split, whatever the
/// width: it always takes exactly one line.
pub proof fn law_single_word_is_never_split(s: Seq<char>, width: nat)
    requires
        forall|i: int| 0 <= i < s.len() ==> !is_ws(#[trigger] s[i]),
    ensures
        wrapped_lines(s, width) == 1,
{
    if width > 0 {
        let e = Seq::<char>::empty();
        assert(e.skip(0) =~= e);
        assert(gaps_and_words(e) =~= Seq::<(nat, nat)>::empty());
        if s.len() > 0 {
            lemma_word_run_no_ws(s);
            assert(ws_run(s) == 0);
            assert(s.skip(0) =~= s);
            assert(s.skip(s.len() as int) =~= e);
            let toks = gaps_and_words(s);
            assert(toks =~= seq![(0nat, s.len())]);
            assert(toks.drop_first() =~= Seq::<(nat, nat)>::empty());
            assert(fill(toks.drop_first(), width, 1, s.len()) == 1);
        } else {
            assert(s =~= e);
        }
    }
}

/// Wrapping never reports fewer than one line.
pub proof fn law_at_least_one_line(s: Seq<char>, width: nat)
    ensures
        wrapped_lines(s, width) >= 1,
{
    if width > 0 {
        lemma_fill_at_least(gaps_and_words(s), width, 1, 0);
    }
}

// ---------------------------------------------------------------------------
// Bounds and monotonicity
// ---------------------------------------------------------------------------

/// Number of words of `s`.
pub open spec fn word_count(s: Seq<char>) -> nat {
    gaps_and_words(s).len()
}

/// Columns the words take with their gaps, leading gap included.
pub open spec fn consumed(t: Seq<(nat, nat)>) -> nat
    decreases t.len(),
{
    if t.len() == 0 {
        0
    } else {
        t[0].0 + t[0].1 + consumed(t.drop_first())
    }
}

proof fn lemma_ws_run_props(s: Seq<char>)
    ensures
        ws_run(s) <= s.len(),
        forall|i: int| 0 <= i < ws_run(s) ==> is_ws(#[trigger] s[i]),
        ws_run(s) < s.len() ==> !is_ws(s[ws_run(s) as int]),
    decreases s.len(),
{
    if s.len() > 0 && is_ws(s[0]) {
        let t = s.drop_first();
        lemma_ws_run_props(t);
        assert forall|i: int| 0 <= i < ws_run(s) implies is_ws(#[trigger] s[i]) by {
            if i > 0 {
                assert(s[i] == t[i - 1]);
            }
        }
        if ws_run(s) < s.len() {
            assert(s[ws_run(s) as int] == t[ws_run(t) as int]);
        }
    }
}

proof fn lemma_word_run_props(s: Seq<char>)
    ensures
        word_run(s) <= s.len(),
        forall|i: int| 0 <= i < word_run(s) ==> !is_ws(#[trigger] s[i]),
        word_run(s) < s.len() ==> is_ws(s[word_run(s) as int]),
    decreases s.len(),
{
    if s.len() > 0 && !is_ws(s[0]) {
        let t = s.drop_first();
        lemma_word_run_props(t);
        assert forall|i: int| 0 <= i < word_run(s) implies !is_ws(#[trigger] s[i]) by {
            if i > 0 {
                assert(s[i] == t[i - 1]);
            }
        }
        if word_run(s) < s.len() {
            assert(s[word_run(s) as int] == t[word_run(t) as int]);
        }
    }
}

/// Where the words of `s` lie: every word is non-empty; all characters
/// after the last word are whitespace; the first word starts after the
/// leading whitespace run and the last one ends on a non-whitespace.
proof fn lemma_words_layout(s: Seq<char>)
    ensures
        ({
            let t = gaps_and_words(s);
            &&& consumed(t) <= s.len()
            &&& forall|k: int| 0 <= k < t.len() ==> (#[trigger] t[k]).1 > 0
            &&& forall|i: int| consumed(t) <= i < s.len() ==> is_ws(#[trigger] s[i])
            &&& t.len() > 0 ==> {
                &&& t[0].0 == ws_run(s)
                &&& t[0].0 < s.len()
                &&& !is_ws(s[t[0].0 as int])
                &&& forall|i: int| 0 <= i < t[0].0 ==> is_ws(#[trigger] s[i])
                &&& !is_ws(s[consumed(t) - 1])
            }
        }),
    decreases s.len(),
{
    let g = ws_run(s);
    lemma_ws_run_props(s);
    let rest = s.skip(g as int);
    let w = word_run(rest);
    lemma_word_run_props(rest);
    let t = gaps_and_words(s);
    if w == 0 {
        assert(t.len() == 0);
        if g < s.len() {
            assert(rest[0] == s[g as int]);
        }
        assert forall|i: int| 0 <= i < s.len() implies is_ws(#[trigger] s[i]) by {}
    } else {
        let next = rest.skip(w as int);
        lemma_words_layout(next);
        let t2 = gaps_and_words(next);
        assert(t == seq![(g, w)] + t2);
        assert(t.drop_first() =~= t2);
        assert(t[0] == (g, w));
        assert(rest[0] == s[g as int]);
        assert forall|k: int| 0 <= k < t.len() implies (#[trigger] t[k]).1 > 0 by {
            if k > 0 {
                assert(t[k] == t2[k - 1]);
            }
        }
        assert forall|i: int| consumed(t) <= i < s.len() implies is_ws(#[trigger] s[i]) by {
            assert(s[i] == next[i - g - w]);
        }
        if t2.len() > 0 {
            assert(s[consumed(t) - 1] == next[consumed(t2) - 1]);
        } else {
            assert(s[consumed(t) - 1] == rest[w - 1]);
        }
    }
}

/// The width the words take on one line: from the first word's start to the
/// last word's end.
pub open spec fn span(t: Seq<(nat, nat)>) -> int {
    if t.len() == 0 {
        0
    } else {
        consumed(t) - t[0].0
    }
}

proof fn lemma_span_is_trimmed_length(s: Seq<char>)
    ensures
        span(gaps_and_words(s)) == trim_ws(s).len(),
{
    lemma_words_layout(s);
    let t = gaps_and_words(s);
    if t.len() == 0 {
        lemma_trim_window(s, 0, 0);
    } else {
        lemma_trim_window(s, t[0].0 as int, consumed(t) as int);
    }
}

pub proof fn lemma_fill_upper(t: Seq<(nat, nat)>, width: nat, lines: nat, cur: nat)
    ensures
        fill(t, width, lines, cur) <= lines + t.len(),
        cur == 0 && t.len() > 0 ==> fill(t, width, lines, cur) <= lines + t.len() - 1,
    decreases t.len(),
{
    if t.len() > 0 {
        let g = t[0].0;
        let w = t[0].1;
        let needed = if cur == 0 { w } else { cur + g + w };
        if needed > width && cur > 0 {
            lemma_fill_upper(t.drop_first(), width, lines + 1, w);
        } else {
            lemma_fill_upper(t.drop_first(), width, lines, needed);
        }
    }
}

/// What the words need on the current line when none of them wraps.
pub open spec fn one_line_width(t: Seq<(nat, nat)>, cur: nat) -> int {
    if cur == 0 {
        span(t)
    } else {
        (cur + consumed(t)) as int
    }
}

proof fn lemma_fill_stays(t: Seq<(nat, nat)>, width: nat, lines: nat, cur: nat)
    requires
        forall|k: int| 0 <= k < t.len() ==> (#[trigger] t[k]).1 > 0,
    ensures
        (fill(t, width, lines, cur) == lines) <==> (t.len() == 0 || (cur == 0 && t.len() == 1)
            || one_line_width(t, cur) <= width),
    decreases t.len(),
{
    if t.len() > 0 {
        let g = t[0].0;
        let w = t[0].1;
        let rest = t.drop_first();
        assert forall|k: int| 0 <= k < rest.len() implies (#[trigger] rest[k]).1 > 0 by {
            assert(rest[k] == t[k + 1]);
        }
        let needed = if cur == 0 { w } else { cur + g + w };
        if needed > width && cur > 0 {
            lemma_fill_at_least(rest, width, lines + 1, w);
        } else {
            lemma_fill_stays(rest, width, lines, needed);
            assert(t[0].1 > 0);
        }
    }
}

/// Wrapping never takes more lines than the text has words (and always at
/// least one).
pub proof fn law_at_most_one_line_per_word(s: Seq<char>, width: nat)
    ensures
        1 <= wrapped_lines(s, width),
        wrapped_lines(s, width) <= if word_count(s) > 1 { word_count(s) } else { 1 },
{
    law_at_least_one_line(s, width);
    if width > 0 {
        lemma_fill_upper(gaps_and_words(s), width, 1, 0);
    }
}

/// The text takes exactly one line when the width is zero, when it has at
/// most one word, or when its trimmed text fits the width; otherwise more.
pub proof fn law_one_line_exactly_when_it_fits(s: Seq<char>, width: nat)
    ensures
        (wrapped_lines(s, width) == 1) <==> (width == 0 || word_count(s) <= 1 || trim_ws(s).len() <= width),
{
    if width > 0 {
        let t = gaps_and_words(s);
        lemma_words_layout(s);
        lemma_span_is_trimmed_length(s);
        lemma_fill_stays(t, width, 1, 0);
    }
}

proof fn lemma_fill_monotone(
    t: Seq<(nat, nat)>,
    w1: nat,
    w2: nat,
    l1: nat,
    c1: nat,
    l2: nat,
    c2: nat,
)
    requires
        w1 <= w2,
        l2 < l1 || (l2 == l1 && c2 <= c1),
    ensures
        fill(t, w2, l2, c2) <= fill(t, w1, l1, c1),
    decreases t.len(),
{
    if t.len() == 0 {
    } else {
        let g = t[0].0;
        let w = t[0].1;
        let rest = t.drop_first();
        let n1 = if c1 == 0 { w } else { c1 + g + w };
        let n2 = if c2 == 0 { w } else { c2 + g + w };
        let b1 = n1 > w1 && c1 > 0;
        let b2 = n2 > w2 && c2 > 0;
        let (nl1, nc1) = if b1 { (l1 + 1, w) } else { (l1, n1) };
        let (nl2, nc2) = if b2 { (l2 + 1, w) } else { (l2, n2) };
        lemma_fill_monotone(rest, w1, w2, nl1, nc1, nl2, nc2);
    }
}

/// A wider column never needs more lines.
pub proof fn law_wider_never_needs_more_lines(s: Seq<char>, w1: nat, w2: nat)
    requires
        1 <= w1 <= w2,
    ensures
        wrapped_lines(s, w2) <= wrapped_lines(s, w1),
{
    lemma_fill_monotone(gaps_and_words(s), w1, w2, 1, 0, 1, 0);
}

/// Approximate the number of lines word-wrapping `text` needs at `width`
/// columns (the greedy wrapping a paragraph renderer does when it trims
/// the whitespace at each wrap point). The real length of whitespace runs
/// between words counts toward a line's width; the run in front of a word
/// that starts a line does not.
pub fn wrapped_line_count(text: &str, width: u16) -> (lines: u16)
    requires
        wrapped_lines(text@, width as nat) <= u16::MAX,
    ensures
        lines == wrapped_lines(text@, width as nat),
        lines >= 1,
{
    if width == 0 {
        return 1;
    }
    let width_u: usize = width as usize;
    let v = chars_of(text);
    let n = v.len();
    let ghost s = v@;
    let mut lines: u16 = 1;
    let mut current_len: usize = 0;
    let mut i: usize = 0;
    proof {
        assert(s.skip(0) =~= s);
    }
    loop
        invariant
            s == v@,
            s == text@,
            n == s.len(),
            width_u == width,
            width > 0,
            i <= n,
            current_len <= i,
            lines >= 1,
            fill(gaps_and_words(s.skip(i as int)), width as nat, lines as nat, current_len as nat)
                == wrapped_lines(text@, width as nat),
            wrapped_lines(text@, width as nat) <= u16::MAX,
        ensures
            lines == wrapped_lines(text@, width as nat),
        decreases n - i,
    {
        let start = i;
        let mut j: usize = i;
        while j < n && is_whitespace(v[j])
            invariant
                s == v@,
                n == s.len(),
                start <= j <= n,
                ws_run(s.skip(start as int)) == (j - start) + ws_run(s.skip(j as int)),
            decreases n - j,
        {
            proof {
                lemma_ws_run_step(s, j as int);
            }
            j += 1;
        }
        proof {
            if j < n {
                lemma_ws_run_step(s, j as int);
            } else {
                lemma_runs_at_end(s);
            }
            assert(s.skip(start as int).skip(ws_run(s.skip(start as int)) as int) =~= s.skip(
                j as int,
            ));
        }
        let space_len = j - start;
        let mut k: usize = j;
        while k < n && !is_whitespace(v[k])
            invariant
                s == v@,
                n == s.len(),
                j <= k <= n,
                word_run(s.skip(j as int)) == (k - j) + word_run(s.skip(k as int)),
            decreases n - k,
        {
            proof {
                lemma_ws_run_step(s, k as int);
            }
            k += 1;
        }
        proof {
            if k < n {
                lemma_ws_run_step(s, k as int);
            } else {
                lemma_runs_at_end(s);
            }
            assert(s.skip(j as int).skip(word_run(s.skip(j as int)) as int) =~= s.skip(k as int));
        }
        let word_len = k - j;
        if word_len == 0 {
            assert(gaps_and_words(s.skip(start as int)) =~= seq![]);
            break;
        }
        let ghost toks = gaps_and_words(s.skip(start as int));
        assert(toks[0] == (space_len as nat, word_len as nat));
        assert(toks.drop_first() =~= gaps_and_words(s.skip(k as int)));
        let needed = if current_len == 0 {
            word_len
        } else {
            current_len + space_len + word_len
        };
        if needed > width_u && current_len > 0 {
            proof {
                lemma_fill_at_least(toks.drop_first(), width as nat, lines as nat + 1, word_len as nat);
            }
            lines += 1;
            current_len = word_len;
        } else {
            current_len = needed;
        }
        i = k;
    }
    lines
}

/// Number of words in `text` (see [`word_count`]); a text never takes more
/// lines than it has words, so this bounds what [`wrapped_line_count`] returns.
pub fn count_words(text: &str) -> (count: usize)
    ensures
        count == word_count(text@),
{
    let v = chars_of(text);
    let n = v.len();
    let ghost s = v@;
    let mut count: usize = 0;
    let mut i: usize = 0;
    proof {
        assert(s.skip(0) =~= s);
    }
    loop
        invariant
            s == v@,
            s == text@,
            n == s.len(),
            i <= n,
            count <= i,
            count + word_count(s.skip(i as int)) == word_count(text@),
        ensures
            count == word_count(text@),
        decreases n - i,
    {
        let start = i;
        let mut j: usize = i;
        while j < n && is_whitespace(v[j])
            invariant
                s == v@,
                n == s.len(),
                start <= j <= n,
                ws_run(s.skip(start as int)) == (j - start) + ws_run(s.skip(j as int)),
            decreases n - j,
        {
            proof {
                lemma_ws_run_step(s, j as int);
            }
            j += 1;
        }
        proof {
            if j < n {
                lemma_ws_run_step(s, j as int);
            } else {
                lemma_runs_at_end(s);
            }
            assert(s.skip(start as int).skip(ws_run(s.skip(start as int)) as int) =~= s.skip(
                j as int,
            ));
        }
        let mut k: usize = j;
        while k < n && !is_whitespace(v[k])
            invariant
                s == v@,
                n == s.len(),
                j <= k <= n,
                word_run(s.skip(j as int)) == (k - j) + word_run(s.skip(k as int)),
            decreases n - k,
        {
            proof {
                lemma_ws_run_step(s, k as int);
            }
            k += 1;
        }
        proof {
            if k < n {
                lemma_ws_run_step(s, k as int);
            } else {
                lemma_runs_at_end(s);
            }
            assert(s.skip(j as int).skip(word_run(s.skip(j as int)) as int) =~= s.skip(k as int));
        }
        if k == j {
            assert(gaps_and_words(s.skip(start as int)) =~= seq![]);
            break;
        }
        let ghost toks = gaps_and_words(s.skip(start as int));
        assert(toks.drop_first() =~= gaps_and_words(s.skip(k as int)));
        count += 1;
        i = k;
    }
    count
}

} // verus!
