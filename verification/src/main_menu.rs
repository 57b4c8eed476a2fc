//! The main menu's help bar: which hints it shows, and how tall it is at a
//! given terminal width.

use vstd::prelude::*;
use crate::chars::{chars_of, is_whitespace, is_ws};
use crate::text::{
    fill, gaps_and_words, lemma_fill_at_least, lemma_fill_upper, lemma_runs_at_end,
    lemma_word_run_bound, lemma_ws_run_bound, lemma_ws_run_step, word_count, word_run, ws_run,
};

verus! {

/// The words of a text with one column in front of each, whatever the
/// whitespace between them was.
pub open spec fn single_spaced(toks: Seq<(nat, nat)>) -> Seq<(nat, nat)> {
    toks.map_values(|t: (nat, nat)| (1nat, t.1))
}

/// Lines the help bar's text takes at `width` columns: greedy wrapping with
/// one column between words. A word wider than a line still takes one line.
pub open spec fn hint_lines(s: Seq<char>, width: nat) -> nat {
    if width == 0 {
        1
    } else {
        fill(single_spaced(gaps_and_words(s)), width, 1, 0)
    }
}

/// The help bar's text never takes fewer than one line.
pub proof fn law_hints_take_at_least_one_line(s: Seq<char>, width: nat)
    ensures
        hint_lines(s, width) >= 1,
{
    if width > 0 {
        lemma_fill_at_least(single_spaced(gaps_and_words(s)), width, 1, 0);
    }
}

/// The help bar never takes more lines than its text has words (and always
/// at least one).
pub proof fn law_hints_take_at_most_one_line_per_word(s: Seq<char>, width: nat)
    ensures
        1 <= hint_lines(s, width),
        hint_lines(s, width) <= if word_count(s) > 1 { word_count(s) } else { 1 },
{
    law_hints_take_at_least_one_line(s, width);
    if width > 0 {
        lemma_fill_upper(single_spaced(gaps_and_words(s)), width, 1, 0);
    }
}

/// A single word is never split: it takes one line at any width.
pub proof fn law_single_hint_word_takes_one_line(s: Seq<char>, width: nat)
    requires
        forall|i: int| 0 <= i < s.len() ==> !is_ws(#[trigger] s[i]),
    ensures
        hint_lines(s, width) == 1,
{
    if width > 0 {
        let toks = gaps_and_words(s);
        let e = Seq::<char>::empty();
        assert(e.skip(0) =~= e);
        assert(gaps_and_words(e) =~= Seq::<(nat, nat)>::empty());
        if s.len() > 0 {
            crate::text::lemma_word_run_no_ws(s);
            assert(ws_run(s) == 0);
            assert(s.skip(0) =~= s);
            assert(s.skip(s.len() as int) =~= e);
            assert(toks =~= seq![(0nat, s.len())]);
            assert(single_spaced(toks) =~= seq![(1nat, s.len())]);
            assert(single_spaced(toks).drop_first() =~= Seq::<(nat, nat)>::empty());
            assert(fill(single_spaced(toks).drop_first(), width, 1, s.len()) == 1);
        } else {
            assert(s =~= e);
            assert(single_spaced(toks) =~= Seq::<(nat, nat)>::empty());
        }
    }
}

/// Approximate the number of lines word-wrapping the help bar's `text`
/// needs at `width` columns: words are counted one column apart, which is
/// close enough to the renderer's trimming wrap for space-separated hints.
pub fn wrapped_line_count(text: &str, width: u16) -> (lines: u16)
    requires
        hint_lines(text@, width as nat) <= u16::MAX,
    ensures
        lines == hint_lines(text@, width as nat),
        lines >= 1,
{
    if width == 0 {
        return 1;
    }
    let width_u: usize = width as usize;
    let v = chars_of(text);
    let n = v.len();
    let ghost s = v@;
    let mut lines: u16 = 1;
    let mut current_len: usize = 0;
    let mut i: usize = 0;
    proof {
        assert(s.skip(0) =~= s);
    }
    loop
        invariant
            s == v@,
            s == text@,
            n == s.len(),
            width_u == width,
            width > 0,
            i <= n,
            current_len <= i,
            current_len > 0 && i < n ==> is_ws(s[i as int]),
            lines >= 1,
            fill(single_spaced(gaps_and_words(s.skip(i as int))), width as nat, lines as nat, current_len as nat)
                == hint_lines(text@, width as nat),
            hint_lines(text@, width as nat) <= u16::MAX,
        ensures
            lines == hint_lines(text@, width as nat),
        decreases n - i,
    {
        let start = i;
        let mut j: usize = i;
        while j < n && is_whitespace(v[j])
            invariant
                s == v@,
                n == s.len(),
                start <= j <= n,
                ws_run(s.skip(start as int)) == (j - start) + ws_run(s.skip(j as int)),
            decreases n - j,
        {
            proof {
                lemma_ws_run_step(s, j as int);
            }
            j += 1;
        }
        proof {
            if j < n {
                lemma_ws_run_step(s, j as int);
            } else {
                lemma_runs_at_end(s);
            }
            assert(s.skip(start as int).skip(ws_run(s.skip(start as int)) as int) =~= s.skip(
                j as int,
            ));
        }
        let mut k: usize = j;
        while k < n && !is_whitespace(v[k])
            invariant
                s == v@,
                n == s.len(),
                j <= k <= n,
                word_run(s.skip(j as int)) == (k - j) + word_run(s.skip(k as int)),
            decreases n - k,
        {
            proof {
                lemma_ws_run_step(s, k as int);
            }
            k += 1;
        }
        proof {
            if k < n {
                lemma_ws_run_step(s, k as int);
            } else {
                lemma_runs_at_end(s);
            }
            assert(s.skip(j as int).skip(word_run(s.skip(j as int)) as int) =~= s.skip(k as int));
        }
        let word_len = k - j;
        if word_len == 0 {
            assert(single_spaced(gaps_and_words(s.skip(start as int))) =~= seq![]);
            break;
        }
        let ghost toks = gaps_and_words(s.skip(start as int));
        assert(toks[0] == ((j - start) as nat, word_len as nat));
        assert(toks.drop_first() =~= gaps_and_words(s.skip(k as int)));
        assert(single_spaced(toks)[0] == (1nat, word_len as nat));
        assert(single_spaced(toks).drop_first() =~= single_spaced(toks.drop_first()));
        let needed = if current_len == 0 {
            word_len
        } else {
            current_len + 1 + word_len
        };
        if needed > width_u && current_len > 0 {
            proof {
                lemma_fill_at_least(
                    single_spaced(toks.drop_first()),
                    width as nat,
                    lines as nat + 1,
                    word_len as nat,
                );
            }
            lines += 1;
            current_len = word_len;
        } else {
            current_len = needed;
        }
        i = k;
    }
    lines
}

/// How a help bar hint is shown.
#[derive(Debug, Clone, Copy, PartialEq, Eq, Structural)]
pub enum HintStyle {
    /// A key, such as `[Enter]`.
    Key,
    /// What a key does.
    Label,
    /// A VM is being stopped.
    Stopping,
    /// A status message.
    Status,
}

/// One piece of the help bar.
#[derive(Debug, Clone)]
pub struct Hint {
    pub text: String,
    pub style: HintStyle,
}

pub struct HintView {
    pub text: Seq<char>,
    pub style: HintStyle,
}

impl View for Hint {
    type V = HintView;

    open spec fn view(&self) -> HintView {
        HintView { text: self.text@, style: self.style }
    }
}

pub open spec fn hints_view(v: Seq<Hint>) -> Seq<HintView> {
    v.map_values(|h: Hint| h@)
}

pub open spec fn key_hint(t: Seq<char>) -> HintView {
    HintView { text: t, style: HintStyle::Key }
}

pub open spec fn label_hint(t: Seq<char>) -> HintView {
    HintView { text: t, style: HintStyle::Label }
}

/// The hints the main menu shows when nothing overrides them.
pub open spec fn default_hints() -> Seq<HintView> {
    seq![
        key_hint(" [Enter]"@), label_hint(" Launch "@),
        key_hint(" [x]"@), label_hint(" Stop "@),
        key_hint(" [m]"@), label_hint(" Manage "@),
        key_hint(" [c]"@), label_hint(" Create "@),
        key_hint(" [i]"@), label_hint(" Import "@),
        key_hint(" [s]"@), label_hint(" Settings "@),
        key_hint(" [n]"@), label_hint(" Networks "@),
        key_hint(" [g]"@), label_hint(" Groups "@),
        key_hint(" [/]"@), label_hint(" Search "@),
        key_hint(" [?]"@), label_hint(" Help "@),
        key_hint(" [q]"@), label_hint(" Quit "@),
    ]
}

/// The help bar's content: a status message overrides everything; else a
/// VM being stopped (with how many seconds ago the stop was sent) is shown,
/// offering a forced stop after ten seconds; else the key hints.
pub open spec fn help_hint_spec(status: Option<Seq<char>>, stopping: Option<(Seq<char>, u64)>) -> Seq<
    HintView,
> {
    match status {
        Some(m) => seq![HintView { text: m, style: HintStyle::Status }],
        None => match stopping {
            Some((name, elapsed)) => seq![
                HintView {
                    text: if elapsed >= 10 {
                        "Stopping "@ + name + "... (press x to force stop)"@
                    } else {
                        "Stopping "@ + name + "..."@
                    },
                    style: HintStyle::Stopping,
                },
            ],
            None => default_hints(),
        },
    }
}

fn push_hint(v: &mut Vec<Hint>, text: &str, style: HintStyle)
    ensures
        hints_view(final(v)@) == hints_view(old(v)@).push(HintView { text: text@, style }),
{
    let ghost before = hints_view(v@);
    v.push(Hint { text: text.to_owned(), style });
    assert(hints_view(v@) =~= before.push(HintView { text: text@, style }));
}

/// Build the help bar's hints (see [`help_hint_spec`]). `stopping` is a VM
/// being stopped, by display name, with the seconds since the stop was sent.
pub fn help_hints(status_message: Option<&str>, stopping: Option<(&str, u64)>) -> (v: Vec<Hint>)
    ensures
        hints_view(v@) == help_hint_spec(
            match status_message { Some(m) => Some(m@), None => None },
            match stopping { Some((n, e)) => Some((n@, e)), None => None },
        ),
{
    let mut v: Vec<Hint> = Vec::new();
    if let Some(m) = status_message {
        push_hint(&mut v, m, HintStyle::Status);
        assert(hints_view(v@) =~= seq![HintView { text: m@, style: HintStyle::Status }]);
        return v;
    }
    if let Some((name, elapsed)) = stopping {
        let mut t = "Stopping ".to_owned();
        t.append(name);
        if elapsed >= 10 {
            t.append("... (press x to force stop)");
        } else {
            t.append("...");
        }
        push_hint(&mut v, t.as_str(), HintStyle::Stopping);
        assert(hints_view(v@) =~= seq![HintView { text: t@, style: HintStyle::Stopping }]);
        return v;
    }
    let k = HintStyle::Key;
    let l = HintStyle::Label;
    push_hint(&mut v, " [Enter]", k);
    push_hint(&mut v, " Launch ", l);
    push_hint(&mut v, " [x]", k);
    push_hint(&mut v, " Stop ", l);
    push_hint(&mut v, " [m]", k);
    push_hint(&mut v, " Manage ", l);
    push_hint(&mut v, " [c]", k);
    push_hint(&mut v, " Create ", l);
    push_hint(&mut v, " [i]", k);
    push_hint(&mut v, " Import ", l);
    push_hint(&mut v, " [s]", k);
    push_hint(&mut v, " Settings ", l);
    push_hint(&mut v, " [n]", k);
    push_hint(&mut v, " Networks ", l);
    push_hint(&mut v, " [g]", k);
    push_hint(&mut v, " Groups ", l);
    push_hint(&mut v, " [/]", k);
    push_hint(&mut v, " Search ", l);
    push_hint(&mut v, " [?]", k);
    push_hint(&mut v, " Help ", l);
    push_hint(&mut v, " [q]", k);
    push_hint(&mut v, " Quit ", l);
    assert(hints_view(v@) =~= default_hints());
    v
}

/// All the hints' text, in order.
pub open spec fn hints_text(h: Seq<HintView>) -> Seq<char>
    decreases h.len(),
{
    if h.len() == 0 {
        Seq::empty()
    } else {
        hints_text(h.drop_last()) + h.last().text
    }
}

/// The hints' text joined into one string.
pub fn join_hints(hints: &[Hint]) -> (t: String)
    ensures
        t@ == hints_text(hints_view(hints@)),
{
    let mut t = String::new();
    let mut i: usize = 0;
    while i < hints.len()
        invariant
            i <= hints@.len(),
            t@ == hints_text(hints_view(hints@).take(i as int)),
        decreases hints@.len() - i,
    {
        let ghost hv = hints_view(hints@);
        assert(hv.take(i + 1).drop_last() =~= hv.take(i as int));
        t.append(hints[i].text.as_str());
        i += 1;
    }
    assert(hints_view(hints@).take(hints@.len() as int) =~= hints_view(hints@));
    t
}

/// Height of the help bar, borders included, at a terminal `width`: its
/// hints wrapped inside the two border columns, plus the two border rows.
pub fn help_bar_height(hints: &[Hint], width: u16) -> (h: u16)
    requires
        hint_lines(hints_text(hints_view(hints@)), if width >= 2 { (width - 2) as nat } else { 0 })
            + 2 <= u16::MAX,
    ensures
        h == hint_lines(hints_text(hints_view(hints@)), if width >= 2 { (width - 2) as nat } else { 0 })
            + 2,
{
    let text = join_hints(hints);
    wrapped_line_count(text.as_str(), width.saturating_sub(2)) + 2
}

} // verus!
