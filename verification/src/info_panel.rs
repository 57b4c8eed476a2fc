//! The lines of the main menu's info panel (ASCII art, VM name, OS
//! identity, configuration summary and notes) and of the detailed OS
//! information screen.

use vstd::prelude::*;
use crate::chars::{chars_of, push_char};
use crate::config_summary::{ConfigLine, ConfigSummary, LineView, config_lines, config_lines_spec, lines_view};
use crate::seqs::{equal_to, first_index, lemma_first_index, lemma_first_index_props};
use crate::wizard_types::names_view;

verus! {

// ---------------------------------------------------------------------------
// Splitting text into lines
// ---------------------------------------------------------------------------

/// A line with the `\r` of a `\r\n` ending removed.
pub open spec fn without_cr(l: Seq<char>) -> Seq<char> {
    if l.len() > 0 && l.last() == '\r' {
        l.drop_last()
    } else {
        l
    }
}

/// The lines of `s` as `str::lines` yields them: split at each `\n`, a
/// `\r` right before the `\n` dropped, and no empty line after a final `\n`.
pub open spec fn text_lines(s: Seq<char>) -> Seq<Seq<char>>
    decreases s.len(),
{
    if s.len() == 0 {
        Seq::empty()
    } else {
        let i = first_index(s, equal_to('\n'));
        if i < 0 {
            seq![s]
        } else {
            proof {
                lemma_first_index_props(s, equal_to('\n'));
            }
            seq![without_cr(s.take(i))] + text_lines(s.skip(i + 1))
        }
    }
}

proof fn lemma_line_break(s: Seq<char>, start: int, i: int)
    requires
        0 <= start <= i < s.len(),
        s[i] == '\n',
        forall|k: int| start <= k < i ==> s[k] != '\n',
    ensures
        text_lines(s.skip(start)) == seq![without_cr(s.subrange(start, i))] + text_lines(s.skip(i + 1)),
{
    let t = s.skip(start);
    assert forall|j: int| 0 <= j < i - start implies !equal_to('\n')(#[trigger] t[j]) by {
        assert(t[j] == s[start + j]);
    }
    assert(t[i - start] == s[i]);
    lemma_first_index(t, equal_to('\n'), i - start);
    assert(t.take(i - start) =~= s.subrange(start, i));
    assert(t.skip(i - start + 1) =~= s.skip(i + 1));
}

proof fn lemma_last_line(s: Seq<char>, start: int)
    requires
        0 <= start <= s.len(),
        forall|k: int| start <= k < s.len() ==> s[k] != '\n',
    ensures
        text_lines(s.skip(start)) == if start < s.len() { seq![s.skip(start)] } else { Seq::<Seq<char>>::empty() },
{
    let t = s.skip(start);
    assert forall|j: int| 0 <= j < t.len() implies !equal_to('\n')(#[trigger] t[j]) by {
        assert(t[j] == s[start + j]);
    }
    lemma_first_index(t, equal_to('\n'), t.len() as int);
}

/// Split `text` into lines (see [`text_lines`]).
pub fn split_lines(text: &str) -> (lines: Vec<String>)
    ensures
        names_view(lines@) == text_lines(text@),
{
    let v = chars_of(text);
    let ghost s = v@;
    let n = v.len();
    let mut lines: Vec<String> = Vec::new();
    let mut cur = String::new();
    let mut start: usize = 0;
    let mut i: usize = 0;
    assert(s.skip(0) =~= s);
    while i < n
        invariant
            s == v@,
            s == text@,
            n == s.len(),
            start <= i <= n,
            cur@ == s.subrange(start as int, i as int),
            forall|k: int| start <= k < i ==> s[k] != '\n',
            names_view(lines@) + text_lines(s.skip(start as int)) == text_lines(s),
        decreases n - i,
    {
        if v[i] == '\n' {
            proof {
                lemma_line_break(s, start as int, i as int);
            }
            let ghost before = names_view(lines@);
            let len = chars_of(cur.as_str()).len();
            let line = if len > 0 && chars_of(cur.as_str())[len - 1] == '\r' {
                let mut l = cur.clone();
                crate::chars::pop_char(&mut l);
                l
            } else {
                cur.clone()
            };
            lines.push(line);
            assert(names_view(lines@) =~= before.push(without_cr(s.subrange(start as int, i as int))));
            assert(names_view(lines@) + text_lines(s.skip(i + 1)) =~= before + (seq![
                without_cr(s.subrange(start as int, i as int)),
            ] + text_lines(s.skip(i + 1))));
            cur = String::new();
            start = i + 1;
            assert(s.subrange(start as int, start as int) =~= Seq::<char>::empty());
        } else {
            push_char(&mut cur, v[i]);
            assert(cur@ =~= s.subrange(start as int, i + 1));
        }
        i += 1;
    }
    proof {
        lemma_last_line(s, start as int);
    }
    if start < n {
        let ghost before = names_view(lines@);
        lines.push(cur);
        assert(s.subrange(start as int, n as int) =~= s.skip(start as int));
        assert(names_view(lines@) =~= before + seq![s.skip(start as int)]);
    } else {
        assert(names_view(lines@) =~= names_view(lines@) + Seq::<Seq<char>>::empty());
    }
    lines
}

/// `s` without the newlines it starts with.
pub open spec fn without_leading_newlines(s: Seq<char>) -> Seq<char>
    decreases s.len(),
{
    if s.len() > 0 && s[0] == '\n' {
        without_leading_newlines(s.drop_first())
    } else {
        s
    }
}

proof fn lemma_leading_step(s: Seq<char>, k: int)
    requires
        0 <= k < s.len(),
        s[k] == '\n',
    ensures
        without_leading_newlines(s.skip(k)) == without_leading_newlines(s.skip(k + 1)),
{
    assert(s.skip(k).drop_first() =~= s.skip(k + 1));
}

fn skip_leading_newlines(text: &str) -> (r: String)
    ensures
        r@ == without_leading_newlines(text@),
{
    let v = chars_of(text);
    let ghost s = v@;
    let mut k: usize = 0;
    assert(s.skip(0) =~= s);
    while k < v.len() && v[k] == '\n'
        invariant
            s == v@,
            s == text@,
            k <= s.len(),
            without_leading_newlines(s.skip(k as int)) == without_leading_newlines(s),
        decreases s.len() - k,
    {
        proof {
            lemma_leading_step(s, k as int);
        }
        k += 1;
    }
    let mut r = String::new();
    let mut j: usize = k;
    while j < v.len()
        invariant
            s == v@,
            k <= j <= s.len(),
            r@ == s.subrange(k as int, j as int),
        decreases s.len() - j,
    {
        push_char(&mut r, v[j]);
        assert(r@ =~= s.subrange(k as int, j + 1));
        j += 1;
    }
    assert(r@ =~= s.skip(k as int));
    r
}

// ---------------------------------------------------------------------------
// The info panel
// ---------------------------------------------------------------------------

/// One line of the info panel.
#[derive(Debug, Clone, PartialEq, Eq)]
pub enum PanelLine {
    /// A line of the ASCII art, spacing kept as it is.
    Art(String),
    /// An empty line.
    Blank,
    /// The VM's name.
    Name(String),
    /// The OS's name, publisher and release date.
    Identity(String, String, String),
    /// A line of the configuration summary.
    Config(ConfigLine),
    /// The heading of the notes.
    NotesHeading,
    /// A line of the notes.
    Note(String),
}

pub enum PanelView {
    Art(Seq<char>),
    Blank,
    Name(Seq<char>),
    Identity(Seq<char>, Seq<char>, Seq<char>),
    Config(LineView),
    NotesHeading,
    Note(Seq<char>),
}

impl View for PanelLine {
    type V = PanelView;

    open spec fn view(&self) -> PanelView {
        match self {
            PanelLine::Art(t) => PanelView::Art(t@),
            PanelLine::Blank => PanelView::Blank,
            PanelLine::Name(t) => PanelView::Name(t@),
            PanelLine::Identity(a, b, c) => PanelView::Identity(a@, b@, c@),
            PanelLine::Config(l) => PanelView::Config(l@),
            PanelLine::NotesHeading => PanelView::NotesHeading,
            PanelLine::Note(t) => PanelView::Note(t@),
        }
    }
}

pub open spec fn panel_view(v: Seq<PanelLine>) -> Seq<PanelView> {
    v.map_values(|l: PanelLine| l@)
}

/// The OS identity the panel shows when the OS is known.
pub struct OsIdentity {
    pub name: String,
    pub publisher: String,
    pub release_date: String,
}

/// The info panel: the art's lines (leading newlines dropped), a blank
/// line, the VM's name, the OS identity when known, a blank line, the
/// configuration summary when there is one, and the notes (after a blank
/// line and a heading) when there are any.
pub open spec fn panel_spec(
    art: Seq<char>,
    vm_name: Seq<char>,
    os: Option<(Seq<char>, Seq<char>, Seq<char>)>,
    config: Option<Seq<LineView>>,
    notes: Option<Seq<char>>,
) -> Seq<PanelView> {
    text_lines(without_leading_newlines(art)).map_values(|l: Seq<char>| PanelView::Art(l)) + seq![
        PanelView::Blank,
        PanelView::Name(vm_name),
    ] + (match os {
        Some((n, p, d)) => seq![PanelView::Identity(n, p, d)],
        None => Seq::empty(),
    }) + seq![PanelView::Blank] + (match config {
        Some(c) => c.map_values(|l: LineView| PanelView::Config(l)),
        None => Seq::empty(),
    }) + (match notes {
        Some(t) => seq![PanelView::Blank, PanelView::NotesHeading] + text_lines(t).map_values(
            |l: Seq<char>| PanelView::Note(l),
        ),
        None => Seq::empty(),
    })
}

fn push_panel(v: &mut Vec<PanelLine>, l: PanelLine)
    ensures
        panel_view(final(v)@) == panel_view(old(v)@).push(l@),
{
    let ghost before = panel_view(v@);
    let ghost lv = l@;
    v.push(l);
    assert(panel_view(v@) =~= before.push(lv));
}

fn push_texts(v: &mut Vec<PanelLine>, texts: Vec<String>, note: bool)
    ensures
        panel_view(final(v)@) == panel_view(old(v)@) + names_view(texts@).map_values(
            |l: Seq<char>| if note { PanelView::Note(l) } else { PanelView::Art(l) },
        ),
{
    let ghost start = panel_view(v@);
    let ghost tv = names_view(texts@).map_values(
        |l: Seq<char>| if note { PanelView::Note(l) } else { PanelView::Art(l) },
    );
    let mut i: usize = 0;
    while i < texts.len()
        invariant
            i <= texts@.len(),
            tv == names_view(texts@).map_values(
                |l: Seq<char>| if note { PanelView::Note(l) } else { PanelView::Art(l) },
            ),
            panel_view(v@) == start + tv.take(i as int),
        decreases texts@.len() - i,
    {
        let t = texts[i].clone();
        if note {
            push_panel(v, PanelLine::Note(t));
        } else {
            push_panel(v, PanelLine::Art(t));
        }
        assert(tv.take(i + 1) =~= tv.take(i as int).push(tv[i as int]));
        i += 1;
    }
    assert(tv.take(texts@.len() as int) =~= tv);
}

fn copy_line(l: &ConfigLine) -> (r: ConfigLine)
    ensures
        r@ == l@,
{
    match l {
        ConfigLine::Heading(t) => ConfigLine::Heading(t.clone()),
        ConfigLine::Field(a, b) => ConfigLine::Field(a.clone(), b.clone()),
        ConfigLine::Plain(t) => ConfigLine::Plain(t.clone()),
        ConfigLine::Muted(t) => ConfigLine::Muted(t.clone()),
        ConfigLine::Blank => ConfigLine::Blank,
        ConfigLine::Forward(pf) => ConfigLine::Forward(*pf),
    }
}

fn push_config(v: &mut Vec<PanelLine>, lines: Vec<ConfigLine>)
    ensures
        panel_view(final(v)@) == panel_view(old(v)@) + lines_view(lines@).map_values(
            |l: LineView| PanelView::Config(l),
        ),
{
    let ghost start = panel_view(v@);
    let ghost cv = lines_view(lines@).map_values(|l: LineView| PanelView::Config(l));
    let mut i: usize = 0;
    while i < lines.len()
        invariant
            i <= lines@.len(),
            cv == lines_view(lines@).map_values(|l: LineView| PanelView::Config(l)),
            panel_view(v@) == start + cv.take(i as int),
        decreases lines@.len() - i,
    {
        push_panel(v, PanelLine::Config(copy_line(&lines[i])));
        assert(cv.take(i + 1) =~= cv.take(i as int).push(cv[i as int]));
        i += 1;
    }
    assert(cv.take(lines@.len() as int) =~= cv);
}

/// The info panel's lines (see [`panel_spec`]).
pub fn panel_lines(
    ascii_art: &str,
    vm_name: &str,
    os: Option<&OsIdentity>,
    config: Option<&ConfigSummary>,
    notes: Option<&str>,
) -> (v: Vec<PanelLine>)
    ensures
        panel_view(v@) == panel_spec(
            ascii_art@,
            vm_name@,
            match os {
                Some(o) => Some((o.name@, o.publisher@, o.release_date@)),
                None => None,
            },
            match config {
                Some(c) => Some(config_lines_spec(*c)),
                None => None,
            },
            match notes {
                Some(t) => Some(t@),
                None => None,
            },
        ),
{
    let mut v: Vec<PanelLine> = Vec::new();
    let art = skip_leading_newlines(ascii_art);
    push_texts(&mut v, split_lines(art.as_str()), false);
    let ghost p1 = panel_view(v@);
    assert(p1 =~= text_lines(without_leading_newlines(ascii_art@)).map_values(|l: Seq<char>| PanelView::Art(l)));
    push_panel(&mut v, PanelLine::Blank);
    push_panel(&mut v, PanelLine::Name(vm_name.to_owned()));
    if let Some(o) = os {
        push_panel(
            &mut v,
            PanelLine::Identity(o.name.clone(), o.publisher.clone(), o.release_date.clone()),
        );
    }
    push_panel(&mut v, PanelLine::Blank);
    if let Some(c) = config {
        push_config(&mut v, config_lines(c));
    }
    let ghost p3 = panel_view(v@);
    if let Some(t) = notes {
        push_panel(&mut v, PanelLine::Blank);
        push_panel(&mut v, PanelLine::NotesHeading);
        let lines = split_lines(t);
        push_texts(&mut v, lines, true);
        assert(panel_view(v@) =~= p3 + (seq![PanelView::Blank, PanelView::NotesHeading] + text_lines(t@).map_values(
            |l: Seq<char>| PanelView::Note(l),
        )));
    }
    v
}

// ---------------------------------------------------------------------------
// The detailed OS information
// ---------------------------------------------------------------------------

/// What the detailed information screen shows of an OS.
pub struct OsDetails {
    pub name: String,
    pub publisher: String,
    pub release_date: String,
    pub architecture: String,
    pub long_blurb: String,
    pub fun_facts: Vec<String>,
}

/// One line of the detailed information: a label and a value, a heading,
/// a plain line, or an empty line.
#[derive(Debug, Clone, PartialEq, Eq)]
pub enum DetailLine {
    Labeled(String, String),
    Heading(String),
    Plain(String),
    Blank,
}

pub enum DetailView {
    Labeled(Seq<char>, Seq<char>),
    Heading(Seq<char>),
    Plain(Seq<char>),
    Blank,
}

impl View for DetailLine {
    type V = DetailView;

    open spec fn view(&self) -> DetailView {
        match self {
            DetailLine::Labeled(a, b) => DetailView::Labeled(a@, b@),
            DetailLine::Heading(t) => DetailView::Heading(t@),
            DetailLine::Plain(t) => DetailView::Plain(t@),
            DetailLine::Blank => DetailView::Blank,
        }
    }
}

pub open spec fn detail_view(v: Seq<DetailLine>) -> Seq<DetailView> {
    v.map_values(|l: DetailLine| l@)
}

/// The detailed information: name, publisher, release date and
/// architecture, then the long description (when there is one) under
/// "About", then the fun facts (when there are any) as bullets.
pub open spec fn details_spec(d: OsDetails) -> Seq<DetailView> {
    seq![
        DetailView::Labeled("Name: "@, d.name@),
        DetailView::Labeled("Publisher: "@, d.publisher@),
        DetailView::Labeled("Released: "@, d.release_date@),
        DetailView::Labeled("Architecture: "@, d.architecture@),
        DetailView::Blank,
    ] + (if d.long_blurb@.len() > 0 {
        seq![DetailView::Heading("About"@)] + text_lines(d.long_blurb@).map_values(
            |l: Seq<char>| DetailView::Plain(l),
        ) + seq![DetailView::Blank]
    } else {
        Seq::empty()
    }) + (if d.fun_facts@.len() > 0 {
        seq![DetailView::Heading("Fun Facts"@)] + names_view(d.fun_facts@).map_values(
            |f: Seq<char>| DetailView::Plain("• "@ + f),
        )
    } else {
        Seq::empty()
    })
}

fn push_detail(v: &mut Vec<DetailLine>, l: DetailLine)
    ensures
        detail_view(final(v)@) == detail_view(old(v)@).push(l@),
{
    let ghost before = detail_view(v@);
    let ghost lv = l@;
    v.push(l);
    assert(detail_view(v@) =~= before.push(lv));
}

fn labeled(label: &str, value: &String) -> (l: DetailLine)
    ensures
        l@ == DetailView::Labeled(label@, value@),
{
    DetailLine::Labeled(label.to_owned(), value.clone())
}

/// The lines of the detailed information (see [`details_spec`]).
pub fn detail_lines(d: &OsDetails) -> (v: Vec<DetailLine>)
    ensures
        detail_view(v@) == details_spec(*d),
{
    let mut v: Vec<DetailLine> = Vec::new();
    push_detail(&mut v, labeled("Name: ", &d.name));
    push_detail(&mut v, labeled("Publisher: ", &d.publisher));
    push_detail(&mut v, labeled("Released: ", &d.release_date));
    push_detail(&mut v, labeled("Architecture: ", &d.architecture));
    push_detail(&mut v, DetailLine::Blank);
    if !d.long_blurb.as_str().is_empty() {
        push_detail(&mut v, DetailLine::Heading("About".to_owned()));
        let lines = split_lines(d.long_blurb.as_str());
        let ghost start = detail_view(v@);
        let ghost bv = text_lines(d.long_blurb@).map_values(|l: Seq<char>| DetailView::Plain(l));
        let mut i: usize = 0;
        while i < lines.len()
            invariant
                i <= lines@.len(),
                names_view(lines@) == text_lines(d.long_blurb@),
                bv == text_lines(d.long_blurb@).map_values(|l: Seq<char>| DetailView::Plain(l)),
                detail_view(v@) == start + bv.take(i as int),
            decreases lines@.len() - i,
        {
            push_detail(&mut v, DetailLine::Plain(lines[i].clone()));
            assert(bv.take(i + 1) =~= bv.take(i as int).push(bv[i as int]));
            i += 1;
        }
        assert(bv.take(lines@.len() as int) =~= bv);
        push_detail(&mut v, DetailLine::Blank);
    }
    if d.fun_facts.len() > 0 {
        push_detail(&mut v, DetailLine::Heading("Fun Facts".to_owned()));
        let ghost start = detail_view(v@);
        let ghost fv = names_view(d.fun_facts@).map_values(|f: Seq<char>| DetailView::Plain("• "@ + f));
        let mut i: usize = 0;
        while i < d.fun_facts.len()
            invariant
                i <= d.fun_facts@.len(),
                fv == names_view(d.fun_facts@).map_values(|f: Seq<char>| DetailView::Plain("• "@ + f)),
                detail_view(v@) == start + fv.take(i as int),
            decreases d.fun_facts@.len() - i,
        {
            let mut t = "• ".to_owned();
            t.append(d.fun_facts[i].as_str());
            push_detail(&mut v, DetailLine::Plain(t));
            assert(fv.take(i + 1) =~= fv.take(i as int).push(fv[i as int]));
            i += 1;
        }
        assert(fv.take(d.fun_facts@.len() as int) =~= fv);
    }
    v
}

/// The detailed information screen's title.
pub fn details_title(vm_name: &str) -> (t: String)
    ensures
        t@ == " "@ + vm_name@ + " - Details "@,
{
    let mut t = " ".to_owned();
    t.append(vm_name);
    t.append(" - Details ");
    t
}

} // verus!
