//! A menu: a list of options, narrowed down by a pattern, with one of them selected.
use vstd::prelude::*;
use vstd::std_specs::cmp::PartialEqSpec;
use crate::compositor::{
    CallbackView, Callback, Component, Context, ContextExt, ContextExtView, ContextView, Editor,
    EditorView, EventResult, EventResultView,
};
use crate::graphics::{saturating_diff, CursorKind, Position, Rect};
use crate::input::{Event, KeyCode, KeyEvent};
use crate::surface::{joined, row_texts, ColorPart, Paint, PaintView, Row, Scope, Surface};

verus! {

/// How well `pattern` matches `choice`, if it matches at all. Upper and lower case count
/// as the same.
pub uninterp spec fn fuzzy_score(choice: Seq<char>, pattern: Seq<char>) -> Option<i64>;

/// `fuzzy_matcher::FuzzyMatcher::fuzzy_match` of a `SkimMatcherV2` with its default
/// settings and `ignore_case`: the score of `choice` against `pattern`, and `None` where
/// the pattern does not match. The contract only gives the result a name, [`fuzzy_score`];
/// how high a score is, the `fuzzy-matcher` crate decides.
#[verifier::external_body]
fn fuzzy_match(choice: &str, pattern: &str) -> (score: Option<i64>)
    ensures
        score == fuzzy_score(choice@, pattern@),
{
    let matcher = fuzzy_matcher::skim::SkimMatcherV2::default().ignore_case();
    fuzzy_matcher::FuzzyMatcher::fuzzy_match(&matcher, choice, pattern)
}

/// Something that can be an option of a menu.
///
/// `Data` is what the application keeps at hand to show an item, such as the directory
/// that paths are shown relative to.
pub trait Item {
    type Data;

    /// The texts of the cells that [`Item::format`] answers.
    spec fn row(&self, data: &Self::Data) -> Seq<Seq<char>>;

    /// The item as a row of a table.
    fn format(&self, data: &Self::Data) -> (row: Row)
        ensures
            row@ == self.row(data),
    ;

    /// The text that [`Item::sort_text`] answers.
    spec fn sort_key(&self, data: &Self::Data) -> Seq<char>;

    /// The text by which the item is sorted. Items without a better one answer the text of
    /// their row, [`Row::cell_text`].
    fn sort_text(&self, data: &Self::Data) -> (text: String)
        ensures
            text@ == self.sort_key(data),
    ;

    /// The text that [`Item::filter_text`] answers.
    spec fn filter_key(&self, data: &Self::Data) -> Seq<char>;

    /// The text that a pattern is matched against. Items without a better one answer the
    /// text of their row, [`Row::cell_text`].
    fn filter_text(&self, data: &Self::Data) -> (text: String)
        ensures
            text@ == self.filter_key(data),
    ;
}

/// The text of the item's row, all cells written one after the other: what
/// [`Item::sort_text`] and [`Item::filter_text`] answer for an item without a better text.
pub fn row_text<T: Item>(item: &T, data: &T::Data) -> (text: String)
    ensures
        text@ == joined(item.row(data)),
{
    item.format(data).cell_text()
}

/// What a menu tells its owner.
#[derive(Clone, Copy, Debug, PartialEq, Eq, Structural)]
pub enum MenuEvent {
    /// Another option is selected.
    Update,
    /// The selected option was chosen.
    Validate,
    /// The menu was left after the selection had been moved.
    Abort,
    /// The menu was left and the selection had never been moved.
    SoftAbort,
}

/// Where an option with the score `score` goes into `ranked`: behind the last entry whose
/// score is not lower.
pub open spec fn slot(ranked: Seq<(usize, i64)>, score: i64) -> int
    decreases ranked.len(),
{
    if ranked.len() == 0 || ranked.last().1 >= score {
        ranked.len() as int
    } else {
        slot(ranked.drop_last(), score)
    }
}

/// The options that match, each with its index and its score, the higher score first and,
/// among equal scores, the lower index first. `scores` holds each option's score, `None`
/// for an option that does not match.
pub open spec fn ranking(scores: Seq<Option<i64>>) -> Seq<(usize, i64)>
    decreases scores.len(),
{
    if scores.len() == 0 {
        Seq::empty()
    } else {
        let rest = ranking(scores.drop_last());
        match scores.last() {
            Some(score) => rest.insert(slot(rest, score), ((scores.len() - 1) as usize, score)),
            None => rest,
        }
    }
}

/// Whether `a` comes before `b` in a ranking: it has the higher score, or the same score
/// and the lower index.
pub open spec fn ranks_before(a: (usize, i64), b: (usize, i64)) -> bool {
    a.1 > b.1 || (a.1 == b.1 && a.0 < b.0)
}

/// Whether `ranked` holds exactly the options of `scores` that match, each with its score,
/// in the order of [`ranks_before`].
pub open spec fn is_ranking(ranked: Seq<(usize, i64)>, scores: Seq<Option<i64>>) -> bool {
    &&& forall|k: int|
        0 <= k < ranked.len() ==> (#[trigger] ranked[k]).0 < scores.len() && scores[ranked[k].0 as int] == Some(
            ranked[k].1,
        )
    &&& forall|i: int|
        0 <= i < scores.len() && (#[trigger] scores[i]).is_some() ==> exists|k: int|
            0 <= k < ranked.len() && (#[trigger] ranked[k]).0 == i
    &&& forall|a: int, b: int| 0 <= a < b < ranked.len() ==> ranks_before(#[trigger] ranked[a], #[trigger] ranked[b])
}

/// Where an option goes: every entry before the slot has a score that is not lower, and
/// every entry from the slot on has a lower one.
proof fn lemma_slot(ranked: Seq<(usize, i64)>, score: i64)
    requires
        forall|a: int, b: int| 0 <= a < b < ranked.len() ==> ranks_before(#[trigger] ranked[a], #[trigger] ranked[b]),
    ensures
        0 <= slot(ranked, score) <= ranked.len(),
        forall|k: int| 0 <= k < slot(ranked, score) ==> (#[trigger] ranked[k]).1 >= score,
        forall|k: int| slot(ranked, score) <= k < ranked.len() ==> (#[trigger] ranked[k]).1 < score,
    decreases ranked.len(),
{
    if ranked.len() == 0 {
    } else if ranked.last().1 >= score {
        assert forall|k: int| 0 <= k < ranked.len() implies (#[trigger] ranked[k]).1 >= score by {
            if k < ranked.len() - 1 {
                assert(ranks_before(ranked[k], ranked[ranked.len() - 1]));
            }
        }
    } else {
        let shorter = ranked.drop_last();
        assert forall|a: int, b: int| 0 <= a < b < shorter.len() implies ranks_before(
            #[trigger] shorter[a],
            #[trigger] shorter[b],
        ) by {
            assert(ranks_before(ranked[a], ranked[b]));
        }
        lemma_slot(shorter, score);
        assert forall|k: int| 0 <= k < slot(ranked, score) implies (#[trigger] ranked[k]).1 >= score by {
            assert(shorter[k] == ranked[k]);
        }
        assert forall|k: int| slot(ranked, score) <= k < ranked.len() implies (#[trigger] ranked[k]).1 < score by {
            if k < shorter.len() {
                assert(shorter[k] == ranked[k]);
            }
        }
    }
}

/// [`ranking`] is what it is meant to be: it holds exactly the options that match, each
/// with its score, the higher score first and, among equal scores, the option that came
/// first.
pub proof fn lemma_ranking(scores: Seq<Option<i64>>)
    requires
        scores.len() <= usize::MAX,
    ensures
        is_ranking(ranking(scores), scores),
        ranking(scores).len() <= scores.len(),
    decreases scores.len(),
{
    if scores.len() == 0 {
    } else {
        let shorter = scores.drop_last();
        let rest = ranking(shorter);
        lemma_ranking(shorter);
        let n = scores.len() - 1;
        match scores.last() {
            Some(score) => {
                lemma_slot(rest, score);
                let p = slot(rest, score);
                let entry = (n as usize, score);
                let ranked = rest.insert(p, entry);
                assert(ranked == ranking(scores));
                assert forall|k: int| 0 <= k < ranked.len() implies (#[trigger] ranked[k]).0 < scores.len()
                    && scores[ranked[k].0 as int] == Some(ranked[k].1) by {
                    if k < p {
                        assert(ranked[k] == rest[k]);
                        assert(shorter[rest[k].0 as int] == scores[rest[k].0 as int]);
                    } else if k == p {
                    } else {
                        assert(ranked[k] == rest[k - 1]);
                        assert(shorter[rest[k - 1].0 as int] == scores[rest[k - 1].0 as int]);
                    }
                }
                assert forall|i: int| 0 <= i < scores.len() && (#[trigger] scores[i]).is_some() implies exists|k: int|
                    0 <= k < ranked.len() && (#[trigger] ranked[k]).0 == i by {
                    if i == n {
                        assert(ranked[p].0 == i);
                    } else {
                        assert(shorter[i] == scores[i]);
                        let k = choose|k: int| 0 <= k < rest.len() && (#[trigger] rest[k]).0 == i;
                        if k < p {
                            assert(ranked[k] == rest[k]);
                        } else {
                            assert(ranked[k + 1] == rest[k]);
                        }
                    }
                }
                assert forall|a: int, b: int| 0 <= a < b < ranked.len() implies ranks_before(
                    #[trigger] ranked[a],
                    #[trigger] ranked[b],
                ) by {
                    let x = if a < p { rest[a] } else if a == p { entry } else { rest[a - 1] };
                    let y = if b < p { rest[b] } else if b == p { entry } else { rest[b - 1] };
                    assert(ranked[a] == x && ranked[b] == y);
                    if a < p && b > p {
                        assert(ranks_before(rest[a], rest[b - 1]));
                    } else if a < p && b < p {
                        assert(ranks_before(rest[a], rest[b]));
                    } else if a > p {
                        assert(ranks_before(rest[a - 1], rest[b - 1]));
                    } else if a == p {
                        assert(rest[b - 1].1 < score);
                    } else {
                        assert(rest[a].1 >= score);
                        assert(rest[a].0 < n);
                    }
                }
            },
            None => {
                assert(ranking(scores) == rest);
                assert forall|k: int| 0 <= k < rest.len() implies (#[trigger] rest[k]).0 < scores.len()
                    && scores[rest[k].0 as int] == Some(rest[k].1) by {
                    assert(shorter[rest[k].0 as int] == scores[rest[k].0 as int]);
                }
                assert forall|i: int| 0 <= i < scores.len() && (#[trigger] scores[i]).is_some() implies exists|k: int|
                    0 <= k < rest.len() && (#[trigger] rest[k]).0 == i by {
                    assert(shorter[i] == scores[i]);
                }
            },
        }
    }
}

/// The first row shown after the window of `height` rows that began at row `scroll` was
/// moved just far enough to show the row `cursor`: forward by as many rows as the cursor
/// was below the window, back to the cursor where it was above, and not at all where it
/// was inside.
pub open spec fn adjusted_scroll(cursor: int, scroll: int, height: int) -> int {
    let last = if height + scroll >= 1 { height + scroll - 1 } else { 0 };
    if cursor > last {
        scroll + cursor - last
    } else if cursor < scroll {
        cursor
    } else {
        scroll
    }
}

/// The width of the widest cell in column `c` of `rows`; zero where no row has that column.
pub open spec fn column_width(rows: Seq<Seq<Seq<char>>>, c: int) -> nat
    decreases rows.len(),
{
    if rows.len() == 0 {
        0
    } else {
        let rest = column_width(rows.drop_last(), c);
        let row = rows.last();
        let cell = if 0 <= c < row.len() { crate::surface::cell_width(row[c]) } else { 0 };
        if cell > rest { cell } else { rest }
    }
}

/// The sum of `widths`.
pub open spec fn total(widths: Seq<nat>) -> nat
    decreases widths.len(),
{
    if widths.len() == 0 {
        0
    } else {
        total(widths.drop_last()) + widths.last()
    }
}

/// The most rows a menu shows at once.
pub open spec fn max_height() -> nat {
    10
}

/// A menu.
///
/// `F` is the function that the menu calls to tell its owner what happened, with the
/// selected option if there is one.
pub struct Menu<T: Item, F: Fn(&Editor, Option<&T>, MenuEvent)> {
    options: Vec<T>,
    editor_data: T::Data,
    cursor: Option<usize>,
    /// The options that match, each with its index and its score.
    matches: Vec<(usize, i64)>,
    widths: Vec<u16>,
    callback_fn: F,
    scroll: usize,
    size: (u16, u16),
    viewport: (u16, u16),
    recalculate: bool,
    /// Up and Down are taken even before the selection was moved by another key.
    allow_arrow_stealing: bool,
}

/// A [`Menu`] as a mathematical value.
pub struct MenuView<T: Item> {
    pub options: Seq<T>,
    pub editor_data: T::Data,
    /// The row of `matches` that is selected.
    pub cursor: Option<usize>,
    /// The options that match the pattern, each with its index in `options` and its score.
    pub matches: Seq<(usize, i64)>,
    /// The width of each column, worked out with the size.
    pub widths: Seq<u16>,
    /// The first row of `matches` that is shown.
    pub scroll: usize,
    /// The size that was worked out last.
    pub size: (u16, u16),
    /// The viewport for which `size` was worked out.
    pub viewport: (u16, u16),
    /// Whether `size` is out of date.
    pub recalculate: bool,
    pub allow_arrow_stealing: bool,
}

impl<T: Item> MenuView<T> {
    /// A selected row is a row of `matches`, and every row of `matches` is an option.
    pub open spec fn wf(self) -> bool {
        &&& self.cursor matches Some(c) ==> c < self.matches.len()
        &&& forall|k: int| 0 <= k < self.matches.len() ==> (#[trigger] self.matches[k]).0 < self.options.len()
    }

    /// A menu as it is made: every option matches, with a score of zero, and none is
    /// selected.
    pub open spec fn fresh(options: Seq<T>, editor_data: T::Data) -> MenuView<T> {
        MenuView {
            options,
            editor_data,
            cursor: None,
            matches: Seq::new(options.len(), |i: int| (i as usize, 0i64)),
            widths: Seq::empty(),
            scroll: 0,
            size: (0, 0),
            viewport: (0, 0),
            recalculate: true,
            allow_arrow_stealing: true,
        }
    }

    /// The score of each option against `pattern`.
    pub open spec fn scores(self, pattern: Seq<char>) -> Seq<Option<i64>> {
        Seq::new(
            self.options.len(),
            |i: int| fuzzy_score(self.options[i].filter_key(&self.editor_data), pattern),
        )
    }

    /// The menu after its options were matched against `pattern`.
    pub open spec fn scored(self, pattern: Seq<char>) -> MenuView<T> {
        MenuView { matches: ranking(self.scores(pattern)), cursor: None, scroll: 0, recalculate: true, ..self }
    }

    /// The menu without matches.
    pub open spec fn cleared(self) -> MenuView<T> {
        MenuView { matches: Seq::empty(), cursor: None, scroll: 0, ..self }
    }

    /// The menu after the rows shown were moved to show the selected row.
    pub open spec fn adjusted(self) -> MenuView<T> {
        match self.cursor {
            Some(c) => MenuView {
                scroll: adjusted_scroll(c as int, self.scroll as int, self.size.1 as int) as usize,
                ..self
            },
            None => self,
        }
    }

    /// The menu after the selection moved one row up, from the first row round to the
    /// last; with no row selected, to the last row. A menu without matches stays as it is.
    pub open spec fn moved_up(self) -> MenuView<T> {
        let len = self.matches.len() as int;
        if len == 0 {
            self
        } else {
            let row = match self.cursor {
                Some(c) => (c + len - 1) % len,
                None => len - 1,
            };
            MenuView { cursor: Some(row as usize), ..self }.adjusted()
        }
    }

    /// The menu after the selection moved one row down, from the last row round to the
    /// first; with no row selected, to the first row. A menu without matches stays as it
    /// is.
    pub open spec fn moved_down(self) -> MenuView<T> {
        let len = self.matches.len() as int;
        if len == 0 {
            self
        } else {
            let row = match self.cursor {
                Some(c) => (c + 1) % len,
                None => 0,
            };
            MenuView { cursor: Some(row as usize), ..self }.adjusted()
        }
    }

    /// The rows of all options, matching or not.
    pub open spec fn rows(self) -> Seq<Seq<Seq<char>>> {
        Seq::new(self.options.len(), |i: int| self.options[i].row(&self.editor_data))
    }

    /// The number of columns: as many as the first option has cells.
    pub open spec fn columns(self) -> nat {
        if self.options.len() > 0 {
            self.options[0].row(&self.editor_data).len()
        } else {
            0
        }
    }

    /// The width of each column: that of its widest cell among all options.
    pub open spec fn column_widths(self) -> Seq<nat> {
        Seq::new(self.columns(), |c: int| column_width(self.rows(), c))
    }

    /// The number of rows shown in a viewport `rows` high: all that match, but no more than
    /// [`max_height`] and no more than the viewport has.
    pub open spec fn visible_height(self, rows: u16) -> nat {
        let most = if max_height() <= rows { max_height() } else { rows as nat };
        if self.matches.len() <= most { self.matches.len() } else { most }
    }

    /// The width the menu asks for in a viewport of `viewport` columns and rows: the sum
    /// of the column widths, one column for the scrollbar where not all matches are shown,
    /// and one column of padding on the left; but no more than the viewport has.
    pub open spec fn wanted_width(self, viewport: (u16, u16)) -> nat {
        let scrollbar: nat = if self.matches.len() <= self.visible_height(viewport.1) { 0 } else { 1 };
        let all = total(self.column_widths()) + scrollbar + 1;
        if all <= viewport.0 { all } else { viewport.0 as nat }
    }

    /// The menu after its size was worked out for `viewport`.
    pub open spec fn resized(self, viewport: (u16, u16)) -> MenuView<T> {
        MenuView {
            widths: self.column_widths().map_values(|w: nat| (w % 0x10000) as u16),
            size: (self.wanted_width(viewport) as u16, self.visible_height(viewport.1) as u16),
            viewport,
            recalculate: false,
            ..self
        }.adjusted()
    }

    /// The menu after it was asked for its size in `viewport`: the size is worked out
    /// where it is out of date or was worked out for another viewport.
    pub open spec fn sized(self, viewport: (u16, u16)) -> MenuView<T> {
        if viewport != self.viewport || self.recalculate {
            self.resized(viewport)
        } else {
            self
        }
    }

    /// The selected option.
    pub open spec fn selection(self) -> Option<T> {
        match self.cursor {
            Some(c) => if c < self.matches.len() && self.matches[c as int].0 < self.options.len() {
                Some(self.options[self.matches[c as int].0 as int])
            } else {
                None
            },
            None => None,
        }
    }
}

/// Whether `f` may be called with whatever a menu hands it.
pub open spec fn callable<T, F: Fn(&Editor, Option<&T>, MenuEvent)>(f: F) -> bool {
    forall|editor: &Editor, selection: Option<&T>, event: MenuEvent| call_requires(f, (editor, selection, event))
}

impl<T: Item, F: Fn(&Editor, Option<&T>, MenuEvent)> View for Menu<T, F> {
    type V = MenuView<T>;

    closed spec fn view(&self) -> MenuView<T> {
        MenuView {
            options: self.options@,
            editor_data: self.editor_data,
            cursor: self.cursor,
            matches: self.matches@,
            widths: self.widths@,
            scroll: self.scroll,
            size: self.size,
            viewport: self.viewport,
            recalculate: self.recalculate,
            allow_arrow_stealing: self.allow_arrow_stealing,
        }
    }
}

fn zeros(n: usize) -> (v: Vec<usize>)
    ensures
        v@ == Seq::new(n as nat, |i: int| 0usize),
{
    let mut v: Vec<usize> = Vec::new();
    while v.len() < n
        invariant
            v.len() <= n,
            v@ == Seq::new(v.len() as nat, |i: int| 0usize),
        decreases n - v.len(),
    {
        v.push(0);
        assert(v@ =~= Seq::new(v.len() as nat, |i: int| 0usize));
    }
    v
}

impl<T: Item, F: Fn(&Editor, Option<&T>, MenuEvent)> Menu<T, F> {
    #[verifier::type_invariant]
    closed spec fn inv(&self) -> bool {
        self@.wf() && callable::<T, F>(self.callback_fn)
    }

    /// A menu of `options`. Every option matches until [`Menu::score`] is called, and none
    /// is selected. `callback_fn` is told what happens to the menu.
    pub fn new(options: Vec<T>, editor_data: T::Data, callback_fn: F) -> (menu: Self)
        requires
            callable::<T, F>(callback_fn),
        ensures
            menu@ == MenuView::fresh(options@, editor_data),
    {
        let mut matches: Vec<(usize, i64)> = Vec::new();
        let mut i: usize = 0;
        while i < options.len()
            invariant
                i <= options.len(),
                matches@ == Seq::new(i as nat, |k: int| (k as usize, 0i64)),
            decreases options.len() - i,
        {
            matches.push((i, 0));
            i += 1;
            assert(matches@ =~= Seq::new(i as nat, |k: int| (k as usize, 0i64)));
        }
        let widths: Vec<u16> = Vec::new();
        assert(widths@ =~= Seq::empty());
        Menu {
            options,
            editor_data,
            cursor: None,
            matches,
            widths,
            callback_fn,
            scroll: 0,
            size: (0, 0),
            viewport: (0, 0),
            recalculate: true,
            allow_arrow_stealing: true,
        }
    }

    /// Matches the options against `pattern` anew. Afterwards the menu holds the options
    /// that match, the better match first; options that match equally well keep the order
    /// they came in. No row is selected any more, and the size is out of date.
    pub fn score(&mut self, pattern: &str)
        ensures
            final(self)@ == old(self)@.scored(pattern@),
    {
        proof {
            use_type_invariant(&*self);
        }
        let ghost scores = self@.scores(pattern@);
        let mut ranked: Vec<(usize, i64)> = Vec::new();
        let mut i: usize = 0;
        assert(scores.take(0) =~= Seq::empty());
        while i < self.options.len()
            invariant
                i <= self.options.len(),
                *self == *old(self),
                scores == self@.scores(pattern@),
                scores.len() == self.options.len(),
                ranked@ == ranking(scores.take(i as int)),
            decreases self.options.len() - i,
        {
            let ghost prefix = scores.take(i as int);
            proof {
                assert(scores.take(i + 1).drop_last() =~= prefix);
                assert(scores.take(i + 1).last() == scores[i as int]);
                lemma_ranking(prefix);
            }
            let text = self.options[i].filter_text(&self.editor_data);
            match fuzzy_match(text.as_str(), pattern) {
                Some(score) => {
                    let mut at = ranked.len();
                    assert(ranked@.take(at as int) =~= ranked@);
                    while at > 0 && ranked[at - 1].1 < score
                        invariant
                            at <= ranked.len(),
                            slot(ranked@, score) == slot(ranked@.take(at as int), score),
                        decreases at,
                    {
                        assert(ranked@.take(at as int).drop_last() =~= ranked@.take(at - 1));
                        at -= 1;
                    }
                    ranked.insert(at, (i, score));
                },
                None => {},
            }
            i += 1;
        }
        proof {
            assert(scores.take(i as int) =~= scores);
            lemma_ranking(scores);
        }
        self.cursor = None;
        self.scroll = 0;
        self.recalculate = true;
        self.matches = ranked;
    }

    /// Takes all matches away. No row is selected any more.
    pub fn clear(&mut self)
        ensures
            final(self)@ == old(self)@.cleared(),
    {
        proof {
            use_type_invariant(&*self);
        }
        self.cursor = None;
        self.scroll = 0;
        self.matches = Vec::new();
        assert(self.matches@ =~= Seq::empty());
    }

    fn adjust_scroll(&mut self)
        ensures
            final(self)@ == old(self)@.adjusted(),
    {
        proof {
            use_type_invariant(&*self);
        }
        let height = self.size.1 as usize;
        match self.cursor {
            Some(cursor) => {
                let scroll = self.scroll;
                assert(cursor < self.matches.len());
                if height == 0 {
                    if scroll == 0 || cursor < scroll {
                        self.scroll = cursor;
                    } else {
                        self.scroll = cursor + 1;
                    }
                } else if cursor >= scroll && cursor - scroll >= height {
                    // Below the window: forward by as much as the cursor is below.
                    self.scroll = cursor - (height - 1);
                } else if cursor < scroll {
                    // Above the window: back to the cursor.
                    self.scroll = cursor;
                }
            },
            None => {},
        }
    }

    /// Moves the selection one row up; from the first row it goes to the last. With no row
    /// selected the last row is. The rows shown follow the selection.
    pub fn move_up(&mut self)
        ensures
            final(self)@ == old(self)@.moved_up(),
    {
        proof {
            use_type_invariant(&*self);
        }
        let len = self.matches.len();
        if len == 0 {
            return ;
        }
        let row = match self.cursor {
            Some(c) => {
                assert((c + len - 1) % (len as int) == if c == 0 { len - 1 } else { c - 1 }) by (nonlinear_arith)
                    requires
                        0 <= c < len,
                ;
                if c == 0 { len - 1 } else { c - 1 }
            },
            None => len - 1,
        };
        self.cursor = Some(row);
        self.adjust_scroll();
    }

    /// Moves the selection one row down; from the last row it goes to the first. With no
    /// row selected the first row is. The rows shown follow the selection.
    pub fn move_down(&mut self)
        ensures
            final(self)@ == old(self)@.moved_down(),
    {
        proof {
            use_type_invariant(&*self);
        }
        let len = self.matches.len();
        if len == 0 {
            return ;
        }
        let row = match self.cursor {
            Some(c) => {
                assert((c + 1) % (len as int) == if c + 1 == len { 0 } else { c + 1 }) by (nonlinear_arith)
                    requires
                        0 <= c < len,
                ;
                if c + 1 == len { 0 } else { c + 1 }
            },
            None => 0,
        };
        self.cursor = Some(row);
        self.adjust_scroll();
    }

    /// The selected option.
    pub fn selection(&self) -> (selected: Option<&T>)
        ensures
            selected == (match self@.selection() {
                Some(option) => Some(&option),
                None => None,
            }),
    {
        proof {
            use_type_invariant(self);
        }
        match self.cursor {
            Some(cursor) => Some(&self.options[self.matches[cursor].0]),
            None => None,
        }
    }

    /// Whether no option matches.
    pub fn is_empty(&self) -> (empty: bool)
        ensures
            empty == (self@.matches.len() == 0),
    {
        self.matches.len() == 0
    }

    /// The number of options that match.
    pub fn len(&self) -> (n: usize)
        ensures
            n == self@.matches.len(),
    {
        self.matches.len()
    }

    /// Whether the selection was moved since the options were matched last.
    pub fn interacted_with(&self) -> (moved: bool)
        ensures
            moved == self@.cursor.is_some(),
    {
        self.cursor.is_some()
    }

    /// The row of the matches that is selected.
    pub fn selected_row(&self) -> (row: Option<usize>)
        ensures
            row == self@.cursor,
            row matches Some(c) ==> c < self@.matches.len(),
    {
        proof {
            use_type_invariant(self);
        }
        self.cursor
    }

    /// The menu with Up and Down taken from the start (`allow`), or only once the selection
    /// was moved by another key.
    pub fn allow_arrow_stealing(self, allow: bool) -> (menu: Self)
        ensures
            menu@ == (MenuView { allow_arrow_stealing: allow, ..self@ }),
    {
        proof {
            use_type_invariant(&self);
        }
        let mut menu = self;
        menu.allow_arrow_stealing = allow;
        menu
    }
}

/// The height of the scrollbar's thumb in a window of `height` rows onto `len` rows: the
/// share of the window that the window is of all rows, rounded up, and no more than the
/// window.
pub open spec fn thumb_height(height: nat, len: nat) -> nat {
    let share = (height * height + len - 1) / (len as int);
    if share <= height { share as nat } else { height }
}

/// The row of the window in which the scrollbar's thumb begins when the window of `height`
/// rows onto `len` rows begins at row `scroll`.
pub open spec fn thumb_start(height: nat, len: nat, scroll: nat) -> nat {
    let steps = if len - height >= 1 { len - height } else { 1 };
    (((height - thumb_height(height, len)) * scroll) / steps) as nat
}

/// The character that the scrollbar is drawn with: the right half of a block.
pub open spec fn scrollbar_symbol() -> char {
    '\u{2590}'
}

impl<T: Item> MenuView<T> {
    /// The rows of the options that match, in the order of the matches.
    pub open spec fn matched_rows(self) -> Seq<Seq<Seq<char>>> {
        Seq::new(
            self.matches.len(),
            |k: int|
                if self.matches[k].0 < self.options.len() {
                    self.options[self.matches[k].0 as int].row(&self.editor_data)
                } else {
                    Seq::empty()
                },
        )
    }

    /// The row of the grid in which the selected row of the menu is shown, where it lies
    /// inside `area`.
    pub open spec fn highlight_row(self, area: Rect) -> Option<u16> {
        match self.cursor {
            Some(c) => if self.scroll <= c && c - self.scroll < area.height && area.y + (c - self.scroll)
                <= u16::MAX {
                Some((area.y + (c - self.scroll)) as u16)
            } else {
                None
            },
            None => None,
        }
    }

    /// The steps that mark the selected row: its first and its last cell take the style of
    /// a selection.
    pub open spec fn highlight(self, area: Rect) -> Seq<PaintView> {
        match self.highlight_row(area) {
            Some(y) => seq![
                PaintView::Style { x: area.x, y, style: Scope::MenuSelected },
                PaintView::Style { x: saturating_diff(area.spec_right(), 1), y, style: Scope::MenuSelected },
            ],
            None => Seq::empty(),
        }
    }

    /// The number of rows of `area` that exist on the grid.
    pub open spec fn scrollbar_rows(area: Rect) -> nat {
        if area.y + area.height <= 0x10000 {
            area.height as nat
        } else {
            (0x10000 - area.y) as nat
        }
    }

    /// The steps that draw the scrollbar down the last column of `area`: none where all
    /// matches fit into the area, else one for each row, the rows of the thumb in the
    /// foreground colour of the scrollbar's style and the others in its background colour.
    pub open spec fn scrollbar(self, area: Rect) -> Seq<PaintView> {
        let len = self.matches.len();
        let height = area.height as nat;
        if len <= height {
            Seq::empty()
        } else {
            let start = thumb_start(height, len, self.scroll as nat);
            let end = start + thumb_height(height, len);
            Seq::new(
                Self::scrollbar_rows(area),
                |i: int|
                    PaintView::Glyph {
                        x: saturating_diff(area.spec_right(), 1),
                        y: (area.y + i) as u16,
                        symbol: scrollbar_symbol(),
                        style: Scope::MenuScroll,
                        part: if start <= i < end { ColorPart::Foreground } else { ColorPart::Background },
                    },
            )
        }
    }

    /// What the menu paints into `area`: the background, the matches as a table that
    /// leaves the first and the last column of the area free, the marks of the selected
    /// row, and the scrollbar.
    pub open spec fn paints(self, area: Rect) -> Seq<PaintView> {
        seq![
            PaintView::Clear { area, style: Scope::Menu },
            PaintView::Table {
                area: area.spec_clip_left(1).spec_clip_right(1),
                rows: self.matched_rows(),
                widths: self.widths,
                style: Scope::Menu,
                highlight: Scope::MenuSelected,
                offset: self.scroll,
                selected: self.cursor,
            },
        ] + self.highlight(area) + self.scrollbar(area)
    }

    /// What a key does to the menu: the menu afterwards, its answer to the compositor, and
    /// what it tells its owner.
    ///
    /// With one match, and that one selected, every key but Escape, Control-C and Enter
    /// closes the menu and is passed on. Otherwise Escape and Control-C leave the menu,
    /// Shift-Tab and Control-P move the selection up, Tab and Control-N move it down, Up
    /// and Down move it where arrows are taken from the start or the selection was moved
    /// before, Enter chooses the selected option, and every other key is passed on.
    pub open spec fn keyed(self, key: KeyEvent) -> (MenuView<T>, EventResultView<MenuView<T>>, Option<MenuEvent>) {
        let close = Some(CallbackView::<MenuView<T>>::Pop);
        let leaves = key == KeyEvent::spec_key(KeyCode::Esc) || key == KeyEvent::spec_ctrl('c');
        let enter = key == KeyEvent::spec_key(KeyCode::Enter);
        let arrows = self.allow_arrow_stealing || self.cursor.is_some();
        if !leaves && !enter && self.matches.len() == 1 && self.cursor.is_some() {
            (self, EventResultView::Ignored(close), None)
        } else if leaves {
            (
                self,
                EventResultView::Consumed(close),
                Some(if self.cursor.is_some() { MenuEvent::Abort } else { MenuEvent::SoftAbort }),
            )
        } else if key == KeyEvent::spec_shift(KeyCode::Tab) || key == KeyEvent::spec_ctrl('p') {
            (self.moved_up(), EventResultView::Consumed(None), Some(MenuEvent::Update))
        } else if key == KeyEvent::spec_key(KeyCode::Tab) || key == KeyEvent::spec_ctrl('n') {
            (self.moved_down(), EventResultView::Consumed(None), Some(MenuEvent::Update))
        } else if key == KeyEvent::spec_key(KeyCode::Up) && arrows {
            (self.moved_up(), EventResultView::Consumed(None), Some(MenuEvent::Update))
        } else if key == KeyEvent::spec_key(KeyCode::Down) && arrows {
            (self.moved_down(), EventResultView::Consumed(None), Some(MenuEvent::Update))
        } else if enter {
            if self.selection().is_some() {
                (self, EventResultView::Consumed(close), Some(MenuEvent::Validate))
            } else {
                (self, EventResultView::Ignored(close), None)
            }
        } else {
            (self, EventResultView::Ignored(None), None)
        }
    }

    /// The menu with the first option that equals `old_option` replaced by `new_option`.
    pub open spec fn replaced(self, old_option: T, new_option: T, from: int) -> MenuView<T> where T: PartialEq
        decreases self.options.len() - from,
    {
        if from < 0 || from >= self.options.len() {
            self
        } else if old_option.eq_spec(&self.options[from]) {
            MenuView { options: self.options.update(from, new_option), ..self }
        } else {
            self.replaced(old_option, new_option, from + 1)
        }
    }
}

/// One more row widens a column to its own cell in that column, if that is wider.
proof fn lemma_column_step(rows: Seq<Seq<Seq<char>>>, i: int, c: int)
    requires
        0 <= i < rows.len(),
    ensures
        column_width(rows.take(i + 1), c) == ({
            let rest = column_width(rows.take(i), c);
            let cell = if 0 <= c < rows[i].len() { crate::surface::cell_width(rows[i][c]) } else { 0 };
            if cell > rest { cell } else { rest }
        }),
{
    assert(rows.take(i + 1).drop_last() =~= rows.take(i));
    assert(rows.take(i + 1).last() == rows[i]);
}

fn copy_widths(widths: &Vec<u16>) -> (copy: Vec<u16>)
    ensures
        copy@ == widths@,
{
    let mut copy: Vec<u16> = Vec::new();
    let mut i: usize = 0;
    while i < widths.len()
        invariant
            i <= widths.len(),
            copy@ == widths@.take(i as int),
        decreases widths.len() - i,
    {
        copy.push(widths[i]);
        assert(copy@ =~= widths@.take(i + 1));
        i += 1;
    }
    assert(widths@.take(i as int) =~= widths@);
    copy
}

impl<T: Item, F: Fn(&Editor, Option<&T>, MenuEvent)> Menu<T, F> {
    /// The width of each of the first `n` columns.
    fn column_maxima(&self, n: usize) -> (maxima: Vec<usize>)
        ensures
            maxima.len() == n,
            forall|c: int| 0 <= c < n ==> #[trigger] maxima[c] == column_width(self@.rows(), c),
    {
        let mut maxima = zeros(n);
        let ghost rows = self@.rows();
        let mut i: usize = 0;
        assert(rows.take(0) =~= Seq::empty());
        while i < self.options.len()
            invariant
                i <= self.options.len(),
                rows == self@.rows(),
                rows.len() == self.options.len(),
                maxima.len() == n,
                forall|c: int| 0 <= c < n ==> #[trigger] maxima[c] == column_width(rows.take(i as int), c),
            decreases self.options.len() - i,
        {
            let row = self.options[i].format(&self.editor_data);
            assert(row@ == rows[i as int]);
            let mut c: usize = 0;
            while c < n && c < row.cells.len()
                invariant
                    c <= n,
                    c <= row.cells.len(),
                    i < rows.len(),
                    maxima.len() == n,
                    row@ == rows[i as int],
                    forall|d: int| 0 <= d < c ==> #[trigger] maxima[d] == column_width(rows.take(i + 1), d),
                    forall|d: int| c <= d < n ==> #[trigger] maxima[d] == column_width(rows.take(i as int), d),
                decreases n - c,
            {
                let width = row.cells[c].width();
                proof {
                    assert(row@[c as int] == row.cells[c as int]@);
                    lemma_column_step(rows, i as int, c as int);
                }
                if width > maxima[c] {
                    maxima.set(c, width);
                }
                c += 1;
            }
            proof {
                assert forall|d: int| c <= d < n implies #[trigger] maxima[d] == column_width(rows.take(i + 1), d) by {
                    lemma_column_step(rows, i as int, d);
                }
            }
            i += 1;
        }
        assert(rows.take(i as int) =~= rows);
        maxima
    }

    fn recalculate_size(&mut self, viewport: (u16, u16))
        ensures
            final(self)@ == old(self)@.resized(viewport),
    {
        proof {
            use_type_invariant(&*self);
        }
        let n = if self.options.len() > 0 {
            self.options[0].format(&self.editor_data).cells.len()
        } else {
            0
        };
        let maxima = self.column_maxima(n);
        let ghost wanted = self@.column_widths();
        assert(wanted.len() == n);

        let mut widths: Vec<u16> = Vec::new();
        let mut sum: u128 = 0;
        let mut c: usize = 0;
        assert(wanted.take(0) =~= Seq::empty());
        while c < n
            invariant
                c <= n,
                maxima.len() == n,
                wanted.len() == n,
                forall|d: int| 0 <= d < n ==> #[trigger] maxima[d] == wanted[d],
                sum == total(wanted.take(c as int)),
                sum <= c * usize::MAX,
                widths@ == wanted.take(c as int).map_values(|w: nat| (w % 0x10000) as u16),
            decreases n - c,
        {
            assert(wanted.take(c + 1).drop_last() =~= wanted.take(c as int));
            assert(wanted.take(c + 1).last() == wanted[c as int]);
            assert((c + 1) * usize::MAX == c * usize::MAX + usize::MAX) by (nonlinear_arith);
            assert(c * usize::MAX <= usize::MAX * usize::MAX) by (nonlinear_arith)
                requires
                    c <= usize::MAX,
            ;
            sum = sum + maxima[c] as u128;
            widths.push((maxima[c] % 0x10000) as u16);
            assert(widths@ =~= wanted.take(c + 1).map_values(|w: nat| (w % 0x10000) as u16));
            c += 1;
        }
        assert(wanted.take(c as int) =~= wanted);
        assert(n * usize::MAX <= usize::MAX * usize::MAX) by (nonlinear_arith)
            requires
                n <= usize::MAX,
        ;

        let len = self.matches.len();
        let most: usize = if 10 <= viewport.1 { 10 } else { viewport.1 as usize };
        let height: usize = if len <= most { len } else { most };
        let fits = len <= height;
        let all: u128 = sum + (if fits { 0 } else { 1 }) + 1;
        let width: u16 = if all <= viewport.0 as u128 { all as u16 } else { viewport.0 };

        self.widths = widths;
        self.size = (width, height as u16);
        self.viewport = viewport;
        self.recalculate = false;
        // The rows shown may have to follow the new height.
        self.adjust_scroll();
    }

    /// The selected option, to be changed in place.
    pub fn selection_mut(&mut self) -> (selected: Option<&mut T>)
        ensures
            match selected {
                Some(option) => old(self)@.cursor matches Some(c) && old(self)@.selection() == Some(*option)
                    && final(self)@ == (MenuView {
                    options: old(self)@.options.update(old(self)@.matches[c as int].0 as int, *final(option)),
                    ..old(self)@
                }),
                None => old(self)@.selection().is_none() && final(self)@ == old(self)@,
            },
    {
        proof {
            use_type_invariant(&*self);
        }
        match self.cursor {
            Some(cursor) => {
                let index = self.matches[cursor].0;
                Some(&mut self.options[index])
            },
            None => None,
        }
    }

    /// What [`Component::handle_event`] does with a key, but for telling the owner: that is
    /// the second part of the result.
    pub fn handle_key(&mut self, key: KeyEvent) -> (outcome: (EventResult<Self>, Option<MenuEvent>))
        ensures
            (final(self)@, outcome.0@, outcome.1) == old(self)@.keyed(key),
    {
        proof {
            use_type_invariant(&*self);
        }
        let leaves = key == KeyEvent::key(KeyCode::Esc) || key == KeyEvent::ctrl('c');
        let enter = key == KeyEvent::key(KeyCode::Enter);
        let arrows = self.allow_arrow_stealing || self.interacted_with();
        // With a single match that is selected already, moving on is pointless.
        if !leaves && !enter && self.matches.len() == 1 && self.cursor.is_some() {
            return (EventResult::Ignored(Some(Callback::Pop)), None);
        }
        if leaves {
            let event = if self.interacted_with() { MenuEvent::Abort } else { MenuEvent::SoftAbort };
            (EventResult::Consumed(Some(Callback::Pop)), Some(event))
        } else if key == KeyEvent::shift(KeyCode::Tab) || key == KeyEvent::ctrl('p') {
            self.move_up();
            (EventResult::Consumed(None), Some(MenuEvent::Update))
        } else if key == KeyEvent::key(KeyCode::Tab) || key == KeyEvent::ctrl('n') {
            self.move_down();
            (EventResult::Consumed(None), Some(MenuEvent::Update))
        } else if key == KeyEvent::key(KeyCode::Up) && arrows {
            self.move_up();
            (EventResult::Consumed(None), Some(MenuEvent::Update))
        } else if key == KeyEvent::key(KeyCode::Down) && arrows {
            self.move_down();
            (EventResult::Consumed(None), Some(MenuEvent::Update))
        } else if enter {
            if self.cursor.is_some() {
                (EventResult::Consumed(Some(Callback::Pop)), Some(MenuEvent::Validate))
            } else {
                (EventResult::Ignored(Some(Callback::Pop)), None)
            }
        } else {
            // Passed on, so that the owner can use the key, to narrow the pattern or so.
            (EventResult::Ignored(None), None)
        }
    }

    /// The rows of the options that match.
    fn matched_rows(&self) -> (rows: Vec<Row>)
        ensures
            row_texts(rows@) == self@.matched_rows(),
    {
        proof {
            use_type_invariant(self);
        }
        let mut rows: Vec<Row> = Vec::new();
        let mut k: usize = 0;
        while k < self.matches.len()
            invariant
                k <= self.matches.len(),
                self@.wf(),
                row_texts(rows@) == self@.matched_rows().take(k as int),
            decreases self.matches.len() - k,
        {
            let row = self.options[self.matches[k].0].format(&self.editor_data);
            let ghost before = rows@;
            rows.push(row);
            assert(row_texts(rows@) =~= row_texts(before).push(row@));
            assert(self@.matched_rows().take(k + 1) =~= self@.matched_rows().take(k as int).push(row@));
            k += 1;
        }
        assert(self@.matched_rows().take(k as int) =~= self@.matched_rows());
        rows
    }

    /// Draws the scrollbar down the last column of `area`.
    fn render_scrollbar(&self, area: Rect, frame: &mut Surface)
        ensures
            final(frame)@ == old(frame)@.painted(self@.scrollbar(area)),
    {
        let len = self.matches.len();
        let win_height = area.height as usize;
        if len <= win_height {
            assert(old(frame)@.ops + Seq::<PaintView>::empty() =~= old(frame)@.ops);
            return ;
        }
        let height = area.height as u128;
        assert(height * height <= 0xffff * 0xffff) by (nonlinear_arith)
            requires
                0 <= height <= 0xffff,
        ;
        let share: u128 = (height * height + len as u128 - 1) / (len as u128);
        let scroll_height: u128 = if share <= height { share } else { height };
        let steps: u128 = if len as u128 - height >= 1 { len as u128 - height } else { 1 };
        assert((height - scroll_height) * (self.scroll as u128) <= 0xffff * 0xffff_ffff_ffff_ffff) by (nonlinear_arith)
            requires
                height - scroll_height <= 0xffff,
                self.scroll <= 0xffff_ffff_ffff_ffff,
                height - scroll_height >= 0,
        ;
        let scroll_line: u128 = (height - scroll_height) * (self.scroll as u128) / steps;
        assert(scroll_height == thumb_height(height as nat, len as nat));
        assert(scroll_line == thumb_start(height as nat, len as nat, self.scroll as nat));
        let rows: u32 = if area.y as u32 + area.height as u32 <= 0x10000 {
            area.height as u32
        } else {
            0x10000 - area.y as u32
        };
        let x = area.right().saturating_sub(1);
        let ghost wanted = self@.scrollbar(area);
        let mut i: u32 = 0;
        assert(wanted.take(0) =~= Seq::empty());
        assert(old(frame)@.ops + Seq::<PaintView>::empty() =~= old(frame)@.ops);
        while i < rows
            invariant
                i <= rows,
                rows == MenuView::<T>::scrollbar_rows(area),
                rows <= 0x10000 - area.y,
                wanted == self@.scrollbar(area),
                wanted.len() == rows,
                len == self@.matches.len(),
                len > area.height,
                x == saturating_diff(area.spec_right(), 1),
                scroll_height == thumb_height(area.height as nat, len as nat),
                scroll_line == thumb_start(area.height as nat, len as nat, self@.scroll as nat),
                frame@ == old(frame)@.painted(wanted.take(i as int)),
            decreases rows - i,
        {
            let thumb = scroll_line <= i as u128 && (i as u128) < scroll_line + scroll_height;
            let ghost before = frame@;
            frame.paint(
                Paint::Glyph {
                    x,
                    y: (area.y as u32 + i) as u16,
                    symbol: '\u{2590}',
                    style: Scope::MenuScroll,
                    part: if thumb { ColorPart::Foreground } else { ColorPart::Background },
                },
            );
            assert(wanted.take(i + 1) =~= wanted.take(i as int).push(wanted[i as int]));
            assert(before.ops + seq![wanted[i as int]] =~= old(frame)@.ops + wanted.take(i + 1));
            i += 1;
        }
        assert(wanted.take(i as int) =~= wanted);
    }
}

impl<T: Item + PartialEq, F: Fn(&Editor, Option<&T>, MenuEvent)> Menu<T, F> {
    /// Puts `new_option` in the place of the first option that equals `old_option`. The
    /// matches stay as they are.
    pub fn replace_option(&mut self, old_option: T, new_option: T)
        ensures
            T::obeys_eq_spec() ==> final(self)@ == old(self)@.replaced(old_option, new_option, 0),
            final(self)@ == old(self)@ || exists|i: int|
                0 <= i < old(self)@.options.len() && final(self)@ == (MenuView {
                    options: #[trigger] old(self)@.options.update(i, new_option),
                    ..old(self)@
                }),
    {
        proof {
            use_type_invariant(&*self);
        }
        let mut i: usize = 0;
        while i < self.options.len()
            invariant
                i <= self.options.len(),
                *self == *old(self),
                T::obeys_eq_spec() ==> old(self)@.replaced(old_option, new_option, 0) == old(self)@.replaced(
                    old_option,
                    new_option,
                    i as int,
                ),
            decreases self.options.len() - i,
        {
            if old_option.eq(&self.options[i]) {
                proof {
                    use_type_invariant(&*self);
                }
                self.options[i] = new_option;
                assert(self@.options =~= old(self)@.options.update(i as int, new_option));
                return ;
            }
            i += 1;
        }
    }
}

impl<T: Item, F: Fn(&Editor, Option<&T>, MenuEvent)> Component for Menu<T, F> {
    open spec fn handled(v: MenuView<T>, event: Event, cx: ContextView) -> (
        MenuView<T>,
        EventResultView<MenuView<T>>,
        ContextView,
    ) {
        match event {
            Event::Key(key) => (v.keyed(key).0, v.keyed(key).1, cx),
            _ => (v, EventResultView::Ignored(None), cx),
        }
    }

    /// Takes a key as [`Menu::handle_key`] says, and tells the owner: where `handle_key`
    /// answers an event for the owner, `callback_fn` is called with the editor, the option
    /// that is selected after the key, and that event. The contract speaks of the menu,
    /// the answer and the context only; that the owner was told has no clause to stand in,
    /// so what is told is stated at `handle_key` and [`Menu::selection`].
    fn handle_event(&mut self, event: &Event, cx: &mut Context) -> (result: EventResult<Self>) {
        match event {
            Event::Key(key) => {
                let (result, told) = self.handle_key(*key);
                proof {
                    use_type_invariant(&*self);
                }
                match told {
                    Some(menu_event) => {
                        (self.callback_fn)(&cx.editor, self.selection(), menu_event);
                    },
                    None => {},
                }
                result
            },
            _ => EventResult::Ignored(None),
        }
    }

    open spec fn updates(v: MenuView<T>) -> bool {
        true
    }

    fn should_update(&self) -> (update: bool) {
        true
    }

    open spec fn rendered(v: MenuView<T>, area: Rect, cx: ContextView) -> (MenuView<T>, Seq<PaintView>, ContextView) {
        (v, v.paints(area), cx)
    }

    fn render(&mut self, area: Rect, frame: &mut Surface, cx: &mut Context) {
        proof {
            use_type_invariant(&*self);
        }
        let ghost start = frame@;
        frame.paint(Paint::Clear { area, style: Scope::Menu });
        let rows = self.matched_rows();
        let widths = copy_widths(&self.widths);
        frame.paint(
            Paint::Table {
                area: area.clip_left(1).clip_right(1),
                rows,
                widths,
                style: Scope::Menu,
                highlight: Scope::MenuSelected,
                offset: self.scroll,
                selected: self.cursor,
            },
        );
        match self.cursor {
            Some(cursor) => {
                if self.scroll <= cursor && cursor - self.scroll < area.height as usize && area.y as usize + (
                cursor - self.scroll) <= 0xffff {
                    let y = (area.y as usize + (cursor - self.scroll)) as u16;
                    frame.paint(Paint::Style { x: area.left(), y, style: Scope::MenuSelected });
                    frame.paint(
                        Paint::Style { x: area.right().saturating_sub(1), y, style: Scope::MenuSelected },
                    );
                }
            },
            None => {},
        }
        assert(frame@.ops =~= start.ops + seq![
            PaintView::Clear { area, style: Scope::Menu },
            PaintView::Table {
                area: area.spec_clip_left(1).spec_clip_right(1),
                rows: self@.matched_rows(),
                widths: self@.widths,
                style: Scope::Menu,
                highlight: Scope::MenuSelected,
                offset: self@.scroll,
                selected: self@.cursor,
            },
        ] + self@.highlight(area));
        let ghost middle = frame@;
        self.render_scrollbar(area, frame);
        assert(frame@.ops =~= start.ops + self@.paints(area));
    }

    open spec fn paints_ext(v: MenuView<T>) -> bool {
        false
    }

    open spec fn rendered_ext(v: MenuView<T>, cx: ContextExtView) -> (MenuView<T>, ContextExtView) {
        (v, cx)
    }

    /// A menu cannot paint on a surface of its own.
    fn render_ext(&mut self, cx: &mut ContextExt) {
        vstd::pervasive::unreached()
    }

    open spec fn cursor_at(v: MenuView<T>, area: Rect, editor: EditorView) -> (Option<Position>, CursorKind) {
        (None, CursorKind::Hidden)
    }

    fn cursor(&self, area: Rect, editor: &Editor) -> (at: (Option<Position>, CursorKind)) {
        (None, CursorKind::Hidden)
    }

    open spec fn cursor_anchors(v: MenuView<T>, editor: EditorView) -> Option<(Seq<Position>, Seq<char>)> {
        None
    }

    fn cursor_ext(&self, editor: &Editor) -> (anchors: Option<(Vec<Position>, &str)>) {
        None
    }

    open spec fn sized(v: MenuView<T>, viewport: (u16, u16)) -> (MenuView<T>, Option<(u16, u16)>) {
        (v.sized(viewport), Some(v.sized(viewport).size))
    }

    fn required_size(&mut self, viewport: (u16, u16)) -> (size: Option<(u16, u16)>) {
        if viewport.0 != self.viewport.0 || viewport.1 != self.viewport.1 || self.recalculate {
            self.recalculate_size(viewport);
        }
        Some(self.size)
    }

    open spec fn kind_of(v: MenuView<T>) -> Seq<char> {
        "Menu"@
    }

    fn kind(&self) -> (name: &'static str) {
        "Menu"
    }

    open spec fn id_of(v: MenuView<T>) -> Option<Seq<char>> {
        Some("menu-component"@)
    }

    fn id(&self) -> (id: Option<&'static str>) {
        Some("menu-component")
    }
}

/// Matching the options against the same pattern again changes nothing: the same matches
/// come out in the same order.
pub proof fn lemma_score_twice<T: Item>(v: MenuView<T>, pattern: Seq<char>)
    ensures
        v.scored(pattern).scored(pattern) == v.scored(pattern),
{
    assert(v.scored(pattern).scores(pattern) =~= v.scores(pattern));
}

/// After matching, the menu holds exactly the options that match, each with its score, the
/// higher score first and options of the same score in the order they came in; and the
/// menu is well formed.
pub proof fn lemma_scored<T: Item>(v: MenuView<T>, pattern: Seq<char>)
    requires
        v.options.len() <= usize::MAX,
    ensures
        is_ranking(v.scored(pattern).matches, v.scores(pattern)),
        v.scored(pattern).wf(),
{
    lemma_ranking(v.scores(pattern));
}

/// The selection goes round: down from no selection to the first row, down from the last
/// row to the first, and up from the first row to the last.
pub proof fn lemma_selection_goes_round<T: Item>(v: MenuView<T>)
    requires
        0 < v.matches.len() <= usize::MAX,
    ensures
        v.cursor.is_none() ==> v.moved_down().cursor == Some(0usize),
        v.cursor == Some((v.matches.len() - 1) as usize) ==> v.moved_down().cursor == Some(0usize),
        v.cursor == Some(0usize) ==> v.moved_up().cursor == Some((v.matches.len() - 1) as usize),
        v.cursor.is_none() ==> v.moved_up().cursor == Some((v.matches.len() - 1) as usize),
{
    let len = v.matches.len() as int;
    assert((len - 1 + 1) % len == 0) by (nonlinear_arith)
        requires
            len > 0,
    ;
    assert((0 + len - 1) % len == len - 1) by (nonlinear_arith)
        requires
            len > 0,
    ;
}

/// Moving the selection keeps a well-formed menu well formed, and afterwards a row is
/// selected unless there is nothing to select.
pub proof fn lemma_moves_stay_inside<T: Item>(v: MenuView<T>)
    requires
        v.wf(),
        v.matches.len() <= usize::MAX,
    ensures
        v.moved_up().wf(),
        v.moved_down().wf(),
        v.matches.len() > 0 ==> v.moved_up().cursor.is_some() && v.moved_down().cursor.is_some(),
{
    let len = v.matches.len() as int;
    if len > 0 {
        match v.cursor {
            Some(c) => {
                assert(0 <= (c + len - 1) % len < len) by (nonlinear_arith)
                    requires
                        len > 0,
                        c >= 0,
                ;
                assert(0 <= (c + 1) % len < len) by (nonlinear_arith)
                    requires
                        len > 0,
                        c >= 0,
                ;
            },
            None => {},
        }
    }
}

/// After the rows shown were moved to the selection, the selected row is among the rows
/// shown, wherever the window was before, as long as the window has a row at all.
pub proof fn lemma_selection_is_shown(cursor: int, scroll: int, height: int)
    requires
        0 <= cursor,
        0 <= scroll,
        0 < height,
    ensures
        adjusted_scroll(cursor, scroll, height) <= cursor < adjusted_scroll(cursor, scroll, height) + height,
        scroll <= cursor < scroll + height ==> adjusted_scroll(cursor, scroll, height) == scroll,
{
}

/// With one match, and that one selected, every key but Escape, Control-C and Enter closes
/// the menu and is passed on, and the menu tells its owner nothing.
pub proof fn lemma_single_match_closes<T: Item>(v: MenuView<T>, key: KeyEvent)
    requires
        v.matches.len() == 1,
        v.cursor.is_some(),
        key != KeyEvent::spec_key(KeyCode::Esc),
        key != KeyEvent::spec_ctrl('c'),
        key != KeyEvent::spec_key(KeyCode::Enter),
    ensures
        v.keyed(key) == (v, EventResultView::Ignored(Some(CallbackView::<MenuView<T>>::Pop)), None::<MenuEvent>),
{
}

} // verus!
