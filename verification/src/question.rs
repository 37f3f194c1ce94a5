//! A pending question put to the user: one question at a time, options
//! chosen with the arrow keys and space, or a typed answer on the last row.

use vstd::prelude::*;
use crate::num::{decimal, decimal_string};
use crate::styled::{plain_style, spans_view, span_lines, tone_style, StyledSpan, TextStyle, Tone};
use crate::text::{join, join_str, push_char, views};

verus! {

/// One question: a short header, the question, its options (label and
/// description) and whether several options may be picked.
pub struct QuestionItem {
    pub header: String,
    pub question: String,
    pub options: Vec<(String, String)>,
    pub multiple: bool,
}

/// An option by its view.
pub open spec fn option_views(v: Seq<(String, String)>) -> Seq<(Seq<char>, Seq<char>)> {
    v.map_values(|o: (String, String)| (o.0@, o.1@))
}

/// A question by its view.
pub struct ItemView {
    pub header: Seq<char>,
    pub question: Seq<char>,
    pub options: Seq<(Seq<char>, Seq<char>)>,
    pub multiple: bool,
}

impl View for QuestionItem {
    type V = ItemView;

    open spec fn view(&self) -> ItemView {
        ItemView {
            header: self.header@,
            question: self.question@,
            options: option_views(self.options@),
            multiple: self.multiple,
        }
    }
}

pub open spec fn item_views(v: Seq<QuestionItem>) -> Seq<ItemView> {
    v.map_values(|i: QuestionItem| i@)
}

/// The state of a pending question by its view.
pub struct QuestionView {
    pub items: Seq<ItemView>,
    pub current: nat,
    pub selected: nat,
    pub picked: Seq<usize>,
    pub answers: Seq<Seq<char>>,
    pub typing: Option<Seq<char>>,
}

/// Questions being answered one after another; every operation keeps
/// `question_ok`.
pub struct PendingQuestion {
    items: Vec<QuestionItem>,
    current: usize,
    selected: usize,
    picked: Vec<usize>,
    answers: Vec<String>,
    typing: Option<String>,
}

/// Whether the picks are distinct option indices below `n`.
pub open spec fn picks_ok(picked: Seq<usize>, n: nat) -> bool {
    &&& forall|k: int| 0 <= k < picked.len() ==> picked[k] < n
    &&& forall|a: int, b: int| 0 <= a < b < picked.len() ==> picked[a] != picked[b]
}

/// What every pending question keeps: there is a question; while one is
/// open, one answer is recorded per earlier question, the selected row is
/// an option or the typed-answer row below them, and the picks are
/// distinct options.
pub open spec fn question_ok(v: QuestionView) -> bool {
    &&& v.items.len() > 0
    &&& v.current <= v.items.len()
    &&& forall|i: int| 0 <= i < v.items.len() ==> #[trigger] v.items[i].options.len() < usize::MAX
    &&& v.current < v.items.len() ==> {
        &&& v.answers.len() == v.current
        &&& v.selected <= v.items[v.current as int].options.len()
        &&& picks_ok(v.picked, v.items[v.current as int].options.len())
    }
}

/// The labels of the picked options, in option order.
pub open spec fn picked_labels(opts: Seq<(Seq<char>, Seq<char>)>, picked: Seq<usize>, k: int) -> Seq<Seq<char>>
    decreases k,
{
    if k <= 0 || k > opts.len() {
        seq![]
    } else {
        let r = picked_labels(opts, picked, k - 1);
        if picked.contains((k - 1) as usize) {
            r.push(opts[k - 1].0)
        } else {
            r
        }
    }
}

/// The answer given by confirming an option row: the selected option's
/// label, or for a multiple-choice question with picks, the picked labels
/// in option order joined by commas.
pub open spec fn spec_choice(item: ItemView, selected: nat, picked: Seq<usize>) -> Seq<char> {
    if item.multiple && picked.len() > 0 {
        join(picked_labels(item.options, picked, item.options.len() as int), ", "@)
    } else {
        item.options[selected as int].0
    }
}

/// How a key press is read while a question is open.
#[derive(Clone, Copy, Debug, PartialEq, Eq, Structural)]
pub enum QuestionKey {
    Esc,
    Enter,
    Backspace,
    Up,
    Down,
    Char(char),
    Other,
}

/// What a key press leads to.
#[derive(Debug)]
pub enum QuestionOutcome {
    /// Nothing to send yet.
    Pending,
    /// The user gave up; the asker is told so.
    Cancel,
    /// Every question is answered; these are the answers.
    Done(Vec<String>),
}

/// A key press's outcome by its view.
pub enum OutcomeView {
    Pending,
    Cancel,
    Done(Seq<Seq<char>>),
}

pub open spec fn outcome_view(r: QuestionOutcome) -> OutcomeView {
    match r {
        QuestionOutcome::Pending => OutcomeView::Pending,
        QuestionOutcome::Cancel => OutcomeView::Cancel,
        QuestionOutcome::Done(v) => OutcomeView::Done(views(v@)),
    }
}

/// The selection one row down, from the last row to the first.
pub open spec fn moved_down(o: QuestionView) -> QuestionView {
    QuestionView {
        selected: ((o.selected + 1) % (o.items[o.current as int].options.len() + 1)) as nat,
        ..o
    }
}

/// The selection one row up, from the first row to the last.
pub open spec fn moved_up(o: QuestionView) -> QuestionView {
    QuestionView {
        selected: if o.selected == 0 {
            o.items[o.current as int].options.len()
        } else {
            (o.selected - 1) as nat
        },
        ..o
    }
}

/// Space on a row: on an option of a multiple-choice question the option
/// is picked or unpicked, the picks kept as a set; else nothing changes.
pub open spec fn toggled(o: QuestionView, f: QuestionView) -> bool {
    let item = o.items[o.current as int];
    if !item.multiple || o.selected >= item.options.len() {
        f == o
    } else {
        &&& f == (QuestionView { picked: f.picked, ..o })
        &&& f.picked.to_set() == if o.picked.contains(o.selected as usize) {
            o.picked.to_set().remove(o.selected as usize)
        } else {
            o.picked.to_set().insert(o.selected as usize)
        }
    }
}

/// `answer` recorded for the open question: the next question opens with
/// the first row selected; after the last, all the answers are handed
/// back.
pub open spec fn answered(o: QuestionView, answer: Seq<char>, f: QuestionView, out: OutcomeView) -> bool {
    let answers = o.answers.push(answer);
    &&& f.current == o.current + 1
    &&& f.items == o.items
    &&& f.selected == 0
    &&& f.picked == Seq::<usize>::empty()
    &&& f.typing is None
    &&& if o.current + 1 >= o.items.len() {
        out == OutcomeView::Done(answers) && f.answers == Seq::<Seq<char>>::empty()
    } else {
        out == OutcomeView::Pending && f.answers == answers
    }
}

/// What a key press does while the question is open. While typing: Esc
/// leaves typing, Enter records the typed text, Backspace takes off its
/// last character, a character is added to it. Otherwise: Esc cancels,
/// the arrows move the selection, space picks, and Enter on the
/// typed-answer row starts typing and on an option records its answer
/// (see `spec_choice`). Other keys do nothing.
pub open spec fn key_effect(o: QuestionView, key: QuestionKey, f: QuestionView, out: OutcomeView) -> bool {
    match o.typing {
        Some(t) => match key {
            QuestionKey::Esc => out == OutcomeView::Pending && f == (QuestionView { typing: None, ..o }),
            QuestionKey::Enter => answered(o, t, f, out),
            QuestionKey::Backspace => out == OutcomeView::Pending && f == (QuestionView {
                typing: Some(
                    if t.len() > 0 {
                        t.drop_last()
                    } else {
                        t
                    },
                ),
                ..o
            }),
            QuestionKey::Char(c) => out == OutcomeView::Pending && f == (QuestionView { typing: Some(t.push(c)), ..o }),
            _ => out == OutcomeView::Pending && f == o,
        },
        None => match key {
            QuestionKey::Esc => out == OutcomeView::Cancel && f == o,
            QuestionKey::Up => out == OutcomeView::Pending && f == moved_up(o),
            QuestionKey::Down => out == OutcomeView::Pending && f == moved_down(o),
            QuestionKey::Char(c) => out == OutcomeView::Pending && if c == ' ' {
                toggled(o, f)
            } else {
                f == o
            },
            QuestionKey::Enter => if o.selected == o.items[o.current as int].options.len() {
                out == OutcomeView::Pending && f == (QuestionView { typing: Some(Seq::empty()), ..o })
            } else {
                answered(o, spec_choice(o.items[o.current as int], o.selected, o.picked), f, out)
            },
            _ => out == OutcomeView::Pending && f == o,
        },
    }
}

impl View for PendingQuestion {
    type V = QuestionView;

    closed spec fn view(&self) -> QuestionView {
        QuestionView {
            items: item_views(self.items@),
            current: self.current as nat,
            selected: self.selected as nat,
            picked: self.picked@,
            answers: views(self.answers@),
            typing: match self.typing {
                Some(t) => Some(t@),
                None => None,
            },
        }
    }
}

impl PendingQuestion {
    /// Whether every question has been answered.
    pub open spec fn done(v: QuestionView) -> bool {
        v.current >= v.items.len()
    }

    /// A pending question over the given questions, starting at the first;
    /// none when there are no questions.
    pub fn from_items(items: Vec<QuestionItem>) -> (r: Option<Self>)
        requires
            forall|i: int| 0 <= i < items.len() ==> #[trigger] items@[i].options.len() < usize::MAX,
        ensures
            items.len() == 0 ==> r is None,
            items.len() > 0 ==> (r matches Some(q) && q@ == QuestionView {
                items: item_views(items@),
                current: 0,
                selected: 0,
                picked: seq![],
                answers: seq![],
                typing: None,
            }),
            r matches Some(q) ==> question_ok(q@),
    {
        if items.len() == 0 {
            return None;
        }
        let ghost orig = items@;
        assert(forall|i: int| 0 <= i < orig.len() ==> #[trigger] orig[i].options.len() < usize::MAX);
        let q = PendingQuestion {
            items,
            current: 0,
            selected: 0,
            picked: Vec::new(),
            answers: Vec::new(),
            typing: None,
        };
        proof {
            assert(views(q.answers@) =~= Seq::<Seq<char>>::empty());
            assert forall|i: int| 0 <= i < q@.items.len() implies #[trigger] q@.items[i].options.len()
                < usize::MAX by {
                assert(q.items@ == orig);
                assert(q@.items.len() == orig.len());
                assert(orig[i].options.len() < usize::MAX);
                assert(q@.items[i] == orig[i]@);
                assert(orig[i]@.options.len() == orig[i].options@.len());
            }
        }
        Some(q)
    }

    pub fn is_done(&self) -> (r: bool)
        ensures
            r == Self::done(self@),
    {
        self.current >= self.items.len()
    }

    /// The open question.
    pub fn item(&self) -> (r: &QuestionItem)
        requires
            question_ok(self@),
            !Self::done(self@),
        ensures
            r@ == self@.items[self@.current as int],
    {
        &self.items[self.current]
    }

    pub fn current_index(&self) -> (r: usize)
        ensures
            r == self@.current,
    {
        self.current
    }

    pub fn question_count(&self) -> (r: usize)
        ensures
            r == self@.items.len(),
    {
        self.items.len()
    }

    pub fn selected(&self) -> (r: usize)
        ensures
            r == self@.selected,
    {
        self.selected
    }

    /// Whether option `index` is among the picks.
    pub fn is_picked(&self, index: usize) -> (r: bool)
        ensures
            r == self@.picked.contains(index),
    {
        let mut k: usize = 0;
        while k < self.picked.len()
            invariant
                k <= self.picked.len(),
                forall|j: int| 0 <= j < k ==> self.picked@[j] != index,
            decreases self.picked.len() - k,
        {
            if self.picked[k] == index {
                proof {
                    assert(self.picked@[k as int] == index);
                }
                return true;
            }
            k += 1;
        }
        false
    }

    /// The answer being typed, if the typed-answer row was entered.
    pub fn typing(&self) -> (r: Option<&str>)
        ensures
            r matches Some(t) ==> self@.typing == Some(t@),
            r is None ==> self@.typing is None,
    {
        match &self.typing {
            Some(t) => Some(t.as_str()),
            None => None,
        }
    }

    /// Rows of the open question: its options and the typed-answer row.
    pub fn row_count(&self) -> (r: usize)
        requires
            question_ok(self@),
            !Self::done(self@),
        ensures
            r == self@.items[self@.current as int].options.len() + 1,
    {
        self.items[self.current].options.len() + 1
    }

    /// The row for a typed answer: the one after the options.
    pub fn custom_index(&self) -> (r: usize)
        requires
            question_ok(self@),
            !Self::done(self@),
        ensures
            r == self@.items[self@.current as int].options.len(),
    {
        self.items[self.current].options.len()
    }

    /// Moves down a row, from the last to the first.
    pub fn next(&mut self)
        requires
            question_ok(old(self)@),
            !Self::done(old(self)@),
        ensures
            final(self)@ == (QuestionView {
                selected: ((old(self)@.selected + 1) % (old(self)@.items[old(
                    self,
                )@.current as int].options.len() + 1)) as nat,
                ..old(self)@
            }),
            question_ok(final(self)@),
    {
        let count = self.row_count();
        self.selected = (self.selected + 1) % count;
    }

    /// Moves up a row, from the first to the last.
    pub fn previous(&mut self)
        requires
            question_ok(old(self)@),
            !Self::done(old(self)@),
        ensures
            final(self)@ == (QuestionView {
                selected: if old(self)@.selected == 0 {
                    old(self)@.items[old(self)@.current as int].options.len()
                } else {
                    (old(self)@.selected - 1) as nat
                },
                ..old(self)@
            }),
            question_ok(final(self)@),
    {
        let count = self.row_count();
        self.selected = if self.selected == 0 {
            count - 1
        } else {
            self.selected - 1
        };
    }

    /// Picks or unpicks the selected option of a multiple-choice question;
    /// does nothing on a single-choice question or the typed-answer row.
    pub fn toggle_pick(&mut self)
        requires
            question_ok(old(self)@),
            !Self::done(old(self)@),
        ensures
            ({
                let o = old(self)@;
                let item = o.items[o.current as int];
                if !item.multiple || o.selected >= item.options.len() {
                    final(self)@ == o
                } else {
                    &&& final(self)@ == (QuestionView { picked: final(self)@.picked, ..o })
                    &&& final(self)@.picked.to_set() == if o.picked.contains(o.selected as usize) {
                        o.picked.to_set().remove(o.selected as usize)
                    } else {
                        o.picked.to_set().insert(o.selected as usize)
                    }
                }
            }),
            question_ok(final(self)@),
    {
        let multiple = self.items[self.current].multiple;
        let n = self.items[self.current].options.len();
        if !multiple || self.selected >= n {
            return;
        }
        let sel = self.selected;
        let ghost old_picked = self.picked@;
        let mut k: usize = 0;
        while k < self.picked.len()
            invariant
                self.picked@ == old_picked,
                k <= old_picked.len(),
                forall|j: int| 0 <= j < k ==> old_picked[j] != sel,
            ensures
                k <= old_picked.len(),
                forall|j: int| 0 <= j < k ==> old_picked[j] != sel,
                k < old_picked.len() ==> old_picked[k as int] == sel,
            decreases self.picked.len() - k,
        {
            if self.picked[k] == sel {
                break;
            }
            k += 1;
        }
        if k < self.picked.len() {
            self.picked.remove(k);
            proof {
                assert(old_picked.contains(sel)) by {
                    assert(old_picked[k as int] == sel);
                }
                assert(self.picked@.to_set() =~= old_picked.to_set().remove(sel)) by {
                    assert forall|x: usize| #[trigger] self.picked@.contains(x) <==> (old_picked.contains(x) && x != sel) by {
                        if self.picked@.contains(x) {
                            let j = choose|j: int| 0 <= j < self.picked@.len() && self.picked@[j] == x;
                            if j < k {
                                assert(old_picked[j] == x);
                            } else {
                                assert(old_picked[j + 1] == x);
                            }
                        }
                        if old_picked.contains(x) && x != sel {
                            let j = choose|j: int| 0 <= j < old_picked.len() && old_picked[j] == x;
                            if j < k {
                                assert(self.picked@[j] == x);
                            } else {
                                assert(j != k);
                                assert(self.picked@[j - 1] == x);
                            }
                        }
                    }
                }
            }
        } else {
            self.picked.push(sel);
            proof {
                assert(!old_picked.contains(sel));
                assert(self.picked@.to_set() =~= old_picked.to_set().insert(sel)) by {
                    assert forall|x: usize| #[trigger] self.picked@.contains(x) <==> (old_picked.contains(x) || x == sel) by {
                        if self.picked@.contains(x) {
                            let j = choose|j: int| 0 <= j < self.picked@.len() && self.picked@[j] == x;
                            if j < old_picked.len() {
                                assert(old_picked[j] == x);
                            }
                        }
                        if old_picked.contains(x) {
                            let j = choose|j: int| 0 <= j < old_picked.len() && old_picked[j] == x;
                            assert(self.picked@[j] == x);
                        }
                        if x == sel {
                            assert(self.picked@[old_picked.len() as int] == x);
                        }
                    }
                }
            }
        }
    }

    /// Records the answer to the open question and moves to the next one;
    /// true when that was the last question.
    pub fn record(&mut self, answer: String) -> (r: bool)
        requires
            question_ok(old(self)@),
            !Self::done(old(self)@),
        ensures
            final(self)@ == (QuestionView {
                current: old(self)@.current + 1,
                selected: 0,
                picked: seq![],
                answers: old(self)@.answers.push(answer@),
                typing: None,
                ..old(self)@
            }),
            r == Self::done(final(self)@),
            question_ok(final(self)@),
    {
        let ghost a = views(self.answers@);
        assert(self@.items.len() == self.items.len());
        self.answers.push(answer);
        self.current = self.current + 1;
        self.selected = 0;
        self.picked.clear();
        self.typing = None;
        proof {
            assert(views(self.answers@) =~= a.push(answer@));
        }
        self.current >= self.items.len()
    }

    fn take_answers(&mut self) -> (r: Vec<String>)
        requires
            question_ok(old(self)@),
            Self::done(old(self)@),
        ensures
            views(r@) == old(self)@.answers,
            final(self)@ == (QuestionView { answers: seq![], ..old(self)@ }),
    {
        let mut r: Vec<String> = Vec::new();
        std::mem::swap(&mut r, &mut self.answers);
        proof {
            assert(views(self.answers@) =~= Seq::<Seq<char>>::empty());
        }
        r
    }

    fn choice_text(&self) -> (r: String)
        requires
            question_ok(self@),
            !Self::done(self@),
            self@.selected < self@.items[self@.current as int].options.len(),
        ensures
            r@ == spec_choice(
                self@.items[self@.current as int],
                self@.selected,
                self@.picked,
            ),
    {
        let item = &self.items[self.current];
        let ghost iv = item@;
        if item.multiple && self.picked.len() > 0 {
            let n = item.options.len();
            let mut labels: Vec<String> = Vec::new();
            let mut k: usize = 0;
            while k < n
                invariant
                    iv == self@.items[self@.current as int],
                    item@ == iv,
                    n == iv.options.len(),
                    k <= n,
                    views(labels@) == picked_labels(iv.options, self@.picked, k as int),
                decreases n - k,
            {
                if self.is_picked(k) {
                    let ghost before = views(labels@);
                    let l = item.options[k].0.clone();
                    labels.push(l);
                    proof {
                        assert(iv.options[k as int].0 == item.options@[k as int].0@);
                        assert(views(labels@) =~= before.push(l@));
                    }
                }
                k += 1;
            }
            join_str(&labels, ", ")
        } else {
            proof {
                assert(iv.options[self@.selected as int].0 == item.options@[self.selected as int].0@);
            }
            item.options[self.selected].0.clone()
        }
    }

    /// Enter on a row: the typed-answer row starts typing; an option row
    /// records its answer (see `spec_choice`), and after the last question
    /// hands back all the answers.
    pub fn confirm(&mut self) -> (r: Option<Vec<String>>)
        requires
            question_ok(old(self)@),
            !Self::done(old(self)@),
        ensures
            ({
                let o = old(self)@;
                let item = o.items[o.current as int];
                if o.selected == item.options.len() {
                    r is None && final(self)@ == (QuestionView { typing: Some(Seq::empty()), ..o })
                } else {
                    let answers = o.answers.push(spec_choice(item, o.selected, o.picked));
                    &&& final(self)@.current == o.current + 1
                    &&& final(self)@.items == o.items
                    &&& final(self)@.selected == 0
                    &&& final(self)@.picked == Seq::<usize>::empty()
                    &&& final(self)@.typing is None
                    &&& if o.current + 1 >= o.items.len() {
                        r matches Some(v) && views(v@) == answers && v.len() == o.items.len()
                            && final(self)@.answers == Seq::<Seq<char>>::empty()
                    } else {
                        r is None && final(self)@.answers == answers
                    }
                }
            }),
            question_ok(final(self)@),
    {
        if self.selected == self.custom_index() {
            self.typing = Some(String::new());
            return None;
        }
        let answer = self.choice_text();
        if self.record(answer) {
            let v = self.take_answers();
            proof {
                assert(views(v@).len() == v@.len());
            }
            return Some(v);
        }
        None
    }

    /// Enter while typing: records the typed text as the answer, and after
    /// the last question hands back all the answers.
    pub fn commit_custom(&mut self) -> (r: Option<Vec<String>>)
        requires
            question_ok(old(self)@),
            !Self::done(old(self)@),
        ensures
            ({
                let o = old(self)@;
                let text = match o.typing {
                    Some(t) => t,
                    None => Seq::empty(),
                };
                let answers = o.answers.push(text);
                &&& final(self)@.current == o.current + 1
                &&& final(self)@.items == o.items
                &&& final(self)@.selected == 0
                &&& final(self)@.picked == Seq::<usize>::empty()
                &&& final(self)@.typing is None
                &&& if o.current + 1 >= o.items.len() {
                    r matches Some(v) && views(v@) == answers && v.len() == o.items.len()
                        && final(self)@.answers == Seq::<Seq<char>>::empty()
                } else {
                    r is None && final(self)@.answers == answers
                }
            }),
            question_ok(final(self)@),
    {
        let text = match self.typing.take() {
            Some(t) => t,
            None => String::new(),
        };
        if self.record(text) {
            let v = self.take_answers();
            proof {
                assert(views(v@).len() == v@.len());
            }
            return Some(v);
        }
        None
    }

    /// What a key press does while the question is open: while typing,
    /// Esc leaves typing, Enter submits the text, Backspace and characters
    /// edit it; otherwise Esc cancels, the arrows move, space picks and
    /// Enter confirms.
    pub fn handle_key(&mut self, key: QuestionKey) -> (r: QuestionOutcome)
        requires
            question_ok(old(self)@),
            !Self::done(old(self)@),
        ensures
            question_ok(final(self)@),
            key_effect(old(self)@, key, final(self)@, outcome_view(r)),
            r matches QuestionOutcome::Done(v) ==> v.len() == old(self)@.items.len(),
    {
        if self.typing.is_some() {
            match key {
                QuestionKey::Esc => {
                    self.typing = None;
                    QuestionOutcome::Pending
                },
                QuestionKey::Enter => match self.commit_custom() {
                    Some(answers) => QuestionOutcome::Done(answers),
                    None => QuestionOutcome::Pending,
                },
                QuestionKey::Backspace => {
                    let t = self.typing.take().unwrap();
                    let v = crate::text::chars_of(t.as_str());
                    let kept = if v.len() > 0 {
                        crate::text::string_of_range(&v, 0, v.len() - 1)
                    } else {
                        t
                    };
                    self.typing = Some(kept);
                    QuestionOutcome::Pending
                },
                QuestionKey::Char(ch) => {
                    let mut t = self.typing.take().unwrap();
                    push_char(&mut t, ch);
                    self.typing = Some(t);
                    QuestionOutcome::Pending
                },
                _ => QuestionOutcome::Pending,
            }
        } else {
            match key {
                QuestionKey::Esc => QuestionOutcome::Cancel,
                QuestionKey::Up => {
                    self.previous();
                    QuestionOutcome::Pending
                },
                QuestionKey::Down => {
                    self.next();
                    QuestionOutcome::Pending
                },
                QuestionKey::Char(' ') => {
                    self.toggle_pick();
                    QuestionOutcome::Pending
                },
                QuestionKey::Enter => match self.confirm() {
                    Some(answers) => QuestionOutcome::Done(answers),
                    None => QuestionOutcome::Pending,
                },
                _ => QuestionOutcome::Pending,
            }
        }
    }
}


/// Toggling the same option twice leaves the set of picks as it was.
pub proof fn lemma_toggle_twice(picked: Set<usize>, x: usize)
    ensures
        ({
            let once = if picked.contains(x) {
                picked.remove(x)
            } else {
                picked.insert(x)
            };
            let twice = if once.contains(x) {
                once.remove(x)
            } else {
                once.insert(x)
            };
            twice == picked
        }),
{
    if picked.contains(x) {
        assert(picked.remove(x).insert(x) =~= picked);
    } else {
        assert(picked.insert(x).remove(x) =~= picked);
    }
}


/// The title of the question box: the header and the question's place
/// among them, or `Question` and that place when there is no header.
pub open spec fn question_title(q: QuestionView) -> Seq<char> {
    let item = q.items[q.current as int];
    let place = decimal((q.current + 1) as nat) + "/"@ + decimal(q.items.len());
    if item.header.len() == 0 {
        " Question "@ + place + " "@
    } else {
        " "@ + item.header + " ("@ + place + ") "@
    }
}

/// The style of a row: the selected one in bold, when nothing is typed.
pub open spec fn row_style(selected: bool) -> TextStyle {
    if selected {
        TextStyle { bold: true, ..tone_style(Tone::DialogSelected) }
    } else {
        tone_style(Tone::Dialog)
    }
}

/// The lines of option `k`: the marker, the pick box of a
/// multiple-choice question and the label; then the description, indented
/// and muted, when there is one.
pub open spec fn option_rows(q: QuestionView, k: int) -> Seq<Seq<(Seq<char>, TextStyle)>> {
    let item = q.items[q.current as int];
    let selected = k == q.selected && q.typing is None;
    let marker = if selected { "› "@ } else { "  "@ };
    let check = if item.multiple {
        if q.picked.contains(k as usize) { "[x] "@ } else { "[ ] "@ }
    } else {
        seq![]
    };
    let head = seq![seq![(marker + check + item.options[k].0, row_style(selected))]];
    if item.options[k].1.len() > 0 {
        head.push(seq![("      "@ + item.options[k].1, tone_style(Tone::Muted))])
    } else {
        head
    }
}

/// The lines of the first `n` options.
pub open spec fn options_rows(q: QuestionView, n: int) -> Seq<Seq<(Seq<char>, TextStyle)>>
    decreases n,
{
    if n <= 0 {
        seq![]
    } else {
        options_rows(q, n - 1) + option_rows(q, n - 1)
    }
}

/// The lines of the question box: the question, muted; an empty line; the
/// options; the typed-answer row; the text being typed, if any; an empty
/// line; and a hint on the keys.
pub open spec fn spec_question_lines(q: QuestionView) -> Seq<Seq<(Seq<char>, TextStyle)>> {
    let item = q.items[q.current as int];
    let n = item.options.len() as int;
    let custom = q.selected == n && q.typing is None;
    let top = seq![seq![(item.question, tone_style(Tone::Muted))], seq![]];
    let custom_row = seq![seq![((if custom { "› "@ } else { "  "@ }) + "✎ Type your own answer"@, row_style(custom))]];
    let typed = match q.typing {
        Some(t) => seq![seq![], seq![("  > "@ + t, tone_style(Tone::DialogSelected))]],
        None => seq![],
    };
    let hint = if q.typing is Some {
        "Enter 确认输入 · Esc 返回选项"@
    } else if item.multiple {
        "↑/↓ 移动 · Enter/Space 勾选 · Done 行确认 · Esc 取消"@
    } else {
        "↑/↓ 移动 · Enter 选择 · Esc 取消"@
    };
    top + options_rows(q, n) + custom_row + typed + seq![seq![], seq![(hint, tone_style(Tone::Muted))]]
}

fn line_of(text: String, style: TextStyle) -> (r: Vec<StyledSpan>)
    ensures
        spans_view(r@) == seq![(text@, style)],
{
    let mut v: Vec<StyledSpan> = Vec::new();
    v.push(StyledSpan { text, style });
    proof {
        assert(spans_view(v@) =~= seq![(text@, style)]);
    }
    v
}

fn empty_line() -> (r: Vec<StyledSpan>)
    ensures
        spans_view(r@) == Seq::<(Seq<char>, TextStyle)>::empty(),
{
    let v: Vec<StyledSpan> = Vec::new();
    proof {
        assert(spans_view(v@) =~= Seq::<(Seq<char>, TextStyle)>::empty());
    }
    v
}

fn push_line(out: &mut Vec<Vec<StyledSpan>>, l: Vec<StyledSpan>)
    ensures
        span_lines(final(out)@) == span_lines(old(out)@).push(spans_view(l@)),
{
    out.push(l);
    proof {
        assert(span_lines(final(out)@) =~= span_lines(old(out)@).push(spans_view(l@)));
    }
}

fn row_style_exec(selected: bool) -> (r: TextStyle)
    ensures
        r == row_style(selected),
{
    if selected {
        TextStyle { bold: true, ..plain_style(Tone::DialogSelected) }
    } else {
        plain_style(Tone::Dialog)
    }
}

impl PendingQuestion {
    /// The title of the question box (see `question_title`).
    pub fn title(&self) -> (r: String)
        requires
            question_ok(self@),
            !Self::done(self@),
        ensures
            r@ == question_title(self@),
    {
        let item = self.item();
        proof {
            assert(self@.items.len() == self.items.len());
            assert(self.current < self.items.len());
        }
        let mut place = decimal_string((self.current + 1) as u64);
        place.append("/");
        place.append(decimal_string(self.items.len() as u64).as_str());
        if item.header.as_str().unicode_len() == 0 {
            let mut t = String::from_str(" Question ");
            t.append(place.as_str());
            t.append(" ");
            t
        } else {
            let mut t = String::from_str(" ");
            t.append(item.header.as_str());
            t.append(" (");
            t.append(place.as_str());
            t.append(") ");
            t
        }
    }

    /// The lines of the question box (see `spec_question_lines`).
    pub fn lines(&self) -> (r: Vec<Vec<StyledSpan>>)
        requires
            question_ok(self@),
            !Self::done(self@),
        ensures
            span_lines(r@) == spec_question_lines(self@),
    {
        let ghost q = self@;
        let item = self.item();
        let n = item.options.len();
        let typing = self.typing.is_some();
        let mut out: Vec<Vec<StyledSpan>> = Vec::new();
        push_line(&mut out, line_of(item.question.clone(), plain_style(Tone::Muted)));
        push_line(&mut out, empty_line());
        proof {
            assert(span_lines(out@) =~= seq![seq![(item@.question, tone_style(Tone::Muted))], seq![]]);
        }
        let ghost top = span_lines(out@);
        let mut k: usize = 0;
        while k < n
            invariant
                q == self@,
                question_ok(q),
                !Self::done(q),
                item@ == q.items[q.current as int],
                n == item@.options.len(),
                typing == (q.typing is Some),
                k <= n,
                span_lines(out@) == top + options_rows(q, k as int),
            decreases n - k,
        {
            let selected = k == self.selected && !typing;
            let mut text = String::from_str(if selected { "› " } else { "  " });
            if item.multiple {
                text.append(if self.is_picked(k) { "[x] " } else { "[ ] " });
            }
            text.append(item.options[k].0.as_str());
            proof {
                assert(item@.options[k as int] == (item.options@[k as int].0@, item.options@[k as int].1@));
            }
            push_line(&mut out, line_of(text, row_style_exec(selected)));
            if item.options[k].1.as_str().unicode_len() > 0 {
                let mut d = String::from_str("      ");
                d.append(item.options[k].1.as_str());
                push_line(&mut out, line_of(d, plain_style(Tone::Muted)));
            }
            proof {
                assert(span_lines(out@) =~= top + options_rows(q, k as int) + option_rows(q, k as int));
                assert(options_rows(q, k + 1) == options_rows(q, k as int) + option_rows(q, k as int));
            }
            k += 1;
        }
        let custom = self.selected == n && !typing;
        let mut c = String::from_str(if custom { "› " } else { "  " });
        c.append("✎ Type your own answer");
        push_line(&mut out, line_of(c, row_style_exec(custom)));
        match &self.typing {
            Some(t) => {
                push_line(&mut out, empty_line());
                let mut l = String::from_str("  > ");
                l.append(t.as_str());
                push_line(&mut out, line_of(l, plain_style(Tone::DialogSelected)));
            },
            None => {},
        }
        push_line(&mut out, empty_line());
        let hint: &str = if typing {
            "Enter 确认输入 · Esc 返回选项"
        } else if item.multiple {
            "↑/↓ 移动 · Enter/Space 勾选 · Done 行确认 · Esc 取消"
        } else {
            "↑/↓ 移动 · Enter 选择 · Esc 取消"
        };
        push_line(&mut out, line_of(String::from_str(hint), plain_style(Tone::Muted)));
        proof {
            assert(span_lines(out@) =~= spec_question_lines(q));
        }
        out
    }
}

} // verus!
