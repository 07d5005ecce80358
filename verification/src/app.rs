//! The state of the interface and the one place where it changes:
//! the form for a new timer, the timer table and its selection, and
//! `App::update`, which applies an `Action`.

use vstd::prelude::*;
use vstd::string::*;
use crate::action::Action;
use crate::text::{pop_char, push_char, trim, trimmed};
use crate::timer::{
    clock_time, clock_time_seconds, interval_fits, interval_seconds, law_clock_time_in_day,
    law_interval_whole_minutes, law_short_interval_fits, parse_clock_time,
    parse_interval, Timer, TimerView,
};

verus! {

/// Width of the name field, in characters.
pub const NAME_LEN: u16 = 21;

/// Width of the start and end fields (`HH:MM`), in characters.
pub const HOUR_LEN: u16 = 5;

/// Width of the interval field, in characters.
pub const INTERVAL_LEN: u16 = 6;

/// Which panel has the keyboard.
#[derive(Clone, Copy, PartialEq, Eq, Debug, Structural)]
pub enum Focus {
    List,
    Form,
}

/// A field of the form, in the order in which they stand on screen.
#[derive(Clone, Copy, PartialEq, Eq, Debug, Structural)]
pub enum Field {
    Name,
    Start,
    End,
    Interval,
}

/// The most characters that field `f` holds.
pub open spec fn field_max_len(f: Field) -> nat {
    match f {
        Field::Name => NAME_LEN as nat,
        Field::Start | Field::End => HOUR_LEN as nat,
        Field::Interval => INTERVAL_LEN as nat,
    }
}

/// The field after `f` on screen, wrapping around.
pub open spec fn next_field(f: Field) -> Field {
    match f {
        Field::Name => Field::Start,
        Field::Start => Field::End,
        Field::End => Field::Interval,
        Field::Interval => Field::Name,
    }
}

/// The field before `f` on screen, wrapping around.
pub open spec fn prev_field(f: Field) -> Field {
    match f {
        Field::Name => Field::Interval,
        Field::Start => Field::Name,
        Field::End => Field::Start,
        Field::Interval => Field::End,
    }
}

impl Field {
    /// The most characters that this field holds.
    pub fn max_len(self) -> (r: usize)
        ensures
            r == field_max_len(self),
    {
        match self {
            Field::Name => NAME_LEN as usize,
            Field::Start | Field::End => HOUR_LEN as usize,
            Field::Interval => INTERVAL_LEN as usize,
        }
    }
}

/// Keeps every field but `f`.
pub open spec fn other_than(f: Field) -> spec_fn(Field) -> bool {
    |e: Field| e != f
}

/// `errors` without `f`.
pub fn without_field(errors: &Vec<Field>, f: Field) -> (r: Vec<Field>)
    ensures
        r@ == errors@.filter(other_than(f)),
{
    let mut r: Vec<Field> = Vec::new();
    let mut k: usize = 0;
    while k < errors.len()
        invariant
            k <= errors@.len(),
            r@ == errors@.take(k as int).filter(other_than(f)),
        decreases errors@.len() - k,
    {
        let e = errors[k];
        let ghost prefix = errors@.take(k + 1);
        proof {
            reveal(Seq::filter);
        }
        assert(prefix.drop_last() =~= errors@.take(k as int));
        assert(prefix.last() == e);
        assert(other_than(f)(e) == (e != f));
        if e != f {
            r.push(e);
        }
        assert(r@ =~= prefix.filter(other_than(f)));
        k = k + 1;
    }
    assert(errors@.take(k as int) =~= errors@);
    r
}

/// The form as a mathematical value.
pub struct FormView {
    pub name: Seq<char>,
    pub start: Seq<char>,
    pub end: Seq<char>,
    pub interval: Seq<char>,
    pub focused: Field,
    pub errors: Seq<Field>,
}

impl FormView {
    /// The empty form, with the focus on the name.
    pub open spec fn empty() -> FormView {
        FormView {
            name: Seq::empty(),
            start: Seq::empty(),
            end: Seq::empty(),
            interval: Seq::empty(),
            focused: Field::Name,
            errors: Seq::empty(),
        }
    }

    /// The text of field `f`.
    pub open spec fn text(self, f: Field) -> Seq<char> {
        match f {
            Field::Name => self.name,
            Field::Start => self.start,
            Field::End => self.end,
            Field::Interval => self.interval,
        }
    }

    /// The form with `t` as the text of field `f`.
    pub open spec fn with_text(self, f: Field, t: Seq<char>) -> FormView {
        match f {
            Field::Name => FormView { name: t, ..self },
            Field::Start => FormView { start: t, ..self },
            Field::End => FormView { end: t, ..self },
            Field::Interval => FormView { interval: t, ..self },
        }
    }

    /// The form with the focus on field `f`.
    pub open spec fn with_focus(self, f: Field) -> FormView {
        FormView { focused: f, ..self }
    }

    /// The form with the errors of the focused field cleared.
    pub open spec fn clear_focused_errors(self) -> FormView {
        FormView { errors: self.errors.filter(other_than(self.focused)), ..self }
    }

    /// The form after typing `c`: the focused field's errors clear, and `c`
    /// goes at the end of the focused field unless that field is full.
    pub open spec fn typed(self, c: char) -> FormView {
        let f = self.focused;
        let t = self.text(f);
        let t2 = if t.len() < field_max_len(f) {
            t.push(c)
        } else {
            t
        };
        self.clear_focused_errors().with_text(f, t2)
    }

    /// The form after a backspace: the focused field's errors clear, and its
    /// last character goes.
    pub open spec fn deleted(self) -> FormView {
        let f = self.focused;
        let t = self.text(f);
        let t2 = if t.len() > 0 {
            t.drop_last()
        } else {
            t
        };
        self.clear_focused_errors().with_text(f, t2)
    }

    /// The fields that do not hold a valid value, in the order in which
    /// they are checked: an empty name, a start or end that is not `HH:MM`,
    /// an interval that is not one, and an end that is not after the start.
    pub open spec fn invalid_fields(self) -> Seq<Field> {
        let start = clock_time_seconds(self.start);
        let end = clock_time_seconds(self.end);
        let e0: Seq<Field> = if trimmed(self.name).len() == 0 {
            seq![Field::Name]
        } else {
            Seq::empty()
        };
        let e1 = if start is None {
            e0.push(Field::Start)
        } else {
            e0
        };
        let e2 = if end is None {
            e1.push(Field::End)
        } else {
            e1
        };
        let e3 = if interval_seconds(self.interval) is None {
            e2.push(Field::Interval)
        } else {
            e2
        };
        if start is Some && end is Some && end->0 <= start->0 {
            e3.push(Field::End)
        } else {
            e3
        }
    }

    /// What submitting the form gives: the timer it describes, enabled and
    /// with its name trimmed, or every field that is not valid.
    pub open spec fn outcome(self) -> Result<TimerView, Seq<Field>> {
        let errors = self.invalid_fields();
        if errors.len() > 0 {
            Err(errors)
        } else {
            Ok(
                TimerView {
                    name: trimmed(self.name),
                    start: clock_time_seconds(self.start)->0,
                    end: clock_time_seconds(self.end)->0,
                    interval: interval_seconds(self.interval)->0,
                    enabled: true,
                },
            )
        }
    }
}

/// The form for a new timer: its four fields as typed, the focused field,
/// and the fields that failed the last submission.
#[derive(Debug)]
pub struct FormState {
    pub name: String,
    pub start: String,
    pub end: String,
    pub interval: String,
    pub focused: Field,
    pub errors: Vec<Field>,
}

impl View for FormState {
    type V = FormView;

    open spec fn view(&self) -> FormView {
        FormView {
            name: self.name@,
            start: self.start@,
            end: self.end@,
            interval: self.interval@,
            focused: self.focused,
            errors: self.errors@,
        }
    }
}

/// The timer or the failed fields, as mathematical values.
pub open spec fn outcome_view(r: Result<Timer, Vec<Field>>) -> Result<TimerView, Seq<Field>> {
    match r {
        Ok(t) => Ok(t@),
        Err(e) => Err(e@),
    }
}

impl FormState {
    /// An empty form with the focus on the name.
    pub fn new() -> (r: FormState)
        ensures
            r@ == FormView::empty(),
    {
        FormState {
            name: String::new(),
            interval: String::new(),
            start: String::new(),
            end: String::new(),
            focused: Field::Name,
            errors: Vec::new(),
        }
    }

    /// Reads the form: the timer it describes, or every field that is not
    /// valid. The start and end are `HH:MM`, the interval as
    /// `parse_interval` reads it.
    pub fn to_timer(&self) -> (r: Result<Timer, Vec<Field>>)
        requires
            interval_fits(self.interval@),
        ensures
            outcome_view(r) == self@.outcome(),
    {
        let mut errors: Vec<Field> = Vec::new();
        let name = trim(self.name.as_str());
        if name.unicode_len() == 0 {
            errors.push(Field::Name);
        }
        let start = parse_clock_time(self.start.as_str());
        if start.is_none() {
            errors.push(Field::Start);
        }
        let end = parse_clock_time(self.end.as_str());
        if end.is_none() {
            errors.push(Field::End);
        }
        let interval = parse_interval(self.interval.as_str());
        if interval.is_none() {
            errors.push(Field::Interval);
        }
        match (start, end) {
            (Some(s), Some(e)) => {
                if e <= s {
                    errors.push(Field::End);
                }
            },
            _ => {},
        }
        assert(errors@ =~= self@.invalid_fields());
        if errors.len() > 0 {
            return Err(errors);
        }
        Ok(
            Timer {
                name: String::from_str(name),
                interval: interval.unwrap(),
                start: start.unwrap(),
                end: end.unwrap(),
                enabled: true,
            },
        )
    }

    /// Moves the focus to the next field, wrapping around.
    pub fn focus_next(&mut self)
        ensures
            final(self)@ == old(self)@.with_focus(next_field(old(self).focused)),
    {
        self.focused = match self.focused {
            Field::Name => Field::Start,
            Field::Start => Field::End,
            Field::End => Field::Interval,
            Field::Interval => Field::Name,
        }
    }

    /// Moves the focus to the previous field, wrapping around.
    pub fn focus_prev(&mut self)
        ensures
            final(self)@ == old(self)@.with_focus(prev_field(old(self).focused)),
    {
        self.focused = match self.focused {
            Field::Name => Field::Interval,
            Field::Start => Field::Name,
            Field::End => Field::Start,
            Field::Interval => Field::End,
        }
    }

    fn focused_mut(&mut self) -> (r: &mut String)
        ensures
            r@ == old(self)@.text(old(self).focused),
            final(self)@ == old(self)@.with_text(old(self).focused, final(r)@),
    {
        match self.focused {
            Field::Name => &mut self.name,
            Field::Start => &mut self.start,
            Field::End => &mut self.end,
            Field::Interval => &mut self.interval,
        }
    }

    /// Types `c` into the focused field, unless it is full, and clears that
    /// field's errors.
    pub fn type_char(&mut self, c: char)
        ensures
            final(self)@ == old(self)@.typed(c),
    {
        self.errors = without_field(&self.errors, self.focused);
        let max = self.focused.max_len();
        let buf = self.focused_mut();
        if buf.as_str().unicode_len() < max {
            push_char(buf, c);
        }
    }

    /// Removes the last character of the focused field, and clears that
    /// field's errors.
    pub fn delete_char(&mut self)
        ensures
            final(self)@ == old(self)@.deleted(),
    {
        self.errors = without_field(&self.errors, self.focused);
        let _ = pop_char(self.focused_mut());
    }
}

} // verus!

verus! {

/// The selected row of the timer table and the first row shown.
/// A selection past the last row is brought back to the last row when the
/// table is drawn.
#[derive(Clone, Copy, PartialEq, Eq, Debug, Structural)]
pub struct TableState {
    pub offset: usize,
    pub selected: Option<usize>,
}

impl TableState {
    /// The state after selecting `index`: choosing no row also scrolls back
    /// to the top.
    pub open spec fn selecting(self, index: Option<usize>) -> TableState {
        TableState {
            offset: if index is None {
                0
            } else {
                self.offset
            },
            selected: index,
        }
    }

    /// The row below the selection, or the first row when none is selected.
    pub open spec fn row_below(self) -> usize {
        match self.selected {
            Some(i) => if i == usize::MAX {
                i
            } else {
                (i + 1) as usize
            },
            None => 0,
        }
    }

    /// The row above the selection, or the last possible row when none is
    /// selected.
    pub open spec fn row_above(self) -> usize {
        match self.selected {
            Some(i) => if i == 0 {
                0
            } else {
                (i - 1) as usize
            },
            None => usize::MAX,
        }
    }

    /// No row selected, scrolled to the top.
    pub fn new() -> (r: TableState)
        ensures
            r == (TableState { offset: 0, selected: None }),
    {
        TableState { offset: 0, selected: None }
    }

    /// This state with `index` selected, the offset kept.
    pub fn with_selected(self, index: Option<usize>) -> (r: TableState)
        ensures
            r == (TableState { selected: index, ..self }),
    {
        TableState { selected: index, ..self }
    }

    /// The selected row.
    pub fn selected(&self) -> (r: Option<usize>)
        ensures
            r == self.selected,
    {
        self.selected
    }

    /// Selects `index`; selecting nothing also scrolls back to the top.
    pub fn select(&mut self, index: Option<usize>)
        ensures
            *final(self) == old(self).selecting(index),
    {
        self.selected = index;
        if index.is_none() {
            self.offset = 0;
        }
    }

    /// Selects the first row.
    pub fn select_first(&mut self)
        ensures
            *final(self) == old(self).selecting(Some(0)),
    {
        self.select(Some(0));
    }

    /// Selects the row below, or the first row when none is selected.
    pub fn select_next(&mut self)
        ensures
            *final(self) == old(self).selecting(Some(old(self).row_below())),
    {
        let next = match self.selected {
            Some(i) => i.saturating_add(1),
            None => 0,
        };
        self.select(Some(next));
    }

    /// Selects the row above, or the last possible row when none is selected.
    pub fn select_previous(&mut self)
        ensures
            *final(self) == old(self).selecting(Some(old(self).row_above())),
    {
        let previous = match self.selected {
            Some(i) => i.saturating_sub(1),
            None => usize::MAX,
        };
        self.select(Some(previous));
    }
}

/// A timer with `enabled` flipped.
pub open spec fn toggled(t: TimerView) -> TimerView {
    TimerView { enabled: !t.enabled, ..t }
}

/// The interface's state as a mathematical value.
pub struct AppView {
    pub timers: Seq<TimerView>,
    pub table: TableState,
    pub focus: Focus,
    pub form: FormView,
    pub should_quit: bool,
}

impl AppView {
    /// The state after `action`.
    pub open spec fn after(self, action: Action) -> AppView {
        match action {
            Action::Quit => AppView { should_quit: true, ..self },
            Action::FocusForm => AppView {
                focus: Focus::Form,
                table: self.table.selecting(None),
                ..self
            },
            Action::FocusList => AppView {
                focus: Focus::List,
                table: self.table.selecting(Some(0)),
                form: FormView { errors: Seq::empty(), ..self.form },
                ..self
            },
            Action::TableMoveUp => AppView {
                table: self.table.selecting(Some(self.table.row_above())),
                ..self
            },
            Action::TableMoveDown => AppView {
                table: self.table.selecting(Some(self.table.row_below())),
                ..self
            },
            Action::ToggleTimer => match self.table.selected {
                Some(i) => if i < self.timers.len() {
                    AppView { timers: self.timers.update(i as int, toggled(self.timers[i as int])), ..self }
                } else {
                    self
                },
                None => self,
            },
            Action::DeleteTimer => match self.table.selected {
                Some(i) => if i < self.timers.len() {
                    let rest = self.timers.remove(i as int);
                    let table = if rest.len() == 0 {
                        self.table.selecting(None)
                    } else if i >= rest.len() {
                        self.table.selecting(Some((rest.len() - 1) as usize))
                    } else {
                        self.table
                    };
                    AppView { timers: rest, table, ..self }
                } else {
                    self
                },
                None => self,
            },
            Action::FormMoveDown => AppView {
                form: self.form.with_focus(next_field(self.form.focused)),
                ..self
            },
            Action::FormMoveUp => AppView {
                form: self.form.with_focus(prev_field(self.form.focused)),
                ..self
            },
            Action::AddChar(c) => AppView { form: self.form.typed(c), ..self },
            Action::RemoveChar => AppView { form: self.form.deleted(), ..self },
            Action::SubmitForm => match self.form.outcome() {
                Ok(t) => AppView {
                    timers: seq![t] + self.timers,
                    form: FormView::empty(),
                    focus: Focus::List,
                    table: self.table.selecting(Some(0)),
                    ..self
                },
                Err(errors) => AppView { form: FormView { errors, ..self.form }, ..self },
            },
        }
    }
}

/// The state of the interface: the timers, the table's selection, which
/// panel has the focus, the form, and whether to quit.
#[derive(Debug)]
pub struct App {
    pub timers: Vec<Timer>,
    pub table_state: TableState,
    pub current_focus: Focus,
    pub form_state: FormState,
    pub should_quit: bool,
}

/// The timers as mathematical values.
pub open spec fn timers_view(timers: Seq<Timer>) -> Seq<TimerView> {
    timers.map_values(|t: Timer| t@)
}

impl View for App {
    type V = AppView;

    open spec fn view(&self) -> AppView {
        AppView {
            timers: timers_view(self.timers@),
            table: self.table_state,
            focus: self.current_focus,
            form: self.form_state@,
            should_quit: self.should_quit,
        }
    }
}

/// A timer named `name` that rings every `mins` minutes from `start` to
/// `end`, each given as (hour, minute).
fn sample_timer(name: &str, mins: u64, start: (u32, u32), end: (u32, u32), on: bool) -> (r: Timer)
    requires
        mins <= 1000,
        start.0 < 24 && start.1 < 60,
        end.0 < 24 && end.1 < 60,
    ensures
        r@ == (TimerView {
            name: name@,
            start: (start.0 * 3600 + start.1 * 60) as u32,
            end: (end.0 * 3600 + end.1 * 60) as u32,
            interval: (mins * 60) as u64,
            enabled: on,
        }),
{
    Timer {
        name: String::from_str(name),
        interval: mins * 60,
        start: clock_time(start.0, start.1).unwrap(),
        end: clock_time(end.0, end.1).unwrap(),
        enabled: on,
    }
}

impl App {
    /// No timers, the first row selected, the focus on the list, an empty
    /// form.
    pub fn new() -> (r: App)
        ensures
            r@ == (AppView {
                timers: Seq::empty(),
                table: TableState { offset: 0, selected: Some(0) },
                focus: Focus::List,
                form: FormView::empty(),
                should_quit: false,
            }),
    {
        let r = App {
            timers: Vec::new(),
            table_state: TableState::new().with_selected(Some(0)),
            current_focus: Focus::List,
            form_state: FormState::new(),
            should_quit: false,
        };
        assert(timers_view(r.timers@) =~= Seq::empty());
        r
    }

    /// A sample state with two timers: `tea`, every 30 minutes from 13:00 to
    /// 18:00, enabled; `stretch`, every hour from 09:00 to 17:00, disabled.
    pub fn mock() -> (r: App)
        ensures
            r@ == (AppView {
                timers: seq![
                    TimerView {
                        name: "tea"@,
                        start: 46800,
                        end: 64800,
                        interval: 1800,
                        enabled: true,
                    },
                    TimerView {
                        name: "stretch"@,
                        start: 32400,
                        end: 61200,
                        interval: 3600,
                        enabled: false,
                    },
                ],
                table: TableState { offset: 0, selected: Some(0) },
                focus: Focus::List,
                form: FormView::empty(),
                should_quit: false,
            }),
    {
        let r = App {
            timers: vec![
                sample_timer("tea", 30, (13, 0), (18, 0), true),
                sample_timer("stretch", 60, (9, 0), (17, 0), false),
            ],
            table_state: TableState::new().with_selected(Some(0)),
            current_focus: Focus::List,
            form_state: FormState::new(),
            should_quit: false,
        };
        assert(timers_view(r.timers@) =~= seq![r.timers@[0]@, r.timers@[1]@]);
        r
    }

    /// Applies `action`. The interval is read only on `SubmitForm`, and its
    /// length must then fit in a `u64`.
    pub fn update(&mut self, action: Action)
        requires
            action == Action::SubmitForm ==> interval_fits(old(self).form_state.interval@),
        ensures
            final(self)@ == old(self)@.after(action),
    {
        match action {
            Action::Quit => {
                self.should_quit = true;
            },
            Action::FocusForm => {
                self.current_focus = Focus::Form;
                self.table_state.select(None);
            },
            Action::FocusList => {
                self.current_focus = Focus::List;
                self.table_state.select_first();
                self.form_state.errors = Vec::new();
            },
            Action::TableMoveUp => {
                self.table_state.select_previous();
            },
            Action::TableMoveDown => {
                self.table_state.select_next();
            },
            Action::ToggleTimer => {
                if let Some(i) = self.table_state.selected() {
                    if i < self.timers.len() {
                        let ghost before = self.timers@;
                        let enabled = self.timers[i].enabled;
                        self.timers[i].enabled = !enabled;
                        assert(timers_view(self.timers@) =~= timers_view(before).update(
                            i as int,
                            toggled(timers_view(before)[i as int]),
                        ));
                    }
                }
            },
            Action::DeleteTimer => {
                if let Some(i) = self.table_state.selected() {
                    if i < self.timers.len() {
                        let ghost before = self.timers@;
                        let _ = self.timers.remove(i);
                        assert(timers_view(self.timers@) =~= timers_view(before).remove(i as int));
                        if self.timers.len() == 0 {
                            self.table_state.select(None);
                        } else if i >= self.timers.len() {
                            self.table_state.select(Some(self.timers.len() - 1));
                        }
                    }
                }
            },
            Action::FormMoveDown => {
                self.form_state.focus_next();
            },
            Action::FormMoveUp => {
                self.form_state.focus_prev();
            },
            Action::AddChar(c) => {
                self.form_state.type_char(c);
            },
            Action::RemoveChar => {
                self.form_state.delete_char();
            },
            Action::SubmitForm => {
                match self.form_state.to_timer() {
                    Ok(timer) => {
                        let ghost before = self.timers@;
                        self.timers.insert(0, timer);
                        assert(timers_view(self.timers@) =~= seq![timer@] + timers_view(before));
                        self.form_state = FormState::new();
                        self.current_focus = Focus::List;
                        self.table_state.select_first();
                    },
                    Err(errors) => {
                        self.form_state.errors = errors;
                    },
                }
            },
        }
    }
}

} // verus!

verus! {

/// Every field of the form holds no more characters than it is wide.
pub open spec fn within_limits(form: FormView) -> bool {
    forall|f: Field| #[trigger] form.text(f).len() <= field_max_len(f)
}

/// Whether field `f` of the form fails validation.
pub open spec fn field_invalid(form: FormView, f: Field) -> bool {
    let start = clock_time_seconds(form.start);
    let end = clock_time_seconds(form.end);
    match f {
        Field::Name => trimmed(form.name).len() == 0,
        Field::Start => start is None,
        Field::End => end is None || (start is Some && end->0 <= start->0),
        Field::Interval => interval_seconds(form.interval) is None,
    }
}

proof fn lemma_without_contains(s: Seq<Field>, f: Field, e: Field)
    ensures
        s.filter(other_than(f)).contains(e) <==> (s.contains(e) && e != f),
    decreases s.len(),
{
    reveal(Seq::filter);
    if s.len() > 0 {
        lemma_without_contains(s.drop_last(), f, e);
        let p = other_than(f);
        assert(p(s.last()) == (s.last() != f));
        if s.contains(e) && !s.drop_last().contains(e) {
            let k = choose|k: int| 0 <= k < s.len() && s[k] == e;
            if k < s.len() - 1 {
                assert(s.drop_last()[k] == e);
            }
        }
        if s.drop_last().contains(e) {
            let k = choose|k: int| 0 <= k < s.len() - 1 && s.drop_last()[k] == e;
            assert(s[k] == e);
        }
        if s.drop_last().filter(p).contains(e) {
            let k = choose|k: int|
                0 <= k < s.drop_last().filter(p).len() && s.drop_last().filter(p)[k] == e;
            if p(s.last()) {
                assert(s.filter(p)[k] == e);
            }
        }
        if p(s.last()) && s.last() == e {
            assert(s.filter(p)[s.filter(p).len() - 1] == e);
        }
        if s.last() == e {
            assert(s[s.len() - 1] == e);
        }
    }
}

proof fn lemma_without_twice(s: Seq<Field>, f: Field)
    ensures
        s.filter(other_than(f)).filter(other_than(f)) == s.filter(other_than(f)),
    decreases s.len(),
{
    reveal(Seq::filter);
    if s.len() > 0 {
        lemma_without_twice(s.drop_last(), f);
        let p = other_than(f);
        let once = s.filter(p);
        if p(s.last()) {
            assert(once.drop_last() =~= s.drop_last().filter(p));
        } else {
            assert(once =~= s.drop_last().filter(p));
        }
    }
}

/// Moving the focus forward and back returns to the same field, and four
/// steps forward go all the way round.
pub proof fn law_focus_round_trip(f: Field)
    ensures
        prev_field(next_field(f)) == f,
        next_field(prev_field(f)) == f,
        next_field(next_field(next_field(next_field(f)))) == f,
{
}

/// Typing and deleting never make a field longer than it is wide.
pub proof fn law_editing_keeps_limits(form: FormView, c: char)
    requires
        within_limits(form),
    ensures
        within_limits(form.typed(c)),
        within_limits(form.deleted()),
{
    assert forall|f: Field| #[trigger] form.typed(c).text(f).len() <= field_max_len(f) by {
        assert(form.text(f).len() <= field_max_len(f));
    }
    assert forall|f: Field| #[trigger] form.deleted().text(f).len() <= field_max_len(f) by {
        assert(form.text(f).len() <= field_max_len(f));
    }
}

/// Editing a field clears that field's errors and keeps every other one.
pub proof fn law_editing_clears_focused_errors(form: FormView, c: char, e: Field)
    ensures
        form.typed(c).errors.contains(e) <==> (form.errors.contains(e) && e != form.focused),
        form.deleted().errors.contains(e) <==> (form.errors.contains(e) && e != form.focused),
{
    lemma_without_contains(form.errors, form.focused, e);
}

/// A backspace takes back a character that was typed.
pub proof fn law_backspace_undoes_typing(form: FormView, c: char)
    requires
        form.text(form.focused).len() < field_max_len(form.focused),
    ensures
        form.typed(c).deleted() == form.clear_focused_errors(),
{
    lemma_without_twice(form.errors, form.focused);
    let f = form.focused;
    assert(form.text(f).push(c).drop_last() =~= form.text(f));
}

/// A submitted timer is valid: named, starting before it ends, with a
/// positive interval of whole minutes, within the day, and enabled.
pub proof fn law_submitted_timer_is_valid(form: FormView)
    requires
        interval_fits(form.interval),
    ensures
        form.outcome() matches Ok(t) ==> {
            &&& t.name.len() > 0
            &&& t.name == trimmed(form.name)
            &&& t.start < t.end < 86400
            &&& t.start % 60 == 0 && t.end % 60 == 0
            &&& t.interval > 0 && t.interval % 60 == 0
            &&& t.enabled
        },
{
    law_clock_time_in_day(form.start);
    law_clock_time_in_day(form.end);
    law_interval_whole_minutes(form.interval);
}

/// Submitting reports exactly the fields that fail validation, and
/// succeeds exactly when none does.
pub proof fn law_submit_reports_every_invalid_field(form: FormView, f: Field)
    ensures
        form.outcome() is Ok <==> (forall|g: Field| !#[trigger] field_invalid(form, g)),
        form.outcome() matches Err(errors) ==> (errors.contains(f) <==> field_invalid(form, f)),
{
    let errors = form.invalid_fields();
    let start = clock_time_seconds(form.start);
    let end = clock_time_seconds(form.end);
    if field_invalid(form, f) {
        assert(errors.contains(f)) by {
            match f {
                Field::Name => assert(errors[0] == f),
                Field::Start => {
                    let i = if trimmed(form.name).len() == 0 { 1int } else { 0int };
                    assert(errors[i] == f);
                },
                Field::End => {
                    if end is None {
                        let i = (if trimmed(form.name).len() == 0 { 1int } else { 0int }) + (if start is None { 1int } else { 0int });
                        assert(errors[i] == f);
                    } else {
                        assert(errors[errors.len() - 1] == f);
                    }
                },
                Field::Interval => {
                    let i = (if trimmed(form.name).len() == 0 { 1int } else { 0int })
                        + (if start is None { 1int } else { 0int })
                        + (if end is None { 1int } else { 0int });
                    assert(errors[i] == f);
                },
            }
        }
    }
    if errors.len() > 0 {
        let g = errors[0];
        assert(field_invalid(form, g));
    }
    assert forall|k: int| 0 <= k < errors.len() implies field_invalid(form, #[trigger] errors[k]) by {
    }
}

/// Only `Quit` asks to quit, and once asked the request stays.
pub proof fn law_quit_is_sticky(v: AppView, a: Action)
    ensures
        v.after(a).should_quit == (v.should_quit || a == Action::Quit),
{
}

/// Only toggling, deleting and submitting change the timers.
pub proof fn law_timers_change_only_on_edits(v: AppView, a: Action)
    requires
        a != Action::ToggleTimer && a != Action::DeleteTimer && a != Action::SubmitForm,
    ensures
        v.after(a).timers == v.timers,
{
}

/// Toggling the selected timer twice gives back the same state.
pub proof fn law_toggle_twice_restores(v: AppView)
    ensures
        v.after(Action::ToggleTimer).after(Action::ToggleTimer) == v,
{
    if let Some(i) = v.table.selected {
        if i < v.timers.len() {
            let t = v.timers[i as int];
            assert(toggled(toggled(t)) == t);
            assert(v.timers.update(i as int, toggled(t)).update(i as int, toggled(toggled(t)))
                =~= v.timers);
        }
    }
}

/// Deleting the selected timer removes exactly it and leaves the selection
/// on a timer that exists: the one that followed, or the new last one, or
/// none when the list is empty.
pub proof fn law_delete_keeps_selection_in_range(v: AppView)
    requires
        v.table.selected matches Some(i) && i < v.timers.len(),
    ensures
        ({
            let w = v.after(Action::DeleteTimer);
            let i = v.table.selected->0;
            &&& w.timers == v.timers.remove(i as int)
            &&& w.table.selected is None <==> w.timers.len() == 0
            &&& w.table.selected matches Some(j) ==> j < w.timers.len()
            &&& i < w.timers.len() ==> w.table.selected == Some(i)
            &&& w.timers.len() > 0 ==> w.table.selected == Some(
                if i < w.timers.len() {
                    i
                } else {
                    (w.timers.len() - 1) as usize
                },
            )
        }),
{
}

/// Toggling flips `enabled` on the selected timer and on it alone; its
/// other fields and every other timer stay as they were.
pub proof fn law_toggle_flips_selected(v: AppView)
    requires
        v.table.selected matches Some(i) && i < v.timers.len(),
    ensures
        ({
            let w = v.after(Action::ToggleTimer);
            let i = v.table.selected->0 as int;
            &&& w.timers.len() == v.timers.len()
            &&& w.timers[i].enabled == !v.timers[i].enabled
            &&& w.timers[i].name == v.timers[i].name
            &&& w.timers[i].start == v.timers[i].start
            &&& w.timers[i].end == v.timers[i].end
            &&& w.timers[i].interval == v.timers[i].interval
            &&& forall|j: int| 0 <= j < v.timers.len() && j != i ==> w.timers[j] == v.timers[j]
            &&& w.table == v.table
            &&& w.form == v.form
        }),
{
}

/// Typing `c` puts exactly `c` at the end of the focused field when it has
/// room and leaves it alone when it is full; the other fields, the focus
/// and the rest of the state do not change.
pub proof fn law_typing_appends_the_character(v: AppView, c: char)
    ensures
        ({
            let w = v.after(Action::AddChar(c));
            let f = v.form.focused;
            &&& v.form.text(f).len() < field_max_len(f) ==> w.form.text(f) == v.form.text(f).push(c)
            &&& v.form.text(f).len() >= field_max_len(f) ==> w.form.text(f) == v.form.text(f)
            &&& forall|g: Field| g != f ==> #[trigger] w.form.text(g) == v.form.text(g)
            &&& w.form.focused == f
            &&& w.timers == v.timers
            &&& w.table == v.table
            &&& w.focus == v.focus
        }),
{
}

/// A backspace removes exactly the last character of the focused field, if
/// there is one; the other fields do not change.
pub proof fn law_backspace_removes_last_character(v: AppView)
    ensures
        ({
            let w = v.after(Action::RemoveChar);
            let f = v.form.focused;
            &&& v.form.text(f).len() > 0 ==> w.form.text(f) == v.form.text(f).take(
                v.form.text(f).len() - 1,
            )
            &&& v.form.text(f).len() == 0 ==> w.form.text(f).len() == 0
            &&& forall|g: Field| g != f ==> #[trigger] w.form.text(g) == v.form.text(g)
            &&& w.form.focused == f
            &&& w.timers == v.timers
        }),
{
    let f = v.form.focused;
    assert(v.form.text(f).drop_last() =~= v.form.text(f).take(v.form.text(f).len() - 1));
}

/// Submitting a valid form puts its timer at the top of the list and
/// starts over with an empty form; an invalid one keeps the form and
/// records the failed fields.
pub proof fn law_submit_outcome(v: AppView)
    ensures
        ({
            let w = v.after(Action::SubmitForm);
            match v.form.outcome() {
                Ok(t) => {
                    &&& w.timers == seq![t] + v.timers
                    &&& w.timers[0] == t
                    &&& w.form == FormView::empty()
                    &&& w.focus == Focus::List
                    &&& w.table.selected == Some(0usize)
                },
                Err(errors) => {
                    &&& w.timers == v.timers
                    &&& w.form.errors == errors
                    &&& w.form == (FormView { errors, ..v.form })
                },
            }
        }),
{
}

/// Every action keeps the form's fields within their widths, so the
/// interval that a submission reads always fits: starting from an empty
/// form, `App::update` can take any sequence of actions.
pub proof fn law_actions_keep_form_submittable(v: AppView, a: Action)
    requires
        within_limits(v.form),
    ensures
        within_limits(v.after(a).form),
        interval_fits(v.after(a).form.interval),
{
    match a {
        Action::AddChar(c) => law_editing_keeps_limits(v.form, c),
        Action::RemoveChar => law_editing_keeps_limits(v.form, ' '),
        _ => {},
    }
    let w = v.after(a).form;
    assert forall|f: Field| #[trigger] w.text(f).len() <= field_max_len(f) by {
        assert(v.form.text(f).len() <= field_max_len(f));
        match a {
            Action::AddChar(c) => assert(v.form.typed(c).text(f).len() <= field_max_len(f)),
            Action::RemoveChar => assert(v.form.deleted().text(f).len() <= field_max_len(f)),
            _ => {},
        }
    }
    assert(w.text(Field::Interval).len() <= field_max_len(Field::Interval));
    law_short_interval_fits(w.interval);
}

/// The empty form is within its widths.
pub proof fn law_empty_form_within_limits()
    ensures
        within_limits(FormView::empty()),
{
}

} // verus!
