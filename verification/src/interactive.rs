//! The menu: what it offers, how keys move through it and what is shown.

use vstd::prelude::*;
use vstd::string::*;

use crate::commands::{self, report};
use crate::error::Fault;
use crate::platform::Platform;
use crate::session::{Record, Session};
use crate::text;
use crate::time::{self, Timestamp};

verus! {

/// Whether colours are to be used: not where the user asks for none, and not on a terminal that has none.
pub fn style_enabled(no_color: bool, term: Option<&str>) -> (r: bool)
    ensures
        r == (!no_color && (term matches Some(t) && text::trimmed(t@).len() > 0
            && text::ascii_lower(t@) != text::ascii_lower("dumb"@))),
{
    match term {
        Some(t) => !no_color && !text::trim(t).is_empty() && !text::same_ignoring_ascii_case(
            t,
            "dumb",
        ),
        None => false,
    }
}

/// What an item of the menu does.
#[derive(Clone, Copy, Debug)]
pub enum Action {
    ToggleDetail,
    Quit,
    Stop,
    StartIndefinite,
    /// Ask for a value, and start with it behind the flag, if there is one.
    Ask(&'static str, Option<&'static str>),
}

/// What an `Action` says.
pub enum Choice {
    ToggleDetail,
    Quit,
    Stop,
    StartIndefinite,
    Ask(Seq<char>, Option<Seq<char>>),
}

impl View for Action {
    type V = Choice;

    open spec fn view(&self) -> Choice {
        match *self {
            Action::ToggleDetail => Choice::ToggleDetail,
            Action::Quit => Choice::Quit,
            Action::Stop => Choice::Stop,
            Action::StartIndefinite => Choice::StartIndefinite,
            Action::Ask(prompt, flag) => Choice::Ask(
                prompt@,
                match flag {
                    Some(flag) => Some(flag@),
                    None => None,
                },
            ),
        }
    }
}

/// An item of the menu; one without an action parts others.
#[derive(Clone, Copy, Debug)]
pub struct Item {
    pub label: &'static str,
    pub hint: &'static str,
    pub action: Option<Action>,
}

/// What an `Item` says.
pub struct Entry {
    pub label: Seq<char>,
    pub hint: Seq<char>,
    pub choice: Option<Choice>,
}

impl View for Item {
    type V = Entry;

    open spec fn view(&self) -> Entry {
        Entry {
            label: self.label@,
            hint: self.hint@,
            choice: match self.action {
                Some(action) => Some(action@),
                None => None,
            },
        }
    }
}

impl Item {
    pub fn new(label: &'static str, hint: &'static str, action: Action) -> (r: Self)
        ensures
            r@ == (Entry { label: label@, hint: hint@, choice: Some(action@) }),
    {
        Item { label, hint, action: Some(action) }
    }

    pub fn separator() -> (r: Self)
        ensures
            r@ == parting(),
    {
        Item { label: "", hint: "", action: None }
    }
}

/// What parts the items of a menu.
pub open spec fn parting() -> Entry {
    Entry { label: ""@, hint: ""@, choice: None }
}

/// An item of the menu.
pub open spec fn entry(label: Seq<char>, hint: Seq<char>, choice: Choice) -> Entry {
    Entry { label, hint, choice: Some(choice) }
}

/// The menu, while a session is active and while none is.
pub open spec fn menu(active: bool) -> Seq<Entry> {
    if active {
        seq![
            entry("Show status"@, "view session details"@, Choice::ToggleDetail),
            entry("Stop session"@, "end the active session"@, Choice::Stop),
            parting(),
            entry("Quit"@, "exit without changes"@, Choice::Quit),
        ]
    } else {
        seq![
            entry("Indefinite"@, "stay awake forever"@, Choice::StartIndefinite),
            entry(
                "For a duration…"@,
                "1h, 30m, 1h30m, 90s"@,
                Choice::Ask("Duration (e.g. 1h30m, 90s)"@, None),
            ),
            entry(
                "Until clock time…"@,
                "stay awake until HH:MM"@,
                Choice::Ask("Until clock time (HH:MM)"@, Some("--until"@)),
            ),
            entry(
                "Until battery %…"@,
                "until charge hits N%"@,
                Choice::Ask("Target battery percent (1-100)"@, Some("--until-charge"@)),
            ),
            entry(
                "While app running…"@,
                "watch a running app/process"@,
                Choice::Ask("App/process name"@, Some("--while-app"@)),
            ),
            entry(
                "While PID alive…"@,
                "watch a specific process id"@,
                Choice::Ask("PID to watch"@, Some("--while-pid"@)),
            ),
            parting(),
            entry("Quit"@, "exit without changes"@, Choice::Quit),
        ]
    }
}

/// What the items of a menu say.
pub open spec fn entries(items: Seq<Item>) -> Seq<Entry> {
    items.map_values(|item: Item| item@)
}

pub fn build_menu(active: bool) -> (r: Vec<Item>)
    ensures
        entries(r@) == menu(active),
{
    let mut items: Vec<Item> = Vec::new();
    if active {
        items.push(Item::new("Show status", "view session details", Action::ToggleDetail));
        items.push(Item::new("Stop session", "end the active session", Action::Stop));
    } else {
        items.push(Item::new("Indefinite", "stay awake forever", Action::StartIndefinite));
        items.push(
            Item::new(
                "For a duration…",
                "1h, 30m, 1h30m, 90s",
                Action::Ask("Duration (e.g. 1h30m, 90s)", None),
            ),
        );
        items.push(
            Item::new(
                "Until clock time…",
                "stay awake until HH:MM",
                Action::Ask("Until clock time (HH:MM)", Some("--until")),
            ),
        );
        items.push(
            Item::new(
                "Until battery %…",
                "until charge hits N%",
                Action::Ask("Target battery percent (1-100)", Some("--until-charge")),
            ),
        );
        items.push(
            Item::new(
                "While app running…",
                "watch a running app/process",
                Action::Ask("App/process name", Some("--while-app")),
            ),
        );
        items.push(
            Item::new(
                "While PID alive…",
                "watch a specific process id",
                Action::Ask("PID to watch", Some("--while-pid")),
            ),
        );
    }
    items.push(Item::separator());
    items.push(Item::new("Quit", "exit without changes", Action::Quit));
    assert(entries(items@) =~= menu(active));
    items
}

/// The place that is so many steps from `current`, round and round.
pub open spec fn place(len: int, current: int, direction: int, step: int) -> int {
    (current + direction * step) % len
}

/// The first place with an action, so many steps from `current` or more, but no more than once round; else
/// `current` itself.
pub open spec fn next_place(items: Seq<Entry>, current: int, direction: int, step: int) -> int
    decreases items.len() + 1 - step,
{
    if step < 0 || step > items.len() {
        current
    } else if items[place(items.len() as int, current, direction, step)].choice is Some {
        place(items.len() as int, current, direction, step)
    } else {
        next_place(items, current, direction, step + 1)
    }
}

proof fn lemma_place(len: int, current: int, direction: int, step: int)
    requires
        0 <= current < len,
        0 <= step <= len,
        direction == 1 || direction == -1,
    ensures
        place(len, current, direction, step) == (if direction == 1 {
            if current + step < len {
                current + step
            } else {
                current + step - len
            }
        } else if current - step >= 0 {
            current - step
        } else {
            current - step + len
        }),
        0 <= place(len, current, direction, step) <= len,
        place(len, current, direction, step) < len,
{
    let at = current + direction * step;
    assert(at == current + step || at == current - step) by (nonlinear_arith)
        requires
            at == current + direction * step,
            direction == 1 || direction == -1,
    ;
    assert(direction == 1 ==> at == current + step) by (nonlinear_arith)
        requires
            at == current + direction * step,
    ;
    assert(direction == -1 ==> at == current - step) by (nonlinear_arith)
        requires
            at == current + direction * step,
    ;
    if direction == 1 {
        if at < len {
            vstd::arithmetic::div_mod::lemma_small_mod(at as nat, len as nat);
        } else if at < 2 * len {
            vstd::arithmetic::div_mod::lemma_mod_sub_multiples_vanish(at, len);
            vstd::arithmetic::div_mod::lemma_small_mod((at - len) as nat, len as nat);
        }
    } else {
        if at >= 0 {
            vstd::arithmetic::div_mod::lemma_small_mod(at as nat, len as nat);
        } else {
            vstd::arithmetic::div_mod::lemma_mod_add_multiples_vanish(at, len);
            vstd::arithmetic::div_mod::lemma_small_mod((at + len) as nat, len as nat);
        }
    }
}

/// The nearest item with an action in the direction, 1 for down and -1 for up, round and round.
pub fn adjacent(items: &Vec<Item>, current: usize, direction: isize) -> (r: usize)
    requires
        current < items@.len(),
        direction == 1 || direction == -1,
    ensures
        r == next_place(entries(items@), current as int, direction as int, 1),
        r < items@.len(),
{
    let len: usize = items.len();
    let ghost all = entries(items@);
    let mut step: usize = 1;
    while step <= len
        invariant
            current < len,
            len == items@.len(),
            all == entries(items@),
            1 <= step <= len + 1,
            direction == 1 || direction == -1,
            next_place(all, current as int, direction as int, 1) == next_place(
                all,
                current as int,
                direction as int,
                step as int,
            ),
        decreases len + 1 - step,
    {
        proof {
            lemma_place(len as int, current as int, direction as int, step as int);
        }
        let index: usize = if direction == 1 {
            if step < len - current {
                current + step
            } else {
                step - (len - current)
            }
        } else if step <= current {
            current - step
        } else {
            len - (step - current)
        };
        assert(index == place(len as int, current as int, direction as int, step as int));
        assert(all[index as int] == items@[index as int]@);
        if items[index].action.is_some() {
            return index;
        }
        assert(next_place(all, current as int, direction as int, step as int) == next_place(
            all,
            current as int,
            direction as int,
            step + 1,
        ));
        if step == len {
            assert(next_place(all, current as int, direction as int, step + 1) == current);
            return current;
        }
        step = step + 1;
    }
    current
}

pub fn next(items: &Vec<Item>, cur: usize) -> (r: usize)
    requires
        cur < items@.len(),
    ensures
        r == next_place(entries(items@), cur as int, 1, 1),
        r < items@.len(),
{
    adjacent(items, cur, 1)
}

pub fn prev(items: &Vec<Item>, cur: usize) -> (r: usize)
    requires
        cur < items@.len(),
    ensures
        r == next_place(entries(items@), cur as int, -1, 1),
        r < items@.len(),
{
    adjacent(items, cur, -1)
}

/// Whether `k` is the first step from `step` on that leads to an action.
spec fn first_step(items: Seq<Entry>, current: int, direction: int, step: int, k: int) -> bool {
    &&& step <= k <= items.len()
    &&& items[place(items.len() as int, current, direction, k)].choice is Some
    &&& forall|j: int|
        step <= j < k ==> (#[trigger] items[place(
            items.len() as int,
            current,
            direction,
            j,
        )]).choice is None
}

proof fn lemma_first_step(items: Seq<Entry>, current: int, direction: int, step: int) -> (k: int)
    requires
        0 <= current < items.len(),
        direction == 1 || direction == -1,
        1 <= step <= items.len(),
        items[current].choice is Some,
    ensures
        first_step(items, current, direction, step, k),
        next_place(items, current, direction, step) == place(
            items.len() as int,
            current,
            direction,
            k,
        ),
    decreases items.len() - step,
{
    let len = items.len() as int;
    lemma_place(len, current, direction, step);
    if items[place(len, current, direction, step)].choice is Some {
        step
    } else {
        if step == len {
            lemma_place(len, current, direction, len);
        }
        let k = lemma_first_step(items, current, direction, step + 1);
        assert(first_step(items, current, direction, step, k)) by {
            assert forall|j: int| step <= j < k implies (#[trigger] items[place(
                len,
                current,
                direction,
                j,
            )]).choice is None by {
                if j > step {
                    assert(step + 1 <= j < k);
                }
            }
        }
        k
    }
}

proof fn lemma_next_place(items: Seq<Entry>, current: int, direction: int, step: int, k: int)
    requires
        0 <= current < items.len(),
        1 <= step,
        first_step(items, current, direction, step, k),
    ensures
        next_place(items, current, direction, step) == place(
            items.len() as int,
            current,
            direction,
            k,
        ),
    decreases k - step,
{
    if step < k {
        assert(items[place(items.len() as int, current, direction, step)].choice is None);
        lemma_next_place(items, current, direction, step + 1, k);
    }
}

/// From an item with an action both directions lead to an item with an action, and one undoes the other.
pub proof fn law_moving_stays_on_actions(items: Seq<Entry>, current: int, direction: int)
    requires
        0 <= current < items.len(),
        items[current].choice is Some,
        direction == 1 || direction == -1,
    ensures
        ({
            let there = next_place(items, current, direction, 1);
            &&& 0 <= there < items.len()
            &&& items[there].choice is Some
            &&& next_place(items, there, -direction, 1) == current
        }),
{
    let len = items.len() as int;
    let k = lemma_first_step(items, current, direction, 1);
    let there = place(len, current, direction, k);
    lemma_place(len, current, direction, k);
    lemma_place(len, there, -direction, k);
    assert(place(len, there, -direction, k) == current);
    assert(first_step(items, there, -direction, 1, k)) by {
        assert forall|j: int| 1 <= j < k implies (#[trigger] items[place(
            len,
            there,
            -direction,
            j,
        )]).choice is None by {
            lemma_place(len, there, -direction, j);
            lemma_place(len, current, direction, k - j);
            assert(place(len, there, -direction, j) == place(len, current, direction, k - j));
        }
    }
    lemma_next_place(items, there, -direction, 1, k);
}

/// The first place with an action; the very first where there is none.
pub open spec fn first_place(items: Seq<Entry>, from: int) -> int
    decreases items.len() - from,
{
    if from < 0 || from >= items.len() {
        0
    } else if items[from].choice is Some {
        from
    } else {
        first_place(items, from + 1)
    }
}

/// The first item with an action.
pub fn first_action(items: &Vec<Item>) -> (r: usize)
    ensures
        r == first_place(entries(items@), 0),
        items@.len() > 0 ==> r < items@.len(),
{
    let ghost all = entries(items@);
    let mut i: usize = 0;
    while i < items.len()
        invariant
            i <= items@.len(),
            all == entries(items@),
            first_place(all, 0) == first_place(all, i as int),
        decreases items@.len() - i,
    {
        assert(all[i as int] == items@[i as int]@);
        if items[i].action.is_some() {
            return i;
        }
        i = i + 1;
    }
    0
}

/// A key that was pressed.
#[derive(Clone, Copy, Debug, PartialEq, Eq, Structural)]
pub enum Key {
    Up,
    Down,
    Enter,
    Esc,
    Char(char),
    Other,
}

/// Where the menu stands.
#[derive(Clone, Copy, Debug, PartialEq, Eq, Structural)]
pub struct Picker {
    pub no_display: bool,
    pub show_detail: bool,
    pub selected: usize,
}

/// What a key comes to.
#[derive(Clone, Copy, Debug)]
pub enum Pick {
    Again,
    Nothing,
    Chosen(Action, bool),
}

/// What a `Pick` says.
pub enum Picked {
    Again,
    Nothing,
    Chosen(Choice, bool),
}

impl View for Pick {
    type V = Picked;

    open spec fn view(&self) -> Picked {
        match *self {
            Pick::Again => Picked::Again,
            Pick::Nothing => Picked::Nothing,
            Pick::Chosen(action, no_display) => Picked::Chosen(action@, no_display),
        }
    }
}

/// Where a key leads: the menu as it then stands, and what was picked. `active` tells whether a session is;
/// `control` whether the control key was held.
pub open spec fn pressed(picker: Picker, items: Seq<Entry>, active: bool, key: Key, control: bool) -> (
    Picker,
    Picked,
) {
    let at = picker.selected as int;
    if key == Key::Up || key == Key::Char('k') {
        (Picker { selected: next_place(items, at, -1, 1) as usize, ..picker }, Picked::Again)
    } else if key == Key::Down || key == Key::Char('j') {
        (Picker { selected: next_place(items, at, 1, 1) as usize, ..picker }, Picked::Again)
    } else if (key == Key::Char('d') || key == Key::Char('D')) && !active {
        (Picker { no_display: !picker.no_display, ..picker }, Picked::Again)
    } else if key == Key::Char('c') && control {
        (picker, Picked::Nothing)
    } else if key == Key::Char('q') || key == Key::Char('Q') || key == Key::Esc {
        (picker, Picked::Nothing)
    } else if key == Key::Enter {
        match items[at].choice {
            Some(Choice::ToggleDetail) => (
                Picker { show_detail: !picker.show_detail, ..picker },
                Picked::Again,
            ),
            Some(Choice::Quit) => (picker, Picked::Nothing),
            Some(choice) => (picker, Picked::Chosen(choice, picker.no_display)),
            None => (picker, Picked::Again),
        }
    } else {
        (picker, Picked::Again)
    }
}

impl Picker {
    /// The menu before any key was pressed.
    pub fn new(items: &Vec<Item>) -> (r: Self)
        ensures
            r == (Picker {
                no_display: false,
                show_detail: false,
                selected: first_place(entries(items@), 0) as usize,
            }),
            items@.len() > 0 ==> r.selected < items@.len(),
    {
        Picker { no_display: false, show_detail: false, selected: first_action(items) }
    }

    /// What a key comes to.
    pub fn pick(&mut self, items: &Vec<Item>, active: bool, key: Key, control: bool) -> (r: Pick)
        requires
            old(self).selected < items@.len(),
        ensures
            (*final(self), r@) == pressed(*old(self), entries(items@), active, key, control),
            final(self).selected < items@.len(),
    {
        let ghost all = entries(items@);
        match key {
            Key::Up => {
                self.selected = prev(items, self.selected);
                Pick::Again
            },
            Key::Down => {
                self.selected = next(items, self.selected);
                Pick::Again
            },
            Key::Esc => Pick::Nothing,
            Key::Enter => {
                assert(all[self.selected as int] == items@[self.selected as int]@);
                match items[self.selected].action {
                    Some(Action::ToggleDetail) => {
                        self.show_detail = !self.show_detail;
                        Pick::Again
                    },
                    Some(Action::Quit) => Pick::Nothing,
                    Some(action) => Pick::Chosen(action, self.no_display),
                    None => Pick::Again,
                }
            },
            Key::Char(c) => {
                if c == 'k' {
                    self.selected = prev(items, self.selected);
                    Pick::Again
                } else if c == 'j' {
                    self.selected = next(items, self.selected);
                    Pick::Again
                } else if (c == 'd' || c == 'D') && !active {
                    self.no_display = !self.no_display;
                    Pick::Again
                } else if c == 'c' && control {
                    Pick::Nothing
                } else if c == 'q' || c == 'Q' {
                    Pick::Nothing
                } else {
                    Pick::Again
                }
            },
            Key::Other => Pick::Again,
        }
    }
}

/// Whatever keys are pressed in a menu of this program, an item with an action stays selected.
pub proof fn law_a_menu_always_selects_an_action(
    picker: Picker,
    active: bool,
    key: Key,
    control: bool,
)
    requires
        picker.selected < menu(active).len(),
        menu(active)[picker.selected as int].choice is Some,
    ensures
        ({
            let after = pressed(picker, menu(active), active, key, control).0;
            after.selected < menu(active).len() && menu(active)[after.selected as int].choice is Some
        }),
        menu(active)[first_place(menu(active), 0)].choice is Some,
{
    law_moving_stays_on_actions(menu(active), picker.selected as int, 1);
    law_moving_stays_on_actions(menu(active), picker.selected as int, -1);
}

/// What is done with what was picked.
#[derive(Clone, Copy, Debug)]
pub enum Deed {
    Nothing,
    Stop,
    /// Start a session without an end, after asking for the lid.
    StartIndefinite,
    /// Ask for a value, and start with it.
    Ask(&'static str, Option<&'static str>),
}

/// What is done with what was picked, if anything was.
pub fn run(picked: Option<Action>) -> (r: Deed)
    ensures
        match (picked, r) {
            (None, Deed::Nothing) => true,
            (Some(Action::ToggleDetail), Deed::Nothing) => true,
            (Some(Action::Quit), Deed::Nothing) => true,
            (Some(Action::Stop), Deed::Stop) => true,
            (Some(Action::StartIndefinite), Deed::StartIndefinite) => true,
            (Some(Action::Ask(prompt, flag)), Deed::Ask(p, f)) => prompt@ == p@ && (match (flag, f) {
                (Some(a), Some(b)) => a@ == b@,
                (None, None) => true,
                _ => false,
            }),
            _ => false,
        },
{
    match picked {
        None => Deed::Nothing,
        Some(action) => run_action(action),
    }
}

fn run_action(action: Action) -> (r: Deed)
    ensures
        match (action, r) {
            (Action::ToggleDetail, Deed::Nothing) => true,
            (Action::Quit, Deed::Nothing) => true,
            (Action::Stop, Deed::Stop) => true,
            (Action::StartIndefinite, Deed::StartIndefinite) => true,
            (Action::Ask(prompt, flag), Deed::Ask(p, f)) => prompt@ == p@ && (match (flag, f) {
                (Some(a), Some(b)) => a@ == b@,
                (None, None) => true,
                _ => false,
            }),
            _ => false,
        },
{
    match action {
        Action::Stop => Deed::Stop,
        Action::StartIndefinite => Deed::StartIndefinite,
        Action::Ask(prompt, flag) => Deed::Ask(prompt, flag),
        Action::ToggleDetail => Deed::Nothing,
        Action::Quit => Deed::Nothing,
    }
}

/// The words of a start with these parts.
pub open spec fn start_words(no_display: bool, parts: Seq<Seq<char>>) -> Seq<Seq<char>> {
    if no_display {
        seq!["--no-display"@] + parts
    } else {
        parts
    }
}

pub fn start_args(no_display: bool, parts: &[&str]) -> (r: Vec<String>)
    ensures
        text::texts(r@) == start_words(no_display, text::strs(parts@)),
{
    let mut args: Vec<String> = Vec::new();
    if no_display {
        args.push("--no-display".to_owned());
    }
    let ghost front = start_words(no_display, Seq::empty());
    assert(text::texts(args@) =~= front);
    let mut i: usize = 0;
    while i < parts.len()
        invariant
            i <= parts@.len(),
            text::texts(args@) == front + text::strs(parts@).take(i as int),
        decreases parts@.len() - i,
    {
        let ghost before = args@;
        args.push(parts[i].to_owned());
        assert(text::texts(args@) =~= text::texts(before).push(parts@[i as int]@));
        assert(text::strs(parts@).take(i + 1) =~= text::strs(parts@).take(i as int).push(
            parts@[i as int]@,
        ));
        assert(text::texts(args@) =~= front + text::strs(parts@).take(i + 1));
        i = i + 1;
    }
    assert(text::strs(parts@).take(i as int) =~= text::strs(parts@));
    assert(front + text::strs(parts@) =~= start_words(no_display, text::strs(parts@)));
    args
}

/// The words of a start of a session without an end.
pub fn start_indefinite(no_display: bool, even_lid: bool) -> (r: Vec<String>)
    ensures
        text::texts(r@) == start_words(
            no_display,
            if even_lid {
                seq!["--even-lid"@]
            } else {
                Seq::empty()
            },
        ),
{
    let mut parts: Vec<&str> = Vec::new();
    if even_lid {
        parts.push("--even-lid");
    }
    assert(text::strs(parts@) =~= if even_lid {
        seq!["--even-lid"@]
    } else {
        Seq::empty()
    });
    start_args(no_display, parts.as_slice())
}

/// The words of a start with a value that was asked for; nothing where none was given.
pub open spec fn asked_words(no_display: bool, value: Option<Seq<char>>, flag: Option<Seq<char>>) -> Option<
    Seq<Seq<char>>,
> {
    match value {
        None => None,
        Some(value) => {
            let value = text::trimmed(value);
            if value.len() == 0 {
                None
            } else {
                Some(
                    start_words(
                        no_display,
                        match flag {
                            Some(flag) => seq![flag, value],
                            None => seq![value],
                        },
                    ),
                )
            }
        },
    }
}

pub fn ask_and_start(no_display: bool, value: Option<&str>, flag: Option<&str>) -> (r: Option<
    Vec<String>,
>)
    ensures
        (match r {
            Some(args) => Some(text::texts(args@)),
            None => None,
        }) == asked_words(
            no_display,
            match value {
                Some(value) => Some(value@),
                None => None,
            },
            match flag {
                Some(flag) => Some(flag@),
                None => None,
            },
        ),
{
    let value = match value {
        None => return None,
        Some(value) => text::trim(value),
    };
    if value.is_empty() {
        return None;
    }
    let mut parts: Vec<&str> = Vec::new();
    match flag {
        Some(flag) => {
            parts.push(flag);
            parts.push(value);
            assert(text::strs(parts@) =~= seq![flag@, value@]);
        },
        None => {
            parts.push(value);
            assert(text::strs(parts@) =~= seq![value@]);
        },
    }
    Some(start_args(no_display, parts.as_slice()))
}

/// Whether an answer means yes.
pub fn ask_yes_no(answer: Option<&str>) -> (r: bool)
    ensures
        r == (answer matches Some(a) && text::trimmed(a@).len() > 0 && (text::trimmed(a@)[0] == 'y'
            || text::trimmed(a@)[0] == 'Y')),
{
    match answer {
        None => false,
        Some(answer) => {
            let chars = text::chars_of(text::trim(answer));
            chars.len() > 0 && (chars[0] == 'y' || chars[0] == 'Y')
        },
    }
}

/// A line that was read, without what ends it.
pub open spec fn unterminated(line: Seq<char>) -> Seq<char>
    decreases line.len(),
{
    if line.len() > 0 && (line.last() == '\r' || line.last() == '\n') {
        unterminated(line.drop_last())
    } else {
        line
    }
}

/// A line that was read, without what ends it; nothing where nothing could be read.
pub fn read_stdin_line(read: Option<&str>) -> (r: Option<String>)
    ensures
        text::maybe(r) == (match read {
            Some(line) => if line@.len() == 0 {
                None
            } else {
                Some(unterminated(line@))
            },
            None => None,
        }),
{
    let line = match read {
        None => return None,
        Some(line) => line,
    };
    let chars = text::chars_of(line);
    if chars.len() == 0 {
        return None;
    }
    let mut end: usize = chars.len();
    assert(line@.take(end as int) =~= line@);
    while end > 0 && (chars[end - 1] == '\r' || chars[end - 1] == '\n')
        invariant
            end <= chars@.len(),
            chars@ == line@,
            unterminated(line@) == unterminated(line@.take(end as int)),
        decreases end,
    {
        assert(line@.take(end as int).drop_last() =~= line@.take(end - 1));
        assert(line@.take(end as int).last() == chars@[end - 1]);
        end = end - 1;
    }
    assert(end > 0 ==> line@.take(end as int).last() == chars@[end - 1]);
    let kept = line.substring_char(0, end);
    assert(kept@ =~= line@.take(end as int));
    Some(kept.to_owned())
}

/// What a terminal was switched to.
#[derive(Clone, Copy, Debug, PartialEq, Eq, Structural)]
pub struct Terminal {
    /// The other screen is shown.
    pub active: bool,
    /// Keys come one by one.
    pub raw: bool,
}

impl Terminal {
    /// Leave the other screen: whether it is to be left, and whether keys are to come in lines again. The second
    /// time there is nothing left to do.
    pub fn leave(&mut self) -> (r: (bool, bool))
        ensures
            r == (old(self).active, old(self).active && old(self).raw),
            *final(self) == (Terminal {
                active: false,
                raw: !old(self).active && old(self).raw,
            }),
    {
        if !self.active {
            return (false, false);
        }
        self.active = false;
        let raw = self.raw;
        self.raw = false;
        (true, raw)
    }
}

/// How text is painted.
#[derive(Clone, Copy, Debug, PartialEq, Eq, Structural)]
pub enum Ink {
    Plain,
    Color(u8),
    Bold(u8),
    Dim,
}

/// A piece of a line.
#[derive(Debug)]
pub struct Piece {
    pub ink: Ink,
    pub text: String,
}

impl View for Piece {
    type V = (Ink, Seq<char>);

    open spec fn view(&self) -> (Ink, Seq<char>) {
        (self.ink, self.text@)
    }
}

/// What the pieces of a line say.
pub open spec fn pieces(line: Seq<Piece>) -> Seq<(Ink, Seq<char>)> {
    line.map_values(|p: Piece| p@)
}

/// What lines say.
pub open spec fn shown(lines: Seq<Vec<Piece>>) -> Seq<Seq<(Ink, Seq<char>)>> {
    lines.map_values(|line: Vec<Piece>| pieces(line@))
}

fn piece(ink: Ink, words: &str) -> (r: Piece)
    ensures
        r@ == (ink, words@),
{
    Piece { ink, text: words.to_owned() }
}

fn line_of(first: Piece) -> (r: Vec<Piece>)
    ensures
        pieces(r@) == seq![first@],
{
    let mut line: Vec<Piece> = Vec::new();
    line.push(first);
    assert(pieces(line@) =~= seq![first@]);
    line
}

fn line_of_two(first: Piece, second: Piece) -> (r: Vec<Piece>)
    ensures
        pieces(r@) == seq![first@, second@],
{
    let mut line: Vec<Piece> = Vec::new();
    line.push(first);
    line.push(second);
    assert(pieces(line@) =~= seq![first@, second@]);
    line
}

fn empty_line() -> (r: Vec<Piece>)
    ensures
        pieces(r@) == Seq::<(Ink, Seq<char>)>::empty(),
{
    let line: Vec<Piece> = Vec::new();
    assert(pieces(line@) =~= Seq::<(Ink, Seq<char>)>::empty());
    line
}

/// A plain piece.
pub open spec fn plainly(words: Seq<char>) -> (Ink, Seq<char>) {
    (Ink::Plain, words)
}

/// The lines above the menu.
pub open spec fn heading() -> Seq<Seq<(Ink, Seq<char>)>> {
    seq![
        seq![
            plainly("  "@),
            (Ink::Bold(87), "☕ wake"@),
            plainly("  "@),
            (Ink::Dim, "- keep your machine awake"@),
        ],
        Seq::empty(),
    ]
}

/// The line that tells of the active session.
pub open spec fn active_pieces(s: Record, now: Timestamp) -> Seq<(Ink, Seq<char>)> {
    let front = seq![
        plainly("  "@),
        (Ink::Color(220), "● active"@),
        plainly("   "@ + s.trigger + " "@ + s.detail),
    ];
    match s.ends_at {
        Some(_) => front + seq![
            plainly("   "@),
            (Ink::Dim, "("@ + report::remaining(s, now) + " left)"@),
        ],
        None => front,
    }
}

/// The lines that tell the details of the active session. `started` is its start as the wall clock showed it; a
/// session without one counts as starting now.
pub open spec fn detail_lines(s: Record, now: Timestamp, started: Seq<char>) -> Seq<Seq<(Ink, Seq<char>)>> {
    let start = match s.started_at {
        Some(t) => t,
        None => now,
    };
    let elapsed = report::pretty(time::whole_seconds(time::nanos_between(now, start)));
    seq![
        seq![plainly("    mode      : "@ + s.mode)],
        seq![plainly("    trigger   : "@ + s.trigger + " ("@ + s.detail + ")"@)],
        seq![plainly("    started   : "@ + started + " ("@ + elapsed + " ago)"@)],
        seq![plainly("    remaining : "@ + report::remaining(s, now))],
    ]
}

/// The lines that tell of the session, or that there is none.
pub open spec fn session_lines(
    existing: Option<Record>,
    show_detail: bool,
    now: Timestamp,
    started: Seq<char>,
) -> Seq<Seq<(Ink, Seq<char>)>> {
    match existing {
        Some(s) => seq![active_pieces(s, now)] + (if show_detail {
            detail_lines(s, now, started)
        } else {
            Seq::empty()
        }) + seq![Seq::empty()],
        None => seq![
            seq![plainly("  "@), (Ink::Color(245), "○ no active session"@)],
            Seq::empty(),
        ],
    }
}

/// The line of an item of the menu.
pub open spec fn item_line(item: Entry, selected: bool) -> Seq<(Ink, Seq<char>)> {
    if item.choice is None {
        seq![plainly("    "@), (Ink::Dim, "─────────────────────────"@)]
    } else if selected {
        let front = seq![plainly("  "@), (Ink::Bold(213), "▸ "@ + item.label)];
        if item.hint.len() > 0 {
            front + seq![plainly("   "@), (Ink::Dim, item.hint)]
        } else {
            front
        }
    } else {
        seq![plainly("    "@ + item.label)]
    }
}

/// The line below the menu.
pub open spec fn footer(active: bool, no_display: bool) -> Seq<char> {
    "↑↓/jk navigate · ↵ select"@ + (if active {
        ""@
    } else {
        " · d display-sleep ["@ + (if no_display {
            "ON"@
        } else {
            "off"@
        }) + "]"@
    }) + " · q quit"@
}

/// All that is shown of the menu, line by line.
pub open spec fn screen(
    picker: Picker,
    items: Seq<Entry>,
    existing: Option<Record>,
    now: Timestamp,
    started: Seq<char>,
) -> Seq<Seq<(Ink, Seq<char>)>> {
    heading() + session_lines(existing, picker.show_detail, now, started) + Seq::new(
        items.len(),
        |i: int| item_line(items[i], i == picker.selected),
    ) + seq![
        Seq::empty(),
        seq![plainly("  "@), (Ink::Dim, footer(existing is Some, picker.no_display))],
    ]
}

fn active_line(s: &Session, now: &Timestamp) -> (r: Vec<Piece>)
    requires
        s@.well_formed(),
        now.valid(),
    ensures
        pieces(r@) == active_pieces(s@, *now),
{
    let mut told = "   ".to_owned();
    told.append(s.trigger.as_str());
    told.append(" ");
    told.append(s.detail.as_str());
    let mut line: Vec<Piece> = Vec::new();
    line.push(piece(Ink::Plain, "  "));
    line.push(piece(Ink::Color(220), "● active"));
    line.push(Piece { ink: Ink::Plain, text: told });
    match &s.ends_at {
        Some(end) => {
            let mut left = "(".to_owned();
            left.append(report::pretty_duration(time::seconds_between(end, now)).as_str());
            left.append(" left)");
            line.push(piece(Ink::Plain, "   "));
            line.push(Piece { ink: Ink::Dim, text: left });
        },
        None => {},
    }
    assert(pieces(line@) =~= active_pieces(s@, *now));
    line
}

fn append_detail(s: &Session, now: &Timestamp, started: &str) -> (r: Vec<Vec<Piece>>)
    requires
        s@.well_formed(),
        now.valid(),
    ensures
        shown(r@) == detail_lines(s@, *now, started@),
{
    let start = match s.started_at {
        Some(t) => t,
        None => *now,
    };
    let mut mode = "    mode      : ".to_owned();
    mode.append(s.mode.as_str());
    let mut trigger = "    trigger   : ".to_owned();
    trigger.append(s.trigger.as_str());
    trigger.append(" (");
    trigger.append(s.detail.as_str());
    trigger.append(")");
    let mut since = "    started   : ".to_owned();
    since.append(started);
    since.append(" (");
    since.append(report::pretty_duration(time::seconds_between(now, &start)).as_str());
    since.append(" ago)");
    let mut left = "    remaining : ".to_owned();
    match &s.ends_at {
        None => left.append("-"),
        Some(end) => left.append(
            report::pretty_duration(time::seconds_between(end, now)).as_str(),
        ),
    }
    let mut lines: Vec<Vec<Piece>> = Vec::new();
    lines.push(line_of(Piece { ink: Ink::Plain, text: mode }));
    lines.push(line_of(Piece { ink: Ink::Plain, text: trigger }));
    lines.push(line_of(Piece { ink: Ink::Plain, text: since }));
    lines.push(line_of(Piece { ink: Ink::Plain, text: left }));
    assert(shown(lines@) =~= detail_lines(s@, *now, started@));
    lines
}

fn menu_line(item: &Item, selected: bool) -> (r: Vec<Piece>)
    ensures
        pieces(r@) == item_line(item@, selected),
{
    if item.action.is_none() {
        return line_of_two(
            piece(Ink::Plain, "    "),
            piece(Ink::Dim, "─────────────────────────"),
        );
    }
    if !selected {
        let mut words = "    ".to_owned();
        words.append(item.label);
        return line_of(Piece { ink: Ink::Plain, text: words });
    }
    let mut words = "▸ ".to_owned();
    words.append(item.label);
    let mut line = line_of_two(
        piece(Ink::Plain, "  "),
        Piece { ink: Ink::Bold(213), text: words },
    );
    if !item.hint.is_empty() {
        let ghost front = line@;
        line.push(piece(Ink::Plain, "   "));
        line.push(piece(Ink::Dim, item.hint));
        assert(pieces(line@) =~= pieces(front) + seq![plainly("   "@), (Ink::Dim, item.hint@)]);
    }
    line
}

fn footer_text(active: bool, no_display: bool) -> (r: String)
    ensures
        r@ == footer(active, no_display),
{
    let mut m = "↑↓/jk navigate · ↵ select".to_owned();
    if active {
        m.append("");
    } else {
        let mut hint = " · d display-sleep [".to_owned();
        hint.append(
            if no_display {
                "ON"
            } else {
                "off"
            },
        );
        hint.append("]");
        m.append(hint.as_str());
    }
    m.append(" · q quit");
    m
}

impl Picker {
    /// All that is shown of the menu, line by line. `started` is the start of the active session as the wall
    /// clock showed it.
    pub fn render(
        &self,
        items: &Vec<Item>,
        existing: Option<&Session>,
        now: Timestamp,
        started: &str,
    ) -> (r: Vec<Vec<Piece>>)
        requires
            now.valid(),
            existing matches Some(s) ==> s@.well_formed(),
        ensures
            shown(r@) == screen(
                *self,
                entries(items@),
                match existing {
                    Some(s) => Some(s@),
                    None => None,
                },
                now,
                started@,
            ),
    {
        let mut lines: Vec<Vec<Piece>> = Vec::new();
        let mut title = line_of_two(piece(Ink::Plain, "  "), piece(Ink::Bold(87), "☕ wake"));
        let ghost front = title@;
        title.push(piece(Ink::Plain, "  "));
        title.push(piece(Ink::Dim, "- keep your machine awake"));
        assert(pieces(title@) =~= pieces(front) + seq![
            plainly("  "@),
            (Ink::Dim, "- keep your machine awake"@),
        ]);
        assert(pieces(title@) =~= heading()[0]);
        lines.push(title);
        lines.push(empty_line());
        assert(shown(lines@) =~= heading());
        let ghost told = session_lines(
            match existing {
                Some(s) => Some(s@),
                None => None,
            },
            self.show_detail,
            now,
            started@,
        );
        match existing {
            Some(s) => {
                lines.push(active_line(s, &now));
                if self.show_detail {
                    let mut detail = append_detail(s, &now, started);
                    let ghost before = lines@;
                    let ghost more = detail@;
                    lines.append(&mut detail);
                    assert(shown(lines@) =~= shown(before) + shown(more));
                }
                lines.push(empty_line());
            },
            None => {
                lines.push(
                    line_of_two(piece(Ink::Plain, "  "), piece(Ink::Color(245), "○ no active session")),
                );
                lines.push(empty_line());
            },
        }
        assert(shown(lines@) =~= heading() + told);
        let ghost above = shown(lines@);
        let ghost all = entries(items@);
        let mut i: usize = 0;
        while i < items.len()
            invariant
                i <= items@.len(),
                all == entries(items@),
                shown(lines@) == above + Seq::new(
                    i as nat,
                    |k: int| item_line(all[k], k == self.selected),
                ),
            decreases items@.len() - i,
        {
            let ghost before = lines@;
            assert(all[i as int] == items@[i as int]@);
            lines.push(menu_line(&items[i], i == self.selected));
            assert(shown(lines@) =~= shown(before).push(
                item_line(all[i as int], i == self.selected),
            ));
            assert(shown(lines@) =~= above + Seq::new(
                (i + 1) as nat,
                |k: int| item_line(all[k], k == self.selected),
            ));
            i = i + 1;
        }
        let ghost before = lines@;
        lines.push(empty_line());
        lines.push(
            line_of_two(
                piece(Ink::Plain, "  "),
                Piece { ink: Ink::Dim, text: footer_text(existing.is_some(), self.no_display) },
            ),
        );
        assert(shown(lines@) =~= shown(before) + seq![
            Seq::empty(),
            seq![plainly("  "@), (Ink::Dim, footer(existing is Some, self.no_display))],
        ]);
        lines
    }
}

/// Moving goes to the next item where that has an action, and round from the last item to the first and back.
pub proof fn law_moving_goes_to_the_next_item(items: Seq<Entry>, current: int)
    requires
        0 <= current < items.len(),
    ensures
        current + 1 < items.len() && items[current + 1].choice is Some ==> next_place(
            items,
            current,
            1,
            1,
        ) == current + 1,
        current > 0 && items[current - 1].choice is Some ==> next_place(items, current, -1, 1)
            == current - 1,
        current == items.len() - 1 && items[0].choice is Some ==> next_place(items, current, 1, 1)
            == 0,
        current == 0 && items.last().choice is Some ==> next_place(items, current, -1, 1)
            == items.len() - 1,
        current + 2 < items.len() && items[current + 1].choice is None && items[current + 2].choice
            is Some ==> next_place(items, current, 1, 1) == current + 2,
{
    let len = items.len() as int;
    lemma_place(len, current, 1, 1);
    lemma_place(len, current, -1, 1);
    if len >= 2 {
        lemma_place(len, current, 1, 2);
    }
    reveal_with_fuel(next_place, 3);
}

/// The letters do what the keys do; the display is toggled only where a session can be started, and twice is as
/// never; three keys leave the menu; and nothing but these and the selected item's action does anything.
pub proof fn law_keys_do_what_they_say(
    picker: Picker,
    items: Seq<Entry>,
    active: bool,
    control: bool,
    other: char,
)
    requires
        other != 'j' && other != 'k' && other != 'd' && other != 'D' && other != 'c' && other != 'q'
            && other != 'Q',
    ensures
        pressed(picker, items, active, Key::Char('k'), control) == pressed(
            picker,
            items,
            active,
            Key::Up,
            control,
        ),
        pressed(picker, items, active, Key::Char('j'), control) == pressed(
            picker,
            items,
            active,
            Key::Down,
            control,
        ),
        ({
            let once = pressed(picker, items, active, Key::Char('d'), control);
            &&& once.1 is Again
            &&& once.0.no_display == (if active {
                picker.no_display
            } else {
                !picker.no_display
            })
            &&& pressed(once.0, items, active, Key::Char('D'), control).0 == picker
        }),
        pressed(picker, items, active, Key::Esc, control) == (picker, Picked::Nothing),
        pressed(picker, items, active, Key::Char('q'), control) == (picker, Picked::Nothing),
        pressed(picker, items, active, Key::Char('Q'), control) == (picker, Picked::Nothing),
        pressed(picker, items, active, Key::Char('c'), true) == (picker, Picked::Nothing),
        pressed(picker, items, active, Key::Char('c'), false) == (picker, Picked::Again),
        pressed(picker, items, active, Key::Char(other), control) == (picker, Picked::Again),
        pressed(picker, items, active, Key::Other, control) == (picker, Picked::Again),
{
}

/// The way down and the way up move the mark and nothing else.
pub proof fn law_arrows_move_the_mark(
    picker: Picker,
    active: bool,
    control: bool,
)
    requires
        picker.selected < menu(active).len(),
        menu(active)[picker.selected as int].choice is Some,
    ensures
        ({
            let (down, picked) = pressed(picker, menu(active), active, Key::Down, control);
            &&& picked is Again
            &&& down.no_display == picker.no_display && down.show_detail == picker.show_detail
            &&& pressed(down, menu(active), active, Key::Up, control).0 == picker
        }),
{
    law_moving_stays_on_actions(menu(active), picker.selected as int, 1);
}

/// Enter picks what the selected item stands for, together with whether the display may sleep; to see the details
/// or to quit picks nothing.
pub proof fn law_enter_picks_the_selected_item(
    picker: Picker,
    items: Seq<Entry>,
    active: bool,
    control: bool,
)
    requires
        picker.selected < items.len(),
    ensures
        ({
            let (after, picked) = pressed(picker, items, active, Key::Enter, control);
            match items[picker.selected as int].choice {
                Some(Choice::ToggleDetail) => picked is Again && after.show_detail
                    == !picker.show_detail && after.selected == picker.selected,
                Some(Choice::Quit) => picked is Nothing && after == picker,
                Some(Choice::Stop) => picked == Picked::Chosen(Choice::Stop, picker.no_display),
                Some(Choice::StartIndefinite) => picked == Picked::Chosen(
                    Choice::StartIndefinite,
                    picker.no_display,
                ),
                Some(Choice::Ask(prompt, flag)) => picked == Picked::Chosen(
                    Choice::Ask(prompt, flag),
                    picker.no_display,
                ),
                None => picked is Again && after == picker,
            }
        }),
{
}

/// What is picked is done: a stop stops, and a question is asked as it stands in the menu.
pub proof fn law_picks_are_done(action: Action, done: Deed, nothing: Deed)
    requires
        call_ensures(run, (Some(action),), done),
        call_ensures(run, (None::<Action>,), nothing),
    ensures
        done is Stop <==> action is Stop,
        done is StartIndefinite <==> action is StartIndefinite,
        done is Ask <==> action is Ask,
        done matches Deed::Ask(prompt, flag) ==> (action matches Action::Ask(p, f) && p@ == prompt@
            && (flag is Some <==> f is Some)),
        nothing is Nothing,
{
}

/// What a start from the menu asks for is what the same words ask for on the command line, without the display
/// where it was toggled. Without a value nothing is started; space around it does not count.
pub proof fn law_values_from_the_menu_start_sessions(
    platform: Platform,
    no_display: bool,
    value: Seq<char>,
    flag: Option<Seq<char>>,
    answers: commands::Answers,
)
    requires
        flag matches Some(f) ==> f != "--no-display"@,
        flag is None ==> text::trimmed(value) != "--no-display"@,
    ensures
        ({
            let trimmed = text::trimmed(value);
            let words = match flag {
                Some(f) => seq![f, trimmed],
                None => seq![trimmed],
            };
            let plain = commands::requested(platform, words, answers);
            let r = asked_words(no_display, Some(value), flag);
            &&& trimmed.len() == 0 ==> r is None
            &&& trimmed.len() > 0 ==> r is Some && (plain is Ok && !plain->Ok_0.no_display
                ==> commands::requested(platform, r->0, answers) == Ok::<commands::Request, Fault>(
                commands::Request { no_display, ..plain->Ok_0 },
            ))
            &&& asked_words(no_display, None, flag) is None
        }),
{
    let trimmed = text::trimmed(value);
    let words = match flag {
        Some(f) => seq![f, trimmed],
        None => seq![trimmed],
    };
    let plain = commands::requested(platform, words, answers);
    if plain is Ok && !plain->Ok_0.no_display {
        commands::law_flags_may_stand_anywhere(platform, words, 0, answers, false);
        assert(words.insert(0, "--no-display"@) =~= seq!["--no-display"@] + words);
    }
}

/// A start without an end from the menu asks for just that, with the lid and without the display as the user
/// said.
pub proof fn law_endless_starts_from_the_menu(
    platform: Platform,
    no_display: bool,
    even_lid: bool,
    args: Vec<String>,
    answers: commands::Answers,
)
    requires
        call_ensures(start_indefinite, (no_display, even_lid), args),
    ensures
        commands::requested(platform, text::texts(args@), answers) matches Ok(r) && r.trigger
            == "indefinite"@ && r.no_display == no_display && r.even_lid == even_lid
            && r.timeout_sec is None && r.charge_target is None && r.wait_pid is None,
{
    let none = Seq::<Seq<char>>::empty();
    commands::law_nothing_asked_is_forever(platform, answers);
    let parts = if even_lid {
        seq!["--even-lid"@]
    } else {
        none
    };
    if even_lid {
        commands::law_flags_may_stand_anywhere(platform, none, 0, answers, true);
        assert(none.insert(0, "--even-lid"@) =~= parts);
    }
    if no_display {
        commands::law_flags_may_stand_anywhere(platform, parts, 0, answers, false);
        assert(parts.insert(0, "--no-display"@) =~= seq!["--no-display"@] + parts);
    }
}

/// What ends a line is taken off it, and nothing else of it; a line that begins with a y after any space means
/// yes, and no other does.
pub proof fn law_answers_are_read(line: Seq<char>, ending: Seq<char>, answer: &str, yes: bool)
    requires
        line.len() > 0 ==> line.last() != '\r' && line.last() != '\n',
        forall|i: int| 0 <= i < ending.len() ==> #[trigger] ending[i] == '\r' || ending[i] == '\n',
        call_ensures(ask_yes_no, (Some(answer),), yes),
    ensures
        unterminated(line + ending) == line,
        yes <==> text::trimmed(answer@).len() > 0 && (text::trimmed(answer@)[0] == 'y'
            || text::trimmed(answer@)[0] == 'Y'),
    decreases ending.len(),
{
    if ending.len() > 0 {
        let all = line + ending;
        assert(all.last() == ending[ending.len() - 1]);
        assert(all.drop_last() =~= line + ending.drop_last());
        law_answers_are_read(line, ending.drop_last(), answer, yes);
    } else {
        assert(line + ending =~= line);
    }
}

/// Every item has a line of its own on the screen, in the order of the menu; just the selected one is marked and
/// has its hint, and what parts others has no label.
pub proof fn law_the_screen_marks_what_is_selected(
    picker: Picker,
    items: Seq<Entry>,
    existing: Option<Record>,
    now: Timestamp,
    started: Seq<char>,
    i: int,
)
    requires
        0 <= i < items.len(),
    ensures
        ({
            let lines = screen(picker, items, existing, now, started);
            let above: int = if existing is Some && picker.show_detail {
                8
            } else {
                4
            };
            let line = lines[above + i];
            &&& lines.len() == above + items.len() + 2
            &&& items[i].choice is Some && i == picker.selected ==> line.contains(
                (Ink::Bold(213), "▸ "@ + items[i].label),
            ) && (items[i].hint.len() > 0 ==> line.contains((Ink::Dim, items[i].hint)))
            &&& items[i].choice is Some && i != picker.selected ==> line == seq![
                (Ink::Plain, "    "@ + items[i].label),
            ]
            &&& items[i].choice is None ==> line.contains((Ink::Dim, "─────────────────────────"@))
        }),
{
    let lines = screen(picker, items, existing, now, started);
    let told = session_lines(existing, picker.show_detail, now, started);
    let above: int = if existing is Some && picker.show_detail {
        8
    } else {
        4
    };
    assert(told.len() == above - 2);
    let line = lines[above + i];
    assert(line == item_line(items[i], i == picker.selected));
    if items[i].choice is None {
        assert(line[1] == (Ink::Dim, "─────────────────────────"@));
    } else if i == picker.selected {
        assert(line[1] == (Ink::Bold(213), "▸ "@ + items[i].label));
        if items[i].hint.len() > 0 {
            assert(line[3] == (Ink::Dim, items[i].hint));
        }
    }
}

/// The screen tells what the active session waits for and how long it has still to go, where it has an end; its
/// details only where they are asked for; and that there is none only where there is none.
pub proof fn law_the_screen_tells_of_the_session(
    picker: Picker,
    items: Seq<Entry>,
    s: Record,
    now: Timestamp,
    started: Seq<char>,
    left: nat,
)
    requires
        now.nanos < 1_000_000_000,
    ensures
        ({
            let lines = screen(picker, items, Some(s), now, started);
            &&& lines[2].contains((Ink::Color(220), "● active"@))
            &&& lines[2].contains((Ink::Plain, "   "@ + s.trigger + " "@ + s.detail))
            &&& s.ends_at matches Some(end) ==> (end.seconds == now.seconds + left && end.nanos
                == now.nanos ==> lines[2].contains(
                (Ink::Dim, "("@ + report::pretty(left as int) + " left)"@),
            ))
            &&& s.ends_at is None ==> lines[2].len() == 3
            &&& picker.show_detail ==> lines[3] == seq![
                (Ink::Plain, "    mode      : "@ + s.mode),
            ] && lines[4] == seq![
                (Ink::Plain, "    trigger   : "@ + s.trigger + " ("@ + s.detail + ")"@),
            ]
            &&& screen(picker, items, None, now, started)[2].contains(
                (Ink::Color(245), "○ no active session"@),
            )
        }),
{
    let lines = screen(picker, items, Some(s), now, started);
    let line = lines[2];
    assert(line == active_pieces(s, now));
    assert(line[1] == (Ink::Color(220), "● active"@));
    assert(line[2] == (Ink::Plain, "   "@ + s.trigger + " "@ + s.detail));
    match s.ends_at {
        Some(end) => {
            if end.seconds == now.seconds + left && end.nanos == now.nanos {
                assert(time::nanos_between(end, now) == left * 1_000_000_000);
                assert(time::whole_seconds((left * 1_000_000_000) as int) == left);
                assert(line[4] == (Ink::Dim, "("@ + report::pretty(left as int) + " left)"@));
            }
        },
        None => {},
    }
    if picker.show_detail {
        let detail = detail_lines(s, now, started);
        assert(lines[3] == detail[0]);
        assert(lines[4] == detail[1]);
    }
    let empty = screen(picker, items, None, now, started);
    assert(empty[2] == seq![plainly("  "@), (Ink::Color(245), "○ no active session"@)]);
    assert(empty[2][1] == (Ink::Color(245), "○ no active session"@));
}

/// Below the menu stands whether the display may sleep, where a session can be started.
pub proof fn law_the_footer_tells_of_the_display(no_display: bool)
    ensures
        footer(true, no_display) == "↑↓/jk navigate · ↵ select"@ + ""@ + " · q quit"@,
        footer(false, true) == "↑↓/jk navigate · ↵ select"@ + (" · d display-sleep ["@ + "ON"@
            + "]"@) + " · q quit"@,
        footer(false, false) == "↑↓/jk navigate · ↵ select"@ + (" · d display-sleep ["@ + "off"@
            + "]"@) + " · q quit"@,
{
}

/// The menu can stop a session only while one is active, and start one only while none is; each question stands
/// before the flag that its answer goes with, and one can always quit.
pub proof fn law_the_menu_fits_the_session()
    ensures
        forall|i: int|
            0 <= i < menu(true).len() ==> (#[trigger] menu(true)[i]).choice !is Some
                || menu(true)[i].choice->0 is ToggleDetail || menu(true)[i].choice->0 is Stop
                || menu(true)[i].choice->0 is Quit,
        forall|i: int|
            0 <= i < menu(false).len() ==> (#[trigger] menu(false)[i]).choice !is Some
                || menu(false)[i].choice->0 is StartIndefinite || menu(false)[i].choice->0 is Ask
                || menu(false)[i].choice->0 is Quit,
        forall|i: int|
            0 <= i < menu(false).len() ==> ((#[trigger] menu(false)[i]).choice matches Some(
                Choice::Ask(_, Some(flag)),
            ) ==> commands::takes_value(flag)),
        menu(true).last().choice == Some(Choice::Quit),
        menu(false).last().choice == Some(Choice::Quit),
        exists|i: int|
            0 <= i < menu(true).len() && (#[trigger] menu(true)[i]).choice == Some(Choice::Stop),
{
    assert(menu(true)[1].choice == Some(Choice::Stop));
}

/// The menu opens on its first item with an action.
pub proof fn law_the_first_action_is_selected(items: Seq<Entry>, from: int, i: int)
    requires
        0 <= from <= i < items.len(),
        items[i].choice is Some,
        forall|k: int| from <= k < i ==> (#[trigger] items[k]).choice is None,
    ensures
        first_place(items, from) == i,
    decreases i - from,
{
    if from < i {
        assert(items[from].choice is None);
        law_the_first_action_is_selected(items, from + 1, i);
    }
}

/// Colours are used exactly where the user does not ask for none and the terminal is one that has them.
pub proof fn law_colours_are_used_where_they_are_seen(no_color: bool, term: &str, r: bool, none: bool)
    requires
        call_ensures(style_enabled, (no_color, Some(term)), r),
        call_ensures(style_enabled, (no_color, None::<&str>), none),
    ensures
        no_color ==> !r,
        term@ == "dumb"@ ==> !r,
        text::trimmed(term@).len() == 0 ==> !r,
        !no_color && text::trimmed(term@).len() > 0 && text::ascii_lower(term@)
            != text::ascii_lower("dumb"@) ==> r,
        !none,
{
}

} // verus!
