//! The decisions of the main menu and of the timetable view: what a key
//! does to the selection and which action it starts.

use vstd::prelude::*;
use crate::screen::choice_texts;

verus! {

/// What the menu does after a key.
#[derive(Debug, Clone, Copy, PartialEq, Eq, Structural)]
pub enum MenuAction {
    /// Leave the program.
    Quit,
    /// Show the timetable until the user closes it.
    ShowTimetable,
    /// Nothing beyond redrawing the menu.
    Stay,
}

/// The outcome of a key in the menu: the new selection, the action, and
/// whether the backdrop is painted again before the menu is redrawn.
#[derive(Debug, Clone, Copy)]
pub struct MenuStep {
    pub selected: i8,
    pub action: MenuAction,
    pub repaint: bool,
}

/// The key that quits the menu and closes the timetable (`q`).
pub open spec fn quit_key() -> int {
    113
}

/// The key code the terminal sends last for the down arrow.
pub open spec fn down_key() -> int {
    66
}

/// The key code the terminal sends last for the up arrow.
pub open spec fn up_key() -> int {
    65
}

/// The key code of Enter.
pub open spec fn enter_key() -> int {
    13
}

/// The action a choice starts, by its text: "View timetable" shows the
/// timetable, "Exit" quits, any other does nothing.
pub open spec fn action_for(label: Seq<char>) -> MenuAction {
    if label == "View timetable"@ {
        MenuAction::ShowTimetable
    } else if label == "Exit"@ {
        MenuAction::Quit
    } else {
        MenuAction::Stay
    }
}

/// The keys the menu accepts: Enter and every key from `0` (48) up. Other
/// keys make the number-key arithmetic go below zero, which stops the
/// program.
pub open spec fn menu_key_accepted(key: int) -> bool {
    key == enter_key() || key >= 48
}

/// What `key` does with the choices `labels` and the selection `selected`:
/// `q` quits; down and up move the selection, wrapping around; Enter
/// starts the selected choice and repaints the backdrop; a key `k` for
/// which `k - 47` is at most the number of choices, other than `0`,
/// starts choice `k - 49`; any other key does nothing.
pub open spec fn menu_step_of(labels: Seq<Seq<char>>, selected: int, key: int) -> (int, MenuAction, bool) {
    let n = labels.len() as int;
    if key == quit_key() {
        (selected, MenuAction::Quit, false)
    } else if key == down_key() {
        (if selected + 1 >= n { 0 } else { selected + 1 }, MenuAction::Stay, false)
    } else if key == up_key() {
        (if selected - 1 < 0 { n - 1 } else { selected - 1 }, MenuAction::Stay, false)
    } else if key == enter_key() {
        (selected, action_for(labels[selected]), true)
    } else if key - 47 <= n && key != 48 {
        (selected, action_for(labels[key - 49]), false)
    } else {
        (selected, MenuAction::Stay, false)
    }
}

fn action_of_label(label: &str) -> (a: MenuAction)
    ensures
        a == action_for(label@),
{
    let text = label.to_owned();
    if text == "View timetable".to_owned() {
        MenuAction::ShowTimetable
    } else if text == "Exit".to_owned() {
        MenuAction::Quit
    } else {
        MenuAction::Stay
    }
}

/// What a key pressed in the menu does.
pub fn menu_step(choices: &Vec<&str>, selected: i8, key: u8) -> (step: MenuStep)
    requires
        1 <= choices.len() <= 127,
        0 <= selected < choices.len(),
        menu_key_accepted(key as int),
    ensures
        (step.selected as int, step.action, step.repaint) == menu_step_of(
            choice_texts(choices@),
            selected as int,
            key as int,
        ),
{
    let n = choices.len() as i8;
    let ghost labels = choice_texts(choices@);
    if key == 113 {
        MenuStep { selected, action: MenuAction::Quit, repaint: false }
    } else if key == 66 {
        let mut next = selected + 1;
        if next >= n {
            next = 0;
        }
        MenuStep { selected: next, action: MenuAction::Stay, repaint: false }
    } else if key == 65 {
        let mut next = selected - 1;
        if next < 0 {
            next = n - 1;
        }
        MenuStep { selected: next, action: MenuAction::Stay, repaint: false }
    } else if key == 13 {
        assert(labels[selected as int] == choices@[selected as int]@);
        let action = action_of_label(choices[selected as usize]);
        MenuStep { selected, action, repaint: true }
    } else if key - 47 <= choices.len() as u8 && key != 48 {
        let index = (key - 49) as usize;
        assert(labels[index as int] == choices@[index as int]@);
        let action = action_of_label(choices[index]);
        MenuStep { selected, action, repaint: false }
    } else {
        MenuStep { selected, action: MenuAction::Stay, repaint: false }
    }
}

/// The choices of the main menu, in order.
pub open spec fn main_menu_texts() -> Seq<Seq<char>> {
    seq!["View timetable"@, "Edit timetable"@, "Exit"@]
}

/// The choices of the main menu.
pub fn main_menu_choices() -> (choices: Vec<&'static str>)
    ensures
        choice_texts(choices@) == main_menu_texts(),
{
    let choices = vec!["View timetable", "Edit timetable", "Exit"];
    assert(choice_texts(choices@) =~= main_menu_texts());
    choices
}

/// Whether a key pressed while the timetable is shown closes it (`q`);
/// every key redraws it first.
pub fn timetable_view_closes(key: u8) -> (closes: bool)
    ensures
        closes == (key as int == quit_key()),
{
    key == 113
}

/// Every accepted key leaves the selection on one of the choices.
pub proof fn lemma_selection_stays_on_a_choice(labels: Seq<Seq<char>>, selected: int, key: int)
    requires
        1 <= labels.len(),
        0 <= selected < labels.len(),
        menu_key_accepted(key),
    ensures
        0 <= menu_step_of(labels, selected, key).0 < labels.len(),
{
}

/// Only the arrows move the selection: every other key leaves it on the
/// same choice, and only Enter repaints the backdrop.
pub proof fn lemma_only_arrows_move_the_selection(labels: Seq<Seq<char>>, selected: int, key: int)
    ensures
        key != up_key() && key != down_key() ==> menu_step_of(labels, selected, key).0 == selected,
        menu_step_of(labels, selected, key).2 <==> key == enter_key(),
{
}

/// The selection after the keys `keys`, pressed in order from `selected`.
pub open spec fn selection_after(labels: Seq<Seq<char>>, selected: int, keys: Seq<int>) -> int
    decreases keys.len(),
{
    if keys.len() == 0 {
        selected
    } else {
        selection_after(labels, menu_step_of(labels, selected, keys[0]).0, keys.drop_first())
    }
}

/// However many accepted keys are pressed, the selection stays on one of
/// the choices after each of them, so the menu is never drawn with a
/// selection outside its choices (the main menu starts on its first).
pub proof fn lemma_selection_stays_over_any_keys(labels: Seq<Seq<char>>, selected: int, keys: Seq<int>)
    requires
        1 <= labels.len(),
        0 <= selected < labels.len(),
        forall|i: int| 0 <= i < keys.len() ==> menu_key_accepted(#[trigger] keys[i]),
    ensures
        forall|k: int|
            0 <= k <= keys.len() ==> 0 <= #[trigger] selection_after(labels, selected, keys.take(k))
                < labels.len(),
    decreases keys.len(),
{
    assert forall|k: int| 0 <= k <= keys.len() implies 0 <= #[trigger] selection_after(
        labels,
        selected,
        keys.take(k),
    ) < labels.len() by {
        if k > 0 {
            let next = menu_step_of(labels, selected, keys[0]).0;
            lemma_selection_stays_on_a_choice(labels, selected, keys[0]);
            let rest = keys.drop_first();
            assert forall|i: int| 0 <= i < rest.len() implies menu_key_accepted(
                #[trigger] rest[i],
            ) by {
                assert(rest[i] == keys[i + 1]);
            }
            lemma_selection_stays_over_any_keys(labels, next, rest);
            assert(keys.take(k).drop_first() =~= rest.take(k - 1));
            assert(keys.take(k)[0] == keys[0]);
            assert(0 <= selection_after(labels, next, rest.take(k - 1)) < labels.len());
            assert(selection_after(labels, selected, keys.take(k)) == selection_after(
                labels,
                next,
                rest.take(k - 1),
            ));
        } else {
            assert(keys.take(k).len() == 0);
        }
    }
}

/// Up undoes down: moving the selection down and then up comes back to
/// the same choice, across the wrap-around too.
pub proof fn lemma_up_undoes_down(labels: Seq<Seq<char>>, selected: int)
    requires
        1 <= labels.len(),
        0 <= selected < labels.len(),
    ensures
        menu_step_of(labels, menu_step_of(labels, selected, down_key()).0, up_key()).0 == selected,
{
}

/// Down undoes up: moving the selection up and then down comes back to
/// the same choice, across the wrap-around too.
pub proof fn lemma_down_undoes_up(labels: Seq<Seq<char>>, selected: int)
    requires
        1 <= labels.len(),
        0 <= selected < labels.len(),
    ensures
        menu_step_of(labels, menu_step_of(labels, selected, up_key()).0, down_key()).0 == selected,
{
}

/// The arrows only move the selection: they start no action and repaint
/// nothing.
pub proof fn lemma_arrows_only_move(labels: Seq<Seq<char>>, selected: int, key: int)
    requires
        key == up_key() || key == down_key(),
    ensures
        menu_step_of(labels, selected, key).1 == MenuAction::Stay,
        !menu_step_of(labels, selected, key).2,
{
}

} // verus!
