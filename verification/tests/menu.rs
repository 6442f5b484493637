use timetable::menu::{main_menu_choices, menu_step, timetable_view_closes, MenuAction};

#[test]
fn main_menu_has_three_choices() {
    assert_eq!(main_menu_choices(), vec!["View timetable", "Edit timetable", "Exit"]);
}

#[test]
fn arrows_move_and_wrap() {
    let c = main_menu_choices();
    assert_eq!(menu_step(&c, 0, 66).selected, 1);
    assert_eq!(menu_step(&c, 2, 66).selected, 0);
    assert_eq!(menu_step(&c, 0, 65).selected, 2);
    assert_eq!(menu_step(&c, 1, 65).selected, 0);
    for s in 0..3 {
        let down = menu_step(&c, s, 66);
        assert_eq!(down.action, MenuAction::Stay);
        assert!(!down.repaint);
        assert_eq!(menu_step(&c, down.selected, 65).selected, s);
    }
}

#[test]
fn q_quits() {
    let c = main_menu_choices();
    let step = menu_step(&c, 1, b'q');
    assert_eq!(step.action, MenuAction::Quit);
    assert_eq!(step.selected, 1);
}

#[test]
fn enter_starts_the_selected_choice_and_repaints() {
    let c = main_menu_choices();
    let view = menu_step(&c, 0, 13);
    assert_eq!((view.action, view.repaint, view.selected), (MenuAction::ShowTimetable, true, 0));
    let edit = menu_step(&c, 1, 13);
    assert_eq!((edit.action, edit.repaint), (MenuAction::Stay, true));
    let exit = menu_step(&c, 2, 13);
    assert_eq!((exit.action, exit.repaint), (MenuAction::Quit, true));
}

#[test]
fn number_keys_start_choices_without_repaint() {
    let c = main_menu_choices();
    let one = menu_step(&c, 2, b'1');
    assert_eq!((one.action, one.repaint, one.selected), (MenuAction::ShowTimetable, false, 2));
    assert_eq!(menu_step(&c, 0, b'2').action, MenuAction::Stay);
    // `k - 47 <= 3` leaves out `3`: the last choice has no number key.
    assert_eq!(menu_step(&c, 0, b'3').action, MenuAction::Stay);
    assert_eq!(menu_step(&c, 0, b'0').action, MenuAction::Stay);
    assert_eq!(menu_step(&c, 0, b'x').action, MenuAction::Stay);
}

#[test]
fn number_keys_with_more_choices() {
    let c = vec!["a", "Exit", "View timetable", "d"];
    assert_eq!(menu_step(&c, 0, b'2').action, MenuAction::Quit);
    assert_eq!(menu_step(&c, 0, b'3').action, MenuAction::ShowTimetable);
    assert_eq!(menu_step(&c, 0, b'4').action, MenuAction::Stay);
}

#[test]
fn only_q_closes_the_timetable() {
    assert!(timetable_view_closes(b'q'));
    assert!(!timetable_view_closes(b'Q'));
    assert!(!timetable_view_closes(13));
}

#[test]
fn selection_stays_on_a_choice_over_many_keys() {
    let c = main_menu_choices();
    let keys: Vec<u8> = b"BBABAAAABBB\r1q0x9BA\rBBBBBAAAAA".to_vec();
    let mut selected = 0i8;
    for k in keys {
        selected = menu_step(&c, selected, k).selected;
        assert!((0..3).contains(&selected));
    }
}
