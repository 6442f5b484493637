use termion::{clear, color, cursor};
use timetable::escape::Palette;
use timetable::menu::main_menu_choices;
use timetable::screen::{centre_box, flood_screen_lines, menu_screen, timetable_screen};
use timetable::timetable::{draw_day, Day, Lesson, Timetable, Week};

// An independent rendering of the menu box, written with termion's own
// formatting, to compare the library against.
fn reference_menu(choices: &[&str], selected: i8, width: u16, height: u16) -> Result<Vec<String>, String> {
    let (menu_width, menu_height) = (25u16, (6 + choices.len()) as u16);
    if selected >= choices.len() as i8 {
        return Err(format!(
            "{}{}{}Error displaying menu:\n\t- Selected value outside bounds{}",
            clear::All,
            cursor::Goto(1, 1),
            color::Fg(color::Red),
            color::Fg(color::Reset)
        ));
    }
    let mut x_offset = 0;
    let mut y_offset = 0;
    if !(menu_width > width || menu_height > height) {
        x_offset = (width - menu_width) / 2;
        y_offset = (height - menu_height) / 2;
    }
    let mut lines: Vec<String> = vec![
        format!(
            "{goto}{colourBg}{colourFg}{lines}┤Timetable├{lines}{resetFg}",
            goto = cursor::Goto(x_offset, y_offset),
            colourBg = color::Bg(color::LightBlue),
            colourFg = color::Fg(color::Black),
            resetFg = color::Fg(color::Reset),
            lines = (0..(menu_width - 11) / 2).map(|_| "─").collect::<String>()
        ),
        format!(
            "{}{}",
            cursor::Goto(x_offset, y_offset + 1),
            (0..menu_width).map(|_| " ").collect::<String>()
        ),
        format!(
            "{goto}{colorFg}{offset}select with <enter>{offset}{resetFg}",
            goto = cursor::Goto(x_offset, y_offset + 2),
            colorFg = color::Fg(color::Rgb(196, 194, 194)),
            resetFg = color::Fg(color::Reset),
            offset = (0..(menu_width - 19) / 2).map(|_| " ").collect::<String>()
        ),
        format!(
            "{goto}{colorFg}{offset}or with <1-{max_choice}>{offset}{resetFg}",
            goto = cursor::Goto(x_offset, y_offset + 3),
            colorFg = color::Fg(color::Rgb(196, 194, 194)),
            resetFg = color::Fg(color::Reset),
            offset = (0..(menu_width - 13) / 2).map(|_| " ").collect::<String>(),
            max_choice = choices.len()
        ),
        format!(
            "{}{}",
            cursor::Goto(x_offset, y_offset + 4),
            (0..menu_width).map(|_| " ").collect::<String>()
        ),
        format!(
            "{}{}",
            cursor::Goto(x_offset, y_offset + 6 + choices.len() as u16),
            (0..menu_width).map(|_| " ").collect::<String>()
        ),
        format!(
            "{}{} {}{}{}",
            cursor::Goto(x_offset, y_offset + 7 + choices.len() as u16),
            color::Bg(color::Rgb(158, 187, 211)),
            color::Bg(color::Rgb(112, 141, 194)),
            (1..menu_width).map(|_| " ").collect::<String>(),
            color::Bg(color::LightBlue)
        ),
    ];
    for i in 0..choices.len() as u16 {
        let mut y = i;
        if i == choices.len() as u16 - 1 {
            lines.push(format!(
                "{}{}",
                cursor::Goto(x_offset, y_offset + 5 + y),
                (0..menu_width).map(|_| " ").collect::<String>()
            ));
            y += 1;
        }
        let choice_text = format!("{}- {}", i + 1, choices[i as usize]);
        let offset = (0..(menu_width - choice_text.len() as u16) / 2)
            .map(|_| " ")
            .collect::<String>();
        if i as i8 != selected {
            lines.push(format!(
                "{}{}{}{}{}{}",
                cursor::Goto(x_offset, y_offset + 5 + y),
                color::Fg(color::Black),
                offset,
                choice_text,
                offset,
                color::Fg(color::Reset)
            ))
        } else {
            lines.push(format!(
                "{}{}{}{}{}{}{}{}",
                cursor::Goto(x_offset, y_offset + 5 + y),
                color::Fg(color::Black),
                offset,
                color::Bg(color::LightRed),
                choice_text,
                color::Bg(color::LightBlue),
                offset,
                color::Fg(color::Reset)
            ))
        }
    }
    let mut out = Vec::new();
    for line in lines.iter() {
        let new_line = if lines.iter().position(|n| n == line).unwrap() as u16 != 0 {
            format!(
                "{}{} {}",
                line,
                color::Bg(color::Rgb(112, 141, 194)),
                color::Bg(color::LightBlue)
            )
        } else {
            line.to_string()
        };
        out.push(new_line);
    }
    Ok(out)
}

fn lesson(subject: &str, room: &str, teacher: &str) -> Lesson {
    Lesson {
        subject: subject.to_string(),
        room: room.to_string(),
        teacher: teacher.to_string(),
    }
}

fn day(tag: &str) -> Day {
    Day {
        _1: lesson(&format!("{} Maths", tag), "M1", "Mr A"),
        _2: lesson(&format!("{} English", tag), "E2", "Ms B"),
        _3: lesson(&format!("{} Physics", tag), "S3", "Dr C"),
        _4: lesson(&format!("{} History", tag), "H4", "Mrs D"),
        _5: lesson(&format!("{} Art", tag), "A5", "Mx E"),
        _6: lesson(&format!("{} Games", tag), "Gym", "Mr F"),
    }
}

fn week(tag: &str) -> Week {
    Week {
        mon: day(&format!("{}-Mon", tag)),
        tue: day(&format!("{}-Tue", tag)),
        wed: day(&format!("{}-Wed", tag)),
        thu: day(&format!("{}-Thu", tag)),
        fri: day(&format!("{}-Fri", tag)),
    }
}

fn sample() -> Timetable {
    Timetable { a: week("A"), b: week("B") }
}

// An independent rendering of the timetable box, written with termion's
// own formatting.
fn reference_timetable(
    timetable_data: Timetable,
    current_lesson: (i32, i32),
    is_a_week: bool,
    width: u16,
    height: u16,
) -> Vec<String> {
    let mut lines: [[String; 7]; 6] = Default::default();
    let week_day = if is_a_week { timetable_data.a } else { timetable_data.b };
    for day_i in 0..5 {
        let day = match day_i {
            0 => week_day.clone().mon,
            1 => week_day.clone().tue,
            2 => week_day.clone().wed,
            3 => week_day.clone().thu,
            _ => week_day.clone().fri,
        };
        let day_lines = draw_day(day);
        for lesson_i in 0..6 {
            let lesson_lines = day_lines[lesson_i].clone();
            let bg_color = if day_i == current_lesson.0 {
                if lesson_i as i32 == current_lesson.1 {
                    color::Bg(color::Rgb(101, 133, 88))
                } else {
                    color::Bg(color::Rgb(163, 219, 138))
                }
            } else {
                color::Bg(color::Rgb(130, 168, 159))
            };
            for i in 0..7 {
                lines[lesson_i][i] += format!("{}{}", bg_color, lesson_lines[i]).as_str();
            }
        }
    }
    let (menu_width, menu_height) = ((24 * 5) + 4, (7 * 6) + 4);
    let mut x_offset = 0;
    let mut y_offset = 0;
    if !(menu_width > width || menu_height > height) {
        x_offset = (width - menu_width) / 2;
        y_offset = (height - menu_height) / 2;
    }
    let mut out = Vec::new();
    out.push(format!(
        "{goto1}{colorFg}{colorBg}{line2}{goto2}{line1}{shadowBg} {colorBg}",
        goto1 = cursor::Goto(x_offset, y_offset),
        goto2 = cursor::Goto(x_offset, y_offset + 1),
        colorBg = color::Bg(color::Rgb(130, 168, 159)),
        shadowBg = color::Bg(color::Rgb(112, 141, 194)),
        colorFg = color::Fg(color::Black),
        line1 = (0..menu_width).map(|_| " ").collect::<String>(),
        line2 = format!("{:─^124}", "┤Timetable├")
    ));
    let mut y = y_offset + 2;
    for lesson in lines {
        for i in 0..7 {
            out.push(format!(
                "{goto}{colorBg}  {lesson}  {shadowBg} {colorBg}",
                goto = cursor::Goto(x_offset, y),
                colorBg = color::Bg(color::Rgb(130, 168, 159)),
                shadowBg = color::Bg(color::Rgb(112, 131, 194)),
                lesson = lesson[i],
            ));
            y += 1;
        }
    }
    out.push(format!(
        "{goto1}{colorBg}{line1}{shadowBg} {colorBg}{goto2}{line2}{shadowBg} {goto3}{shadowLine}",
        goto1 = cursor::Goto(x_offset, y_offset + (7 * 6) + 2),
        goto2 = cursor::Goto(x_offset, y_offset + (7 * 6) + 3),
        goto3 = cursor::Goto(x_offset + 1, y_offset + (7 * 6) + 4),
        colorBg = color::Bg(color::Rgb(130, 168, 159)),
        shadowBg = color::Bg(color::Rgb(112, 141, 194)),
        line1 = (0..menu_width).map(|_| " ").collect::<String>(),
        line2 = (0..menu_width).map(|_| " ").collect::<String>(),
        shadowLine = (0..menu_width).map(|_| " ").collect::<String>()
    ));
    out
}

#[test]
fn palette_writes_the_terminal_colours() {
    let p = Palette::from_terminal();
    assert_eq!(p.text_fg, format!("{}", color::Fg(color::Black)));
    assert_eq!(p.error_fg, format!("{}", color::Fg(color::Red)));
    assert_eq!(p.hint_fg, format!("{}", color::Fg(color::Rgb(196, 194, 194))));
    assert_eq!(p.menu_bg, format!("{}", color::Bg(color::LightBlue)));
    assert_eq!(p.selected_bg, format!("{}", color::Bg(color::LightRed)));
    assert_eq!(p.backdrop_bg, format!("{}", color::Bg(color::Rgb(158, 187, 211))));
    assert_eq!(p.shadow_bg, format!("{}", color::Bg(color::Rgb(112, 141, 194))));
    assert_eq!(p.row_shadow_bg, format!("{}", color::Bg(color::Rgb(112, 131, 194))));
    assert_eq!(p.panel_bg, format!("{}", color::Bg(color::Rgb(130, 168, 159))));
    assert_eq!(p.today_bg, format!("{}", color::Bg(color::Rgb(163, 219, 138))));
    assert_eq!(p.now_bg, format!("{}", color::Bg(color::Rgb(101, 133, 88))));
}

#[test]
fn palette_sequences_are_the_documented_ones_or_empty() {
    let p = Palette::from_terminal();
    assert!(p.text_fg == "\x1b[38;5;0m" || p.text_fg.is_empty());
    assert!(p.hint_fg == "\x1b[38;2;196;194;194m" || p.hint_fg.is_empty());
    assert!(p.menu_bg == "\x1b[48;5;12m" || p.menu_bg.is_empty());
    assert!(p.now_bg == "\x1b[48;2;101;133;88m" || p.now_bg.is_empty());
}

#[test]
fn boxes_are_centred_when_they_fit() {
    assert_eq!(centre_box(80, 24, 25, 9), (27, 7));
    assert_eq!(centre_box(25, 9, 25, 9), (0, 0));
    assert_eq!(centre_box(24, 40, 25, 9), (0, 0));
    assert_eq!(centre_box(200, 60, 124, 46), (38, 7));
}

#[test]
fn flood_fills_every_row() {
    let lines = flood_screen_lines(3, 2, "<bg>");
    assert_eq!(
        lines,
        vec![
            "\x1b[1;1H<bg>   \x1b[49m".to_string(),
            "\x1b[2;1H<bg>   \x1b[49m".to_string(),
        ]
    );
    assert!(flood_screen_lines(10, 0, "x").is_empty());
}

#[test]
fn flood_matches_termion_formatting() {
    let p = Palette::from_terminal();
    let lines = flood_screen_lines(7, 4, &p.backdrop_bg);
    for (i, line) in lines.iter().enumerate() {
        let y = i as u16 + 1;
        assert_eq!(
            *line,
            format!(
                "{}{}{}{}",
                cursor::Goto(1, y),
                color::Bg(color::Rgb(158, 187, 211)),
                (0..7).map(|_| " ").collect::<String>(),
                color::Bg(color::Reset)
            )
        );
    }
}

#[test]
fn menu_matches_termion_formatting() {
    let p = Palette::from_terminal();
    let choices = main_menu_choices();
    for selected in -1i8..3 {
        for (w, h) in [(80u16, 24u16), (27, 11), (25, 11), (200, 50)] {
            assert_eq!(
                menu_screen(&p, &choices, selected, w, h),
                reference_menu(&choices, selected, w, h)
            );
        }
    }
}

#[test]
fn menu_with_other_choices_matches_termion_formatting() {
    let p = Palette::from_terminal();
    let choices = vec!["Only", "Ünïcödé", "Eight"];
    assert_eq!(
        menu_screen(&p, &choices, 1, 100, 40),
        reference_menu(&choices, 1, 100, 40)
    );
    let one = vec!["Single"];
    assert_eq!(menu_screen(&p, &one, 0, 100, 40), reference_menu(&one, 0, 100, 40));
    let none: Vec<&str> = vec![];
    assert_eq!(menu_screen(&p, &none, -1, 100, 40), reference_menu(&none, -1, 100, 40));
}

#[test]
fn menu_reports_a_selection_out_of_bounds() {
    let p = Palette::from_terminal();
    let choices = main_menu_choices();
    let err = menu_screen(&p, &choices, 3, 80, 24).unwrap_err();
    assert_eq!(err, reference_menu(&choices, 3, 80, 24).unwrap_err());
    assert!(err.contains("Error displaying menu:\n\t- Selected value outside bounds"));
    assert!(menu_screen(&p, &choices, 3, 0, 0).is_err());
}

#[test]
fn menu_rows_have_the_shadow_but_the_title() {
    let p = Palette::from_terminal();
    let choices = main_menu_choices();
    let lines = menu_screen(&p, &choices, 0, 80, 24).unwrap();
    assert_eq!(lines.len(), 7 + choices.len() + 1);
    let shadow = format!("{} {}", p.shadow_bg, p.menu_bg);
    assert!(!lines[0].ends_with(&shadow) || shadow == " ");
    for line in lines.iter().skip(1) {
        assert!(line.ends_with(&shadow));
    }
}

#[test]
fn timetable_matches_termion_formatting() {
    let p = Palette::from_terminal();
    for (focus, is_a) in [((0, 0), true), ((2, 3), false), ((6, -1), true), ((4, 5), false)] {
        for (w, h) in [(200u16, 60u16), (126, 46), (124, 48)] {
            assert_eq!(
                timetable_screen(&p, sample(), focus, is_a, w, h),
                reference_timetable(sample(), focus, is_a, w, h)
            );
        }
    }
}

#[test]
fn timetable_shows_the_chosen_week() {
    let p = Palette::from_terminal();
    let a = timetable_screen(&p, sample(), (0, 0), true, 200, 60);
    let b = timetable_screen(&p, sample(), (0, 0), false, 200, 60);
    assert_eq!(a.len(), 44);
    assert!(a[2].contains("A-Mon Maths"));
    assert!(b[2].contains("B-Mon Maths"));
    assert!(a[2].contains(&p.now_bg));
}

#[test]
fn nothing_is_highlighted_at_the_weekend() {
    let p = Palette::from_terminal();
    let saturday = timetable_screen(&p, sample(), (5, 0), true, 200, 60);
    let sunday = timetable_screen(&p, sample(), (6, 3), true, 200, 60);
    let outside = timetable_screen(&p, sample(), (-1, -1), true, 200, 60);
    assert_eq!(saturday, sunday);
    assert_eq!(saturday, outside);
    if !p.now_bg.is_empty() {
        for line in saturday.iter() {
            assert!(!line.contains(&p.now_bg));
            assert!(!line.contains(&p.today_bg));
        }
    }
}

#[test]
fn menu_error_does_not_look_at_label_widths() {
    let p = Palette::from_terminal();
    let wide = vec!["A label far too wide to fit inside the menu box"];
    let err = menu_screen(&p, &wide, 1, 80, 24).unwrap_err();
    assert_eq!(err, reference_menu(&wide, 1, 80, 24).unwrap_err());
}
