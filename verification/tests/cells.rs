use timetable::timetable::{
    draw_day, lesson_cell, name_line_gen, read_error_message, Day, Lesson, Timetable, Week,
};

fn lesson(subject: &str, room: &str, teacher: &str) -> Lesson {
    Lesson {
        subject: subject.to_string(),
        room: room.to_string(),
        teacher: teacher.to_string(),
    }
}

fn day(tag: &str) -> Day {
    Day {
        _1: lesson(&format!("{} Maths", tag), "M1", "Mr A"),
        _2: lesson(&format!("{} English", tag), "E2", "Ms B"),
        _3: lesson(&format!("{} Physics", tag), "S3", "Dr C"),
        _4: lesson(&format!("{} History", tag), "H4", "Mrs D"),
        _5: lesson(&format!("{} Art", tag), "A5", "Mx E"),
        _6: lesson(&format!("{} Games", tag), "Gym", "Mr F"),
    }
}

#[test]
fn name_line_centres_a_short_name() {
    assert_eq!(name_line_gen("Maths".to_string()), "│        Maths         │");
}

#[test]
fn name_line_matches_the_formatter_on_many_lengths() {
    for len in 0..30 {
        let name: String = std::iter::repeat('x').take(len).collect();
        assert_eq!(name_line_gen(name.clone()), format!("│{: ^22}│", name));
    }
}

#[test]
fn name_line_counts_characters_not_bytes() {
    let name = "Ünïcödé ✓".to_string();
    assert_eq!(name_line_gen(name.clone()), format!("│{: ^22}│", name));
    assert_eq!(name_line_gen(name).chars().count(), 24);
}

#[test]
fn name_line_empty_name_is_a_blank_line() {
    assert_eq!(name_line_gen(String::new()), "│                      │");
}

#[test]
fn name_line_keeps_a_long_name_whole() {
    let name = "A very long subject name indeed".to_string();
    assert_eq!(name_line_gen(name.clone()), format!("│{}│", name));
}

#[test]
fn lesson_cell_draws_seven_lines() {
    let cell = lesson_cell(lesson("Maths", "M1", "Mr A"));
    assert_eq!(
        cell,
        [
            "┌──────────────────────┐".to_string(),
            "│        Maths         │".to_string(),
            "│                      │".to_string(),
            "│          M1          │".to_string(),
            "│                      │".to_string(),
            "│         Mr A         │".to_string(),
            "└──────────────────────┘".to_string(),
        ]
    );
    for line in cell.iter() {
        assert_eq!(line.chars().count(), 24);
    }
}

#[test]
fn draw_day_draws_each_period_in_order() {
    let d = day("Mon");
    let lines = draw_day(d.clone());
    let lessons = [d._1, d._2, d._3, d._4, d._5, d._6];
    for (p, l) in lessons.into_iter().enumerate() {
        assert_eq!(lines[p], lesson_cell(l));
    }
}

#[test]
fn timetable_holds_two_weeks() {
    let week = |t: &str| Week {
        mon: day(&format!("{}1", t)),
        tue: day(&format!("{}2", t)),
        wed: day(&format!("{}3", t)),
        thu: day(&format!("{}4", t)),
        fri: day(&format!("{}5", t)),
    };
    let t = Timetable { a: week("A"), b: week("B") };
    assert_eq!(t.a.wed._2.subject, "A3 English");
    assert_eq!(t.b.fri._6.room, "Gym");
}

#[test]
fn read_error_message_has_the_heading_and_the_reason() {
    assert_eq!(
        read_error_message("trailing input"),
        "\n\x1b[31mError reading timetable\x1b[0m:\n\t- trailing input"
    );
}
