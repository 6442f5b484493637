//! The timetable data (two alternating weeks of five days of six lessons)
//! and the drawing of lessons as boxed cells.

use vstd::prelude::*;
use vstd::string::StringExecFns;
use crate::text::{center, centered, push_char, repeated};

verus! {

/// One lesson: what is taught, where and by whom.
#[derive(Debug, Clone)]
pub struct Lesson {
    pub subject: String,
    pub room: String,
    pub teacher: String,
}

/// The six lessons of a day, in order.
#[derive(Debug, Clone)]
pub struct Day {
    pub _1: Lesson,
    pub _2: Lesson,
    pub _3: Lesson,
    pub _4: Lesson,
    pub _5: Lesson,
    pub _6: Lesson,
}

/// The five school days of a week.
#[derive(Debug, Clone)]
pub struct Week {
    pub mon: Day,
    pub tue: Day,
    pub wed: Day,
    pub thu: Day,
    pub fri: Day,
}

/// The two alternating weeks, A and B.
#[derive(Debug, Clone)]
pub struct Timetable {
    pub a: Week,
    pub b: Week,
}

impl Day {
    /// The lesson in period `i` (0 to 5); the last one past the end.
    pub open spec fn lesson(self, i: int) -> Lesson {
        if i == 0 {
            self._1
        } else if i == 1 {
            self._2
        } else if i == 2 {
            self._3
        } else if i == 3 {
            self._4
        } else if i == 4 {
            self._5
        } else {
            self._6
        }
    }
}

impl Week {
    /// The day `i` (0 is Monday, 4 is Friday); Friday past the end.
    pub open spec fn day(self, i: int) -> Day {
        if i == 0 {
            self.mon
        } else if i == 1 {
            self.tue
        } else if i == 2 {
            self.wed
        } else if i == 3 {
            self.thu
        } else {
            self.fri
        }
    }
}

impl Timetable {
    /// Week A when `is_a_week`, else week B.
    pub open spec fn week(self, is_a_week: bool) -> Week {
        if is_a_week {
            self.a
        } else {
            self.b
        }
    }
}

/// Width of the inside of a cell, in characters.
pub open spec fn cell_inner_width() -> nat {
    22
}

/// A name line of a cell: the name centred in 22 spaces between two walls.
pub open spec fn name_line(name: Seq<char>) -> Seq<char> {
    seq!['│'] + centered(name, cell_inner_width(), ' ') + seq!['│']
}

/// The top border of a cell.
pub open spec fn cell_top() -> Seq<char> {
    seq!['┌'] + repeated('─', cell_inner_width()) + seq!['┐']
}

/// An empty line of a cell.
pub open spec fn cell_blank() -> Seq<char> {
    seq!['│'] + repeated(' ', cell_inner_width()) + seq!['│']
}

/// The bottom border of a cell.
pub open spec fn cell_bottom() -> Seq<char> {
    seq!['└'] + repeated('─', cell_inner_width()) + seq!['┘']
}

/// The seven lines of the cell of a lesson: border, subject, blank, room,
/// blank, teacher, border.
pub open spec fn cell_text(lesson: Lesson) -> Seq<Seq<char>> {
    seq![
        cell_top(),
        name_line(lesson.subject@),
        cell_blank(),
        name_line(lesson.room@),
        cell_blank(),
        name_line(lesson.teacher@),
        cell_bottom(),
    ]
}

/// The name line of a cell for `name`.
pub fn name_line_gen(name: String) -> (line: String)
    ensures
        line@ == name_line(name@),
{
    let mut line = String::new();
    push_char(&mut line, '│');
    let middle = center(name.as_str(), 22, ' ');
    line.append(middle.as_str());
    push_char(&mut line, '│');
    assert(line@ =~= name_line(name@));
    line
}

/// The seven lines of the cell that shows `lesson`.
pub fn lesson_cell(lesson: Lesson) -> (lines: [String; 7])
    ensures
        forall|i: int| 0 <= i < 7 ==> #[trigger] lines[i]@ == cell_text(lesson)[i],
{
    let top = "┌──────────────────────┐".to_owned();
    let blank_a = "│                      │".to_owned();
    let blank_b = "│                      │".to_owned();
    let bottom = "└──────────────────────┘".to_owned();
    proof {
        reveal_strlit("┌──────────────────────┐");
        reveal_strlit("│                      │");
        reveal_strlit("└──────────────────────┘");
        assert(top@ =~= cell_top());
        assert(blank_a@ =~= cell_blank());
        assert(bottom@ =~= cell_bottom());
    }
    let ghost l = lesson;
    let lines = [
        top,
        name_line_gen(lesson.subject),
        blank_a,
        name_line_gen(lesson.room),
        blank_b,
        name_line_gen(lesson.teacher),
        bottom,
    ];
    assert(forall|i: int| 0 <= i < 7 ==> #[trigger] lines[i]@ == cell_text(l)[i]);
    lines
}

/// The six cells of a day, one per period in order.
pub fn draw_day(day: Day) -> (lines: [[String; 7]; 6])
    ensures
        forall|p: int, i: int|
            0 <= p < 6 && 0 <= i < 7 ==> #[trigger] lines[p][i]@ == cell_text(day.lesson(p))[i],
{
    let ghost d = day;
    let lines = [
        lesson_cell(day._1),
        lesson_cell(day._2),
        lesson_cell(day._3),
        lesson_cell(day._4),
        lesson_cell(day._5),
        lesson_cell(day._6),
    ];
    assert forall|p: int, i: int| 0 <= p < 6 && 0 <= i < 7 implies #[trigger] lines[p][i]@
        == cell_text(d.lesson(p))[i] by {
        if p == 0 {
        } else if p == 1 {
        } else if p == 2 {
        } else if p == 3 {
        } else if p == 4 {
        } else {
        }
    }
    lines
}

/// Every line of a cell is 24 characters wide when the subject, room and
/// teacher each fit in the 22 characters inside it, so cells stack into
/// straight columns.
pub proof fn lemma_cell_lines_have_equal_width(lesson: Lesson)
    requires
        lesson.subject@.len() <= cell_inner_width(),
        lesson.room@.len() <= cell_inner_width(),
        lesson.teacher@.len() <= cell_inner_width(),
    ensures
        cell_text(lesson).len() == 7,
        forall|i: int| 0 <= i < 7 ==> (#[trigger] cell_text(lesson)[i]).len() == 24,
{
    assert(cell_text(lesson)[0].len() == 24);
    assert(cell_text(lesson)[1].len() == 24);
    assert(cell_text(lesson)[2].len() == 24);
    assert(cell_text(lesson)[3].len() == 24);
    assert(cell_text(lesson)[4].len() == 24);
    assert(cell_text(lesson)[5].len() == 24);
    assert(cell_text(lesson)[6].len() == 24);
}

/// The subject, room and teacher stand whole on lines 1, 3 and 5 of their
/// cell, centred: between the walls come the spaces that make up the 22
/// columns (half on the left, rounded down; none when the name is as wide
/// or wider), then the name itself, then the rest of the spaces. Nothing
/// of a name is ever cut.
pub proof fn lemma_cell_shows_each_name_whole(lesson: Lesson)
    ensures
        ({
            let text = cell_text(lesson);
            let framed = |name: Seq<char>|
                {
                    let pad: int = if name.len() < 22 { 22 - name.len() } else { 0 };
                    seq!['│'] + Seq::new((pad / 2) as nat, |_i: int| ' ') + name + Seq::new(
                        (pad - pad / 2) as nat,
                        |_i: int| ' ',
                    ) + seq!['│']
                };
            &&& text[1] == framed(lesson.subject@)
            &&& text[3] == framed(lesson.room@)
            &&& text[5] == framed(lesson.teacher@)
        }),
{
}

/// A name longer than the cell is never cut: its line holds it whole
/// between the two walls.
pub proof fn lemma_long_name_kept_whole(name: Seq<char>)
    requires
        name.len() >= cell_inner_width(),
    ensures
        name_line(name) == seq!['│'] + name + seq!['│'],
{
    assert(repeated(' ', 0) =~= Seq::<char>::empty());
    assert(centered(name, cell_inner_width(), ' ') =~= name);
}

/// The message shown when a timetable file cannot be read: a red heading,
/// then the reason on an indented line.
pub open spec fn read_error_text(detail: Seq<char>) -> Seq<char> {
    "\n\x1b[31mError reading timetable\x1b[0m:\n\t- "@ + detail
}

/// The message shown when a timetable file cannot be read, with `detail`
/// as the reason.
pub fn read_error_message(detail: &str) -> (message: String)
    ensures
        message@ == read_error_text(detail@),
{
    let mut message = "\n\x1b[31mError reading timetable\x1b[0m:\n\t- ".to_owned();
    message.append(detail);
    message
}

} // verus!
