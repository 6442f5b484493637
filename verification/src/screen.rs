//! The screens, as the lines written to the terminal: the coloured
//! backdrop, the main menu box and the timetable box, each placed in the
//! middle of the terminal.

use vstd::prelude::*;
use vstd::string::StringExecFns;
use crate::escape::{
    bg_reset, bg_reset_code, clear_all, clear_all_code, fg_reset, fg_reset_code, goto, goto_code,
    Palette,
};
use crate::text::{
    center, centered, decimal, decimal_string, lemma_decimal_digits, lemma_decimal_injective,
    repeat_char, repeated,
};
use crate::timetable::{cell_text, draw_day, Timetable, Week};
use vstd::utf8::encode_utf8;

verus! {

/// Where a box of `box_width` by `box_height` is drawn on a terminal of
/// `width` by `height`: centred (halves rounded down) when it fits, else at
/// (0, 0).
pub open spec fn box_origin(width: nat, height: nat, box_width: nat, box_height: nat) -> (nat, nat) {
    if !(box_width > width || box_height > height) {
        (((width - box_width) / 2) as nat, ((height - box_height) / 2) as nat)
    } else {
        (0, 0)
    }
}

/// The top-left corner of a box of `box_width` by `box_height` centred on
/// a terminal of `width` by `height`.
pub fn centre_box(width: u16, height: u16, box_width: u16, box_height: u16) -> (o: (u16, u16))
    ensures
        (o.0 as nat, o.1 as nat) == box_origin(
            width as nat,
            height as nat,
            box_width as nat,
            box_height as nat,
        ),
        o.0 <= width / 2,
        o.1 <= height / 2,
{
    let mut x_offset: u16 = 0;
    let mut y_offset: u16 = 0;
    if !(box_width > width || box_height > height) {
        x_offset = (width - box_width) / 2;
        y_offset = (height - box_height) / 2;
    }
    (x_offset, y_offset)
}

/// A box that fits on the terminal, centred, lies wholly on it, with at
/// most one column (row) more to its right (below it) than to its left
/// (above it).
pub proof fn lemma_centred_box_fits(width: nat, height: nat, box_width: nat, box_height: nat)
    requires
        box_width <= width,
        box_height <= height,
    ensures
        ({
            let (x, y) = box_origin(width, height, box_width, box_height);
            &&& x + box_width <= width
            &&& y + box_height <= height
            &&& width - (x + box_width) - x <= 1
            &&& height - (y + box_height) - y <= 1
            &&& x <= width - (x + box_width)
            &&& y <= height - (y + box_height)
        }),
{
}

/// Row `row` of the backdrop: the whole width of the row in `fill`, then
/// the default background again.
pub open spec fn flood_line(width: nat, row: nat, fill: Seq<char>) -> Seq<char> {
    goto_code(1, row) + fill + repeated(' ', width) + bg_reset_code()
}

/// The lines that flood a terminal of `width` by `height` with the
/// background `fill`, one per row from the top.
pub fn flood_screen_lines(width: u16, height: u16, fill: &str) -> (lines: Vec<String>)
    ensures
        lines.len() == height,
        forall|i: int| 0 <= i < height ==> #[trigger] lines[i]@ == flood_line(
            width as nat,
            (i + 1) as nat,
            fill@,
        ),
{
    let mut lines: Vec<String> = Vec::new();
    let spaces = repeat_char(' ', width as usize);
    let mut y: u16 = 1;
    let mut done: bool = height == 0;
    while !done
        invariant
            1 <= y <= height || (done && height == 0),
            done ==> lines.len() == height,
            !done ==> lines.len() == y - 1,
            spaces@ == repeated(' ', width as nat),
            forall|i: int| 0 <= i < lines.len() ==> #[trigger] lines[i]@ == flood_line(
                width as nat,
                (i + 1) as nat,
                fill@,
            ),
        decreases height - lines.len(),
    {
        let mut line = goto(1, y);
        line.append(fill);
        line.append(spaces.as_str());
        let reset = bg_reset();
        line.append(reset.as_str());
        assert(line@ =~= flood_line(width as nat, y as nat, fill@));
        lines.push(line);
        if y == height {
            done = true;
        } else {
            y = y + 1;
        }
    }
    lines
}

/// The width of the menu box, in columns.
pub open spec fn menu_box_width() -> nat {
    25
}

/// The height of the menu box for `n` choices, in rows.
pub open spec fn menu_box_height(n: nat) -> nat {
    6 + n
}

/// The number of bytes of `s` in UTF-8.
pub open spec fn utf8_len(s: Seq<char>) -> nat {
    encode_utf8(s).len()
}

/// The label of choice `i` (counted from 0): its number from 1, a dash,
/// a space, then the choice.
pub open spec fn choice_label(i: nat, choice: Seq<char>) -> Seq<char> {
    decimal(i + 1) + "- "@ + choice
}

/// The spaces on each side of a choice label: half of what the label's
/// bytes leave of the box width, rounded down.
pub open spec fn label_margin(label: Seq<char>) -> Seq<char> {
    repeated(' ', ((menu_box_width() - utf8_len(label)) / 2) as nat)
}

/// An empty row of the menu box.
pub open spec fn menu_blank(x: nat, row: nat) -> Seq<char> {
    goto_code(x, row) + repeated(' ', menu_box_width())
}

/// The title row of the menu box: the title between two rules, on the
/// box's background.
pub open spec fn menu_title(p: Palette, x: nat, y: nat) -> Seq<char> {
    goto_code(x, y) + p.menu_bg@ + p.text_fg@ + repeated('─', 7) + "┤Timetable├"@ + repeated('─', 7)
        + fg_reset_code()
}

/// The first hint row of the menu box.
pub open spec fn menu_enter_hint(p: Palette, x: nat, y: nat) -> Seq<char> {
    goto_code(x, y + 2) + p.hint_fg@ + repeated(' ', 3) + "select with <enter>"@ + repeated(' ', 3)
        + fg_reset_code()
}

/// The second hint row of the menu box, naming the highest choice number.
pub open spec fn menu_number_hint(p: Palette, x: nat, y: nat, n: nat) -> Seq<char> {
    goto_code(x, y + 3) + p.hint_fg@ + repeated(' ', 6) + "or with <1-"@ + decimal(n) + ">"@
        + repeated(' ', 6) + fg_reset_code()
}

/// The bottom row of the shadow under the menu box.
pub open spec fn menu_base(p: Palette, x: nat, y: nat, n: nat) -> Seq<char> {
    goto_code(x, y + 7 + n) + p.backdrop_bg@ + " "@ + p.shadow_bg@ + repeated(' ', 24) + p.menu_bg@
}

/// The row of one choice, its label centred; the selected one on the
/// selection background.
pub open spec fn choice_line(p: Palette, x: nat, row: nat, label: Seq<char>, selected: bool) -> Seq<
    char,
> {
    goto_code(x, row) + p.text_fg@ + label_margin(label) + (if selected {
        p.selected_bg@ + label + p.menu_bg@
    } else {
        label
    }) + label_margin(label) + fg_reset_code()
}

/// The rows of the choices: choice `j` on row `y + 5 + j`, except the last,
/// which comes one row lower after an empty row.
pub open spec fn menu_choice_rows(
    p: Palette,
    choices: Seq<Seq<char>>,
    selected: int,
    x: nat,
    y: nat,
) -> Seq<Seq<char>> {
    let n = choices.len();
    if n == 0 {
        seq![]
    } else {
        Seq::new(
            (n - 1) as nat,
            |j: int| choice_line(p, x, (y + 5 + j) as nat, choice_label(j as nat, choices[j]), j == selected),
        ) + seq![
            menu_blank(x, (y + 4 + n) as nat),
            choice_line(
                p,
                x,
                y + 5 + n,
                choice_label((n - 1) as nat, choices[n - 1]),
                n - 1 == selected,
            ),
        ]
    }
}

/// The rows of the menu box, in the order they are written, before the
/// shadow: title, empty row, two hints, empty row, the empty row and the
/// shadow row under the box, then the choices.
pub open spec fn menu_rows(p: Palette, choices: Seq<Seq<char>>, selected: int, x: nat, y: nat) -> Seq<
    Seq<char>,
> {
    let n = choices.len();
    seq![
        menu_title(p, x, y),
        menu_blank(x, y + 1),
        menu_enter_hint(p, x, y),
        menu_number_hint(p, x, y, n),
        menu_blank(x, y + 4),
        menu_blank(x, y + 6 + n),
        menu_base(p, x, y, n),
    ] + menu_choice_rows(p, choices, selected, x, y)
}

/// The rows with the shadow drawn at the right of each, except the rows
/// equal to the first one.
pub open spec fn with_shadow(p: Palette, rows: Seq<Seq<char>>) -> Seq<Seq<char>> {
    Seq::new(
        rows.len(),
        |k: int|
            if rows[k] == rows[0] {
                rows[k]
            } else {
                rows[k] + p.shadow_bg@ + " "@ + p.menu_bg@
            },
    )
}

/// What is written when the selected choice is not one of the choices.
pub open spec fn menu_error_text(p: Palette) -> Seq<char> {
    clear_all_code() + goto_code(1, 1) + p.error_fg@
        + "Error displaying menu:\n\t- Selected value outside bounds"@ + fg_reset_code()
}

/// The texts of the choices.
pub open spec fn choice_texts(choices: Seq<&str>) -> Seq<Seq<char>> {
    choices.map_values(|c: &str| c@)
}

/// Whether every choice label fits in the menu box.
pub open spec fn labels_fit(choices: Seq<Seq<char>>) -> bool {
    forall|i: int|
        0 <= i < choices.len() ==> utf8_len(#[trigger] choice_label(i as nat, choices[i]))
            <= menu_box_width()
}

fn menu_blank_string(x: u16, row: u16) -> (s: String)
    requires
        row != 0,
    ensures
        s@ == menu_blank(x as nat, row as nat),
{
    let mut s = goto(x, row);
    let spaces = repeat_char(' ', 25);
    s.append(spaces.as_str());
    s
}

fn choice_label_string(i: u16, choice: &str) -> (s: String)
    requires
        i < u16::MAX,
    ensures
        s@ == choice_label(i as nat, choice@),
{
    let mut s = decimal_string((i + 1) as u64);
    s.append("- ");
    s.append(choice);
    s
}

fn choice_line_string(p: &Palette, x: u16, row: u16, label: &str, selected: bool) -> (s: String)
    requires
        row != 0,
        utf8_len(label@) <= menu_box_width(),
    ensures
        s@ == choice_line(*p, x as nat, row as nat, label@, selected),
{
    let bytes = label.len();
    let margin = repeat_char(' ', (25 - bytes) / 2);
    let mut s = goto(x, row);
    s.append(p.text_fg.as_str());
    s.append(margin.as_str());
    if selected {
        s.append(p.selected_bg.as_str());
        s.append(label);
        s.append(p.menu_bg.as_str());
    } else {
        s.append(label);
    }
    s.append(margin.as_str());
    let reset = fg_reset();
    s.append(reset.as_str());
    assert(s@ =~= choice_line(*p, x as nat, row as nat, label@, selected));
    s
}

fn menu_head_rows(p: &Palette, x: u16, y: u16, n: u16) -> (rows: Vec<String>)
    requires
        x != 0 || y != 0,
        y as nat + 7 + n as nat <= u16::MAX,
    ensures
        rows.len() == 7,
        forall|k: int| 0 <= k < 7 ==> #[trigger] rows[k]@ == seq![
            menu_title(*p, x as nat, y as nat),
            menu_blank(x as nat, y as nat + 1),
            menu_enter_hint(*p, x as nat, y as nat),
            menu_number_hint(*p, x as nat, y as nat, n as nat),
            menu_blank(x as nat, y as nat + 4),
            menu_blank(x as nat, y as nat + 6 + n as nat),
            menu_base(*p, x as nat, y as nat, n as nat),
        ][k],
{
    let rule = repeat_char('─', 7);
    let fg_off = fg_reset();
    let mut title = goto(x, y);
    title.append(p.menu_bg.as_str());
    title.append(p.text_fg.as_str());
    title.append(rule.as_str());
    title.append("┤Timetable├");
    title.append(rule.as_str());
    title.append(fg_off.as_str());
    let mut enter = goto(x, y + 2);
    let three = repeat_char(' ', 3);
    enter.append(p.hint_fg.as_str());
    enter.append(three.as_str());
    enter.append("select with <enter>");
    enter.append(three.as_str());
    enter.append(fg_off.as_str());
    let mut number = goto(x, y + 3);
    let six = repeat_char(' ', 6);
    number.append(p.hint_fg.as_str());
    number.append(six.as_str());
    number.append("or with <1-");
    let count = decimal_string(n as u64);
    number.append(count.as_str());
    number.append(">");
    number.append(six.as_str());
    number.append(fg_off.as_str());
    let mut base = goto(x, y + 7 + n);
    let wide = repeat_char(' ', 24);
    base.append(p.backdrop_bg.as_str());
    base.append(" ");
    base.append(p.shadow_bg.as_str());
    base.append(wide.as_str());
    base.append(p.menu_bg.as_str());
    let mut rows: Vec<String> = Vec::new();
    rows.push(title);
    rows.push(menu_blank_string(x, y + 1));
    rows.push(enter);
    rows.push(number);
    rows.push(menu_blank_string(x, y + 4));
    rows.push(menu_blank_string(x, y + 6 + n));
    rows.push(base);
    proof {
        assert(rows[0]@ =~= menu_title(*p, x as nat, y as nat));
        assert(rows[2]@ =~= menu_enter_hint(*p, x as nat, y as nat));
        assert(rows[3]@ =~= menu_number_hint(*p, x as nat, y as nat, n as nat));
        assert(rows[6]@ =~= menu_base(*p, x as nat, y as nat, n as nat));
    }
    rows
}

/// Whether `s` begins with `prefix`.
pub open spec fn starts_with(s: Seq<char>, prefix: Seq<char>) -> bool {
    prefix.len() <= s.len() && forall|i: int| 0 <= i < prefix.len() ==> s[i] == prefix[i]
}

/// Two texts that begin by sending the cursor to different rows differ.
pub proof fn lemma_different_rows_differ(
    s1: Seq<char>,
    s2: Seq<char>,
    x1: nat,
    y1: nat,
    x2: nat,
    y2: nat,
)
    requires
        starts_with(s1, goto_code(x1, y1)),
        starts_with(s2, goto_code(x2, y2)),
        y1 != y2,
    ensures
        s1 != s2,
{
    let d1 = decimal(y1);
    let d2 = decimal(y2);
    let l1: int = d1.len() as int;
    let l2: int = d2.len() as int;
    lemma_decimal_digits(y1);
    lemma_decimal_digits(y2);
    let g1 = goto_code(x1, y1);
    let g2 = goto_code(x2, y2);
    assert(g1[2 + l1] == ';');
    assert(g2[2 + l2] == ';');
    assert forall|i: int| 0 <= i < d1.len() implies g1[2 + i] == d1[i] by {}
    assert forall|i: int| 0 <= i < d2.len() implies g2[2 + i] == d2[i] by {}
    if s1 == s2 {
        if d1.len() < d2.len() {
            assert(s1[2 + l1] == ';');
            assert(s2[2 + l1] == d2[l1]);
        } else if d2.len() < d1.len() {
            assert(s2[2 + l2] == ';');
            assert(s1[2 + l2] == d1[l2]);
        } else {
            assert forall|i: int| 0 <= i < d1.len() implies d1[i] == d2[i] by {
                assert(s1[2 + i] == g1[2 + i]);
                assert(s2[2 + i] == g2[2 + i]);
            }
            assert(d1 =~= d2);
            lemma_decimal_injective(y1, y2);
        }
    }
}

/// The shadow is drawn beside every row of the menu box but the title:
/// each row sends the cursor to a row of its own below the title's, so no
/// other row repeats the title.
pub proof fn lemma_menu_shadow_spares_only_the_title(
    p: Palette,
    choices: Seq<Seq<char>>,
    selected: int,
    x: nat,
    y: nat,
)
    ensures
        ({
            let rows = menu_rows(p, choices, selected, x, y);
            let shown = with_shadow(p, rows);
            &&& rows.len() == 7 + choices.len() + (if choices.len() > 0 { 1int } else { 0int })
            &&& shown[0] == rows[0]
            &&& forall|k: int|
                1 <= k < rows.len() ==> #[trigger] shown[k] == rows[k] + p.shadow_bg@ + " "@
                    + p.menu_bg@
        }),
{
    let rows = menu_rows(p, choices, selected, x, y);
    let n = choices.len();
    let tail = menu_choice_rows(p, choices, selected, x, y);
    assert(starts_with(rows[0], goto_code(x, y)));
    assert forall|k: int| 1 <= k < rows.len() implies #[trigger] rows[k] != rows[0] by {
        if k == 1 {
            assert(starts_with(rows[k], goto_code(x, y + 1)));
            lemma_different_rows_differ(rows[k], rows[0], x, y + 1, x, y);
        } else if k == 2 {
            assert(starts_with(rows[k], goto_code(x, y + 2)));
            lemma_different_rows_differ(rows[k], rows[0], x, y + 2, x, y);
        } else if k == 3 {
            assert(starts_with(rows[k], goto_code(x, y + 3)));
            lemma_different_rows_differ(rows[k], rows[0], x, y + 3, x, y);
        } else if k == 4 {
            assert(starts_with(rows[k], goto_code(x, y + 4)));
            lemma_different_rows_differ(rows[k], rows[0], x, y + 4, x, y);
        } else if k == 5 {
            assert(starts_with(rows[k], goto_code(x, y + 6 + n)));
            lemma_different_rows_differ(rows[k], rows[0], x, y + 6 + n, x, y);
        } else if k == 6 {
            assert(starts_with(rows[k], goto_code(x, y + 7 + n)));
            lemma_different_rows_differ(rows[k], rows[0], x, y + 7 + n, x, y);
        } else {
            let j = k - 7;
            assert(rows[k] == tail[j]);
            if j < n - 1 {
                let row = (y + 5 + j) as nat;
                assert(starts_with(rows[k], goto_code(x, row)));
                lemma_different_rows_differ(rows[k], rows[0], x, row, x, y);
            } else if j == n - 1 {
                let row = (y + 4 + n) as nat;
                assert(starts_with(rows[k], goto_code(x, row)));
                lemma_different_rows_differ(rows[k], rows[0], x, row, x, y);
            } else {
                let row = (y + 5 + n) as nat;
                assert(starts_with(rows[k], goto_code(x, row)));
                lemma_different_rows_differ(rows[k], rows[0], x, row, x, y);
            }
        }
    }
}

/// The texts of a list of strings.
pub open spec fn views(lines: Seq<String>) -> Seq<Seq<char>> {
    lines.map_values(|s: String| s@)
}

fn menu_choice_strings(p: &Palette, choices: &Vec<&str>, selected: i8, x: u16, y: u16) -> (rows: Vec<
    String,
>)
    requires
        choices.len() <= 127,
        labels_fit(choice_texts(choices@)),
        y as nat + 6 + choices.len() <= u16::MAX,
    ensures
        views(rows@) == menu_choice_rows(*p, choice_texts(choices@), selected as int, x as nat, y as nat),
{
    let n = choices.len() as u16;
    let ghost texts = choice_texts(choices@);
    let mut rows: Vec<String> = Vec::new();
    let mut i: u16 = 0;
    while i < n
        invariant
            n as nat == choices.len(),
            n <= 127,
            y as nat + 6 + n <= u16::MAX,
            i <= n,
            texts == choice_texts(choices@),
            labels_fit(texts),
            rows.len() == i + (if i == n && n > 0 { 1int } else { 0int }),
            forall|j: int|
                0 <= j < i && j < n - 1 ==> #[trigger] rows[j]@ == choice_line(
                    *p,
                    x as nat,
                    (y + 5 + j) as nat,
                    choice_label(j as nat, texts[j]),
                    j == selected,
                ),
            i == n && n > 0 ==> rows[n - 1]@ == menu_blank(x as nat, (y + 4 + n) as nat),
            i == n && n > 0 ==> rows[n as int]@ == choice_line(
                *p,
                x as nat,
                (y + 5 + n) as nat,
                choice_label((n - 1) as nat, texts[n - 1]),
                n - 1 == selected,
            ),
        decreases n - i,
    {
        let mut row = i;
        if i == n - 1 {
            rows.push(menu_blank_string(x, y + 5 + row));
            row = row + 1;
        }
        let label = choice_label_string(i, choices[i as usize]);
        let ghost ii: int = i as int;
        assert(texts[ii] == choices@[ii]@);
        assert(utf8_len(choice_label(ii as nat, texts[ii])) <= menu_box_width());
        let line = choice_line_string(p, x, y + 5 + row, label.as_str(), i as i8 == selected);
        rows.push(line);
        i = i + 1;
    }
    let ghost expected = menu_choice_rows(*p, texts, selected as int, x as nat, y as nat);
    assert(views(rows@).len() == expected.len());
    assert forall|j: int| 0 <= j < rows.len() implies #[trigger] views(rows@)[j] == expected[j] by {
        if j < n - 1 {
            assert(expected[j] == choice_line(
                *p,
                x as nat,
                (y + 5 + j) as nat,
                choice_label(j as nat, texts[j]),
                j == selected,
            ));
        } else if j == n - 1 {
            assert(expected[j] == menu_blank(x as nat, (y + 4 + n) as nat));
        } else {
            assert(j == n);
        }
    }
    assert(views(rows@) =~= expected);
    rows
}

fn add_shadow(p: &Palette, rows: &Vec<String>) -> (lines: Vec<String>)
    requires
        rows.len() > 0,
    ensures
        views(lines@) == with_shadow(*p, views(rows@)),
{
    let ghost expected = with_shadow(*p, views(rows@));
    let mut lines: Vec<String> = Vec::new();
    let mut k: usize = 0;
    while k < rows.len()
        invariant
            k <= rows.len(),
            rows.len() > 0,
            expected == with_shadow(*p, views(rows@)),
            lines.len() == k,
            forall|m: int| 0 <= m < k ==> #[trigger] lines[m]@ == expected[m],
        decreases rows.len() - k,
    {
        if rows[k] == rows[0] {
            lines.push(rows[k].clone());
        } else {
            let mut line = rows[k].clone();
            line.append(p.shadow_bg.as_str());
            line.append(" ");
            line.append(p.menu_bg.as_str());
            lines.push(line);
        }
        k = k + 1;
    }
    assert(views(lines@) =~= expected);
    lines
}

/// The rows of the main menu on a terminal of `width` by `height`, the box
/// centred, with `choices` and the choice `selected` (counted from 0)
/// highlighted, each row with its shadow; or, when `selected` is not one of
/// the choices, the error text to write instead.
pub fn menu_screen(p: &Palette, choices: &Vec<&str>, selected: i8, width: u16, height: u16) -> (r:
    Result<Vec<String>, String>)
    requires
        choices.len() <= 127,
        selected < choices.len() ==> labels_fit(choice_texts(choices@)),
        selected < choices.len() ==> box_origin(
            width as nat,
            height as nat,
            menu_box_width(),
            menu_box_height(choices.len() as nat),
        ) != (0nat, 0nat),
    ensures
        match r {
            Ok(lines) => {
                let (x, y) = box_origin(
                    width as nat,
                    height as nat,
                    menu_box_width(),
                    menu_box_height(choices.len() as nat),
                );
                &&& selected < choices.len()
                &&& views(lines@) == with_shadow(
                    *p,
                    menu_rows(*p, choice_texts(choices@), selected as int, x, y),
                )
            },
            Err(text) => selected >= choices.len() && text@ == menu_error_text(*p),
        },
{
    let n = choices.len() as u16;
    if selected >= choices.len() as i8 {
        let mut text = clear_all();
        let home = goto(1, 1);
        text.append(home.as_str());
        text.append(p.error_fg.as_str());
        text.append("Error displaying menu:\n\t- Selected value outside bounds");
        let fg_off = fg_reset();
        text.append(fg_off.as_str());
        assert(text@ =~= menu_error_text(*p));
        return Err(text);
    }
    let (x, y) = centre_box(width, height, 25, 6 + n);
    let mut rows = menu_head_rows(p, x, y, n);
    let mut tail = menu_choice_strings(p, choices, selected, x, y);
    let ghost head_views = views(rows@);
    let ghost tail_views = views(tail@);
    rows.append(&mut tail);
    let ghost texts = choice_texts(choices@);
    assert(views(rows@) =~= menu_rows(*p, texts, selected as int, x as nat, y as nat)) by {
        assert(views(rows@) =~= head_views + tail_views);
    }
    Ok(add_shadow(p, &rows))
}

/// The width of the timetable box: five cells of 24 and a margin of two on
/// each side.
pub open spec fn timetable_box_width() -> nat {
    124
}

/// The height of the timetable box: six rows of cells of seven lines, a
/// title row, an empty row and two rows under the cells.
pub open spec fn timetable_box_height() -> nat {
    46
}

/// The background of the cell of weekday column `d`, period `q`: the cell
/// of the moment (`focus` is its column and period) has its own colour, the
/// other cells of its day another, the cells of other days the box's.
pub open spec fn cell_background(p: Palette, focus: (int, int), d: int, q: int) -> Seq<char> {
    if d == focus.0 {
        if q == focus.1 {
            p.now_bg@
        } else {
            p.today_bg@
        }
    } else {
        p.panel_bg@
    }
}

/// Line `i` of the cells of period `q` across the first `days` days, each
/// cell preceded by its background.
pub open spec fn row_prefix(p: Palette, week: Week, focus: (int, int), q: int, i: int, days: nat) -> Seq<
    char,
>
    decreases days,
{
    if days == 0 {
        seq![]
    } else {
        row_prefix(p, week, focus, q, i, (days - 1) as nat) + cell_background(
            p,
            focus,
            days - 1,
            q,
        ) + cell_text(week.day(days - 1).lesson(q))[i]
    }
}

/// Line `i` of the cells of period `q`, Monday to Friday.
pub open spec fn timetable_row_text(p: Palette, week: Week, focus: (int, int), q: int, i: int) -> Seq<
    char,
> {
    row_prefix(p, week, focus, q, i, 5)
}

/// The screen row of line `i` of period `q`: inside the box, between
/// margins, with the shadow at the right.
pub open spec fn timetable_row_line(
    p: Palette,
    week: Week,
    focus: (int, int),
    q: int,
    i: int,
    x: nat,
    y: nat,
) -> Seq<char> {
    goto_code(x, (y + 2 + 7 * q + i) as nat) + p.panel_bg@ + "  "@ + timetable_row_text(
        p,
        week,
        focus,
        q,
        i,
    ) + "  "@ + p.row_shadow_bg@ + " "@ + p.panel_bg@
}

/// The title row of the timetable box and the empty row under it.
pub open spec fn timetable_head(p: Palette, x: nat, y: nat) -> Seq<char> {
    goto_code(x, y) + p.text_fg@ + p.panel_bg@ + centered(
        "┤Timetable├"@,
        timetable_box_width(),
        '─',
    ) + goto_code(x, y + 1) + repeated(' ', timetable_box_width()) + p.shadow_bg@ + " "@
        + p.panel_bg@
}

/// The two rows under the cells and the shadow under the box.
pub open spec fn timetable_foot(p: Palette, x: nat, y: nat) -> Seq<char> {
    goto_code(x, y + 44) + p.panel_bg@ + repeated(' ', timetable_box_width()) + p.shadow_bg@ + " "@
        + p.panel_bg@ + goto_code(x, y + 45) + repeated(' ', timetable_box_width()) + p.shadow_bg@
        + " "@ + goto_code(x + 1, y + 46) + repeated(' ', timetable_box_width())
}

proof fn lemma_row_prefix_ignores_weekend_focus(
    p: Palette,
    week: Week,
    f: (int, int),
    g: (int, int),
    q: int,
    i: int,
    days: nat,
)
    requires
        days <= 5,
        !(0 <= f.0 < 5),
        !(0 <= g.0 < 5),
    ensures
        row_prefix(p, week, f, q, i, days) == row_prefix(p, week, g, q, i, days),
    decreases days,
{
    if days > 0 {
        lemma_row_prefix_ignores_weekend_focus(p, week, f, g, q, i, (days - 1) as nat);
    }
}

/// Nothing is highlighted when the focus is not on one of the five school
/// days (at the weekend): every cell is on the box's background, and the
/// lines of the timetable do not depend on the focus.
pub proof fn lemma_no_highlight_at_the_weekend(
    p: Palette,
    week: Week,
    f: (int, int),
    g: (int, int),
    x: nat,
    y: nat,
)
    requires
        !(0 <= f.0 < 5),
        !(0 <= g.0 < 5),
    ensures
        forall|d: int, q: int| 0 <= d < 5 ==> #[trigger] cell_background(p, f, d, q) == p.panel_bg@,
        forall|q: int, i: int|
            #[trigger] timetable_row_line(p, week, f, q, i, x, y) == timetable_row_line(
                p,
                week,
                g,
                q,
                i,
                x,
                y,
            ),
{
    assert forall|q: int, i: int|
        #[trigger] timetable_row_line(p, week, f, q, i, x, y) == timetable_row_line(
            p,
            week,
            g,
            q,
            i,
            x,
            y,
        ) by {
        lemma_row_prefix_ignores_weekend_focus(p, week, f, g, q, i, 5);
    }
}

/// Today's column (the focus column, a school day) shows the current
/// period on the 'now' colour and every other period on today's colour;
/// when no period is under way (the focus period is not one of the six) no
/// cell of the day is on the 'now' colour. Cells of other days keep the
/// box's colour.
pub proof fn lemma_today_highlights_only_the_current_period(
    p: Palette,
    focus: (int, int),
    d: int,
    q: int,
)
    requires
        0 <= d < 5,
        0 <= q < 6,
    ensures
        d == focus.0 && q == focus.1 ==> cell_background(p, focus, d, q) == p.now_bg@,
        d == focus.0 && q != focus.1 ==> cell_background(p, focus, d, q) == p.today_bg@,
        d == focus.0 && !(0 <= focus.1 < 6) ==> cell_background(p, focus, d, q) == p.today_bg@,
        d != focus.0 ==> cell_background(p, focus, d, q) == p.panel_bg@,
{
}

fn cell_background_str<'a>(p: &'a Palette, focus: (i32, i32), d: usize, q: usize) -> (s: &'a str)
    requires
        d < 5,
        q < 6,
    ensures
        s@ == cell_background(*p, (focus.0 as int, focus.1 as int), d as int, q as int),
{
    if d as i32 == focus.0 {
        if q as i32 == focus.1 {
            p.now_bg.as_str()
        } else {
            p.today_bg.as_str()
        }
    } else {
        p.panel_bg.as_str()
    }
}

/// The lines written for the timetable on a terminal of `width` by
/// `height`: the box centred, showing week A when `is_a_week` else week B,
/// with the cell of `focus` (weekday column, period) and its day
/// highlighted. The first line is the title, then come the lines of the
/// cells period by period, then the bottom of the box.
pub fn timetable_screen(
    p: &Palette,
    timetable: Timetable,
    focus: (i32, i32),
    is_a_week: bool,
    width: u16,
    height: u16,
) -> (lines: Vec<String>)
    requires
        box_origin(width as nat, height as nat, timetable_box_width(), timetable_box_height()) != (
            0nat,
            0nat,
        ),
    ensures
        ({
            let (x, y) = box_origin(
                width as nat,
                height as nat,
                timetable_box_width(),
                timetable_box_height(),
            );
            let week = timetable.week(is_a_week);
            let f = (focus.0 as int, focus.1 as int);
            &&& lines.len() == 44
            &&& lines[0]@ == timetable_head(*p, x, y)
            &&& forall|q: int, i: int|
                0 <= q < 6 && 0 <= i < 7 ==> #[trigger] lines[1 + 7 * q + i]@ == timetable_row_line(
                    *p,
                    week,
                    f,
                    q,
                    i,
                    x,
                    y,
                )
            &&& lines[43]@ == timetable_foot(*p, x, y)
        }),
{
    let ghost f = (focus.0 as int, focus.1 as int);
    let ghost t = timetable;
    let week = if is_a_week {
        timetable.a
    } else {
        timetable.b
    };
    let ghost wk = week;
    assert(wk == t.week(is_a_week));
    let cells = [
        draw_day(week.mon),
        draw_day(week.tue),
        draw_day(week.wed),
        draw_day(week.thu),
        draw_day(week.fri),
    ];
    assert forall|d: int, q: int, i: int|
        0 <= d < 5 && 0 <= q < 6 && 0 <= i < 7 implies #[trigger] cells[d][q][i]@ == cell_text(
        wk.day(d).lesson(q),
    )[i] by {
        if d == 0 {
        } else if d == 1 {
        } else if d == 2 {
        } else if d == 3 {
        } else {
        }
    }
    let (x, y) = centre_box(width, height, 124, 46);
    let mut lines: Vec<String> = Vec::new();
    let panel = p.panel_bg.as_str();
    let shadow = p.shadow_bg.as_str();
    let wide = repeat_char(' ', 124);
    let mut head = goto(x, y);
    head.append(p.text_fg.as_str());
    head.append(panel);
    let title = center("┤Timetable├", 124, '─');
    head.append(title.as_str());
    let second = goto(x, y + 1);
    head.append(second.as_str());
    head.append(wide.as_str());
    head.append(shadow);
    head.append(" ");
    head.append(panel);
    assert(head@ =~= timetable_head(*p, x as nat, y as nat));
    lines.push(head);
    let mut q: usize = 0;
    while q < 6
        invariant
            q <= 6,
            y <= height / 2,
            f == (focus.0 as int, focus.1 as int),
            lines.len() == 1 + 7 * q,
            lines[0]@ == timetable_head(*p, x as nat, y as nat),
            panel@ == p.panel_bg@,
            forall|d: int, qq: int, i: int|
                0 <= d < 5 && 0 <= qq < 6 && 0 <= i < 7 ==> #[trigger] cells[d][qq][i]@
                    == cell_text(wk.day(d).lesson(qq))[i],
            forall|qq: int, i: int|
                0 <= qq < q && 0 <= i < 7 ==> #[trigger] lines[1 + 7 * qq + i]@
                    == timetable_row_line(*p, wk, f, qq, i, x as nat, y as nat),
        decreases 6 - q,
    {
        let mut i: usize = 0;
        while i < 7
            invariant
                q < 6,
                i <= 7,
                y <= height / 2,
                f == (focus.0 as int, focus.1 as int),
                lines.len() == 1 + 7 * q + i,
                lines[0]@ == timetable_head(*p, x as nat, y as nat),
                panel@ == p.panel_bg@,
                forall|d: int, qq: int, ii: int|
                    0 <= d < 5 && 0 <= qq < 6 && 0 <= ii < 7 ==> #[trigger] cells[d][qq][ii]@
                        == cell_text(wk.day(d).lesson(qq))[ii],
                forall|qq: int, ii: int|
                    0 <= qq < 6 && 0 <= ii < 7 && 7 * qq + ii < 7 * q + i ==> #[trigger] lines[1 + 7
                        * qq + ii]@ == timetable_row_line(*p, wk, f, qq, ii, x as nat, y as nat),
            decreases 7 - i,
        {
            let mut text = String::new();
            let mut d: usize = 0;
            while d < 5
                invariant
                    q < 6,
                    i < 7,
                    d <= 5,
                    forall|dd: int, qq: int, ii: int|
                        0 <= dd < 5 && 0 <= qq < 6 && 0 <= ii < 7 ==> #[trigger] cells[dd][qq][ii]@
                            == cell_text(wk.day(dd).lesson(qq))[ii],
                    f == (focus.0 as int, focus.1 as int),
                    text@ == row_prefix(*p, wk, f, q as int, i as int, d as nat),
                decreases 5 - d,
            {
                let ghost before = text@;
                text.append(cell_background_str(p, focus, d, q));
                text.append(cells[d][q][i].as_str());
                assert(text@ =~= before + cell_background(*p, f, d as int, q as int) + cell_text(
                    wk.day(d as int).lesson(q as int),
                )[i as int]);
                d = d + 1;
            }
            let row = (y as usize + 2 + 7 * q + i) as u16;
            let mut line = goto(x, row);
            line.append(panel);
            line.append("  ");
            line.append(text.as_str());
            line.append("  ");
            line.append(p.row_shadow_bg.as_str());
            line.append(" ");
            line.append(panel);
            assert(line@ =~= timetable_row_line(
                *p,
                wk,
                f,
                q as int,
                i as int,
                x as nat,
                y as nat,
            ));
            lines.push(line);
            i = i + 1;
        }
        q = q + 1;
    }
    let mut foot = goto(x, y + 44);
    foot.append(panel);
    foot.append(wide.as_str());
    foot.append(shadow);
    foot.append(" ");
    foot.append(panel);
    let next = goto(x, y + 45);
    foot.append(next.as_str());
    foot.append(wide.as_str());
    foot.append(shadow);
    foot.append(" ");
    let last = goto(x + 1, y + 46);
    foot.append(last.as_str());
    foot.append(wide.as_str());
    assert(foot@ =~= timetable_foot(*p, x as nat, y as nat));
    lines.push(foot);
    lines
}

} // verus!
