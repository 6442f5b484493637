# timetable

A terminal timetable for a school with alternating A and B weeks: a main
menu, and a view of the week's lessons with today's column and the current
period highlighted.

- `src/` is the library, verified with Verus:
  - `text.rs`: repeated characters, centring as `{:^w}` does it, decimal
    rendering;
  - `timetable.rs`: the timetable data and the boxed lesson cells;
  - `calendar.rs`: dates (by day number), times of day, A/B weeks,
    weekdays and periods, reading the first day of an A week;
  - `escape.rs`: terminal control sequences and the colour palette;
  - `screen.rs`: the backdrop, the menu box and the timetable box as the
    lines written to the terminal;
  - `menu.rs`: what a key does in the menu and in the timetable view.
- `app/` is the program around it: raw terminal mode, key input, files,
  the clock, and the serde copies of the timetable types.
- `tests/` runs the library against concrete values.

The program reads `res/Timetable.json` (weeks `a` and `b`, days `mon` to
`fri`, lessons `_1` to `_6` with `subject`, `room`, `teacher`) and
`res/Date` (the first day of an A week, `year/month/day` on one line).
