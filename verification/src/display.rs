//! What the terminal display shows: the status area (indicator, header and
//! one line per ecosystem) and the frames of the scrollable table.  Drawing
//! to the terminal is left to the caller.
use vstd::prelude::*;

use crate::text::{decimal, owned, pad_right, push_decimal, push_padded, push_str};
use crate::types::{EcosystemSummary, OverallStatus};

verus! {

// ---------------------------------------------------------------------------
// Display state
// ---------------------------------------------------------------------------

/// What the status area shows.
pub struct DisplayState {
    /// One entry per ecosystem that has finished checking.
    pub summaries: Vec<EcosystemSummary>,
    /// The ecosystem currently being checked.
    pub current_ecosystem: Option<String>,
    /// Overall health indicator.
    pub status: OverallStatus,
}

impl DisplayState {
    /// The state before any ecosystem is checked.
    pub fn new() -> (r: Self)
        ensures
            r.summaries@.len() == 0,
            r.current_ecosystem is None,
            r.status == OverallStatus::Processing,
    {
        DisplayState { summaries: Vec::new(), current_ecosystem: None, status: OverallStatus::Processing }
    }

    /// Signal that we are starting to check a specific ecosystem.
    pub fn start_ecosystem(&mut self, name: &str)
        ensures
            final(self).current_ecosystem matches Some(n) && n@ == name@,
            final(self).summaries@ == old(self).summaries@,
            final(self).status == old(self).status,
    {
        self.current_ecosystem = Some(owned(name));
    }

    /// Record the completed results for one ecosystem.
    pub fn finish_ecosystem(&mut self, summary: EcosystemSummary)
        ensures
            final(self).current_ecosystem is None,
            final(self).summaries@ == old(self).summaries@.push(summary),
            final(self).status == old(self).status,
    {
        self.current_ecosystem = None;
        self.summaries.push(summary);
    }

    /// Transition to the final (non-processing) status.
    pub fn set_final_status(&mut self, status: OverallStatus)
        ensures
            final(self).status == status,
            final(self).summaries@ == old(self).summaries@,
            final(self).current_ecosystem == old(self).current_ecosystem,
    {
        self.status = status;
    }
}

// ---------------------------------------------------------------------------
// Status area
// ---------------------------------------------------------------------------

/// Colour of the status indicator.
#[derive(Debug, Clone, Copy, PartialEq, Eq, Structural)]
pub enum IndicatorColor {
    Green,
    /// RGB (255, 165, 0).
    Orange,
    Red,
}

pub open spec fn indicator(status: OverallStatus, blink_on: bool) -> (Seq<char>, IndicatorColor) {
    match status {
        OverallStatus::Processing => if blink_on {
            ("\u{25cf}"@, IndicatorColor::Green)
        } else {
            (" "@, IndicatorColor::Green)
        },
        OverallStatus::AllGood => ("\u{25cf}"@, IndicatorColor::Green),
        OverallStatus::Partial => ("\u{25cf}"@, IndicatorColor::Orange),
        OverallStatus::NoneInstalled => ("\u{25cf}"@, IndicatorColor::Red),
    }
}

/// Choose the indicator character and colour: a dot, blanked during the off
/// phase of the blink while processing.
pub fn indicator_style(status: &OverallStatus, blink_on: bool) -> (r: (&'static str, IndicatorColor))
    ensures
        (r.0@, r.1) == indicator(*status, blink_on),
{
    match status {
        OverallStatus::Processing => if blink_on {
            ("\u{25cf}", IndicatorColor::Green)
        } else {
            (" ", IndicatorColor::Green)
        },
        OverallStatus::AllGood => ("\u{25cf}", IndicatorColor::Green),
        OverallStatus::Partial => ("\u{25cf}", IndicatorColor::Orange),
        OverallStatus::NoneInstalled => ("\u{25cf}", IndicatorColor::Red),
    }
}

pub open spec fn status_message(status: OverallStatus, current: Option<Seq<char>>) -> Seq<char> {
    match status {
        OverallStatus::Processing => match current {
            Some(name) => "checking "@ + name + " packages\u{2026}"@,
            None => "checking for packages\u{2026}"@,
        },
        OverallStatus::AllGood => "all packages installed"@,
        OverallStatus::Partial => "some packages missing or outdated"@,
        OverallStatus::NoneInstalled => "no packages installed"@,
    }
}

pub open spec fn current_view(state: &DisplayState) -> Option<Seq<char>> {
    match state.current_ecosystem {
        Some(n) => Some(n@),
        None => None,
    }
}

/// Human-readable status message for the header line.
pub fn status_text(state: &DisplayState) -> (r: String)
    ensures
        r@ == status_message(state.status, current_view(state)),
{
    match state.status {
        OverallStatus::Processing => match &state.current_ecosystem {
            Some(name) => {
                let mut r = owned("checking ");
                push_str(&mut r, name.as_str());
                push_str(&mut r, " packages\u{2026}");
                r
            },
            None => owned("checking for packages\u{2026}"),
        },
        OverallStatus::AllGood => owned("all packages installed"),
        OverallStatus::Partial => owned("some packages missing or outdated"),
        OverallStatus::NoneInstalled => owned("no packages installed"),
    }
}

/// Width of the label column of the status lines, in characters.
pub const LABEL_WIDTH: usize = 10;

/// `"{name}:"` padded to the label column.
pub open spec fn label(name: Seq<char>) -> Seq<char> {
    pad_right(name + ":"@, LABEL_WIDTH as nat)
}

/// The counts part of a summary line: installed out of total, then the
/// outdated and missing counts when they are not zero.
pub open spec fn summary_counts(s: EcosystemSummary) -> Seq<char> {
    let base = decimal(s.installed as nat) + "/"@ + decimal(s.total as nat) + " installed"@;
    let with_outdated = if s.outdated > 0 {
        base + ", "@ + decimal(s.outdated as nat) + " outdated"@
    } else {
        base
    };
    if s.missing > 0 {
        with_outdated + ", "@ + decimal(s.missing as nat) + " missing"@
    } else {
        with_outdated
    }
}

pub open spec fn summary_line(s: EcosystemSummary) -> Seq<char> {
    label(s.name@) + " "@ + summary_counts(s)
}

/// Format one ecosystem summary line, e.g. `"Node.js:   5/8 installed, 2 missing"`.
pub fn format_summary(summary: &EcosystemSummary) -> (r: String)
    ensures
        r@ == summary_line(*summary),
{
    let mut name = summary.name.clone();
    push_str(&mut name, ":");
    let mut r = String::new();
    push_padded(&mut r, name.as_str(), LABEL_WIDTH);
    push_str(&mut r, " ");
    push_decimal(&mut r, summary.installed);
    push_str(&mut r, "/");
    push_decimal(&mut r, summary.total);
    push_str(&mut r, " installed");
    if summary.outdated > 0 {
        push_str(&mut r, ", ");
        push_decimal(&mut r, summary.outdated);
        push_str(&mut r, " outdated");
    }
    if summary.missing > 0 {
        push_str(&mut r, ", ");
        push_decimal(&mut r, summary.missing);
        push_str(&mut r, " missing");
    }
    assert(r@ =~= summary_line(*summary));
    r
}

/// Lines the status area may take on a terminal of `rows` rows: a quarter
/// of them.
pub open spec fn status_area_height(rows: nat) -> nat {
    rows / 4
}

/// Lines the status area may take on a terminal of `rows` rows.
pub fn status_area_lines(rows: u16) -> (r: usize)
    ensures
        r == status_area_height(rows as nat),
{
    (rows / 4) as usize
}

/// Whether a table of `line_count` lines is printed as it is on a terminal
/// of `rows` rows (it fits in half of them) rather than shown scrollable.
pub fn table_fits(line_count: usize, rows: u16) -> (r: bool)
    ensures
        r == (line_count <= rows / 2),
{
    line_count <= (rows / 2) as usize
}

/// One frame of the status area.
pub struct StatusFrame {
    /// Whether the header line is drawn (there is room for at least one line).
    pub header_shown: bool,
    /// The indicator character.
    pub dot: &'static str,
    /// Its colour.
    pub color: IndicatorColor,
    /// The message after the indicator on the header line.
    pub header: String,
    /// The lines below the header, each with its two-space margin.
    pub lines: Vec<String>,
}

/// Number of summary lines that fit below the header in `max_lines` lines.
pub open spec fn shown_summaries(n: nat, max_lines: nat) -> nat {
    if max_lines == 0 {
        0
    } else if n <= max_lines - 1 {
        n
    } else {
        (max_lines - 1) as nat
    }
}

/// Whether the "checking" line of the current ecosystem is shown.
pub open spec fn shows_checking(state: &DisplayState, max_lines: nat) -> bool {
    1 + shown_summaries(state.summaries@.len(), max_lines) < max_lines
        && state.current_ecosystem is Some && state.status == OverallStatus::Processing
}

/// Rows the status area for `state` takes within `max_lines` lines: the
/// header where there is room for it, the summaries shown, and the
/// "checking" line where it is shown.
pub open spec fn frame_rows(state: &DisplayState, max_lines: nat) -> nat {
    (if max_lines >= 1 {
        1nat
    } else {
        0nat
    }) + shown_summaries(state.summaries@.len(), max_lines) + (if shows_checking(
        state,
        max_lines,
    ) {
        1nat
    } else {
        0nat
    })
}

/// Rows a frame takes on screen.
pub open spec fn frame_height(frame: &StatusFrame) -> nat {
    (if frame.header_shown {
        1nat
    } else {
        0nat
    }) + frame.lines@.len()
}

pub open spec fn checking_line(name: Seq<char>) -> Seq<char> {
    "  "@ + label(name) + " checking\u{2026}"@
}

/// The status area for `state`, within `max_lines` lines: header where
/// there is room for it, then one line per finished ecosystem while room is
/// left, then the ecosystem being checked while processing and room is left.
pub fn status_frame(state: &DisplayState, max_lines: usize, blink_on: bool) -> (r: StatusFrame)
    ensures
        r.header_shown == (max_lines >= 1),
        frame_height(&r) == frame_rows(state, max_lines as nat),
        (r.dot@, r.color) == indicator(state.status, blink_on),
        r.header@ == status_message(state.status, current_view(state)),
        ({
            let k = shown_summaries(state.summaries@.len(), max_lines as nat);
            &&& r.lines@.len() == k + if shows_checking(state, max_lines as nat) {
                1int
            } else {
                0int
            }
            &&& forall|i: int|
                0 <= i < k ==> #[trigger] r.lines@[i]@ == "  "@ + summary_line(state.summaries@[i])
            &&& shows_checking(state, max_lines as nat) ==> r.lines@[k as int]@ == checking_line(
                current_view(state)->0,
            )
        }),
{
    let (dot, color) = indicator_style(&state.status, blink_on);
    let header = status_text(state);
    let mut lines: Vec<String> = Vec::new();
    let mut written: usize = 1;
    let mut i: usize = 0;
    while i < state.summaries.len()
        invariant
            0 <= i <= state.summaries.len(),
            written == i + 1,
            i <= shown_summaries(state.summaries@.len(), max_lines as nat),
            lines@.len() == i,
            forall|j: int|
                0 <= j < i ==> #[trigger] lines@[j]@ == "  "@ + summary_line(state.summaries@[j]),
        ensures
            i == shown_summaries(state.summaries@.len(), max_lines as nat),
            written == i + 1,
            lines@.len() == i,
            forall|j: int|
                0 <= j < i ==> #[trigger] lines@[j]@ == "  "@ + summary_line(state.summaries@[j]),
        decreases state.summaries.len() - i,
    {
        if written >= max_lines {
            break;
        }
        let mut line = owned("  ");
        let s = format_summary(&state.summaries[i]);
        push_str(&mut line, s.as_str());
        lines.push(line);
        written = written + 1;
        i = i + 1;
    }
    assert(i == shown_summaries(state.summaries@.len(), max_lines as nat));
    if written < max_lines {
        match &state.current_ecosystem {
            Some(name) => {
                if state.status == OverallStatus::Processing {
                    let mut n = name.clone();
                    push_str(&mut n, ":");
                    let mut line = owned("  ");
                    push_padded(&mut line, n.as_str(), LABEL_WIDTH);
                    push_str(&mut line, " checking\u{2026}");
                    assert(line@ =~= checking_line(name@));
                    lines.push(line);
                }
            },
            None => {},
        }
    }
    StatusFrame { header_shown: max_lines >= 1, dot, color, header, lines }
}

/// Rows the status area takes after a redraw that follows one of `prev`
/// rows: the new frame's rows, and blank rows that clear what is left of a
/// taller earlier frame.
pub open spec fn redrawn_rows(prev: nat, shown: nat) -> nat {
    if prev > shown {
        prev
    } else {
        shown
    }
}

/// Rows written when `frame` is drawn over an earlier status area of `prev`
/// rows, and how many of them are blank rows that clear the rest of it.
pub fn redraw_rows(prev: usize, frame: &StatusFrame) -> (r: (usize, usize))
    requires
        frame.lines@.len() < usize::MAX,
    ensures
        r.0 == redrawn_rows(prev as nat, frame_height(frame)),
        r.1 == r.0 - frame_height(frame),
{
    let shown: usize = if frame.header_shown {
        frame.lines.len() + 1
    } else {
        frame.lines.len()
    };
    if prev > shown {
        (prev, prev - shown)
    } else {
        (shown, 0)
    }
}

// ---------------------------------------------------------------------------
// Scrollable table
// ---------------------------------------------------------------------------

/// A key press in the scrollable table, as far as scrolling is concerned.
#[derive(Debug, Clone, Copy, PartialEq, Eq, Structural)]
pub enum ScrollKey {
    Quit,
    Down,
    Up,
    PageDown,
    PageUp,
    Home,
    End,
    Other,
}

pub open spec fn char_scroll_key(c: char, control: bool) -> ScrollKey {
    if c == 'q' {
        ScrollKey::Quit
    } else if c == 'c' && control {
        ScrollKey::Quit
    } else if c == 'j' {
        ScrollKey::Down
    } else if c == 'k' {
        ScrollKey::Up
    } else if c == ' ' {
        ScrollKey::PageDown
    } else {
        ScrollKey::Other
    }
}

/// What a character key does: `q` or Ctrl-C quit, `j`/`k` scroll by a line,
/// space by a page.
pub fn scroll_key_for_char(c: char, control: bool) -> (r: ScrollKey)
    ensures
        r == char_scroll_key(c, control),
{
    if c == 'q' {
        ScrollKey::Quit
    } else if c == 'c' && control {
        ScrollKey::Quit
    } else if c == 'j' {
        ScrollKey::Down
    } else if c == 'k' {
        ScrollKey::Up
    } else if c == ' ' {
        ScrollKey::PageDown
    } else {
        ScrollKey::Other
    }
}

/// Rows of table shown in a view of `height` rows, one row being the hint bar.
pub open spec fn view_rows_of(height: nat) -> nat {
    if height <= 1 {
        1
    } else {
        (height - 1) as nat
    }
}

/// The furthest the view can scroll.
pub open spec fn max_offset_of(total: nat, view_rows: nat) -> nat {
    if total <= view_rows {
        0
    } else {
        (total - view_rows) as nat
    }
}

/// Rows of `total` lines shown in a view of `height` rows, and the furthest
/// offset.
pub fn scroll_bounds(total: usize, height: usize) -> (r: (usize, usize))
    ensures
        r.0 == view_rows_of(height as nat),
        r.1 == max_offset_of(total as nat, r.0 as nat),
{
    let view_rows = if height <= 1 {
        1
    } else {
        height - 1
    };
    let max_offset = if total <= view_rows {
        0
    } else {
        total - view_rows
    };
    (view_rows, max_offset)
}

/// The offset after a key press, or none when the key leaves the view.
pub open spec fn scrolled(offset: nat, key: ScrollKey, view_rows: nat, max_offset: nat) -> Option<nat> {
    match key {
        ScrollKey::Quit => None,
        ScrollKey::Down => Some(if offset < max_offset { offset + 1 } else { offset }),
        ScrollKey::Up => Some(if offset >= 1 { (offset - 1) as nat } else { 0 }),
        ScrollKey::PageDown => Some(
            if offset <= max_offset && view_rows <= max_offset - offset {
                offset + view_rows
            } else {
                max_offset
            },
        ),
        ScrollKey::PageUp => Some(
            if offset >= view_rows {
                (offset - view_rows) as nat
            } else {
                0
            },
        ),
        ScrollKey::Home => Some(0),
        ScrollKey::End => Some(max_offset),
        ScrollKey::Other => Some(offset),
    }
}

/// Handle one key press of the scrollable table.
pub fn scroll_step(offset: usize, key: ScrollKey, view_rows: usize, max_offset: usize) -> (r: Option<usize>)
    ensures
        match r {
            Some(o) => scrolled(offset as nat, key, view_rows as nat, max_offset as nat) == Some(
                o as nat,
            ),
            None => scrolled(offset as nat, key, view_rows as nat, max_offset as nat) is None,
        },
{
    match key {
        ScrollKey::Quit => None,
        ScrollKey::Down => Some(
            if offset < max_offset {
                offset + 1
            } else {
                offset
            },
        ),
        ScrollKey::Up => Some(
            if offset >= 1 {
                offset - 1
            } else {
                0
            },
        ),
        ScrollKey::PageDown => Some(
            if offset <= max_offset && view_rows <= max_offset - offset {
                offset + view_rows
            } else {
                max_offset
            },
        ),
        ScrollKey::PageUp => Some(
            if offset >= view_rows {
                offset - view_rows
            } else {
                0
            },
        ),
        ScrollKey::Home => Some(0),
        ScrollKey::End => Some(max_offset),
        ScrollKey::Other => Some(offset),
    }
}

/// One frame of the scrollable table: lines `offset..end` are shown, then
/// `blank_rows` empty rows, then the hint bar.
pub struct ScrollFrame {
    pub end: usize,
    pub blank_rows: usize,
    pub hint: String,
}

pub open spec fn scroll_arrows(can_up: bool, can_down: bool) -> Seq<char> {
    if can_up && can_down {
        "\u{2191}\u{2193} scroll"@
    } else if can_up {
        "\u{2191} scroll"@
    } else if can_down {
        "\u{2193} scroll"@
    } else {
        ""@
    }
}

pub open spec fn frame_end(total: nat, offset: nat, view_rows: nat) -> nat {
    if offset + view_rows <= total {
        offset + view_rows
    } else {
        total
    }
}

pub open spec fn hint_text(total: nat, offset: nat, view_rows: nat, max_offset: nat) -> Seq<char> {
    "  ["@ + decimal(offset + 1) + "-"@ + decimal(frame_end(total, offset, view_rows)) + "/"@
        + decimal(total) + "] "@ + scroll_arrows(offset > 0, offset < max_offset)
        + "  q to exit"@
}

/// The frame of a view of `view_rows` rows at `offset` into `total` lines.
pub fn scroll_frame(total: usize, offset: usize, view_rows: usize, max_offset: usize) -> (r: ScrollFrame)
    requires
        offset <= total,
        offset < usize::MAX,
    ensures
        r.end == frame_end(total as nat, offset as nat, view_rows as nat),
        offset <= r.end <= total,
        r.blank_rows == view_rows - (r.end - offset),
        r.hint@ == hint_text(total as nat, offset as nat, view_rows as nat, max_offset as nat),
{
    let end = if view_rows <= total - offset {
        offset + view_rows
    } else {
        total
    };
    let arrows = if offset > 0 && offset < max_offset {
        "\u{2191}\u{2193} scroll"
    } else if offset > 0 {
        "\u{2191} scroll"
    } else if offset < max_offset {
        "\u{2193} scroll"
    } else {
        ""
    };
    let mut hint = owned("  [");
    push_decimal(&mut hint, offset + 1);
    push_str(&mut hint, "-");
    push_decimal(&mut hint, end);
    push_str(&mut hint, "/");
    push_decimal(&mut hint, total);
    push_str(&mut hint, "] ");
    push_str(&mut hint, arrows);
    push_str(&mut hint, "  q to exit");
    assert(hint@ =~= hint_text(total as nat, offset as nat, view_rows as nat, max_offset as nat));
    ScrollFrame { end, blank_rows: view_rows - (end - offset), hint }
}

} // verus!
