use pkgcheck::display::{
    format_summary, indicator_style, scroll_bounds, scroll_frame, scroll_key_for_char,
    redraw_rows, scroll_step, status_area_lines, status_frame, status_text, table_fits, DisplayState,
    IndicatorColor, ScrollKey,
};
use pkgcheck::types::{EcosystemSummary, OverallStatus};

fn summary(name: &str, total: usize, installed: usize, outdated: usize, missing: usize) -> EcosystemSummary {
    EcosystemSummary { name: name.to_string(), total, installed, outdated, missing }
}

#[test]
fn summary_lines() {
    assert_eq!(format_summary(&summary("Node.js", 12, 12, 0, 0)), "Node.js:   12/12 installed");
    assert_eq!(format_summary(&summary("Rust", 6, 6, 0, 0)), "Rust:      6/6 installed");
    assert_eq!(format_summary(&summary("Node.js", 8, 5, 0, 2)), "Node.js:   5/8 installed, 2 missing");
    assert_eq!(
        format_summary(&summary("Python", 4, 1, 2, 1)),
        "Python:    1/4 installed, 2 outdated, 1 missing"
    );
    assert_eq!(format_summary(&summary("VeryLongName", 0, 0, 0, 0)), "VeryLongName: 0/0 installed");
}

#[test]
fn status_messages_and_indicator() {
    let mut state = DisplayState::new();
    assert_eq!(status_text(&state), "checking for packages\u{2026}");
    state.start_ecosystem("Go");
    assert_eq!(status_text(&state), "checking Go packages\u{2026}");
    state.finish_ecosystem(summary("Go", 1, 1, 0, 0));
    assert!(state.current_ecosystem.is_none());
    assert_eq!(state.summaries.len(), 1);
    state.set_final_status(OverallStatus::AllGood);
    assert_eq!(status_text(&state), "all packages installed");
    state.set_final_status(OverallStatus::Partial);
    assert_eq!(status_text(&state), "some packages missing or outdated");
    state.set_final_status(OverallStatus::NoneInstalled);
    assert_eq!(status_text(&state), "no packages installed");

    assert_eq!(indicator_style(&OverallStatus::Processing, true), ("\u{25cf}", IndicatorColor::Green));
    assert_eq!(indicator_style(&OverallStatus::Processing, false), (" ", IndicatorColor::Green));
    assert_eq!(indicator_style(&OverallStatus::Partial, false), ("\u{25cf}", IndicatorColor::Orange));
    assert_eq!(indicator_style(&OverallStatus::NoneInstalled, true), ("\u{25cf}", IndicatorColor::Red));
}

#[test]
fn status_frame_respects_height() {
    let mut state = DisplayState::new();
    state.finish_ecosystem(summary("Node.js", 2, 2, 0, 0));
    state.finish_ecosystem(summary("Rust", 1, 0, 0, 1));
    state.start_ecosystem("Go");
    let f = status_frame(&state, 4, true);
    assert_eq!(f.header, "checking Go packages\u{2026}");
    assert_eq!(
        f.lines,
        vec![
            "  Node.js:   2/2 installed".to_string(),
            "  Rust:      0/1 installed, 1 missing".to_string(),
            "  Go:        checking\u{2026}".to_string(),
        ]
    );
    let small = status_frame(&state, 2, false);
    assert_eq!(small.lines, vec!["  Node.js:   2/2 installed".to_string()]);
    assert_eq!(small.dot, " ");
    let none = status_frame(&state, 0, true);
    assert!(none.lines.is_empty());
    assert!(!none.header_shown);
    assert!(small.header_shown);
    state.set_final_status(OverallStatus::Partial);
    assert_eq!(status_frame(&state, 10, true).lines.len(), 2);
}

#[test]
fn terminal_sizes() {
    assert_eq!(status_area_lines(24), 6);
    assert_eq!(status_area_lines(10), 2);
    assert_eq!(status_area_lines(8), 2);
    assert_eq!(status_area_lines(3), 0);
    assert_eq!(status_area_lines(0), 0);
    assert!(table_fits(12, 24));
    assert!(!table_fits(13, 24));
}

#[test]
fn scrolling() {
    assert_eq!(scroll_bounds(30, 12), (11, 19));
    assert_eq!(scroll_bounds(5, 12), (11, 0));
    assert_eq!(scroll_bounds(5, 0), (1, 4));
    assert_eq!(scroll_key_for_char('q', false), ScrollKey::Quit);
    assert_eq!(scroll_key_for_char('c', true), ScrollKey::Quit);
    assert_eq!(scroll_key_for_char('c', false), ScrollKey::Other);
    assert_eq!(scroll_key_for_char('j', false), ScrollKey::Down);
    assert_eq!(scroll_key_for_char('k', false), ScrollKey::Up);
    assert_eq!(scroll_key_for_char(' ', false), ScrollKey::PageDown);
    assert_eq!(scroll_step(3, ScrollKey::Quit, 5, 10), None);
    assert_eq!(scroll_step(3, ScrollKey::Down, 5, 10), Some(4));
    assert_eq!(scroll_step(10, ScrollKey::Down, 5, 10), Some(10));
    assert_eq!(scroll_step(0, ScrollKey::Up, 5, 10), Some(0));
    assert_eq!(scroll_step(3, ScrollKey::Up, 5, 10), Some(2));
    assert_eq!(scroll_step(3, ScrollKey::PageDown, 5, 10), Some(8));
    assert_eq!(scroll_step(8, ScrollKey::PageDown, 5, 10), Some(10));
    assert_eq!(scroll_step(3, ScrollKey::PageUp, 5, 10), Some(0));
    assert_eq!(scroll_step(8, ScrollKey::PageUp, 5, 10), Some(3));
    assert_eq!(scroll_step(8, ScrollKey::Home, 5, 10), Some(0));
    assert_eq!(scroll_step(2, ScrollKey::End, 5, 10), Some(10));
    assert_eq!(scroll_step(2, ScrollKey::Other, 5, 10), Some(2));
}

#[test]
fn scroll_frames() {
    let f = scroll_frame(10, 0, 4, 6);
    assert_eq!((f.end, f.blank_rows), (4, 0));
    assert_eq!(f.hint, "  [1-4/10] \u{2193} scroll  q to exit");
    let g = scroll_frame(10, 6, 4, 6);
    assert_eq!(g.hint, "  [7-10/10] \u{2191} scroll  q to exit");
    let h = scroll_frame(10, 3, 4, 6);
    assert_eq!(h.hint, "  [4-7/10] \u{2191}\u{2193} scroll  q to exit");
    let k = scroll_frame(2, 0, 4, 0);
    assert_eq!((k.end, k.blank_rows), (2, 2));
    assert_eq!(k.hint, "  [1-2/2]   q to exit");
}

#[test]
fn redraw_clears_what_a_taller_frame_left() {
    let mut state = DisplayState::new();
    state.finish_ecosystem(summary("Node.js", 2, 2, 0, 0));
    state.finish_ecosystem(summary("Rust", 1, 1, 0, 0));
    let f = status_frame(&state, 6, true);
    assert_eq!(redraw_rows(0, &f), (3, 0));
    assert_eq!(redraw_rows(5, &f), (5, 2));
    let hidden = status_frame(&state, 0, true);
    assert_eq!(redraw_rows(0, &hidden), (0, 0));
}
