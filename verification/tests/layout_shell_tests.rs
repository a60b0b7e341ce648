use ratatui::layout::{Constraint, Direction, Layout, Rect};
use rvn::layout::{centered_rect, panes, Area};
use rvn::shell::{shell_program, subshell_path, subshell_report, DEFAULT_SHELL};

fn reference_centered(percent_x: u16, percent_y: u16, r: Rect) -> Rect {
    let popup_layout = Layout::default()
        .direction(Direction::Vertical)
        .constraints([
            Constraint::Percentage((100 - percent_y) / 2),
            Constraint::Percentage(percent_y),
            Constraint::Percentage((100 - percent_y) / 2),
        ])
        .split(r);
    Layout::default()
        .direction(Direction::Horizontal)
        .constraints([
            Constraint::Percentage((100 - percent_x) / 2),
            Constraint::Percentage(percent_x),
            Constraint::Percentage((100 - percent_x) / 2),
        ])
        .split(popup_layout[1])[1]
}

#[test]
fn centered_rect_matches_ratatui() {
    for (w, h) in [(80u16, 24u16), (120, 40), (10, 5), (0, 0), (201, 63)] {
        for (px, py) in [(60u16, 20u16), (100, 100), (0, 0), (33, 77)] {
            let r = Rect { x: 3, y: 2, width: w, height: h };
            let c = centered_rect(px, py, Area { x: 3, y: 2, width: w, height: h });
            let e = reference_centered(px, py, r);
            assert_eq!((c.x, c.y, c.width, c.height), (e.x, e.y, e.width, e.height));
            assert!(c.x >= 3 && c.x as u32 + c.width as u32 <= 3 + w as u32);
            assert!(c.y >= 2 && c.y as u32 + c.height as u32 <= 2 + h as u32);
        }
    }
}

#[test]
fn centered_rect_of_full_screen() {
    let c = centered_rect(60, 20, Area { x: 0, y: 0, width: 100, height: 50 });
    assert_eq!(c, Area { x: 20, y: 20, width: 60, height: 10 });
}

#[test]
fn shell_defaults() {
    assert_eq!(shell_program(None), "/bin/sh");
    assert_eq!(DEFAULT_SHELL, "/bin/sh");
    assert_eq!(shell_program(Some("/bin/zsh".to_string())), "/bin/zsh");
    assert_eq!(subshell_path("/e/bin", Some("/usr/bin:/bin".to_string())), "/e/bin:/usr/bin:/bin");
    assert_eq!(subshell_path("/e/bin", None), "/e/bin:");
}

#[test]
fn subshell_reports() {
    assert_eq!(subshell_report(None, None), Ok(None));
    assert_eq!(
        subshell_report(Some("No such file".to_string()), None),
        Ok(Some("Could not start subshell: No such file".to_string()))
    );
    assert_eq!(
        subshell_report(None, Some("tty gone".to_string())),
        Err("the shell exited; also failed to restore the terminal: tty gone".to_string())
    );
    assert_eq!(
        subshell_report(Some("nope".to_string()), Some("tty gone".to_string())),
        Err("the shell could not be started: nope; also failed to restore the terminal: tty gone".to_string())
    );
}

fn lcg(x: &mut u64) -> u64 {
    *x = x.wrapping_mul(6364136223846793005).wrapping_add(1442695040888963407);
    *x >> 33
}

#[test]
fn percentage_split_facts_hold_in_ratatui() {
    // The facts the library takes from ratatui's layout solver, checked
    // against the solver itself on percentages adding up to at most 100.
    let mut seed = 7u64;
    for round in 0..3000u64 {
        let n = 1 + (lcg(&mut seed) % 4) as usize;
        let mut percents = Vec::new();
        let mut left = 100u64;
        for _ in 0..n {
            let p = lcg(&mut seed) % (left + 1);
            left -= p;
            percents.push(p as u16);
        }
        let x = (lcg(&mut seed) % 300) as u16;
        let y = (lcg(&mut seed) % 300) as u16;
        let big = round % 50 == 0;
        let width = if big { 65000 } else { (lcg(&mut seed) % 500) as u16 };
        let height = (lcg(&mut seed) % 200) as u16;
        let area = Rect { x, y, width, height };
        for vertical in [true, false] {
            let direction = if vertical { Direction::Vertical } else { Direction::Horizontal };
            let parts = Layout::default()
                .direction(direction)
                .constraints(percents.iter().map(|p| Constraint::Percentage(*p)))
                .split(area);
            assert_eq!(parts.len(), percents.len());
            let (start, len, end) = if vertical {
                (area.y as i64, area.height as i64, area.bottom() as i64)
            } else {
                (area.x as i64, area.width as i64, area.right() as i64)
            };
            let _ = len;
            let extent = end - start;
            let mut expected_start = start;
            for (i, part) in parts.iter().enumerate() {
                let (ps, pl) = if vertical {
                    assert_eq!((part.x, part.width), (area.x, area.width));
                    (part.y as i64, part.height as i64)
                } else {
                    assert_eq!((part.y, part.height), (area.y, area.height));
                    (part.x as i64, part.width as i64)
                };
                assert_eq!(ps, expected_start, "{:?} {:?}", percents, area);
                assert!((100 * pl - extent * percents[i] as i64).abs() <= 100, "{:?} {:?}", percents, area);
                assert!(ps + pl <= end);
                expected_start = ps + pl;
            }
        }
    }
}

#[test]
fn panes_split_thirty_seventy() {
    let (list, details) = panes(Area { x: 0, y: 1, width: 100, height: 20 });
    assert_eq!(list, Area { x: 0, y: 1, width: 30, height: 20 });
    assert_eq!(details, Area { x: 30, y: 1, width: 70, height: 20 });
    for w in [0u16, 1, 7, 33, 80, 211] {
        let r = Rect { x: 2, y: 0, width: w, height: 9 };
        let e = Layout::horizontal([Constraint::Percentage(30), Constraint::Percentage(70)]).split(r);
        let (a, b) = panes(Area { x: 2, y: 0, width: w, height: 9 });
        assert_eq!((a.x, a.width, b.x, b.width), (e[0].x, e[0].width, e[1].x, e[1].width));
    }
}
