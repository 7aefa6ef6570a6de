use dlprogress::progress_bar::{progress_pct, render_frame, ProgressBar};

fn block_cells(frame: &str) -> usize {
    frame.chars().filter(|c| *c == '\u{2588}').count()
}

#[test]
fn pct_truncates_toward_zero() {
    assert_eq!(progress_pct(50, 101), 49);
}

#[test]
fn pct_endpoints() {
    assert_eq!(progress_pct(0, 1000), 0);
    assert_eq!(progress_pct(1000, 1000), 100);
    assert_eq!(progress_pct(1, u64::MAX), 0);
    assert_eq!(progress_pct(u64::MAX, u64::MAX), 100);
}

#[test]
fn frame_exact_text() {
    let frame = render_frame(250, 1000, 100, 7, 30);
    let expected = format!(
        "100.00 B/s - 25 % - elapsed: 0.07s 250.00 B / 1000.00 B\n[{}{}]",
        "\u{2588}".repeat(7),
        " ".repeat(21)
    );
    assert_eq!(frame, expected);
}

#[test]
fn frame_pads_first_line_to_width() {
    let frame = render_frame(250, 1000, 100, 7, 60);
    let first_line = frame.lines().next().unwrap();
    assert_eq!(first_line.chars().count(), 60);
    let expected_first = format!(
        "100.00 B/s - 25 % - elapsed: 0.07s {}250.00 B / 1000.00 B",
        " ".repeat(5)
    );
    assert_eq!(first_line, expected_first);
}

#[test]
fn frame_fill_matches_formula() {
    for (downloaded, total, width) in [
        (250u64, 1000u64, 30usize),
        (0, 1000, 30),
        (999, 1000, 62),
        (1000, 1000, 30),
        (50, 101, 10),
    ] {
        let pct = progress_pct(downloaded, total) as usize;
        let inner = if width >= 2 { width - 2 } else { 0 };
        let frame = render_frame(downloaded, total, 0, 0, width);
        assert_eq!(block_cells(&frame), pct * inner / 100);
        assert!(block_cells(&frame) <= inner);
    }
}

#[test]
fn frame_full_bar_at_completion() {
    let frame = render_frame(1000, 1000, 0, 0, 30);
    assert_eq!(block_cells(&frame), 28);
}

#[test]
fn frame_degenerate_width() {
    let frame = render_frame(1, 2, 0, 0, 0);
    let bar_line = frame.lines().nth(1).unwrap();
    assert_eq!(bar_line, "[]");
}

#[test]
fn pct_never_decreases_as_download_grows() {
    let total: u64 = 987;
    let mut last: u64 = 0;
    for downloaded in [0u64, 1, 12, 123, 500, 800, 986, 987] {
        let pct = progress_pct(downloaded, total);
        assert!(pct >= last);
        last = pct;
    }
}

#[test]
fn new_clamps_width() {
    let bar = ProgressBar::new(62);
    assert!(bar.bar_width <= 62);
    let zero = ProgressBar::new(0);
    assert_eq!(zero.bar_width, 0);
}

#[test]
fn update_renders_current_percentage() {
    let bar = ProgressBar {
        bar_width: 30,
        start_instant: std::time::Instant::now(),
    };
    let frame = bar.update(50, 101, 0);
    assert!(frame.contains("- 49 % -"));
}
