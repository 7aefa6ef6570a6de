use dlprogress::progress_bar::ProgressBar;
use dlprogress::render_loop::{RenderAction, RenderEvent, RenderLoop, RenderPhase};

fn fixed_bar(width: usize) -> ProgressBar {
    ProgressBar {
        bar_width: width,
        start_instant: std::time::Instant::now(),
    }
}

fn block_cells(frame: &str) -> usize {
    frame.chars().filter(|c| *c == '\u{2588}').count()
}

#[test]
fn end_to_end_scenario() {
    // total = 1000, downloads [0, 250, 500, 1000] at speed 100:
    // four frames with pct 0, 25, 50, 100 and non-decreasing fill,
    // then the close stops the loop.
    let mut looper = RenderLoop::new(fixed_bar(30));
    let downloads: [u64; 4] = [0, 250, 500, 1000];
    let expected_pcts: [u64; 4] = [0, 25, 50, 100];
    let mut frames: Vec<String> = Vec::new();
    for (i, downloaded) in downloads.iter().enumerate() {
        let action = looper.step(RenderEvent::Changed {
            downloaded: *downloaded,
            total: Some(1000),
            speed: 100,
        });
        match action {
            RenderAction::PrintFirst(frame) => {
                assert_eq!(i, 0);
                frames.push(frame);
            }
            RenderAction::Redraw(frame) => {
                assert!(i > 0);
                frames.push(frame);
            }
            _ => panic!("expected a frame for a change with a known total"),
        }
    }
    assert_eq!(frames.len(), 4);
    for (frame, pct) in frames.iter().zip(expected_pcts) {
        assert!(frame.contains(&format!("- {} % -", pct)));
    }
    let mut last_fill: usize = 0;
    for frame in &frames {
        let fill = block_cells(frame);
        assert!(fill >= last_fill);
        last_fill = fill;
    }
    assert_eq!(last_fill, 28); // the final frame has a full bar

    let action = looper.step(RenderEvent::Closed);
    assert!(matches!(action, RenderAction::Stop));
    assert_eq!(looper.phase(), RenderPhase::Stopped);
}

#[test]
fn no_frames_while_total_unknown() {
    // total = None throughout: zero frames are produced.
    let mut looper = RenderLoop::new(fixed_bar(30));
    for downloaded in [0u64, 10, 20, 30] {
        let action = looper.step(RenderEvent::Changed {
            downloaded,
            total: None,
            speed: 5,
        });
        assert!(matches!(action, RenderAction::Wait));
    }
    assert_eq!(looper.phase(), RenderPhase::Idle);
}

#[test]
fn total_becoming_known_starts_frames() {
    let mut looper = RenderLoop::new(fixed_bar(30));
    let action = looper.step(RenderEvent::Changed {
        downloaded: 1,
        total: None,
        speed: 1,
    });
    assert!(matches!(action, RenderAction::Wait));
    let action = looper.step(RenderEvent::Changed {
        downloaded: 1,
        total: Some(10),
        speed: 1,
    });
    assert!(matches!(action, RenderAction::PrintFirst(_)));
    assert_eq!(looper.phase(), RenderPhase::FirstFrame);
    let action = looper.step(RenderEvent::Changed {
        downloaded: 2,
        total: Some(10),
        speed: 1,
    });
    assert!(matches!(action, RenderAction::Redraw(_)));
    assert_eq!(looper.phase(), RenderPhase::Redrawing);
}

#[test]
fn no_frame_after_close() {
    let mut looper = RenderLoop::new(fixed_bar(30));
    looper.step(RenderEvent::Changed {
        downloaded: 5,
        total: Some(10),
        speed: 1,
    });
    looper.step(RenderEvent::Closed);
    assert_eq!(looper.phase(), RenderPhase::Stopped);
    let action = looper.step(RenderEvent::Changed {
        downloaded: 9,
        total: Some(10),
        speed: 1,
    });
    assert!(matches!(action, RenderAction::Wait));
    assert_eq!(looper.phase(), RenderPhase::Stopped);
}
