use sodium::redraw::RedrawTask;

const ALL: [RedrawTask; 4] =
    [RedrawTask::Nothing, RedrawTask::StatusBarOnly, RedrawTask::CursorOnly, RedrawTask::Full];

#[test]
fn levels_are_ordered_by_cost() {
    assert_eq!(RedrawTask::Nothing.level(), 0);
    assert_eq!(RedrawTask::StatusBarOnly.level(), 1);
    assert_eq!(RedrawTask::CursorOnly.level(), 2);
    assert_eq!(RedrawTask::Full.level(), 3);
}

#[test]
fn status_bar_then_cursor_gives_cursor() {
    let mut task = RedrawTask::Nothing;
    task.request(RedrawTask::StatusBarOnly);
    assert_eq!(task, RedrawTask::StatusBarOnly);
    task.request(RedrawTask::CursorOnly);
    assert_eq!(task, RedrawTask::CursorOnly);
    task.request(RedrawTask::StatusBarOnly);
    assert_eq!(task, RedrawTask::CursorOnly);
}

#[test]
fn merge_is_the_maximum() {
    for a in ALL {
        for b in ALL {
            let m = a.merge(b);
            assert!(m.level() >= a.level() && m.level() >= b.level());
            assert!(m == a || m == b);
            assert_eq!(m, b.merge(a));
        }
    }
}

#[test]
fn requests_never_downgrade() {
    for start in ALL {
        for first in ALL {
            for second in ALL {
                let mut task = start;
                task.request(first);
                let after_first = task;
                task.request(second);
                assert!(task.level() >= after_first.level());
                assert!(task.level() >= start.level());
            }
        }
    }
}

#[test]
fn take_hands_out_and_resets() {
    let mut task = RedrawTask::Full;
    assert!(!task.is_nothing());
    assert_eq!(task.take(), RedrawTask::Full);
    assert_eq!(task, RedrawTask::Nothing);
    assert!(task.is_nothing());
    assert_eq!(task.take(), RedrawTask::Nothing);
}
