use gator::event::TerminalEvent;
use gator::keys::{Key, NamedKey};
use gator::pty::copy_chunk;
use gator::tui::{encode_event, Tui};

#[test]
fn events_become_reactions() {
    let mut tui = Tui::new(10, 3, 100);
    let r = tui.handle(TerminalEvent::PtyOutput(b"hi\x1b[5n".to_vec()));
    assert_eq!(r.write.unwrap(), b"\x1b[0n");
    assert!(r.draw && !r.stop && !r.overrun);
    assert_eq!(tui.grid.viewport()[1].c, 'i');
    let r = tui.handle(TerminalEvent::PtyOutput(b"\x1b[?2004h".to_vec()));
    assert!(r.write.is_none() && r.draw);
    let r = tui.handle(TerminalEvent::Paste("p".to_string()));
    assert_eq!(r.write.unwrap(), b"\x1b[200~p\x1b[201~");
    assert!(!r.draw);
    let r = tui.handle(TerminalEvent::UserInput(vec![3]));
    assert_eq!(r.write.unwrap(), vec![3]);
    let r = tui.handle(TerminalEvent::Resize { rows: 5, cols: 7 });
    assert_eq!(r.pty_size, Some((5, 7)));
    assert!(r.draw && r.write.is_none());
    assert_eq!((tui.grid.cols(), tui.grid.rows()), (7, 5));
    assert_eq!((tui.renderer.cols, tui.renderer.rows), (7, 5));
    assert!(tui.handle(TerminalEvent::Shutdown).stop);
    assert!(tui.handle(TerminalEvent::PtyOutput(b"\x1b[9Hx".to_vec())).overrun);
}

#[test]
fn frames_follow_events() {
    let mut tui = Tui::new(2, 1, 0);
    tui.renderer.started(2, 1);
    let (draws, cursor) = tui.renderer.plan_frame(&tui.grid, &tui.cursor);
    assert_eq!(draws.len(), 2);
    tui.renderer.finish_frame(cursor);
    tui.handle(TerminalEvent::PtyOutput(b"x".to_vec()));
    let (draws, _) = tui.renderer.plan_frame(&tui.grid, &tui.cursor);
    assert_eq!(draws.len(), 2);
    assert_eq!(draws[0].c, 'x');
}

#[test]
fn releases_send_nothing() {
    let key = Key::Character("a".to_string());
    assert_eq!(encode_event(&key, false, false).unwrap(), b"a");
    assert_eq!(encode_event(&key, false, true).unwrap(), vec![1]);
    assert!(encode_event(&key, true, false).is_none());
    assert_eq!(encode_event(&Key::Named(NamedKey::Delete), false, true).unwrap(), b"\x1b[3~");
}

#[test]
fn chunks_are_copied_as_far_as_they_fit() {
    let mut buf = [9u8; 4];
    assert_eq!(copy_chunk(&[1, 2], &mut buf), 2);
    assert_eq!(buf, [1, 2, 9, 9]);
    assert_eq!(copy_chunk(&[5, 6, 7, 8, 9, 10], &mut buf), 4);
    assert_eq!(buf, [5, 6, 7, 8]);
}
