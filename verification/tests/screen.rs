//! The screen buffer and what it has the terminal do.
use tetro_tui::color::Color;
use tetro_tui::screen::{Cell, DrawCommand, TerminalScreenBuffer};

/// A terminal that does what it is told.
fn show(display: &mut Vec<Vec<Cell>>, cmds: &Vec<DrawCommand>) {
    for cmd in cmds {
        match *cmd {
            DrawCommand::ClearAll => {
                for row in display.iter_mut() {
                    for cell in row.iter_mut() {
                        *cell = (' ', None);
                    }
                }
            }
            DrawCommand::Put { c, x, y } => display[y as usize][x as usize] = (c, None),
            DrawCommand::PutReset { c, x, y } => display[y as usize][x as usize] = (c, None),
            DrawCommand::PutColored { c, color, x, y } => {
                display[y as usize][x as usize] = (c, Some(color))
            }
            DrawCommand::BeginUpdate | DrawCommand::EndUpdate | DrawCommand::Home => {}
        }
    }
}

/// What the buffer gives out, after the terminal has done it.
fn flush(screen: &mut TerminalScreenBuffer) -> Vec<DrawCommand> {
    let cmds = screen.flush_commands();
    screen.flushed();
    cmds
}

fn lines(display: &Vec<Vec<Cell>>) -> Vec<String> {
    display.iter().map(|row| row.iter().map(|cell| cell.0).collect()).collect()
}

#[test]
fn a_first_frame_clears_the_terminal() {
    let mut screen = TerminalScreenBuffer::new();
    screen.buffer_reset((2, 1));
    screen.buffer_from(&vec!["ab".to_owned(), "c".to_owned()]);
    assert!(screen.is_in_range());
    let cmds = flush(&mut screen);
    assert_eq!(
        cmds,
        vec![
            DrawCommand::BeginUpdate,
            DrawCommand::ClearAll,
            DrawCommand::Put { c: 'a', x: 2, y: 1 },
            DrawCommand::Put { c: 'b', x: 3, y: 1 },
            DrawCommand::Put { c: 'c', x: 2, y: 2 },
            DrawCommand::Home,
            DrawCommand::EndUpdate,
        ]
    );
}

#[test]
fn an_equal_frame_prints_nothing() {
    let mut screen = TerminalScreenBuffer::new();
    screen.buffer_from(&vec!["ab".to_owned()]);
    flush(&mut screen);
    screen.buffer_from(&vec!["ab".to_owned()]);
    assert_eq!(
        flush(&mut screen),
        vec![DrawCommand::BeginUpdate, DrawCommand::Home, DrawCommand::EndUpdate]
    );
}

#[test]
fn only_changes_are_printed() {
    let mut screen = TerminalScreenBuffer::new();
    screen.buffer_from(&vec!["abc".to_owned()]);
    flush(&mut screen);
    screen.buffer_from(&vec!["axc".to_owned()]);
    screen.buffer_str("c", Some(Color::Red), (2, 0));
    assert_eq!(
        flush(&mut screen),
        vec![
            DrawCommand::BeginUpdate,
            DrawCommand::Put { c: 'x', x: 1, y: 0 },
            DrawCommand::PutColored { c: 'c', color: Color::Red, x: 2, y: 0 },
            DrawCommand::Home,
            DrawCommand::EndUpdate,
        ]
    );
    screen.buffer_from(&vec!["axc".to_owned()]);
    assert_eq!(
        flush(&mut screen),
        vec![
            DrawCommand::BeginUpdate,
            DrawCommand::PutReset { c: 'c', x: 2, y: 0 },
            DrawCommand::Home,
            DrawCommand::EndUpdate,
        ]
    );
}

#[test]
fn text_below_and_beside_the_frame_makes_room() {
    let mut screen = TerminalScreenBuffer::new();
    screen.buffer_from(&vec!["a".to_owned()]);
    screen.buffer_str("xy", None, (3, 2));
    let mut display = vec![vec![('?', None); 6]; 4];
    show(&mut display, &flush(&mut screen));
    assert_eq!(lines(&display), vec!["a     ", "      ", "   xy ", "      "]);
}

#[test]
fn frames_show_what_was_drawn_last() {
    let mut screen = TerminalScreenBuffer::new();
    let mut display = vec![vec![('?', None); 8]; 4];
    for (base, text, color) in [
        ("one two", "1", Some(Color::Blue)),
        ("three", "22", None),
        ("", "", None),
        ("four", "4", Some(Color::AnsiValue(7))),
    ] {
        screen.buffer_from(&vec![base.to_owned(), "".to_owned()]);
        screen.buffer_str(text, color, (1, 1));
        let expected: Vec<Vec<Cell>> = screen.next.clone();
        show(&mut display, &flush(&mut screen));
        for y in 0..4 {
            for x in 0..8 {
                let cell = expected.get(y).and_then(|row| row.get(x)).copied();
                assert_eq!(display[y][x], cell.unwrap_or((' ', None)));
            }
        }
    }
}

#[test]
fn a_frame_that_was_not_drawn_can_be_drawn_again() {
    let mut screen = TerminalScreenBuffer::new();
    screen.buffer_reset((1, 2));
    screen.buffer_from(&vec!["ab".to_owned()]);
    let before = screen.clone();
    let cmds = screen.flush_commands();
    assert_eq!(screen, before);
    assert_eq!(screen.flush_commands(), cmds);
    screen.flushed();
    assert_eq!(screen.prev, before.next);
    assert!(screen.next.is_empty());
    assert_eq!((screen.x_draw, screen.y_draw), (1, 2));
}

#[test]
fn places_beyond_the_terminal_are_out_of_range() {
    let mut screen = TerminalScreenBuffer::new();
    screen.buffer_from(&vec!["abc".to_owned()]);
    screen.buffer_reset((65_533, 65_535));
    assert!(screen.is_in_range());
    screen.buffer_reset((65_534, 65_535));
    assert!(!screen.is_in_range());
}
