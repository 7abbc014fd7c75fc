use aks_terminal::terminal::{flatten_groups_exec, group_param, Cell, TerminalGrid};
use aks_terminal::theme::Color;

struct Feed<'a>(&'a mut TerminalGrid);

impl vte::Perform for Feed<'_> {
    fn print(&mut self, c: char) {
        self.0.print(c);
    }

    fn execute(&mut self, byte: u8) {
        self.0.execute(byte);
    }

    fn csi_dispatch(&mut self, params: &vte::Params, intermediates: &[u8], ignore: bool, action: char) {
        self.0.csi_dispatch(params, intermediates, ignore, action);
    }
}

fn feed(grid: &mut TerminalGrid, bytes: &[u8]) {
    let mut parser = vte::Parser::new();
    parser.advance(&mut Feed(grid), bytes);
}

fn row_text(grid: &TerminalGrid, row: usize) -> String {
    grid.lines()[row].iter().map(|c| c.ch).collect()
}

#[test]
fn new_grid_is_blank() {
    let g = TerminalGrid::new(2, 3);
    assert_eq!(g.size(), (2, 3));
    assert_eq!(g.cursor(), (0, 0));
    assert_eq!(g.lines().len(), 2);
    for line in g.lines() {
        assert_eq!(line.len(), 3);
        for cell in line {
            assert_eq!(*cell, Cell::default());
        }
    }
}

#[test]
fn new_grid_has_at_least_one_cell() {
    let g = TerminalGrid::new(0, 0);
    assert_eq!(g.size(), (1, 1));
    assert_eq!(g.lines().len(), 1);
    assert_eq!(g.lines()[0].len(), 1);
}

#[test]
fn print_advances_cursor() {
    let mut g = TerminalGrid::new(2, 4);
    g.print('a');
    g.print('b');
    assert_eq!(g.cursor(), (0, 2));
    assert_eq!(row_text(&g, 0), "ab  ");
}

#[test]
fn print_wraps_after_last_column() {
    let mut g = TerminalGrid::new(2, 3);
    feed(&mut g, b"abc");
    assert_eq!(g.cursor(), (0, 2));
    feed(&mut g, b"d");
    assert_eq!(row_text(&g, 0), "abc");
    assert_eq!(row_text(&g, 1), "d  ");
    assert_eq!(g.cursor(), (1, 1));
}

#[test]
fn linefeed_scrolls_at_bottom() {
    let mut g = TerminalGrid::new(2, 2);
    feed(&mut g, b"ab\r\ncd\r\nef");
    assert_eq!(row_text(&g, 0), "cd");
    assert_eq!(row_text(&g, 1), "ef");
    assert_eq!(g.cursor(), (1, 1));
}

#[test]
fn carriage_return_and_backspace() {
    let mut g = TerminalGrid::new(1, 5);
    feed(&mut g, b"abc\rX");
    assert_eq!(row_text(&g, 0), "Xbc  ");
    assert_eq!(g.cursor(), (0, 1));
    g.execute(8);
    g.execute(8);
    assert_eq!(g.cursor(), (0, 0));
}

#[test]
fn tab_moves_to_next_stop_clamped() {
    let mut g = TerminalGrid::new(1, 20);
    g.execute(b'\t');
    assert_eq!(g.cursor(), (0, 8));
    g.execute(b'\t');
    assert_eq!(g.cursor(), (0, 16));
    g.execute(b'\t');
    assert_eq!(g.cursor(), (0, 19));
}

#[test]
fn ignored_control_changes_nothing() {
    let mut g = TerminalGrid::new(2, 2);
    g.print('a');
    g.execute(7);
    assert_eq!(g.cursor(), (0, 1));
    assert_eq!(row_text(&g, 0), "a ");
}

#[test]
fn cursor_position_is_one_based_and_clamped() {
    let mut g = TerminalGrid::new(5, 10);
    feed(&mut g, b"\x1b[2;3H");
    assert_eq!(g.cursor(), (1, 2));
    feed(&mut g, b"\x1b[99;99f");
    assert_eq!(g.cursor(), (4, 9));
    feed(&mut g, b"\x1b[H");
    assert_eq!(g.cursor(), (0, 0));
}

#[test]
fn cursor_moves_relative() {
    let mut g = TerminalGrid::new(5, 10);
    feed(&mut g, b"\x1b[3B\x1b[4C");
    assert_eq!(g.cursor(), (3, 4));
    feed(&mut g, b"\x1b[A\x1b[2D");
    assert_eq!(g.cursor(), (2, 2));
    feed(&mut g, b"\x1b[9A\x1b[9D");
    assert_eq!(g.cursor(), (0, 0));
    feed(&mut g, b"\x1b[0B");
    assert_eq!(g.cursor(), (1, 0));
    feed(&mut g, b"\x1b[7G\x1b[4d");
    assert_eq!(g.cursor(), (3, 6));
}

#[test]
fn erase_in_line_modes() {
    let mut g = TerminalGrid::new(1, 5);
    feed(&mut g, b"abcde\x1b[3G\x1b[K");
    assert_eq!(row_text(&g, 0), "ab   ");
    feed(&mut g, b"\r12345\x1b[3G\x1b[1K");
    assert_eq!(row_text(&g, 0), "   45");
    feed(&mut g, b"\x1b[2K");
    assert_eq!(row_text(&g, 0), "     ");
}

#[test]
fn erase_in_display_modes() {
    let mut g = TerminalGrid::new(3, 3);
    feed(&mut g, b"abc\r\ndef\r\nghi\x1b[2;2H\x1b[J");
    assert_eq!(row_text(&g, 0), "abc");
    assert_eq!(row_text(&g, 1), "d  ");
    assert_eq!(row_text(&g, 2), "   ");
    let mut g = TerminalGrid::new(3, 3);
    feed(&mut g, b"abc\r\ndef\r\nghi\x1b[2;2H\x1b[1J");
    assert_eq!(row_text(&g, 0), "   ");
    assert_eq!(row_text(&g, 1), "  f");
    assert_eq!(row_text(&g, 2), "ghi");
    feed(&mut g, b"\x1b[2J");
    for r in 0..3 {
        assert_eq!(row_text(&g, r), "   ");
    }
    assert_eq!(g.cursor(), (1, 1));
}

#[test]
fn private_erase_is_ignored() {
    let mut g = TerminalGrid::new(1, 3);
    feed(&mut g, b"abc\x1b[?2J\x1b[?2K");
    assert_eq!(row_text(&g, 0), "abc");
}

#[test]
fn sgr_sets_and_resets_attributes() {
    let mut g = TerminalGrid::new(1, 6);
    feed(&mut g, b"\x1b[1;3;31;42ma\x1b[0mb\x1b[94;103mc\x1b[22;39;49md");
    let l = &g.lines()[0];
    assert_eq!(l[0], Cell { ch: 'a', fg: Color::Indexed(1), bg: Color::Indexed(2), bold: true, italic: true });
    assert_eq!(l[1], Cell { ch: 'b', ..Cell::default() });
    assert_eq!(l[2], Cell { ch: 'c', fg: Color::Indexed(12), bg: Color::Indexed(11), bold: false, italic: false });
    assert_eq!(l[3], Cell { ch: 'd', ..Cell::default() });
}

#[test]
fn sgr_extended_colours() {
    let mut g = TerminalGrid::new(1, 4);
    feed(&mut g, b"\x1b[38;2;10;20;300ma\x1b[48;5;200mb\x1b[38:5:9mc");
    let l = &g.lines()[0];
    assert_eq!(l[0].fg, Color::Rgb(10, 20, 44));
    assert_eq!(l[0].bg, Color::Default);
    assert_eq!(l[1].bg, Color::Indexed(200));
    assert_eq!(l[2].fg, Color::Indexed(9));
    assert_eq!(l[2].bg, Color::Indexed(200));
}

#[test]
fn sgr_truncated_extended_colour() {
    let mut g = TerminalGrid::new(1, 3);
    feed(&mut g, b"\x1b[38;2;7ma\x1b[48;5mb\x1b[38;9;1mc");
    let l = &g.lines()[0];
    assert_eq!(l[0].fg, Color::Rgb(7, 0, 0));
    assert_eq!(l[1].bg, Color::Indexed(0));
    assert!(l[2].bold);
}

#[test]
fn inverse_video_swaps_with_defaults() {
    let mut g = TerminalGrid::new(1, 3);
    feed(&mut g, b"\x1b[7ma\x1b[31;44mb\x1b[27mc");
    let l = &g.lines()[0];
    assert_eq!((l[0].fg, l[0].bg), (Color::Indexed(0), Color::Indexed(7)));
    assert_eq!((l[1].fg, l[1].bg), (Color::Indexed(4), Color::Indexed(1)));
    assert_eq!((l[2].fg, l[2].bg), (Color::Indexed(1), Color::Indexed(4)));
}

#[test]
fn bold_then_unbold_restores_pen() {
    let mut g = TerminalGrid::new(1, 2);
    feed(&mut g, b"\x1b[1m\x1b[22ma");
    assert_eq!(g.lines()[0][0], Cell { ch: 'a', ..Cell::default() });
}

#[test]
fn resize_grow_keeps_cells() {
    let mut g = TerminalGrid::new(2, 2);
    feed(&mut g, b"ab\r\ncd");
    g.resize(3, 4);
    assert_eq!(g.size(), (3, 4));
    assert_eq!(row_text(&g, 0), "ab  ");
    assert_eq!(row_text(&g, 1), "cd  ");
    assert_eq!(row_text(&g, 2), "    ");
    assert_eq!(g.cursor(), (1, 1));
}

#[test]
fn resize_shrink_drops_top_rows() {
    let mut g = TerminalGrid::new(3, 3);
    feed(&mut g, b"abc\r\ndef\r\ngh");
    g.resize(2, 2);
    assert_eq!(g.size(), (2, 2));
    assert_eq!(row_text(&g, 0), "de");
    assert_eq!(row_text(&g, 1), "gh");
    assert_eq!(g.cursor(), (1, 1));
    g.resize(1, 1);
    assert_eq!(row_text(&g, 0), "g");
    assert_eq!(g.cursor(), (0, 0));
}

#[test]
fn resize_to_same_size_keeps_pending_wrap() {
    let mut g = TerminalGrid::new(2, 2);
    feed(&mut g, b"ab");
    g.resize(2, 2);
    feed(&mut g, b"c");
    assert_eq!(row_text(&g, 1), "c ");
    let mut h = TerminalGrid::new(2, 2);
    feed(&mut h, b"ab");
    h.resize(2, 3);
    feed(&mut h, b"c");
    assert_eq!(row_text(&h, 0), "ac ");
}

#[test]
fn resize_is_idempotent() {
    let mut g = TerminalGrid::new(4, 4);
    feed(&mut g, b"wxyz\r\n12");
    g.resize(2, 3);
    let once: Vec<String> = (0..2).map(|r| row_text(&g, r)).collect();
    let cur = g.cursor();
    g.resize(2, 3);
    let twice: Vec<String> = (0..2).map(|r| row_text(&g, r)).collect();
    assert_eq!(once, twice);
    assert_eq!(cur, g.cursor());
}

#[test]
fn flatten_and_params() {
    let groups = vec![vec![38u16, 5, 9], vec![], vec![1]];
    assert_eq!(flatten_groups_exec(&groups), vec![38, 5, 9, 0, 1]);
    assert_eq!(group_param(&groups, 0, 7), 38);
    assert_eq!(group_param(&groups, 1, 7), 7);
    assert_eq!(group_param(&groups, 2, 7), 1);
    assert_eq!(group_param(&groups, 3, 7), 7);
    assert_eq!(group_param(&vec![vec![0u16]], 0, 7), 7);
}

#[test]
fn csi_groups_directly() {
    let mut g = TerminalGrid::new(4, 4);
    g.csi_dispatch_groups(&vec![vec![3], vec![2]], &[], 'H');
    assert_eq!(g.cursor(), (2, 1));
    g.csi_dispatch_groups(&vec![vec![31]], &[], 'm');
    g.print('x');
    assert_eq!(g.lines()[2][1].fg, Color::Indexed(1));
    g.csi_dispatch_groups(&vec![], &[], 'z');
    assert_eq!(g.cursor(), (2, 2));
}

#[test]
fn backspace_takes_back_a_print() {
    let mut g = TerminalGrid::new(2, 5);
    feed(&mut g, b"ab");
    let before = g.cursor();
    g.print('c');
    g.execute(8);
    assert_eq!(g.cursor(), before);
    g.print('d');
    assert_eq!(row_text(&g, 0), "abd  ");
}

#[test]
fn sgr_twice_is_sgr_once() {
    let seq = b"\x1b[1;38;5;9;7;44m";
    let mut once = TerminalGrid::new(1, 2);
    feed(&mut once, seq);
    once.print('x');
    let mut twice = TerminalGrid::new(1, 2);
    feed(&mut twice, seq);
    feed(&mut twice, seq);
    twice.print('x');
    assert_eq!(once.lines()[0][0], twice.lines()[0][0]);
}

#[test]
fn sgr_concatenation_is_sequencing() {
    let mut joined = TerminalGrid::new(1, 2);
    feed(&mut joined, b"\x1b[1;31;0;3;48;2;1;2;3m");
    joined.print('x');
    let mut split = TerminalGrid::new(1, 2);
    feed(&mut split, b"\x1b[1;31;0;3m\x1b[48;2;1;2;3m");
    split.print('x');
    assert_eq!(joined.lines()[0][0], split.lines()[0][0]);
    assert_eq!(joined.lines()[0][0], Cell { ch: 'x', fg: Color::Default, bg: Color::Rgb(1, 2, 3), bold: false, italic: true });
}
