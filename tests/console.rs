use rs_os::colour::{Colour, ColourCode};
use rs_os::vga::{Printer, RenderedChar, BUFFER_HEIGHT, BUFFER_WIDTH, PLACEHOLDER};

fn println(p: &mut Printer, s: &str) {
    p.print_string(s);
    p.print_string("\n");
}

fn row_text(p: &Printer, row: usize, len: usize) -> String {
    (0..len).map(|c| char::from(p.char_at(row, c).ascii_char)).collect()
}

fn blank() -> RenderedChar {
    RenderedChar { ascii_char: b' ', colour_code: ColourCode::new(Colour::Yellow, Colour::Black) }
}

#[test]
fn test_println_single() {
    let mut p = Printer::new();
    println(&mut p, "Testing single println");
    assert_eq!(p.cursor_x(), 0);
}

#[test]
fn test_println_many() {
    let mut p = Printer::new();
    for _ in 0..100 {
        println(&mut p, "Testing many printlns");
    }
    assert_eq!(row_text(&p, BUFFER_HEIGHT - 2, 21), "Testing many printlns");
}

#[test]
fn test_println_output() {
    let mut p = Printer::new();
    let s = "Testing single println";
    println(&mut p, s);
    for (i, c) in s.chars().enumerate() {
        let rendered_char = p.char_at(BUFFER_HEIGHT - 2, i);
        assert_eq!(char::from(rendered_char.ascii_char), c);
    }
}

#[test]
fn println_output_keeps_attribute() {
    let mut p = Printer::new();
    let s = "Testing single println";
    println(&mut p, s);
    let white = ColourCode::new(Colour::White, Colour::Black);
    for (i, b) in s.bytes().enumerate() {
        assert_eq!(p.char_at(BUFFER_HEIGHT - 2, i), RenderedChar { ascii_char: b, colour_code: white });
    }
    assert_eq!(p.char_at(BUFFER_HEIGHT - 2, s.len()), blank());
    for c in 0..BUFFER_WIDTH {
        assert_eq!(p.char_at(BUFFER_HEIGHT - 1, c), blank());
    }
}

#[test]
fn hundred_lines_last_row_and_earlier_gone() {
    let mut p = Printer::new();
    println(&mut p, "first line");
    for i in 0..100 {
        println(&mut p, &format!("line {:03}", i));
    }
    assert_eq!(row_text(&p, BUFFER_HEIGHT - 2, 8), "line 099");
    assert_eq!(row_text(&p, 0, 8), "line 076");
    for r in 0..BUFFER_HEIGHT {
        assert_ne!(row_text(&p, r, 10), "first line");
    }
}

#[test]
fn printable_run_advances_cursor() {
    let mut p = Printer::new();
    p.print_string("abc");
    assert_eq!(p.cursor_x(), 3);
    assert_eq!(row_text(&p, BUFFER_HEIGHT - 1, 3), "abc");
    p.print_string("de");
    assert_eq!(p.cursor_x(), 5);
    assert_eq!(row_text(&p, BUFFER_HEIGHT - 1, 5), "abcde");
    assert_eq!(p.char_at(BUFFER_HEIGHT - 1, 5), blank());
}

#[test]
fn wrap_at_last_column() {
    let mut p = Printer::new();
    let line: String = std::iter::repeat('x').take(BUFFER_WIDTH).collect();
    p.print_string(&line);
    assert_eq!(p.cursor_x(), BUFFER_WIDTH);
    assert_eq!(row_text(&p, BUFFER_HEIGHT - 1, BUFFER_WIDTH), line);
    p.print_string("y");
    assert_eq!(p.cursor_x(), 1);
    assert_eq!(row_text(&p, BUFFER_HEIGHT - 2, BUFFER_WIDTH), line);
    assert_eq!(p.char_at(BUFFER_HEIGHT - 1, 0).ascii_char, b'y');
    assert_eq!(p.char_at(BUFFER_HEIGHT - 1, 1), blank());
}

#[test]
fn long_string_scrolls_first_row_away() {
    let mut p = Printer::new();
    let text: String = (0..BUFFER_HEIGHT * BUFFER_WIDTH + 5).map(|i| if i < BUFFER_WIDTH { 'a' } else { 'b' }).collect();
    p.print_string(&text);
    for r in 0..BUFFER_HEIGHT {
        for c in 0..BUFFER_WIDTH {
            assert_ne!(p.char_at(r, c).ascii_char, b'a');
        }
    }
    assert_eq!(row_text(&p, BUFFER_HEIGHT - 1, 5), "bbbbb");
    assert_eq!(p.cursor_x(), 5);
}

#[test]
fn control_and_high_bytes_show_placeholder() {
    let mut p = Printer::new();
    p.print_string("a\u{1}\tb\u{7f}é");
    assert_eq!(p.cursor_x(), 7);
    let got: Vec<u8> = (0..7).map(|c| p.char_at(BUFFER_HEIGHT - 1, c).ascii_char).collect();
    assert_eq!(got, vec![b'a', PLACEHOLDER, PLACEHOLDER, b'b', PLACEHOLDER, PLACEHOLDER, PLACEHOLDER]);
}

#[test]
fn print_byte_stores_raw_byte() {
    let mut p = Printer::new();
    p.print_byte(0x01);
    assert_eq!(p.char_at(BUFFER_HEIGHT - 1, 0).ascii_char, 0x01);
    p.print_byte(b'\n');
    assert_eq!(p.cursor_x(), 0);
    assert_eq!(p.char_at(BUFFER_HEIGHT - 2, 0).ascii_char, 0x01);
}

#[test]
fn set_colour_code_applies_to_later_cells() {
    let mut p = Printer::new();
    p.print_string("a");
    let red = ColourCode::new(Colour::Red, Colour::Blue);
    p.set_colour_code(red);
    assert_eq!(p.colour_code(), red);
    p.print_string("b");
    assert_eq!(p.char_at(BUFFER_HEIGHT - 1, 0).colour_code, ColourCode::new(Colour::White, Colour::Black));
    assert_eq!(p.char_at(BUFFER_HEIGHT - 1, 1), RenderedChar { ascii_char: b'b', colour_code: red });
}

#[test]
fn line_break_puts_cursor_on_last_row() {
    let mut p = Printer::new();
    assert_eq!(p.cursor_y(), 0);
    p.print_string("\n");
    assert_eq!(p.cursor_y(), BUFFER_HEIGHT - 1);
    assert_eq!(p.cursor_x(), 0);
    for _ in 0..30 {
        p.print_string("ab\n");
    }
    assert_eq!(p.cursor_y(), BUFFER_HEIGHT - 1);
    let mut q = Printer::new();
    let line: String = std::iter::repeat('z').take(BUFFER_WIDTH + 1).collect();
    q.print_string(&line);
    assert_eq!(q.cursor_y(), BUFFER_HEIGHT - 1);
    assert_eq!(q.cursor_x(), 1);
}

#[test]
fn new_screen_is_blank() {
    let p = Printer::new();
    for r in 0..BUFFER_HEIGHT {
        for c in 0..BUFFER_WIDTH {
            assert_eq!(p.char_at(r, c), blank());
        }
    }
}

#[test]
fn colour_code_packs_nibbles() {
    assert_eq!(ColourCode::new(Colour::Yellow, Colour::Black).code, 0x0e);
    assert_eq!(ColourCode::new(Colour::White, Colour::Blue).code, 0x1f);
    let c = ColourCode::new(Colour::LightGreen, Colour::Brown);
    assert_eq!(c.code, 0x6a);
    assert_eq!(c.foreground(), 10);
    assert_eq!(c.background(), 6);
    assert_eq!(Colour::Pink.index(), 13);
}

#[test]
fn same_output_after_enough_lines_whatever_came_before() {
    let mut p1 = Printer::new();
    let mut p2 = Printer::new();
    p1.print_string("some earlier text that wraps ");
    p2.print_string("\n\nother\u{1}");
    let tail: String = (0..BUFFER_HEIGHT).map(|i| format!("row {}\n", i)).collect();
    p1.print_string(&tail);
    p2.print_string(&tail);
    assert_eq!(p1.cursor_x(), p2.cursor_x());
    assert_eq!(p1.cursor_y(), p2.cursor_y());
    for r in 0..BUFFER_HEIGHT {
        for c in 0..BUFFER_WIDTH {
            assert_eq!(p1.char_at(r, c), p2.char_at(r, c));
        }
    }
}

#[test]
fn screen_of_line_breaks_clears_everything() {
    let mut p = Printer::new();
    let text: String = std::iter::repeat('k').take(BUFFER_HEIGHT * BUFFER_WIDTH).collect();
    p.print_string(&text);
    let breaks: String = std::iter::repeat('\n').take(BUFFER_HEIGHT).collect();
    p.print_string(&breaks);
    for r in 0..BUFFER_HEIGHT {
        for c in 0..BUFFER_WIDTH {
            assert_eq!(p.char_at(r, c), blank());
        }
    }
}
