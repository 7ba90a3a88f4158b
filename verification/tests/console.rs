use lib::process::Fault;
use lib::{
    kint_zero, easy_print_line, erase_whole_screen, panic_status, putc, set_attr_char, set_logo, show_fault, show_pid,
    unwind_status, update_status_line, Console,
};

fn text_at(c: &Console, row: usize, col: usize, len: usize) -> String {
    (0..len).map(|k| c.cells[row * 80 + col + k].1 as char).collect()
}

#[test]
fn new_console_is_blank() {
    let c = Console::new();
    assert_eq!(c.cursor, (0, 0));
    assert!(c.cells.iter().all(|&cell| cell == (0x0f, b' ')));
    assert!(c.status_line.iter().all(|&s| s == (0x70, '#')));
}

#[test]
fn set_attr_char_writes_one_cell() {
    let mut c = Console::new();
    set_attr_char(&mut c, (0x1e, 'x'), (2, 5));
    assert_eq!(c.cells[2 * 80 + 5], (0x1e, b'x'));
    assert_eq!(c.cells[2 * 80 + 4], (0x0f, b' '));
}

#[test]
fn set_attr_char_keeps_low_byte_of_char() {
    let mut c = Console::new();
    set_attr_char(&mut c, (0x07, '\u{141}'), (0, 0));
    assert_eq!(c.cells[0], (0x07, 0x41));
}

#[test]
fn easy_print_line_fills_rest_of_row() {
    let mut c = Console::new();
    c.cells[3 * 80 + 70] = (0x11, b'z');
    c.cells[4 * 80] = (0x11, b'q');
    easy_print_line(&mut c, 3, "hello", 0x4f);
    assert_eq!(text_at(&c, 3, 0, 5), "hello");
    for col in 0..80 {
        assert_eq!(c.cells[3 * 80 + col].0, 0x4f);
    }
    assert_eq!(c.cells[3 * 80 + 70], (0x4f, b' '));
    assert_eq!(c.cells[4 * 80], (0x11, b'q'));
}

#[test]
fn easy_print_line_row_taken_as_byte() {
    let mut c = Console::new();
    easy_print_line(&mut c, 258, "ab", 0x2f);
    assert_eq!(text_at(&c, 2, 0, 2), "ab");
}

#[test]
fn easy_print_line_long_text_runs_into_next_row() {
    let mut c = Console::new();
    let text: String = std::iter::repeat('k').take(100).collect();
    easy_print_line(&mut c, 5, &text, 0x30);
    assert_eq!(c.cells[6 * 80 + 19], (0x30, b'k'));
    assert_eq!(c.cells[6 * 80 + 20], (0x0f, b' '));
}

#[test]
fn erase_whole_screen_clears_status_row() {
    let mut c = Console::new();
    update_status_line(&mut c);
    assert_eq!(c.cells[24 * 80], (0x70, b'#'));
    erase_whole_screen(&mut c);
    assert!(c.cells.iter().all(|&cell| cell == (0x0f, b' ')));
}

#[test]
fn putc_prints_and_advances() {
    let mut c = Console::new();
    putc(&mut c, (0x1f, 'a'));
    putc(&mut c, (0x1f, 'b'));
    assert_eq!(c.cursor, (0, 2));
    assert_eq!(c.cells[0], (0x1f, b'a'));
    assert_eq!(c.cells[1], (0x1f, b'b'));
}

#[test]
fn putc_wraps_at_end_of_row() {
    let mut c = Console::new();
    c.cursor = (4, 79);
    putc(&mut c, (0x1f, 'z'));
    assert_eq!(c.cells[4 * 80 + 79], (0x1f, b'z'));
    assert_eq!(c.cursor, (5, 0));
}

#[test]
fn putc_tab_advances_eight() {
    let mut c = Console::new();
    putc(&mut c, (0, '\t'));
    assert_eq!(c.cursor, (0, 8));
    c.cursor = (2, 75);
    putc(&mut c, (0, '\t'));
    assert_eq!(c.cursor, (3, 3));
}

#[test]
fn putc_newline_skips_status_line() {
    let mut c = Console::new();
    c.cursor = (22, 7);
    putc(&mut c, (0, '\n'));
    assert_eq!(c.cursor, (23, 7));
    putc(&mut c, (0, '\n'));
    assert_eq!(c.cursor, (0, 7));
}

#[test]
fn putc_carriage_return() {
    let mut c = Console::new();
    c.cursor = (9, 40);
    putc(&mut c, (0, '\r'));
    assert_eq!(c.cursor, (9, 0));
}

#[test]
fn putc_last_cell_wraps_to_top() {
    let mut c = Console::new();
    c.cursor = (23, 79);
    putc(&mut c, (0x1f, '!'));
    assert_eq!(c.cells[23 * 80 + 79], (0x1f, b'!'));
    assert_eq!(c.cursor, (0, 0));
}

#[test]
fn putc_cursor_stays_in_text_area() {
    let mut c = Console::new();
    let text = "lorem ipsum\tdolor\r\nsit amet, consectetur adipiscing\telit\n";
    for _ in 0..40 {
        for ch in text.chars() {
            putc(&mut c, (0x07, ch));
            assert!(c.cursor.0 < 24 && c.cursor.1 < 80);
        }
    }
    assert!(c.cells[24 * 80..].iter().all(|&cell| cell == (0x0f, b' ')));
}

#[test]
fn logo_on_status_row() {
    let mut c = Console::new();
    set_logo(&mut c);
    update_status_line(&mut c);
    assert_eq!(text_at(&c, 24, 71, 9), "corrOSion");
    assert_eq!(c.cells[24 * 80 + 71].0, 0xf9);
    assert_eq!(c.cells[24 * 80 + 75].0, 0xfc);
    assert_eq!(c.cells[24 * 80 + 76].0, 0xfc);
    assert_eq!(c.cells[24 * 80 + 70], (0x70, b'#'));
}

#[test]
fn panic_banner() {
    let mut c = Console::new();
    panic_status(&mut c);
    assert_eq!(text_at(&c, 24, 0, 6), "PANIC#");
    assert_eq!(c.cells[24 * 80].0, 0x4f);
    assert_eq!(c.status_line[0], (0x4f, 'P'));
}

#[test]
fn unwind_banner() {
    let mut c = Console::new();
    unwind_status(&mut c);
    assert_eq!(text_at(&c, 24, 0, 7), "UNWIND#");
}

#[test]
fn fault_messages() {
    let cases = [
        (Fault::UninitializedProcess, 1, "Cant dispatch uninicialized process", 0x4f),
        (Fault::BlockedProcess, 1, "Cant dispatch blocked process", 0x4f),
        (Fault::NoProcessRunning, 1, "Cant dispatch off E:No process is running", 0x4f),
        (Fault::UnknownSyscall, 1, "Unknown syscall", 0x4f),
        (Fault::NothingToRun, 0, "No process ready...   ...waiting", 0x2f),
    ];
    for (f, row, msg, attr) in cases {
        let mut c = Console::new();
        show_fault(&mut c, f);
        assert_eq!(text_at(&c, row, 0, msg.len()), msg);
        assert_eq!(c.cells[row * 80 + 79], (attr, b' '));
    }
}

#[test]
fn pid_digit() {
    let mut c = Console::new();
    show_pid(&mut c, 4, 7, 0xc8);
    assert_eq!(c.cells[4 * 80], (0xc8, b'7'));
}

#[test]
fn kint_zero_message() {
    let mut c = Console::new();
    kint_zero(&mut c);
    assert_eq!(text_at(&c, 0, 0, 9), "kint_zero");
    assert_eq!(c.cells[0].0, 0xf4);
    assert_eq!(c.cells[79], (0xf4, b' '));
}
