use vstd::prelude::*;

use crate::idt::{table_limit, IdtDescriptor, IdtEntry};
use crate::memory::{alloc_fits, dir_table_addr, frame_addr, super_dir_writes, MemoryWrite, DIR_TABLE_SPAN};
use crate::process::{
    sched_state, apt_loaded, create_prcess, created_pcb, dispatch_off, dispatch_off_post, load_apt, CodeCopy, Fault, Kernel,
    Outcome, PROGRAM_COPY_WORDS,
};
use crate::scheduler::{reschedule, schedule_post};
use crate::syscall::{
    acquire_has_room, handle_syscall, syscall_post, syscall_traces, SyscallEffect, MUTEX_COUNT, SYSCALL_ACQUIRE, SYSCALL_ALLOC,
    SYSCALL_RELEASE,
};

pub mod consistency;
pub mod idt;
pub mod memory;
pub mod process;
pub mod programs;
pub mod scheduler;
pub mod syscall;

verus! {

/// Columns of the VGA text screen.
pub const COLS: u8 = 80;

/// Rows of the VGA text screen; the last one is the kernel status line.
pub const ROWS: u8 = 25;

/// Cells of the VGA text screen (`ROWS * COLS`).
pub const SCREEN_CELLS: usize = 2000;

/// Columns a tab advances the cursor by.
pub const TAB_SIZE: u8 = 8;

/// The row that holds the kernel status line.
pub const STATUS_ROW: u8 = 24;

/// The VGA text screen as the kernel drives it: the character cells (attribute
/// byte, character byte) in row-major order, the output cursor, and the status
/// line that is copied into the last row.
pub struct Console {
    pub cells: [(u8, u8); 2000],
    pub cursor: (u8, u8),
    pub status_line: [(u8, char); 80],
}

/// Index of the cell at `(row, col)`; a column past the end of a row reaches
/// into the following rows, as the linear text buffer does.
pub open spec fn cell_index(row: int, col: int) -> int {
    row * COLS + col
}

/// The cell that shows character `c` with attribute `attr` (the character is
/// stored as its low byte).
pub open spec fn text_cell(attr: u8, c: char) -> (u8, u8) {
    (attr, c as u8)
}

/// `cells` with `vals` written from index `start` on.
pub open spec fn painted(cells: Seq<(u8, u8)>, start: int, vals: Seq<(u8, u8)>) -> Seq<(u8, u8)> {
    Seq::new(
        cells.len(),
        |k: int|
            if start <= k < start + vals.len() {
                vals[k - start]
            } else {
                cells[k]
            },
    )
}

/// What `easy_print_line` writes from the start of its row: the text, then
/// spaces up to the end of the row.
pub open spec fn line_cells(text: Seq<char>, attr: u8) -> Seq<(u8, u8)> {
    Seq::new(
        if text.len() < COLS { COLS as nat } else { text.len() },
        |k: int|
            if k < text.len() {
                text_cell(attr, text[k])
            } else {
                text_cell(attr, ' ')
            },
    )
}

/// The cursor after a line feed: one row down, skipping the status line by
/// wrapping to the top.
pub open spec fn line_feed(cursor: (u8, u8)) -> (u8, u8) {
    if cursor.0 + 1 == STATUS_ROW {
        (0, cursor.1)
    } else {
        ((cursor.0 + 1) as u8, cursor.1)
    }
}

/// Whether `putc` treats `c` as a control character rather than printing it.
pub open spec fn is_control(c: char) -> bool {
    c == '\t' || c == '\r' || c == '\n'
}

/// The cursor after `putc` of the character `c`.
pub open spec fn cursor_after(cursor: (u8, u8), c: char) -> (u8, u8) {
    if c == '\t' {
        if cursor.1 + TAB_SIZE >= COLS {
            (line_feed(cursor).0, (cursor.1 + TAB_SIZE - COLS) as u8)
        } else {
            (cursor.0, (cursor.1 + TAB_SIZE) as u8)
        }
    } else if c == '\r' {
        (cursor.0, 0)
    } else if c == '\n' {
        line_feed(cursor)
    } else if cursor.1 + 1 == COLS {
        (line_feed(cursor).0, 0)
    } else {
        (cursor.0, (cursor.1 + 1) as u8)
    }
}

/// The status line as it shows in the last row.
pub open spec fn status_cells(status: Seq<(u8, char)>) -> Seq<(u8, u8)> {
    Seq::new(status.len(), |k: int| text_cell(status[k].0, status[k].1))
}

/// The status line after `set_logo`: the project's name in its last nine cells.
pub open spec fn logo_status(status: Seq<(u8, char)>) -> Seq<(u8, char)> {
    status.update(71, (0xf9u8, 'c')).update(72, (0xf9u8, 'o')).update(73, (0xf9u8, 'r')).update(
        74,
        (0xf9u8, 'r'),
    ).update(75, (0xfcu8, 'O')).update(76, (0xfcu8, 'S')).update(77, (0xf9u8, 'i')).update(
        78,
        (0xf9u8, 'o'),
    ).update(79, (0xf9u8, 'n'))
}

impl Console {
    /// The cursor lies in the text area: above the status line, inside a row.
    pub open spec fn wf(&self) -> bool {
        self.cursor.0 < STATUS_ROW && self.cursor.1 < COLS
    }

    /// A blank screen with the cursor at the top left and a status line of `#`.
    pub fn new() -> (c: Console)
        ensures
            c.wf(),
            c.cursor == (0u8, 0u8),
            forall|k: int| 0 <= k < SCREEN_CELLS ==> #[trigger] c.cells@[k] == text_cell(0x0f, ' '),
            forall|k: int| 0 <= k < COLS ==> #[trigger] c.status_line@[k] == (0x70u8, '#'),
    {
        Console { cells: [(0x0f, 32); 2000], cursor: (0, 0), status_line: [(0x70, '#'); 80] }
    }
}

/// Writes character `ac.1` with attribute `ac.0` into the cell at `position`.
pub fn set_attr_char(console: &mut Console, ac: (u8, char), position: (u8, u8))
    requires
        cell_index(position.0 as int, position.1 as int) < SCREEN_CELLS,
    ensures
        final(console).cells@ == old(console).cells@.update(
            cell_index(position.0 as int, position.1 as int),
            text_cell(ac.0, ac.1),
        ),
        final(console).cursor == old(console).cursor,
        final(console).status_line == old(console).status_line,
{
    let (attr, character) = ac;
    let (row, col) = position;
    let idx: usize = row as usize * 80 + col as usize;
    console.cells[idx] = (attr, character as u8);
}


/// Prints `text` with attribute `attr` at the start of row `line` (taken modulo
/// 256, as a byte) and fills the rest of that row with spaces.
pub fn easy_print_line(console: &mut Console, line: i32, text: &str, attr: u8)
    requires
        text@.len() <= 255,
        cell_index(line as u8 as int, line_cells(text@, attr).len() as int) <= SCREEN_CELLS,
    ensures
        final(console).cells@ == painted(
            old(console).cells@,
            cell_index(line as u8 as int, 0),
            line_cells(text@, attr),
        ),
        final(console).cursor == old(console).cursor,
        final(console).status_line == old(console).status_line,
{
    let ghost start = cell_index(line as u8 as int, 0);
    let ghost vals = line_cells(text@, attr);
    let ghost old_cells = console.cells@;
    let line: u8 = line as u8;
    let mut i: u8 = 0;
    assert(console.cells@ =~= painted(old_cells, start, vals.take(0)));
    for character in it: text.chars()
        invariant
            i == it.index(),
            it.seq() == text@,
            text@.len() <= 255,
            start == cell_index(line as int, 0),
            vals == line_cells(text@, attr),
            start + vals.len() <= SCREEN_CELLS,
            console.cells@ == painted(old_cells, start, vals.take(i as int)),
            console.cursor == old(console).cursor,
            console.status_line == old(console).status_line,
    {
        set_attr_char(console, (attr, character), (line, i));
        assert(console.cells@ =~= painted(old_cells, start, vals.take(i + 1)));
        i += 1;
    }
    while i < COLS
        invariant
            text@.len() <= i <= vals.len(),
            start == cell_index(line as int, 0),
            vals == line_cells(text@, attr),
            start + vals.len() <= SCREEN_CELLS,
            console.cells@ == painted(old_cells, start, vals.take(i as int)),
            console.cursor == old(console).cursor,
            console.status_line == old(console).status_line,
        decreases COLS - i,
    {
        set_attr_char(console, (attr, ' '), (line, i));
        assert(console.cells@ =~= painted(old_cells, start, vals.take(i + 1)));
        i += 1;
    }
    assert(vals.take(i as int) =~= vals);
}

/// Clears every cell of the screen, status line included, to a space on
/// white-on-black.
pub fn erase_whole_screen(console: &mut Console)
    ensures
        forall|k: int| 0 <= k < SCREEN_CELLS ==> #[trigger] final(console).cells@[k] == text_cell(0x0f, ' '),
        final(console).cursor == old(console).cursor,
        final(console).status_line == old(console).status_line,
{
    for row in 0..ROWS
        invariant
            forall|k: int| 0 <= k < cell_index(row as int, 0) ==> #[trigger] console.cells@[k] == text_cell(0x0f, ' '),
            console.cursor == old(console).cursor,
            console.status_line == old(console).status_line,
    {
        for col in 0..COLS
            invariant
                row < ROWS,
                forall|k: int| 0 <= k < cell_index(row as int, col as int) ==> #[trigger] console.cells@[k] == text_cell(0x0f, ' '),
                console.cursor == old(console).cursor,
                console.status_line == old(console).status_line,
        {
            set_attr_char(console, (0x0f, ' '), (row, col));
        }
    }
}

/// Writes `ac` at the cursor and moves the cursor on: a tab advances eight
/// columns, a carriage return goes to column 0, a line feed goes one row down
/// (wrapping to the top instead of entering the status line), and a character
/// that fills the last column starts a new line.
pub fn putc(console: &mut Console, ac: (u8, char))
    requires
        old(console).cursor.0 < STATUS_ROW,
        ac.1 == '\n' || ac.1 == '\r' || old(console).cursor.1 < COLS,
    ensures
        final(console).cursor == cursor_after(old(console).cursor, ac.1),
        final(console).cells@ == (if is_control(ac.1) {
            old(console).cells@
        } else {
            old(console).cells@.update(
                cell_index(old(console).cursor.0 as int, old(console).cursor.1 as int),
                text_cell(ac.0, ac.1),
            )
        }),
        final(console).status_line == old(console).status_line,
        old(console).wf() ==> final(console).wf(),
    decreases (if ac.1 == '\n' || ac.1 == '\r' { 0int } else { 1int }),
{
    let (_, character) = ac;
    let (row, col) = console.cursor;
    if character == '\t' {
        console.cursor = (row, col + TAB_SIZE);
        if col + TAB_SIZE >= COLS {
            putc(console, (0, '\n'));
            let (row, _) = console.cursor;
            console.cursor = (row, col + TAB_SIZE - COLS);
        }
    } else if character == '\r' {
        console.cursor = (row, 0);
    } else if character == '\n' {
        console.cursor = (row + 1, col);
        if row + 1 == ROWS - 1 {
            console.cursor = (0, col);
        }
    } else {
        set_attr_char(console, ac, console.cursor);
        console.cursor = (row, col + 1);
        if col + 1 == COLS {
            putc(console, (0, '\n'));
            putc(console, (0, '\r'));
        }
    }
}

/// Where `putc` leaves a cursor inside the text area, written out per
/// character: a tab moves eight columns right, to the next line when that
/// passes the end of the row; a carriage return goes to column 0; a line feed
/// goes one row down in the same column, from the last text row back to the
/// top; any other character moves one column right, or to the start of the
/// next line from the last column. The cursor stays in the text area.
pub proof fn lemma_putc_cursor(cursor: (u8, u8), c: char)
    requires
        cursor.0 < STATUS_ROW,
        cursor.1 < COLS,
    ensures
        ({
            let next_row: int = if cursor.0 == 23 { 0 } else { cursor.0 + 1 };
            let after = cursor_after(cursor, c);
            &&& c == '\t' && cursor.1 + 8 < 80 ==> after.0 == cursor.0 && after.1 == cursor.1 + 8
            &&& c == '\t' && cursor.1 + 8 >= 80 ==> after.0 == next_row && after.1 == cursor.1 + 8 - 80
            &&& c == '\r' ==> after.0 == cursor.0 && after.1 == 0
            &&& c == '\n' ==> after.0 == next_row && after.1 == cursor.1
            &&& c != '\t' && c != '\r' && c != '\n' && cursor.1 == 79 ==> after.0 == next_row && after.1 == 0
            &&& c != '\t' && c != '\r' && c != '\n' && cursor.1 < 79 ==> after.0 == cursor.0 && after.1
                == cursor.1 + 1
            &&& after.0 < 24 && after.1 < 80
        }),
{
}

/// Copies the status line into the last row of the screen.
pub fn update_status_line(console: &mut Console)
    ensures
        final(console).cells@ == painted(
            old(console).cells@,
            cell_index(STATUS_ROW as int, 0),
            status_cells(old(console).status_line@),
        ),
        final(console).cursor == old(console).cursor,
        final(console).status_line == old(console).status_line,
{
    let ghost start = cell_index(STATUS_ROW as int, 0);
    let ghost vals = status_cells(console.status_line@);
    let ghost old_cells = console.cells@;
    assert(console.cells@ =~= painted(old_cells, start, vals.take(0)));
    for col in 0..COLS
        invariant
            start == cell_index(STATUS_ROW as int, 0),
            vals == status_cells(old(console).status_line@),
            console.cells@ == painted(old_cells, start, vals.take(col as int)),
            console.cursor == old(console).cursor,
            console.status_line == old(console).status_line,
    {
        let ac = console.status_line[col as usize];
        set_attr_char(console, ac, (STATUS_ROW, col));
        assert(console.cells@ =~= painted(old_cells, start, vals.take(col + 1)));
    }
    assert(vals.take(COLS as int) =~= vals);
}

/// Puts the project's name, in blue and red on white, at the right end of the
/// status line.
pub fn set_logo(console: &mut Console)
    ensures
        final(console).status_line@ == logo_status(old(console).status_line@),
        final(console).cells == old(console).cells,
        final(console).cursor == old(console).cursor,
{
    let bg: u8 = 0xf0;
    let red: u8 = 0x0C;
    let blue: u8 = 0x09;
    assert(bg | blue == 0xf9u8 && bg | red == 0xfcu8) by (bit_vector)
        requires bg == 0xf0u8 && red == 0x0Cu8 && blue == 0x09u8;
    console.status_line[(COLS - 9) as usize] = (bg | blue, 'c');
    console.status_line[(COLS - 8) as usize] = (bg | blue, 'o');
    console.status_line[(COLS - 7) as usize] = (bg | blue, 'r');
    console.status_line[(COLS - 6) as usize] = (bg | blue, 'r');
    console.status_line[(COLS - 5) as usize] = (bg | red, 'O');
    console.status_line[(COLS - 4) as usize] = (bg | red, 'S');
    console.status_line[(COLS - 3) as usize] = (bg | blue, 'i');
    console.status_line[(COLS - 2) as usize] = (bg | blue, 'o');
    console.status_line[(COLS - 1) as usize] = (bg | blue, 'n');
}

/// The status line with `text` written from its first cell in attribute `attr`.
pub open spec fn banner_status(status: Seq<(u8, char)>, text: Seq<char>, attr: u8) -> Seq<(u8, char)> {
    Seq::new(status.len(), |k: int| if k < text.len() { (attr, text[k]) } else { status[k] })
}

/// Shows PANIC, white on red, at the start of the status line and puts the
/// status line on the screen.
pub fn panic_status(console: &mut Console)
    ensures
        final(console).status_line@ == banner_status(old(console).status_line@, seq!['P', 'A', 'N', 'I', 'C'], 0x4f),
        final(console).cells@ == painted(
            old(console).cells@,
            cell_index(STATUS_ROW as int, 0),
            status_cells(final(console).status_line@),
        ),
        final(console).cursor == old(console).cursor,
{
    let bg: u8 = 0x40;
    let red: u8 = 0x0f;
    assert(bg | red == 0x4fu8) by (bit_vector)
        requires bg == 0x40u8 && red == 0x0fu8;
    console.status_line[0] = (bg | red, 'P');
    console.status_line[1] = (bg | red, 'A');
    console.status_line[2] = (bg | red, 'N');
    console.status_line[3] = (bg | red, 'I');
    console.status_line[4] = (bg | red, 'C');
    assert(console.status_line@ =~= banner_status(old(console).status_line@, seq!['P', 'A', 'N', 'I', 'C'], 0x4f));
    update_status_line(console);
}

/// Shows UNWIND, white on red, at the start of the status line and puts the
/// status line on the screen.
pub fn unwind_status(console: &mut Console)
    ensures
        final(console).status_line@ == banner_status(
            old(console).status_line@,
            seq!['U', 'N', 'W', 'I', 'N', 'D'],
            0x4f,
        ),
        final(console).cells@ == painted(
            old(console).cells@,
            cell_index(STATUS_ROW as int, 0),
            status_cells(final(console).status_line@),
        ),
        final(console).cursor == old(console).cursor,
{
    let bg: u8 = 0x40;
    let red: u8 = 0x0f;
    assert(bg | red == 0x4fu8) by (bit_vector)
        requires bg == 0x40u8 && red == 0x0fu8;
    console.status_line[0] = (bg | red, 'U');
    console.status_line[1] = (bg | red, 'N');
    console.status_line[2] = (bg | red, 'W');
    console.status_line[3] = (bg | red, 'I');
    console.status_line[4] = (bg | red, 'N');
    console.status_line[5] = (bg | red, 'D');
    assert(console.status_line@ =~= banner_status(
        old(console).status_line@,
        seq!['U', 'N', 'W', 'I', 'N', 'D'],
        0x4f,
    ));
    update_status_line(console);
}

/// Shows the digit of process `pid` in the first cell of row `line`, as the
/// kernel's trace lines do.
pub fn show_pid(console: &mut Console, line: u8, pid: u32, attr: u8)
    requires
        line < ROWS,
        pid < 10,
    ensures
        final(console).cells@ == old(console).cells@.update(cell_index(line as int, 0), (attr, (48 + pid) as u8)),
        final(console).cursor == old(console).cursor,
        final(console).status_line == old(console).status_line,
{
    let idx: usize = line as usize * 80;
    console.cells[idx] = (attr, '0' as u8 + pid as u8);
}

/// What the handler of interrupt 0 shows: its name on the top row, yellow on red.
pub fn kint_zero(console: &mut Console)
    ensures
        final(console).cells@ == painted(old(console).cells@, 0, line_cells("kint_zero"@, 0xf4)),
        final(console).cursor == old(console).cursor,
        final(console).status_line == old(console).status_line,
{
    proof {
        reveal_strlit("kint_zero");
    }
    easy_print_line(console, 0, "kint_zero", 0xf4);
}

/// The message the kernel prints when it stops for `f`.
pub open spec fn fault_text(f: Fault) -> Seq<char> {
    match f {
        Fault::UninitializedProcess => "Cant dispatch uninicialized process"@,
        Fault::BlockedProcess => "Cant dispatch blocked process"@,
        Fault::NoProcessRunning => "Cant dispatch off E:No process is running"@,
        Fault::UnknownSyscall => "Unknown syscall"@,
        Fault::NothingToRun => "No process ready...   ...waiting"@,
    }
}

/// The row the message for `f` goes to.
pub open spec fn fault_row(f: Fault) -> int {
    if f == Fault::NothingToRun { 0 } else { 1 }
}

/// The attribute of the message for `f`: white on green when idle, white on red otherwise.
pub open spec fn fault_attr(f: Fault) -> u8 {
    if f == Fault::NothingToRun { 0x2f } else { 0x4f }
}

/// The screen `cells` with the message for `f` on its row.
pub open spec fn fault_cells(cells: Seq<(u8, u8)>, f: Fault) -> Seq<(u8, u8)> {
    painted(cells, cell_index(fault_row(f), 0), line_cells(fault_text(f), fault_attr(f)))
}

/// The screen `cells` after one of the kernel's trace lines on row `row`:
/// `text` in attribute `attr` on that row taken as a byte, then the digit of
/// process `pid` in the row's first cell. A write that would fall outside the
/// screen is not shown.
pub open spec fn traced(cells: Seq<(u8, u8)>, row: int, text: Seq<char>, attr: u8, pid: u32) -> Seq<(u8, u8)> {
    let printed = if (row as u8) < ROWS {
        painted(cells, cell_index(row as u8 as int, 0), line_cells(text, attr))
    } else {
        cells
    };
    if 0 <= row < ROWS {
        printed.update(cell_index(row as int, 0), (0xc8u8, (48 + pid) as u8))
    } else {
        printed
    }
}

/// The screen `cells` after a syscall handler's trace line on row `row`:
/// `text` in yellow on white, then the digit of process `pid` in white on
/// blue in the row's first cell.
pub open spec fn handler_traced(cells: Seq<(u8, u8)>, row: int, text: Seq<char>, pid: u32) -> Seq<(u8, u8)> {
    painted(cells, cell_index(row, 0), line_cells(text, 0xf3)).update(cell_index(row, 0), (0x1fu8, (48 + pid) as u8))
}

/// Prints one of the kernel's trace lines: `text` on row `row` and the digit
/// of process `pid` at its start; what falls outside the screen is not shown.
pub fn trace(console: &mut Console, row: i32, text: &str, attr: u8, pid: u32)
    requires
        text@.len() <= COLS,
        pid < 10,
    ensures
        final(console).cells@ == traced(old(console).cells@, row as int, text@, attr, pid),
        final(console).cursor == old(console).cursor,
        final(console).status_line == old(console).status_line,
{
    if (row as u8) < ROWS {
        easy_print_line(console, row, text, attr);
    }
    if 0 <= row && row < ROWS as i32 {
        show_pid(console, row as u8, pid, 0xc8);
    }
}

/// Prints a syscall handler's trace line: `text` on row `row` and the digit
/// of process `pid` at its start.
pub fn handler_trace(console: &mut Console, row: u8, text: &str, pid: u32)
    requires
        row < ROWS,
        text@.len() <= COLS,
        pid < 10,
    ensures
        final(console).cells@ == handler_traced(old(console).cells@, row as int, text@, pid),
        final(console).cursor == old(console).cursor,
        final(console).status_line == old(console).status_line,
{
    easy_print_line(console, row as i32, text, 0xf3);
    show_pid(console, row, pid, 0x1f);
}

/// Prints the message for `f` on its row, as the kernel does before it spins.
pub fn show_fault(console: &mut Console, f: Fault)
    ensures
        final(console).cells@ == fault_cells(old(console).cells@, f),
        final(console).cursor == old(console).cursor,
        final(console).status_line == old(console).status_line,
{
    proof {
        reveal_strlit("Cant dispatch uninicialized process");
        reveal_strlit("Cant dispatch blocked process");
        reveal_strlit("Cant dispatch off E:No process is running");
        reveal_strlit("Unknown syscall");
        reveal_strlit("No process ready...   ...waiting");
    }
    match f {
        Fault::UninitializedProcess => easy_print_line(console, 1, "Cant dispatch uninicialized process", 0x4f),
        Fault::BlockedProcess => easy_print_line(console, 1, "Cant dispatch blocked process", 0x4f),
        Fault::NoProcessRunning => easy_print_line(console, 1, "Cant dispatch off E:No process is running", 0x4f),
        Fault::UnknownSyscall => easy_print_line(console, 1, "Unknown syscall", 0x4f),
        Fault::NothingToRun => easy_print_line(console, 0, "No process ready...   ...waiting", 0x2f),
    }
}

/// The kernel's answer to a process that entered it from the `sysenter` at
/// `user_ip` with stack pointer `user_sp`, syscall number `number` (r13) and
/// argument `arg` (r12), with kernel `old`, screen `oc` and status line
/// `status`: the status line is shown, the process is taken off the
/// processor, then its syscall is handled in the kernel's page table, giving
/// kernel `new` and screen `nc`.
pub open spec fn kentry_post(
    old: Kernel,
    oc: Seq<(u8, u8)>,
    status: Seq<(u8, char)>,
    new: Kernel,
    nc: Seq<(u8, u8)>,
    user_ip: u64,
    user_sp: u64,
    number: u64,
    arg: u64,
    eff: SyscallEffect,
) -> bool {
    let shown = painted(oc, cell_index(STATUS_ROW as int, 0), status_cells(status));
    if old.kcb.current_process == crate::process::NO_PROCESS_RUNNING {
        &&& eff == (SyscallEffect { reply: None, page_write: None, outcome: Outcome::Halt(Fault::NoProcessRunning) })
        &&& new == old
        &&& nc == fault_cells(shown, Fault::NoProcessRunning)
    } else {
        exists|mid: Kernel|
            {
                &&& dispatch_off_post(
                    sched_state(old, shown),
                    sched_state(mid, shown),
                    user_ip,
                    user_sp,
                    Ok((old.kcb.current_process, old.kcb.page_table_addr)),
                )
                &&& mid.apt == old.apt
                &&& mid.current_alloc_page == old.current_alloc_page
                &&& mid.mutexes == old.mutexes
                &&& #[trigger] syscall_post(mid, shown, new, nc, old.kcb.current_process, number, arg, old.kcb.page_table_addr, eff)
            }
    }
}

/// Entry of the kernel on `sysenter`: refreshes the status line, takes the
/// running process off the processor, switching back to the kernel's page
/// table, and handles its syscall there.
pub fn kentry(
    kernel: &mut Kernel,
    console: &mut Console,
    user_ip: u64,
    user_sp: u64,
    number: u64,
    arg: u64,
) -> (eff: SyscallEffect)
    requires
        old(kernel).wf(),
        old(kernel).kcb.current_process != crate::process::NO_PROCESS_RUNNING ==> {
            let pid = old(kernel).kcb.current_process;
            &&& number == SYSCALL_ALLOC ==> alloc_fits(*old(kernel), pid, old(kernel).kcb.page_table_addr)
            &&& number == SYSCALL_ACQUIRE || number == SYSCALL_RELEASE ==> arg < MUTEX_COUNT
            &&& number == SYSCALL_ACQUIRE ==> acquire_has_room(*old(kernel), pid, arg as int)
            &&& old(kernel).trace_room(syscall_traces(number))
        },
    ensures
        final(kernel).wf(),
        kentry_post(
            *old(kernel),
            old(console).cells@,
            old(console).status_line@,
            *final(kernel),
            final(console).cells@,
            user_ip,
            user_sp,
            number,
            arg,
            eff,
        ),
        final(console).cursor == old(console).cursor,
        final(console).status_line == old(console).status_line,
{
    update_status_line(console);
    let ghost shown = console.cells@;
    match dispatch_off(kernel, console, user_ip, user_sp) {
        Err(f) => SyscallEffect { reply: None, page_write: None, outcome: Outcome::Halt(f) },
        Ok((pid, kernel_table)) => {
            let ghost mid = *kernel;
            // the kernel runs in its own page table again: CR3 reads `kernel_table`
            let eff = handle_syscall(kernel, console, pid, number, arg, kernel_table);
            assert(syscall_post(mid, shown, *kernel, console.cells@, pid, number, arg, kernel_table, eff));
            assert(dispatch_off_post(
                sched_state(*old(kernel), shown),
                sched_state(mid, shown),
                user_ip,
                user_sp,
                Ok((old(kernel).kcb.current_process, old(kernel).kcb.page_table_addr)),
            ));
            eff
        },
    }
}

/// What booting leaves for the machine to do, in order: the stores that
/// build the page tables, the copies of program code, and the first switch to
/// a process (or the fault that stops the kernel).
pub struct BootPlan {
    pub page_writes: Vec<MemoryWrite>,
    pub code_copies: Vec<CodeCopy>,
    pub outcome: Outcome,
}

/// A screen of blank cells, white on black.
pub open spec fn blank_cells() -> Seq<(u8, u8)> {
    Seq::new(SCREEN_CELLS as nat, |k: int| text_cell(0x0f, ' '))
}

/// The screen when booting hands over to the scheduler, for a status line
/// `status` before it and the code segment selector `cs` of `sysenter`:
/// blank, with the status line and the logo at the bottom, the boot message
/// on the top row, the selector's digit below it and the program table's
/// message on row 2.
pub open spec fn boot_screen(status: Seq<(u8, char)>, cs: u64) -> Seq<(u8, u8)> {
    painted(
        painted(
            painted(blank_cells(), cell_index(STATUS_ROW as int, 0), status_cells(logo_status(status))),
            0,
            line_cells("kmain ."@, 0x4f),
        ).update(cell_index(1, 0), (0x1f, (cs as u8 + 48) as u8)),
        cell_index(2, 0),
        line_cells("load_apt !"@, 0x2f),
    )
}

/// Boots the kernel: clears the screen and shows the status line with the
/// logo, points interrupt 0 at its handler at `kint_zero_addr` through the
/// code segment `sysenter_cs` and describes the interrupt table at
/// `idt_addr`, registers both programs, creates processes 0 and 1, and lets
/// the scheduler pick the first to run, starting from `boot_screen`.
pub fn kmain(
    kernel: &mut Kernel,
    console: &mut Console,
    idt: &mut [IdtEntry; 256],
    idtr: &mut IdtDescriptor,
    sysenter_cs: u64,
    kint_zero_addr: usize,
    idt_addr: u64,
    program1_entry: u64,
    program2_entry: u64,
    cr3: u64,
) -> (plan: BootPlan)
    requires
        old(kernel).wf(),
        (sysenter_cs as u8) < 208,
        old(kernel).can_allocate(4),
        dir_table_addr(cr3 as int, 1) + DIR_TABLE_SPAN <= u64::MAX,
        old(kernel).trace_room(1),
    ensures
        final(kernel).wf(),
        final(console).status_line@ == logo_status(old(console).status_line@),
        final(console).cursor == old(console).cursor,
        final(idt)@ == old(idt)@.update(0, final(idt)[0]),
        final(idt)[0].selector == sysenter_cs as u16,
        final(idt)[0].handler_address() == kint_zero_addr as int,
        final(idt)[0].attribute == 0b10001110,
        final(idt)[0].zero == old(idt)[0].zero,
        final(idt)[0].zero2 == old(idt)[0].zero2,
        final(idtr).size == table_limit(256),
        final(idtr).offset == idt_addr,
        apt_loaded(old(kernel).apt@, final(kernel).apt@, program1_entry, program2_entry),
        ({
            let c = old(kernel).current_alloc_page as int;
            let t0 = dir_table_addr(cr3 as int, 0) as u64;
            let t1 = dir_table_addr(cr3 as int, 1) as u64;
            let created = old(kernel).pcbs@.update(0, created_pcb(0, t0, frame_addr(c + 1) as u64)).update(
                1,
                created_pcb(1, t1, frame_addr(c + 3) as u64),
            );
            &&& plan.page_writes@ == super_dir_writes(t0, frame_addr(c) as u64, frame_addr(c + 1) as u64)
                + super_dir_writes(t1, frame_addr(c + 2) as u64, frame_addr(c + 3) as u64)
            &&& plan.code_copies@ == seq![
                CodeCopy { src: program1_entry, dst: frame_addr(c + 1) as u64, words: PROGRAM_COPY_WORDS },
                CodeCopy { src: program2_entry, dst: frame_addr(c + 3) as u64, words: PROGRAM_COPY_WORDS },
            ]
            &&& schedule_post(
                (created, old(kernel).kcb, old(kernel).trace_row as int, boot_screen(old(console).status_line@, sysenter_cs)),
                sched_state(*final(kernel), final(console).cells@),
                cr3,
                plan.outcome,
            )
            &&& final(kernel).current_alloc_page == c + 4
        }),
        final(kernel).mutexes == old(kernel).mutexes,
{
    // ATTENTION: the kernel runs on a very small stack with no guard page
    erase_whole_screen(console);
    set_logo(console);
    update_status_line(console);
    proof {
        reveal_strlit("kmain .");
    }
    easy_print_line(console, 0, "kmain .", 0x4f);
    let mut entry = idt[0];
    entry.set_offset(sysenter_cs as u16, kint_zero_addr);
    entry.set_flags(0b10001110);
    idt[0] = entry;
    idtr.set_slice(idt.as_slice(), idt_addr);
    console.cells[80] = (0x1f, sysenter_cs as u8 + '0' as u8);
    load_apt(kernel, console, program1_entry, program2_entry);
    assert(console.cells@ =~= boot_screen(old(console).status_line@, sysenter_cs));
    let (mut page_writes, copy0) = create_prcess(kernel, 0, cr3);
    let (mut second, copy1) = create_prcess(kernel, 1, cr3);
    page_writes.append(&mut second);
    let mut code_copies: Vec<CodeCopy> = Vec::new();
    code_copies.push(copy0);
    code_copies.push(copy1);
    let outcome = reschedule(kernel, console, cr3);
    BootPlan { page_writes, code_copies, outcome }
}

} // verus!
