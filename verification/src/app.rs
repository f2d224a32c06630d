//! The monitor's state and what each key press does to it.
//!
//! The program that uses this library reads the machine, draws the screen
//! and waits for keys; after each refresh it hands the new snapshot to
//! `App::update`, and after each key press it hands the key to
//! `App::handle_key` and carries out the command that comes back.

use vstd::prelude::*;
use crate::system_information::{ProcessInformation, SystemInformation};
use crate::ordering::{is_stable_sort_of, sort_processes};
use crate::filter::{visible_indices, visible_processes};
use crate::table::{next_row, previous_row, select_first, select_last, select_next, select_previous};

verus! {

/// Whether keys drive the monitor or edit the filter line.
#[derive(Clone, Copy, Debug, PartialEq, Eq, Structural)]
pub enum InputMode {
    Normal,
    Editing,
}

/// A key press, as the monitor tells keys apart.
#[derive(Clone, Copy, Debug, PartialEq, Eq, Structural)]
pub enum Key {
    Char(char),
    Esc,
    Up,
    Down,
    Left,
    Right,
    Backspace,
    Enter,
    /// Any other key.
    Other,
}

/// What the program has to carry out after a key press.
#[derive(Clone, Copy, Debug, PartialEq, Eq, Structural)]
pub enum Command {
    Nothing,
    /// Send the kill signal to the process with this identifier.
    Kill(u32),
}

/// The monitor's state.
pub struct App {
    /// The latest snapshot of the machine; its processes are in table order.
    pub system_information: SystemInformation,
    pub should_quit: bool,
    /// Whether each new snapshot is sorted (it is not while the filter is
    /// being typed).
    pub should_sort: bool,
    /// Sort by CPU usage (else by memory).
    pub sort_by_cpu: bool,
    /// The selected row of the process table.
    pub selected: Option<usize>,
    /// The filter line being typed.
    pub input: Vec<char>,
    /// The cursor in the filter line, as a character position.
    pub character_index: usize,
    pub input_mode: InputMode,
    /// The filter in force: processes whose name contains it are shown.
    pub messages: Vec<char>,
}

/// The part of the state that key presses act on.
pub struct AppView {
    pub should_quit: bool,
    pub should_sort: bool,
    pub sort_by_cpu: bool,
    pub selected: Option<usize>,
    pub input: Seq<char>,
    pub character_index: usize,
    pub input_mode: InputMode,
    pub messages: Seq<char>,
}

impl View for App {
    type V = AppView;

    open spec fn view(&self) -> AppView {
        AppView {
            should_quit: self.should_quit,
            should_sort: self.should_sort,
            sort_by_cpu: self.sort_by_cpu,
            selected: self.selected,
            input: self.input@,
            character_index: self.character_index,
            input_mode: self.input_mode,
            messages: self.messages@,
        }
    }
}

/// `pos`, brought within the filter line (at most its length).
pub open spec fn clamped(v: AppView, pos: int) -> usize {
    if pos <= v.input.len() { pos as usize } else { v.input.len() as usize }
}

/// The cursor moved one character left, staying at `0`.
pub open spec fn cursor_left(v: AppView) -> AppView {
    let moved = if v.character_index == 0 { 0 } else { v.character_index - 1 };
    AppView { character_index: clamped(v, moved), ..v }
}

/// The cursor moved one character right, staying within the line.
pub open spec fn cursor_right(v: AppView) -> AppView {
    let moved = if v.character_index == usize::MAX { v.character_index as int } else { v.character_index + 1 };
    AppView { character_index: clamped(v, moved), ..v }
}

/// The character position at which typing inserts: the cursor, or the end
/// of the line where the cursor lies beyond it.
pub open spec fn insert_position(v: AppView) -> int {
    if v.character_index <= v.input.len() { v.character_index as int } else { v.input.len() as int }
}

/// `c` typed at the cursor, the cursor then moved right.
pub open spec fn with_char(v: AppView, c: char) -> AppView {
    cursor_right(AppView { input: v.input.insert(insert_position(v), c), ..v })
}

/// The line without the character before the cursor: the characters before
/// position `character_index - 1`, then those from `character_index` on.
pub open spec fn line_without_previous(v: AppView) -> Seq<char> {
    let i = v.character_index as int;
    let front = if i - 1 <= v.input.len() { v.input.take(i - 1) } else { v.input };
    let back = if i <= v.input.len() { v.input.skip(i) } else { Seq::empty() };
    front + back
}

/// The character before the cursor deleted, the cursor then moved left;
/// nothing happens with the cursor at the start.
pub open spec fn without_char(v: AppView) -> AppView {
    if v.character_index == 0 {
        v
    } else {
        cursor_left(AppView { input: line_without_previous(v), ..v })
    }
}

/// The typed line becomes the filter in force; the line is emptied and
/// sorting resumes.
pub open spec fn submitted(v: AppView) -> AppView {
    AppView { messages: v.input, input: Seq::empty(), character_index: 0, should_sort: true, ..v }
}

/// Filter typing begins; sorting pauses.
pub open spec fn editing(v: AppView) -> AppView {
    AppView { should_sort: false, input_mode: InputMode::Editing, ..v }
}

/// Filter typing is abandoned: the line is emptied and sorting resumes.
/// The cursor is left where it was.
pub open spec fn escaped(v: AppView) -> AppView {
    AppView { input: Seq::empty(), should_sort: true, input_mode: InputMode::Normal, ..v }
}

/// The filter in force is removed and sorting resumes.
pub open spec fn filter_cleared(v: AppView) -> AppView {
    AppView { messages: Seq::empty(), should_sort: true, ..v }
}

/// The state after the key `key`.
pub open spec fn after_key(v: AppView, key: Key) -> AppView {
    match v.input_mode {
        InputMode::Normal => match key {
            Key::Char('q') | Key::Esc => AppView { should_quit: true, ..v },
            Key::Char('j') | Key::Down => AppView { selected: Some(next_row(v.selected)), ..v },
            Key::Char('k') | Key::Up => AppView { selected: Some(previous_row(v.selected)), ..v },
            Key::Char('g') => AppView { selected: Some(0usize), ..v },
            Key::Char('G') => AppView { selected: Some(usize::MAX), ..v },
            Key::Char('s') => AppView { sort_by_cpu: !v.sort_by_cpu, ..v },
            Key::Char('f') => editing(v),
            Key::Char('c') => filter_cleared(v),
            _ => v,
        },
        InputMode::Editing => match key {
            Key::Enter => submitted(v),
            Key::Char(c) => with_char(v, c),
            Key::Backspace => without_char(v),
            Key::Left => cursor_left(v),
            Key::Right => cursor_right(v),
            Key::Esc => escaped(v),
            _ => v,
        },
    }
}

/// The identifier of the process in the selected row of the table, whose
/// rows are the processes of `ps` that `filter` lets through.
pub open spec fn selected_pid(ps: Seq<ProcessInformation>, filter: Seq<char>, selected: Option<usize>) -> Option<u32> {
    let rows = visible_indices(ps, filter);
    match selected {
        Some(r) => if r < rows.len() { Some(ps[rows[r as int]].pid) } else { None },
        None => None,
    }
}

/// What the program must carry out after `key`: in normal mode, `x` and
/// Backspace kill the process of the selected row, if there is one.
pub open spec fn key_command(v: AppView, ps: Seq<ProcessInformation>, key: Key) -> Command {
    if v.input_mode == InputMode::Normal && (key == Key::Char('x') || key == Key::Backspace) {
        match selected_pid(ps, v.messages, v.selected) {
            Some(pid) => Command::Kill(pid),
            None => Command::Nothing,
        }
    } else {
        Command::Nothing
    }
}

/// The number of bytes that `c` takes in UTF-8.
pub open spec fn utf8_width(c: char) -> nat {
    if (c as u32) < 0x80 { 1 } else if (c as u32) < 0x800 { 2 } else if (c as u32) < 0x10000 { 3 } else { 4 }
}

/// The number of bytes that `s` takes in UTF-8.
pub open spec fn utf8_len(s: Seq<char>) -> nat
    decreases s.len(),
{
    if s.len() == 0 { 0 } else { utf8_len(s.drop_last()) + utf8_width(s.last()) }
}

proof fn lemma_utf8_len_bound(s: Seq<char>)
    ensures
        utf8_len(s) <= 4 * s.len(),
    decreases s.len(),
{
    if s.len() > 0 {
        lemma_utf8_len_bound(s.drop_last());
    }
}

/// The number of bytes that `c` takes in UTF-8.
fn char_width(c: char) -> (w: usize)
    ensures
        w == utf8_width(c),
{
    let v = c as u32;
    if v < 0x80 { 1 } else if v < 0x800 { 2 } else if v < 0x10000 { 3 } else { 4 }
}

impl App {
    /// A monitor showing `system_information` as it comes: normal mode,
    /// sorting by CPU, the first row selected, an empty filter.
    pub fn init(system_information: SystemInformation) -> (app: App)
        ensures
            app.system_information == system_information,
            !app.should_quit,
            app.should_sort,
            app.sort_by_cpu,
            app.selected == Some(0usize),
            app.input@ == Seq::<char>::empty(),
            app.character_index == 0,
            app.input_mode == InputMode::Normal,
            app.messages@ == Seq::<char>::empty(),
    {
        App {
            system_information,
            should_quit: false,
            should_sort: true,
            sort_by_cpu: true,
            selected: select_first(None),
            input: Vec::new(),
            character_index: 0,
            input_mode: InputMode::Normal,
            messages: Vec::new(),
        }
    }

    /// The UTF-8 byte offset of the cursor in the filter line: the byte
    /// length of the characters before it, or of the whole line where the
    /// cursor lies at or beyond its end.
    pub fn byte_index(&self) -> (i: usize)
        requires
            self.input@.len() <= usize::MAX / 4,
        ensures
            i == utf8_len(self.input@.take(insert_position(self@))),
    {
        let n = if self.character_index <= self.input.len() { self.character_index } else { self.input.len() };
        let mut total: usize = 0;
        let mut k: usize = 0;
        while k < n
            invariant
                n <= self.input.len(),
                self.input@.len() <= usize::MAX / 4,
                k <= n,
                total == utf8_len(self.input@.take(k as int)),
            decreases n - k,
        {
            proof {
                lemma_utf8_len_bound(self.input@.take(k as int));
                assert(self.input@.take(k + 1).drop_last() == self.input@.take(k as int));
            }
            total = total + char_width(self.input[k]);
            k = k + 1;
        }
        total
    }

    /// `new_cursor_pos` brought within the filter line.
    pub fn clamp_cursor(&self, new_cursor_pos: usize) -> (pos: usize)
        ensures
            pos == clamped(self@, new_cursor_pos as int),
    {
        if new_cursor_pos <= self.input.len() { new_cursor_pos } else { self.input.len() }
    }

    /// Puts the cursor at the start of the line.
    pub fn reset_cursor(&mut self)
        ensures
            final(self)@ == (AppView { character_index: 0, ..old(self)@ }),
            final(self).system_information == old(self).system_information,
    {
        self.character_index = 0;
    }

    /// Moves the cursor one character left.
    pub fn move_cursor_left(&mut self)
        ensures
            final(self)@ == cursor_left(old(self)@),
            final(self).system_information == old(self).system_information,
    {
        let moved = self.character_index.saturating_sub(1);
        self.character_index = self.clamp_cursor(moved);
    }

    /// Moves the cursor one character right.
    pub fn move_cursor_right(&mut self)
        ensures
            final(self)@ == cursor_right(old(self)@),
            final(self).system_information == old(self).system_information,
    {
        let moved = self.character_index.saturating_add(1);
        self.character_index = self.clamp_cursor(moved);
    }

    /// Types `new_char` at the cursor.
    pub fn enter_char(&mut self, new_char: char)
        ensures
            final(self)@ == with_char(old(self)@, new_char),
            final(self).system_information == old(self).system_information,
    {
        let at = if self.character_index <= self.input.len() { self.character_index } else { self.input.len() };
        self.input.insert(at, new_char);
        self.move_cursor_right();
    }

    /// Deletes the character before the cursor.
    pub fn delete_char(&mut self)
        ensures
            final(self)@ == without_char(old(self)@),
            final(self).system_information == old(self).system_information,
    {
        if self.character_index != 0 {
            let current_index = self.character_index;
            let before_end = current_index - 1;
            let len = self.input.len();
            let mut kept: Vec<char> = Vec::new();
            let mut k: usize = 0;
            while k < len && k < before_end
                invariant
                    len == self.input.len(),
                    k <= len,
                    k <= before_end,
                    kept@ == self.input@.take(k as int),
                decreases len - k,
            {
                kept.push(self.input[k]);
                k = k + 1;
            }
            let ghost front = kept@;
            if current_index < len {
                let mut k: usize = current_index;
                assert(kept@ =~= front + self.input@.subrange(current_index as int, k as int));
                while k < len
                    invariant
                        len == self.input.len(),
                        current_index <= k <= len,
                        kept@ == front + self.input@.subrange(current_index as int, k as int),
                    decreases len - k,
                {
                    kept.push(self.input[k]);
                    k = k + 1;
                    assert(kept@ =~= front + self.input@.subrange(current_index as int, k as int));
                }
            }
            proof {
                let v = self@;
                if current_index < len {
                    assert(self.input@.subrange(current_index as int, len as int) =~= self.input@.skip(current_index as int));
                } else if current_index == len {
                    assert(self.input@.skip(current_index as int) =~= Seq::<char>::empty());
                    assert(kept@ =~= front + Seq::<char>::empty());
                } else {
                    assert(kept@ =~= front + Seq::<char>::empty());
                }
                assert(kept@ =~= line_without_previous(v));
            }
            self.input = kept;
            self.move_cursor_left();
        }
    }

    /// Makes the typed line the filter in force.
    pub fn submit_message(&mut self)
        ensures
            final(self)@ == submitted(old(self)@),
            final(self).system_information == old(self).system_information,
    {
        self.messages = self.input.clone();
        self.input.clear();
        self.reset_cursor();
        self.should_sort = true;
    }

    /// Orders the processes of the snapshot for the table, unless sorting
    /// is paused.
    pub fn sort(&mut self)
        ensures
            final(self)@ == old(self)@,
            final(self).system_information.cpu_information == old(self).system_information.cpu_information,
            final(self).system_information.memory_bits == old(self).system_information.memory_bits,
            final(self).system_information.disk == old(self).system_information.disk,
            old(self).should_sort ==> is_stable_sort_of(
                final(self).system_information.processes@,
                old(self).system_information.processes@,
                old(self).sort_by_cpu,
            ),
            !old(self).should_sort ==> final(self).system_information.processes
                == old(self).system_information.processes,
    {
        if self.should_sort {
            sort_processes(&mut self.system_information.processes, self.sort_by_cpu);
        }
    }

    /// Starts typing the filter.
    pub fn enter_insert_mode(&mut self)
        ensures
            final(self)@ == editing(old(self)@),
            final(self).system_information == old(self).system_information,
    {
        self.should_sort = false;
        self.input_mode = InputMode::Editing;
    }

    /// Abandons typing the filter.
    pub fn escape_insert_mode(&mut self)
        ensures
            final(self)@ == escaped(old(self)@),
            final(self).system_information == old(self).system_information,
    {
        self.input = Vec::new();
        self.should_sort = true;
        self.input_mode = InputMode::Normal;
    }

    /// Removes the filter in force.
    pub fn clear_filter(&mut self)
        ensures
            final(self)@ == filter_cleared(old(self)@),
            final(self).system_information == old(self).system_information,
    {
        self.messages = Vec::new();
        self.should_sort = true;
    }

    /// The positions in the snapshot of the processes shown in the table,
    /// in table order: those whose name contains the filter in force.
    pub fn visible_rows(&self) -> (rows: Vec<usize>)
        ensures
            rows@.len() == visible_indices(self.system_information.processes@, self.messages@).len(),
            forall|r: int| 0 <= r < rows@.len() ==> rows@[r] as int
                == #[trigger] visible_indices(self.system_information.processes@, self.messages@)[r],
    {
        visible_processes(&self.system_information.processes, &self.messages)
    }

    /// The identifier of the process in the selected row, if a row within
    /// the table is selected.
    pub fn kill_process(&self) -> (pid: Option<u32>)
        ensures
            pid == selected_pid(self.system_information.processes@, self.messages@, self.selected),
    {
        match self.selected {
            Some(r) => {
                let rows = self.visible_rows();
                if r < rows.len() {
                    let i = rows[r];
                    proof {
                        crate::filter::lemma_visible_in_range(self.system_information.processes@, self.messages@, r as int);
                    }
                    Some(self.system_information.processes[i].pid)
                } else {
                    None
                }
            },
            None => None,
        }
    }

    /// Acts on one key press and says what the program must carry out.
    pub fn handle_key(&mut self, key: Key) -> (command: Command)
        ensures
            final(self)@ == after_key(old(self)@, key),
            final(self).system_information == old(self).system_information,
            command == key_command(old(self)@, old(self).system_information.processes@, key),
    {
        match self.input_mode {
            InputMode::Normal => match key {
                Key::Char('q') | Key::Esc => {
                    self.should_quit = true;
                    Command::Nothing
                },
                Key::Char('j') | Key::Down => {
                    self.selected = select_next(self.selected);
                    Command::Nothing
                },
                Key::Char('k') | Key::Up => {
                    self.selected = select_previous(self.selected);
                    Command::Nothing
                },
                Key::Char('x') | Key::Backspace => match self.kill_process() {
                    Some(pid) => Command::Kill(pid),
                    None => Command::Nothing,
                },
                Key::Char('g') => {
                    self.selected = select_first(self.selected);
                    Command::Nothing
                },
                Key::Char('G') => {
                    self.selected = select_last(self.selected);
                    Command::Nothing
                },
                Key::Char('s') => {
                    self.sort_by_cpu = !self.sort_by_cpu;
                    Command::Nothing
                },
                Key::Char('f') => {
                    self.enter_insert_mode();
                    Command::Nothing
                },
                Key::Char('c') => {
                    self.clear_filter();
                    Command::Nothing
                },
                _ => Command::Nothing,
            },
            InputMode::Editing => {
                match key {
                    Key::Enter => self.submit_message(),
                    Key::Char(to_insert) => self.enter_char(to_insert),
                    Key::Backspace => self.delete_char(),
                    Key::Left => self.move_cursor_left(),
                    Key::Right => self.move_cursor_right(),
                    Key::Esc => self.escape_insert_mode(),
                    _ => {},
                }
                Command::Nothing
            },
        }
    }

    /// Takes a new snapshot of the machine and orders its processes for the
    /// table (unless sorting is paused).
    pub fn update(&mut self, system_information: SystemInformation)
        ensures
            final(self)@ == old(self)@,
            final(self).system_information.cpu_information == system_information.cpu_information,
            final(self).system_information.memory_bits == system_information.memory_bits,
            final(self).system_information.disk == system_information.disk,
            old(self).should_sort ==> is_stable_sort_of(
                final(self).system_information.processes@,
                system_information.processes@,
                old(self).sort_by_cpu,
            ),
            !old(self).should_sort ==> final(self).system_information.processes
                == system_information.processes,
    {
        self.system_information = system_information;
        self.sort();
    }
}


/// Typing a character and then deleting it gives back the line that was
/// there; the cursor comes back too when it stood within the line.
pub proof fn lemma_type_then_delete(v: AppView, c: char)
    requires
        v.input.len() < usize::MAX,
    ensures
        without_char(with_char(v, c)).input == v.input,
        v.character_index <= v.input.len() ==> without_char(with_char(v, c)).character_index == v.character_index,
{
    let at = insert_position(v);
    let w = with_char(v, c);
    assert(w.input == v.input.insert(at, c));
    assert(w.character_index == at + 1);
    let u = without_char(w);
    assert(w.input.take(at) =~= v.input.take(at));
    assert(w.input.skip(at + 1) =~= v.input.skip(at));
    assert(line_without_previous(w) =~= v.input);
}

/// Moving the cursor right and then left brings it back when it stood
/// before the end of the line; moving left and then right brings it back
/// when it stood after the start and within the line.
pub proof fn lemma_cursor_round_trip(v: AppView)
    ensures
        v.character_index < v.input.len() <= usize::MAX ==> cursor_left(cursor_right(v)) == v,
        0 < v.character_index <= v.input.len() ==> cursor_right(cursor_left(v)) == v,
{
}

/// While the filter is typed, every key but Esc leaves the cursor within
/// the line.
pub proof fn lemma_editing_keeps_cursor_in_line(v: AppView, key: Key)
    requires
        v.input_mode == InputMode::Editing,
        key != Key::Esc,
        v.character_index <= v.input.len(),
        v.input.len() < usize::MAX,
    ensures
        after_key(v, key).character_index <= after_key(v, key).input.len(),
{
    match key {
        Key::Backspace => {
            assert(after_key(v, key) == without_char(v));
            if v.character_index > 0 {
                let w = AppView { input: line_without_previous(v), ..v };
                assert(line_without_previous(v).len() == v.input.len() - 1);
                assert(without_char(v) == cursor_left(w));
                assert(cursor_left(w).character_index == v.character_index - 1);
            }
        },
        Key::Char(c) => {
            let at = insert_position(v);
            assert(v.input.insert(at, c).len() == v.input.len() + 1);
        },
        _ => {},
    }
}

/// In normal mode, `s` twice gives back the sort order that was chosen.
pub proof fn lemma_toggle_sort_twice(v: AppView)
    requires
        v.input_mode == InputMode::Normal,
    ensures
        after_key(after_key(v, Key::Char('s')), Key::Char('s')) == v,
{
}

/// Typing a filter and pressing Enter puts the typed line in force, empties
/// the line and goes on sorting; typing mode stays on.
pub proof fn lemma_enter_applies_filter(v: AppView)
    requires
        v.input_mode == InputMode::Editing,
    ensures
        after_key(v, Key::Enter).messages == v.input,
        after_key(v, Key::Enter).input.len() == 0,
        after_key(v, Key::Enter).character_index == 0,
        after_key(v, Key::Enter).should_sort,
        after_key(v, Key::Enter).input_mode == InputMode::Editing,
{
}

/// Starting to type a filter and abandoning it with Esc comes back to
/// normal mode with an empty line, sorting again, the filter in force and
/// the selection untouched.
pub proof fn lemma_filter_then_escape(v: AppView)
    requires
        v.input_mode == InputMode::Normal,
    ensures
        ({
            let w = after_key(after_key(v, Key::Char('f')), Key::Esc);
            &&& w.input_mode == InputMode::Normal
            &&& w.input.len() == 0
            &&& w.should_sort
            &&& w.messages == v.messages
            &&& w.selected == v.selected
            &&& w.sort_by_cpu == v.sort_by_cpu
            &&& !w.should_quit || v.should_quit
        }),
{
}

/// In normal mode, `q` and Esc end the monitor; no key does in typing mode
/// unless it had already ended.
pub proof fn lemma_quit_keys(v: AppView, key: Key)
    ensures
        v.input_mode == InputMode::Normal && (key == Key::Char('q') || key == Key::Esc) ==> after_key(v, key).should_quit,
        v.input_mode == InputMode::Editing ==> after_key(v, key).should_quit == v.should_quit,
{
}

/// A kill command only ever names a process shown in the table.
pub proof fn lemma_kill_targets_shown_process(v: AppView, ps: Seq<ProcessInformation>, key: Key)
    ensures
        key_command(v, ps, key) matches Command::Kill(pid) ==> exists|r: int|
            0 <= r < visible_indices(ps, v.messages).len()
            && #[trigger] ps[visible_indices(ps, v.messages)[r]].pid == pid,
{
    if let Command::Kill(pid) = key_command(v, ps, key) {
        let r = v.selected.unwrap() as int;
        assert(ps[visible_indices(ps, v.messages)[r]].pid == pid);
    }
}

/// Only normal mode kills: while the filter is typed no key gives a kill
/// command; in normal mode only `x` and Backspace do, and then exactly when
/// a row of the table is selected, naming the process of that row.
pub proof fn lemma_kill_only_from_normal_mode(v: AppView, ps: Seq<ProcessInformation>, key: Key)
    ensures
        v.input_mode == InputMode::Editing ==> key_command(v, ps, key) == Command::Nothing,
        key != Key::Char('x') && key != Key::Backspace ==> key_command(v, ps, key) == Command::Nothing,
        key_command(v, ps, key) is Kill ==> v.input_mode == InputMode::Normal,
        v.input_mode == InputMode::Normal && (key == Key::Char('x') || key == Key::Backspace) ==> ({
            let rows = visible_indices(ps, v.messages);
            match v.selected {
                Some(r) => if r < rows.len() {
                    key_command(v, ps, key) == Command::Kill(ps[rows[r as int]].pid)
                } else {
                    key_command(v, ps, key) == Command::Nothing
                },
                None => key_command(v, ps, key) == Command::Nothing,
            }
        }),
{
}

/// Typing `c` puts the character `c` itself into the line, at the cursor
/// (or at the end where the cursor lies beyond it): the characters before
/// that position stay, `c` follows, then the rest of the line; the line
/// grows by one and the cursor ends just after `c`.
pub proof fn lemma_typing_inserts_the_character(v: AppView, c: char)
    requires
        v.input.len() < usize::MAX,
    ensures
        ({
            let at = if v.character_index <= v.input.len() { v.character_index as int } else { v.input.len() as int };
            let w = with_char(v, c);
            &&& w.input.len() == v.input.len() + 1
            &&& w.input[at] == c
            &&& w.input.take(at) == v.input.take(at)
            &&& w.input.skip(at + 1) == v.input.skip(at)
            &&& w.character_index == at + 1
            &&& w.messages == v.messages
            &&& w.input_mode == v.input_mode
            &&& w.selected == v.selected
        }),
{
    let at = if v.character_index <= v.input.len() { v.character_index as int } else { v.input.len() as int };
    let w = with_char(v, c);
    assert(at == insert_position(v));
    assert(w.input == v.input.insert(at, c));
    assert(w.input.take(at) =~= v.input.take(at));
    assert(w.input.skip(at + 1) =~= v.input.skip(at));
}

/// Typing at the end of the line appends the character.
pub proof fn lemma_typing_at_end_appends(v: AppView, c: char)
    requires
        v.character_index == v.input.len(),
        v.input.len() < usize::MAX,
    ensures
        with_char(v, c).input == v.input.push(c),
        with_char(v, c).character_index == v.character_index + 1,
{
    lemma_typing_inserts_the_character(v, c);
    assert(with_char(v, c).input =~= v.input.push(c));
}

/// Deleting with the cursor within the line and after its start removes
/// exactly the character just before the cursor: the characters before it
/// stay in place, those after it move one place left, and the cursor moves
/// back one place. At the start of the line nothing changes.
pub proof fn lemma_delete_removes_previous_character(v: AppView)
    ensures
        0 < v.character_index <= v.input.len() ==> ({
            let w = without_char(v);
            let i = v.character_index as int;
            &&& w.input.len() == v.input.len() - 1
            &&& forall|j: int| 0 <= j < i - 1 ==> #[trigger] w.input[j] == v.input[j]
            &&& forall|j: int| i - 1 <= j < w.input.len() ==> #[trigger] w.input[j] == v.input[j + 1]
            &&& w.character_index == i - 1
        }),
        v.character_index == 0 ==> without_char(v) == v,
{
    if 0 < v.character_index <= v.input.len() {
        let i = v.character_index as int;
        let line = line_without_previous(v);
        assert(line =~= v.input.take(i - 1) + v.input.skip(i));
    }
}

/// In normal mode `j`/Down moves the selection one row down and `k`/Up one
/// row up (staying at the first row), `g` selects the first row and `G`
/// the last; none of them touches the filter line, the filter in force or
/// the sort order.
pub proof fn lemma_navigation_keys(v: AppView, i: usize)
    requires
        v.input_mode == InputMode::Normal,
        v.selected == Some(i),
    ensures
        i < usize::MAX ==> after_key(v, Key::Char('j')).selected == Some((i + 1) as usize),
        i < usize::MAX ==> after_key(v, Key::Down).selected == Some((i + 1) as usize),
        i > 0 ==> after_key(v, Key::Char('k')).selected == Some((i - 1) as usize),
        i > 0 ==> after_key(v, Key::Up).selected == Some((i - 1) as usize),
        i == 0 ==> after_key(v, Key::Char('k')).selected == Some(0usize),
        after_key(v, Key::Char('g')).selected == Some(0usize),
        after_key(v, Key::Char('G')).selected == Some(usize::MAX),
        after_key(v, Key::Char('j')).input == v.input && after_key(v, Key::Char('j')).messages == v.messages
            && after_key(v, Key::Char('j')).sort_by_cpu == v.sort_by_cpu,
        after_key(v, Key::Char('k')).input == v.input && after_key(v, Key::Char('k')).messages == v.messages
            && after_key(v, Key::Char('k')).sort_by_cpu == v.sort_by_cpu,
{
}

/// In normal mode `f` starts typing the filter and pauses sorting, `c`
/// removes the filter in force and resumes sorting, `s` switches between
/// sorting by CPU and by memory; the selection stays.
pub proof fn lemma_mode_keys(v: AppView)
    requires
        v.input_mode == InputMode::Normal,
    ensures
        after_key(v, Key::Char('f')).input_mode == InputMode::Editing,
        !after_key(v, Key::Char('f')).should_sort,
        after_key(v, Key::Char('f')).input == v.input,
        after_key(v, Key::Char('c')).messages.len() == 0,
        after_key(v, Key::Char('c')).should_sort,
        after_key(v, Key::Char('c')).input_mode == InputMode::Normal,
        after_key(v, Key::Char('s')).sort_by_cpu == !v.sort_by_cpu,
        after_key(v, Key::Char('s')).selected == v.selected,
        after_key(v, Key::Char('f')).selected == v.selected,
        after_key(v, Key::Char('c')).selected == v.selected,
{
}

} // verus!
