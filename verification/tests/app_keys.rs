use rtop::app::{App, Command, InputMode, Key};
use rtop::system_information::{CpuInfromation, ProcessInformation, SystemInformation};

fn proc_(pid: u32, name: &str, cpu: f32, mem: u64) -> ProcessInformation {
    ProcessInformation { pid, name: name.to_string(), cpu_usage_bits: cpu.to_bits(), memory_usage: mem }
}

fn snapshot(processes: Vec<ProcessInformation>) -> SystemInformation {
    SystemInformation {
        cpu_information: CpuInfromation { percentage: 12, cores: vec![1.0f32.to_bits(), 2.0f32.to_bits()] },
        memory_bits: 40.0f64.to_bits(),
        disk: Vec::new(),
        processes,
    }
}

fn sample() -> App {
    App::init(snapshot(vec![
        proc_(10, "sshd", 0.0, 2_000_000),
        proc_(20, "firefox", 4.2, 1_000_000_000),
        proc_(30, "kernel", 0.5, 4_000_000),
    ]))
}

fn typed(app: &mut App, text: &str) {
    for c in text.chars() {
        assert_eq!(app.handle_key(Key::Char(c)), Command::Nothing);
    }
}

fn line(app: &App) -> String {
    app.input.iter().collect()
}

#[test]
fn starts_in_normal_mode_with_first_row() {
    let app = sample();
    assert!(!app.should_quit);
    assert!(app.should_sort);
    assert!(app.sort_by_cpu);
    assert_eq!(app.selected, Some(0));
    assert_eq!(app.input_mode, InputMode::Normal);
    assert!(app.input.is_empty());
    assert!(app.messages.is_empty());
}

#[test]
fn update_sorts_by_cpu() {
    let mut app = sample();
    app.update(snapshot(vec![proc_(1, "a", 0.1, 5), proc_(2, "b", 9.0, 1), proc_(3, "c", 3.0, 9)]));
    let pids: Vec<u32> = app.system_information.processes.iter().map(|p| p.pid).collect();
    assert_eq!(pids, vec![2, 3, 1]);
    app.handle_key(Key::Char('s'));
    assert!(!app.sort_by_cpu);
    app.update(snapshot(vec![proc_(1, "a", 0.1, 5), proc_(2, "b", 9.0, 1), proc_(3, "c", 3.0, 9)]));
    let pids: Vec<u32> = app.system_information.processes.iter().map(|p| p.pid).collect();
    assert_eq!(pids, vec![3, 1, 2]);
}

#[test]
fn quit_keys() {
    let mut app = sample();
    app.handle_key(Key::Char('q'));
    assert!(app.should_quit);
    let mut app = sample();
    app.handle_key(Key::Esc);
    assert!(app.should_quit);
    let mut app = sample();
    app.handle_key(Key::Char('f'));
    app.handle_key(Key::Char('q'));
    assert!(!app.should_quit);
    assert_eq!(line(&app), "q");
}

#[test]
fn navigation_keys_move_the_selection() {
    let mut app = sample();
    app.handle_key(Key::Char('j'));
    assert_eq!(app.selected, Some(1));
    app.handle_key(Key::Down);
    assert_eq!(app.selected, Some(2));
    app.handle_key(Key::Char('k'));
    assert_eq!(app.selected, Some(1));
    app.handle_key(Key::Up);
    app.handle_key(Key::Up);
    assert_eq!(app.selected, Some(0));
    app.handle_key(Key::Char('G'));
    assert_eq!(app.selected, Some(usize::MAX));
    app.handle_key(Key::Char('j'));
    assert_eq!(app.selected, Some(usize::MAX));
    app.handle_key(Key::Char('g'));
    assert_eq!(app.selected, Some(0));
    app.selected = None;
    app.handle_key(Key::Char('k'));
    assert_eq!(app.selected, Some(usize::MAX));
    app.selected = None;
    app.handle_key(Key::Char('j'));
    assert_eq!(app.selected, Some(0));
}

#[test]
fn kill_names_the_selected_process() {
    let mut app = sample();
    app.update(snapshot(vec![proc_(10, "sshd", 0.0, 2), proc_(20, "firefox", 4.2, 1), proc_(30, "kernel", 0.5, 4)]));
    assert_eq!(app.handle_key(Key::Char('x')), Command::Kill(20));
    app.handle_key(Key::Char('j'));
    assert_eq!(app.handle_key(Key::Backspace), Command::Kill(30));
    app.handle_key(Key::Char('G'));
    assert_eq!(app.handle_key(Key::Char('x')), Command::Nothing);
    app.selected = None;
    assert_eq!(app.kill_process(), None);
}

#[test]
fn typing_and_editing_the_filter() {
    let mut app = sample();
    app.handle_key(Key::Char('f'));
    assert_eq!(app.input_mode, InputMode::Editing);
    assert!(!app.should_sort);
    typed(&mut app, "fox");
    assert_eq!(line(&app), "fox");
    assert_eq!(app.character_index, 3);
    app.handle_key(Key::Left);
    app.handle_key(Key::Left);
    typed(&mut app, "i");
    assert_eq!(line(&app), "fiox");
    app.handle_key(Key::Backspace);
    assert_eq!(line(&app), "fox");
    assert_eq!(app.character_index, 1);
    app.handle_key(Key::Right);
    app.handle_key(Key::Right);
    app.handle_key(Key::Right);
    assert_eq!(app.character_index, 3);
    app.handle_key(Key::Left);
    app.handle_key(Key::Left);
    app.handle_key(Key::Left);
    app.handle_key(Key::Left);
    assert_eq!(app.character_index, 0);
    app.handle_key(Key::Backspace);
    assert_eq!(line(&app), "fox");
}

#[test]
fn enter_applies_the_filter() {
    let mut app = sample();
    app.handle_key(Key::Char('f'));
    typed(&mut app, "fire");
    app.handle_key(Key::Enter);
    assert_eq!(app.messages.iter().collect::<String>(), "fire");
    assert!(app.input.is_empty());
    assert_eq!(app.character_index, 0);
    assert!(app.should_sort);
    assert_eq!(app.visible_rows().len(), 1);
    let row = app.visible_rows()[0];
    assert_eq!(app.system_information.processes[row].pid, 20);
    app.handle_key(Key::Esc);
    app.selected = Some(0);
    assert_eq!(app.handle_key(Key::Char('x')), Command::Kill(20));
    app.handle_key(Key::Char('c'));
    assert!(app.messages.is_empty());
    assert_eq!(app.visible_rows().len(), 3);
}

#[test]
fn escape_abandons_typing() {
    let mut app = sample();
    app.handle_key(Key::Char('f'));
    typed(&mut app, "ab");
    app.handle_key(Key::Esc);
    assert_eq!(app.input_mode, InputMode::Normal);
    assert!(app.input.is_empty());
    assert!(app.should_sort);
    // The cursor stays where it was, beyond the now empty line.
    assert_eq!(app.character_index, 2);
    app.handle_key(Key::Char('f'));
    typed(&mut app, "z");
    assert_eq!(line(&app), "z");
    assert_eq!(app.character_index, 1);
}

#[test]
fn type_then_delete_restores_the_line() {
    let mut app = sample();
    app.handle_key(Key::Char('f'));
    typed(&mut app, "héllo");
    app.handle_key(Key::Left);
    app.handle_key(Key::Left);
    let before = line(&app);
    let cursor = app.character_index;
    typed(&mut app, "€");
    app.handle_key(Key::Backspace);
    assert_eq!(line(&app), before);
    assert_eq!(app.character_index, cursor);
}

#[test]
fn byte_index_counts_utf8_bytes() {
    let mut app = sample();
    app.handle_key(Key::Char('f'));
    typed(&mut app, "aé€😀b");
    assert_eq!(app.byte_index(), "aé€😀b".len());
    app.handle_key(Key::Left);
    assert_eq!(app.byte_index(), "aé€😀".len());
    app.handle_key(Key::Left);
    app.handle_key(Key::Left);
    assert_eq!(app.byte_index(), "aé".len());
    app.character_index = 100;
    assert_eq!(app.byte_index(), "aé€😀b".len());
}

#[test]
fn sorting_pauses_while_typing() {
    let mut app = sample();
    app.handle_key(Key::Char('f'));
    app.update(snapshot(vec![proc_(1, "a", 0.1, 5), proc_(2, "b", 9.0, 1)]));
    let pids: Vec<u32> = app.system_information.processes.iter().map(|p| p.pid).collect();
    assert_eq!(pids, vec![1, 2]);
}

#[test]
fn toggling_sort_twice_restores_it() {
    let mut app = sample();
    app.handle_key(Key::Char('s'));
    app.handle_key(Key::Char('s'));
    assert!(app.sort_by_cpu);
}

#[test]
fn cursor_right_then_left_comes_back() {
    let mut app = sample();
    app.handle_key(Key::Char('f'));
    typed(&mut app, "abc");
    app.handle_key(Key::Left);
    app.handle_key(Key::Left);
    assert_eq!(app.character_index, 1);
    app.handle_key(Key::Right);
    app.handle_key(Key::Left);
    assert_eq!(app.character_index, 1);
    app.handle_key(Key::Left);
    app.handle_key(Key::Right);
    assert_eq!(app.character_index, 1);
}

#[test]
fn other_keys_do_nothing() {
    let mut app = sample();
    assert_eq!(app.handle_key(Key::Other), Command::Nothing);
    assert_eq!(app.handle_key(Key::Char('z')), Command::Nothing);
    assert_eq!(app.handle_key(Key::Enter), Command::Nothing);
    assert!(!app.should_quit);
    assert_eq!(app.selected, Some(0));
    assert_eq!(app.input_mode, InputMode::Normal);
}
