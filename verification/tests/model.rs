use procapi::error::ProcError;
use procapi::model::letters;
use procapi::model::linux::{parse_status, pids_from_listing, threads_from_listing, ProcEntry, StatusFields};
use procapi::model::macos::{command_line, name_or_path, parse_procargs};
use procapi::model::state::{rank, summarize_threads, State};
use procapi::model::{Process, Thread, ThreadsInfo};
use procapi::sys::ThreadSample;

fn dir(name: &str) -> ProcEntry {
    ProcEntry { is_dir: true, name: Some(name.to_string()) }
}

fn file(name: &str) -> ProcEntry {
    ProcEntry { is_dir: false, name: Some(name.to_string()) }
}

fn args_buffer(argc: i32, body: &[u8]) -> Vec<u8> {
    let mut buf = argc.to_le_bytes().to_vec();
    buf.extend_from_slice(body);
    buf
}

#[test]
fn state_default_is_running() {
    assert_eq!(State::default(), State::Running);
    assert_eq!(letters::State::default(), letters::State::Sleeping);
}

#[test]
fn state_order_matches_rank() {
    let all = [
        State::Running,
        State::Waiting,
        State::Uninterruptible,
        State::Sleeping,
        State::Embryo,
        State::Dead,
    ];
    for (i, s) in all.iter().enumerate() {
        assert_eq!(rank(*s) as usize, i);
    }
    assert!(State::Running < State::Dead);
}

#[test]
fn linux_byte_decoding() {
    assert_eq!(State::from_linux_byte(b'R'), Ok(State::Running));
    assert_eq!(State::from_linux_byte(b'S'), Ok(State::Sleeping));
    assert_eq!(State::from_linux_byte(b'P'), Ok(State::Sleeping));
    assert_eq!(State::from_linux_byte(b'D'), Ok(State::Waiting));
    assert_eq!(State::from_linux_byte(b'T'), Ok(State::Waiting));
    assert_eq!(State::from_linux_byte(b't'), Ok(State::Waiting));
    assert_eq!(State::from_linux_byte(b'X'), Ok(State::Dead));
    assert_eq!(State::from_linux_byte(b'Z'), Ok(State::Dead));
    assert_eq!(State::from_linux_byte(b'I'), Ok(State::Embryo));
    assert_eq!(State::from_linux_byte(b'W'), Err(ProcError::InvalidStateByte(b'W')));
    assert_eq!(State::from_linux_char('K'), Err(ProcError::InvalidState('K')));
}

#[test]
fn pth_info_mapping() {
    assert_eq!(State::from_pth_info(1, 0), State::Running);
    assert_eq!(State::from_pth_info(2, 0), State::Sleeping);
    assert_eq!(State::from_pth_info(3, 21), State::Waiting);
    assert_eq!(State::from_pth_info(3, 20), State::Waiting);
    assert_eq!(State::from_pth_info(3, 0), State::Waiting);
    assert_eq!(State::from_pth_info(4, 0), State::Uninterruptible);
    assert_eq!(State::from_pth_info(5, 0), State::Dead);
}

#[test]
fn summarize_picks_most_active_thread() {
    let ts = vec![
        ThreadSample { run_state: 5, sleep_time: 0 },
        ThreadSample { run_state: 3, sleep_time: 100 },
        ThreadSample { run_state: 2, sleep_time: 0 },
    ];
    assert_eq!(summarize_threads(&ts), State::Waiting);
    assert_eq!(summarize_threads(&Vec::new()), State::Running);
    let with_runner = vec![
        ThreadSample { run_state: 4, sleep_time: 0 },
        ThreadSample { run_state: 1, sleep_time: 0 },
    ];
    assert_eq!(summarize_threads(&with_runner), State::Running);
}

#[test]
fn letters_decoding() {
    assert_eq!(letters::State::from_char('D'), Ok(letters::State::UninterruptibleWait));
    assert_eq!(letters::State::from_char('U'), Ok(letters::State::UninterruptibleWait));
    assert_eq!(letters::State::from_char('I'), Ok(letters::State::Idle));
    assert_eq!(letters::State::from_char('R'), Ok(letters::State::Runnable));
    assert_eq!(letters::State::from_char('S'), Ok(letters::State::Sleeping));
    assert_eq!(letters::State::from_char('T'), Ok(letters::State::Stopped));
    assert_eq!(letters::State::from_char('Z'), Ok(letters::State::Dead));
    assert_eq!(letters::State::from_char('x'), Err(ProcError::InvalidState('x')));
    assert_eq!(letters::State::from_str("D (disk sleep)"), letters::State::UninterruptibleWait);
    assert_eq!(letters::State::from_str("x"), letters::State::Sleeping);
}

#[test]
fn listing_keeps_numeric_directories() {
    let entries = vec![dir("1"), dir("self"), file("42"), dir("+7"), dir("300"), dir("99999999999")];
    assert_eq!(pids_from_listing(&entries), Ok(vec![1, 7, 300]));
}

#[test]
fn listing_fails_on_non_unicode_name() {
    let entries = vec![dir("1"), ProcEntry { is_dir: true, name: None }, dir("2")];
    assert_eq!(pids_from_listing(&entries), Err(ProcError::NonUnicodeName));
    let skipped = vec![dir("1"), ProcEntry { is_dir: false, name: None }];
    assert_eq!(pids_from_listing(&skipped), Ok(vec![1]));
}

#[test]
fn status_fields_are_read() {
    let status = "Name:\tbash\nState:\tS (sleeping)\nTgid:\t42\nPid:\t42\nPPid:\t7\n";
    assert_eq!(parse_status(status), Ok(StatusFields { ppid: 7, state: State::Sleeping }));
}

#[test]
fn status_without_fields_keeps_defaults() {
    assert_eq!(parse_status(""), Ok(StatusFields { ppid: 0, state: State::Running }));
    assert_eq!(parse_status("Name:\tx\r\nPPid:\tnope\r\n"), Ok(StatusFields { ppid: 0, state: State::Running }));
}

#[test]
fn status_last_line_wins() {
    let status = "PPid:\t3\nState:\tR (running)\nPPid:  9 \r\nState:\tZ (zombie)";
    assert_eq!(parse_status(status), Ok(StatusFields { ppid: 9, state: State::Dead }));
}

#[test]
fn status_bad_state_fails() {
    assert_eq!(parse_status("State:\tW (paging)\nPPid:\t1\n"), Err(ProcError::InvalidState('W')));
    assert_eq!(parse_status("PPid:\t1\nState:   \n"), Err(ProcError::EmptyState));
}

#[test]
fn task_listing_gives_threads() {
    let entries = vec![dir("100"), file("x"), dir("abc"), ProcEntry { is_dir: true, name: None }, dir("101")];
    assert_eq!(threads_from_listing(&entries), vec![Thread { id: 100 }, Thread { id: 0 }, Thread { id: 101 }]);
}

#[test]
fn linux_process_from_files() {
    let fields = StatusFields { ppid: 1, state: State::Sleeping };
    let p = Process::from_linux(42, "bash\n", "bash\0-l\0", fields, &vec![dir("42"), dir("43")]);
    assert_eq!(p.pid, 42);
    assert_eq!(p.ppid, 1);
    assert_eq!(p.name, "bash");
    assert_eq!(p.cmd, "bash -l ");
    assert_eq!(p.state, State::Sleeping);
    assert_eq!(p.threads, vec![Thread { id: 42 }, Thread { id: 43 }]);
}

#[test]
fn procargs_skip_path_and_stop_at_count() {
    // argc counts the NUL after the path and each padding NUL as well.
    let buf = args_buffer(4, b"/bin/ls\0\0ls\0-l\0HOME=/\0");
    assert_eq!(parse_procargs(&buf), vec!["ls".to_string(), "-l".to_string()]);
    let short = args_buffer(3, b"/bin/ls\0\0ls\0-l\0HOME=/\0");
    assert_eq!(parse_procargs(&short), vec!["ls".to_string()]);
    let all = args_buffer(-1, b"/bin/ls\0ls\0-l\0HOME=/\0");
    assert_eq!(parse_procargs(&all), vec!["ls".to_string(), "-l".to_string(), "HOME=/".to_string()]);
}

#[test]
fn procargs_edge_cases() {
    assert!(parse_procargs(&[1, 0]).is_empty());
    assert!(parse_procargs(&args_buffer(0, b"/p\0a\0")).is_empty());
    assert!(parse_procargs(&args_buffer(1, b"/p\0a\0")).is_empty());
    assert_eq!(parse_procargs(&args_buffer(2, b"/p\0a\0b\0")), vec!["a".to_string()]);
    // an unterminated last piece is not an argument
    assert_eq!(parse_procargs(&args_buffer(10, b"/p\0a\0tail")), vec!["a".to_string()]);
}

#[test]
fn procargs_decode_utf8() {
    let buf = args_buffer(3, b"/p\0caf\xc3\xa9\0\xff\xfe\0");
    assert_eq!(parse_procargs(&buf), vec!["café".to_string(), String::new()]);
}

#[test]
fn macos_command_line() {
    let args = vec!["ls".to_string(), "-l".to_string()];
    assert_eq!(command_line(Some(args), "/bin/ls".to_string()), "ls -l");
    assert_eq!(command_line(None, "/bin/ls".to_string()), "/bin/ls");
    assert_eq!(command_line(Some(Vec::new()), "/bin/ls".to_string()), "");
}

#[test]
fn macos_process_from_task() {
    let p = Process::from_task(-2, 1, "a".to_string(), "a -b".to_string(), State::Waiting, &vec![7, 9]);
    assert_eq!(p.pid, u32::MAX - 1);
    assert_eq!(p.ppid, 1);
    assert_eq!(p.name, "a");
    assert_eq!(p.cmd, "a -b");
    assert_eq!(p.state, State::Waiting);
    assert_eq!(p.threads, vec![Thread { id: 7 }, Thread { id: 9 }]);
    let info = ThreadsInfo { threads: p.threads.clone() };
    assert_eq!(info.threads.len(), 2);
}

#[test]
fn task_name_falls_back_to_path() {
    assert_eq!(name_or_path(Some("Finder".to_string()), Some("/f".to_string())), "Finder");
    assert_eq!(name_or_path(None, Some("/System/Finder".to_string())), "/System/Finder");
    assert_eq!(name_or_path(None, None), "");
}

#[test]
fn short_wait_is_still_waiting() {
    let ts = vec![
        ThreadSample { run_state: 2, sleep_time: 0 },
        ThreadSample { run_state: 3, sleep_time: 5 },
    ];
    assert_eq!(summarize_threads(&ts), State::Waiting);
}
