use procapi::error::ProcError;
use procapi::sys::{
    command_words, parse_bsd_run_state, task_run_rank, thread_run_rank, Process, ProcessInfo,
    State, ThreadSample,
};

fn words(ws: &[&str]) -> Vec<String> {
    ws.iter().map(|w| w.to_string()).collect()
}

#[test]
fn sys_state_from_char_decodes_each_letter() {
    assert_eq!(State::from_char('I'), Ok(State::Idle));
    assert_eq!(State::from_char('R'), Ok(State::Runnable));
    assert_eq!(State::from_char('S'), Ok(State::Sleeping));
    assert_eq!(State::from_char('T'), Ok(State::Stopped));
    assert_eq!(State::from_char('U'), Ok(State::UninterruptibleWait));
    assert_eq!(State::from_char('Z'), Ok(State::Dead));
}

#[test]
fn sys_state_from_char_rejects_other_letters() {
    assert_eq!(State::from_char('D'), Err(ProcError::InvalidState('D')));
    assert_eq!(State::from_char('r'), Err(ProcError::InvalidState('r')));
    assert_eq!(State::from_char('é'), Err(ProcError::InvalidState('é')));
}

#[test]
fn sys_state_from_str_reads_first_byte() {
    assert_eq!(State::from_str("S (sleeping)"), State::Sleeping);
    assert_eq!(State::from_str("R"), State::Runnable);
    assert_eq!(State::from_str("x"), State::Dead);
    assert_eq!(State::from_str("Ée"), State::Dead);
}

#[test]
fn from_stat_builds_process() {
    let p = Process::from_stat(42, 1, 'S', words(&["/bin/bash", "-l"])).unwrap();
    assert_eq!(p.ids, [42, 1]);
    assert_eq!(p.state, State::Sleeping);
    assert_eq!(p.cmd, "/bin/bash -l");
    assert_eq!(p.name, "/bin/bash");
}

#[test]
fn from_stat_with_no_words() {
    let p = Process::from_stat(7, 2, 'Z', Vec::new()).unwrap();
    assert_eq!(p.cmd, "");
    assert_eq!(p.name, "");
    assert_eq!(p.state, State::Dead);
}

#[test]
fn from_stat_negative_pid_wraps() {
    let p = Process::from_stat(-1, 0, 'R', words(&["a"])).unwrap();
    assert_eq!(p.ids, [u32::MAX, 0]);
}

#[test]
fn from_stat_rejects_unknown_state() {
    let r = Process::from_stat(5, 1, 'W', words(&["x"]));
    assert_eq!(r.unwrap_err(), ProcError::InvalidState('W'));
}

#[test]
fn command_words_prefers_cmdline() {
    let w = command_words(Some(words(&["ls", "-a"])), Some(String::from("/bin/ls")));
    assert_eq!(w, words(&["ls", "-a"]));
}

#[test]
fn command_words_falls_back_to_exe() {
    let w = command_words(None, Some(String::from("/bin/ls")));
    assert_eq!(w, words(&["/bin/ls"]));
}

#[test]
fn command_words_falls_back_to_question_mark() {
    let w = command_words(None, None);
    assert_eq!(w, words(&["?"]));
}

#[test]
fn thread_ranks() {
    let t = |run_state, sleep_time| ThreadSample { run_state, sleep_time };
    assert_eq!(thread_run_rank(t(1, 0)), 1);
    assert_eq!(thread_run_rank(t(2, 0)), 5);
    assert_eq!(thread_run_rank(t(3, 20)), 3);
    assert_eq!(thread_run_rank(t(3, 21)), 4);
    assert_eq!(thread_run_rank(t(4, 0)), 2);
    assert_eq!(thread_run_rank(t(5, 0)), 6);
    assert_eq!(thread_run_rank(t(9, 0)), 7);
    assert_eq!(thread_run_rank(t(-1, 0)), 7);
}

#[test]
fn task_rank_is_lowest_thread_rank() {
    let ts = vec![
        ThreadSample { run_state: 3, sleep_time: 100 },
        ThreadSample { run_state: 4, sleep_time: 0 },
        ThreadSample { run_state: 2, sleep_time: 0 },
    ];
    assert_eq!(task_run_rank(&ts), 2);
    assert_eq!(task_run_rank(&Vec::new()), 7);
}

#[test]
fn running_thread_makes_task_running() {
    let ts = vec![
        ThreadSample { run_state: 5, sleep_time: 0 },
        ThreadSample { run_state: 1, sleep_time: 0 },
    ];
    assert_eq!(parse_bsd_run_state(task_run_rank(&ts)), 'R');
}

#[test]
fn bsd_run_state_letters() {
    let letters: Vec<char> = (0..9).map(parse_bsd_run_state).collect();
    assert_eq!(letters, vec!['?', 'R', 'U', 'S', 'I', 'T', 'H', '?', '?']);
}

#[test]
fn from_task_summarizes_threads() {
    let ts = vec![
        ThreadSample { run_state: 3, sleep_time: 5 },
        ThreadSample { run_state: 3, sleep_time: 50 },
    ];
    let info = ProcessInfo::from_task(
        300,
        1,
        String::from("Finder"),
        String::from("/System/Finder"),
        &ts,
    );
    assert_eq!(info.pid, 300);
    assert_eq!(info.ppid, 1);
    assert_eq!(info.run_state, 'S');
    assert_eq!(info.name, "Finder");
    assert_eq!(info.cmd, "/System/Finder");
    let empty = ProcessInfo::from_task(1, 0, String::new(), String::new(), &Vec::new());
    assert_eq!(empty.run_state, '?');
}

#[test]
fn process_info_clone_is_equal() {
    let info = ProcessInfo::from_task(3, 1, String::from("a"), String::from("b"), &Vec::new());
    let copy = info.clone();
    assert_eq!(copy.pid, info.pid);
    assert_eq!(copy.name, info.name);
    assert_eq!(copy.cmd, info.cmd);
    assert_eq!(copy.run_state, info.run_state);
}
