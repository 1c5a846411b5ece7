use procapi::process::{least_thread_run_code, processes_info, Process, RunState, State};
use procapi::sys::{ProcessInfo, ThreadSample};

fn info(pid: u32, ppid: u32, run_state: char, name: &str, cmd: &str) -> ProcessInfo {
    ProcessInfo { pid, ppid, run_state, name: name.to_string(), cmd: cmd.to_string() }
}

#[test]
fn run_state_from_char_decodes_each_letter() {
    assert_eq!(RunState::from_char('I'), Some(RunState::Idle));
    assert_eq!(RunState::from_char('R'), Some(RunState::Runnable));
    assert_eq!(RunState::from_char('S'), Some(RunState::Sleeping));
    assert_eq!(RunState::from_char('T'), Some(RunState::Stopped));
    assert_eq!(RunState::from_char('U'), Some(RunState::UninterruptibleWait));
    assert_eq!(RunState::from_char('Z'), Some(RunState::Dead));
    assert_eq!(RunState::from_char('H'), None);
    assert_eq!(RunState::from_char('?'), None);
}

#[test]
fn run_state_from_bsd_run_state() {
    assert_eq!(RunState::from_bsd_run_state(1), Some(RunState::Runnable));
    assert_eq!(RunState::from_bsd_run_state(2), Some(RunState::UninterruptibleWait));
    assert_eq!(RunState::from_bsd_run_state(3), Some(RunState::Sleeping));
    assert_eq!(RunState::from_bsd_run_state(4), Some(RunState::Idle));
    assert_eq!(RunState::from_bsd_run_state(5), Some(RunState::Stopped));
    assert_eq!(RunState::from_bsd_run_state(6), None);
    assert_eq!(RunState::from_bsd_run_state(7), None);
    assert_eq!(RunState::from_bsd_run_state(-3), None);
}

#[test]
fn state_from_str_uses_first_letter() {
    assert_eq!(State::from_str("T").run_state, RunState::Stopped);
    assert_eq!(State::from_str("Zombie").run_state, RunState::Dead);
    assert_eq!(State::from_str("q").run_state, RunState::Dead);
    assert_eq!(State::from_str("Über").run_state, RunState::Dead);
}

#[test]
fn process_from_info_keeps_fields() {
    let p = Process::from_info(info(10, 1, 'R', "top", "/usr/bin/top"));
    assert_eq!(p.ids, [10, 1]);
    assert_eq!(p.name, "top");
    assert_eq!(p.cmd, "/usr/bin/top");
    assert_eq!(p.state.run_state, RunState::Runnable);
}

#[test]
fn process_from_info_unknown_letter_is_dead() {
    let p = Process::from_info(info(11, 1, 'H', "halted", "/h"));
    assert_eq!(p.state.run_state, RunState::Dead);
    let q = Process::from_info(info(12, 1, '?', "odd", "/o"));
    assert_eq!(q.state.run_state, RunState::Dead);
}

#[test]
fn processes_info_maps_in_order() {
    let infos = vec![info(1, 0, 'S', "a", "a"), info(2, 1, 'I', "b", "b -x")];
    let ps = processes_info(&infos);
    assert_eq!(ps.len(), 2);
    assert_eq!(ps[0].ids, [1, 0]);
    assert_eq!(ps[0].state.run_state, RunState::Sleeping);
    assert_eq!(ps[1].ids, [2, 1]);
    assert_eq!(ps[1].cmd, "b -x");
    assert_eq!(ps[1].state.run_state, RunState::Idle);
    assert!(processes_info(&Vec::new()).is_empty());
}

#[test]
fn process_from_task_uses_least_run_code() {
    let ts = vec![
        ThreadSample { run_state: 3, sleep_time: 0 },
        ThreadSample { run_state: 2, sleep_time: 0 },
        ThreadSample { run_state: 5, sleep_time: 0 },
    ];
    assert_eq!(least_thread_run_code(&ts), 2);
    assert_eq!(least_thread_run_code(&Vec::new()), 7);
    let p = Process::from_task(12, 1, "n".to_string(), "/bin/n".to_string(), &ts);
    assert_eq!(p.ids, [12, 1]);
    assert_eq!(p.name, "n");
    assert_eq!(p.cmd, "/bin/n");
    assert_eq!(p.state.run_state, RunState::UninterruptibleWait);
    let idle = Process::from_task(13, 1, "i".to_string(), "/i".to_string(), &Vec::new());
    assert_eq!(idle.state.run_state, RunState::Dead);
}
