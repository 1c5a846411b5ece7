use procapi::error::ProcError;
use procapi::model::state::State;
use procapi::model::{Process, Thread};
use procapi::snapshot::ProcessInfo;

fn sample_process() -> Process {
    Process {
        pid: 1,
        ppid: 0,
        name: String::from("init"),
        cmd: String::from("/sbin/init splash"),
        state: State::Sleeping,
        threads: vec![Thread { id: 1 }],
    }
}

#[test]
fn test() {
    let listing: Result<Vec<Process>, ProcError> = Ok(vec![sample_process()]);
    let info = ProcessInfo::init(listing);
    println!("{:?}", info.processes);
    assert_eq!(info.processes.len(), 1);
}

#[test]
fn init_keeps_every_process_in_order() {
    let mut second = sample_process();
    second.pid = 42;
    second.ppid = 1;
    second.name = String::from("bash");
    let info = ProcessInfo::init::<ProcError>(Ok(vec![sample_process(), second]));
    assert_eq!(info.processes.len(), 2);
    assert_eq!(info.processes[0].pid, 1);
    assert_eq!(info.processes[1].pid, 42);
    assert_eq!(info.processes[1].name, "bash");
}

#[test]
fn init_of_empty_listing_is_empty() {
    let info = ProcessInfo::init::<ProcError>(Ok(Vec::new()));
    assert!(info.processes.is_empty());
}
