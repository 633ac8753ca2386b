use term_bridge::reader::{run_relay, should_continue, Liveness, ReadCycle};

fn running(bytes: &[u8]) -> ReadCycle {
    ReadCycle { liveness: Liveness::Running, data: Some(bytes.to_vec()) }
}

#[test]
fn continues_only_while_running() {
    assert!(should_continue(&Liveness::Running));
    assert!(!should_continue(&Liveness::Exited(Some(0))));
    assert!(!should_continue(&Liveness::Exited(None)));
    assert!(!should_continue(&Liveness::Error));
}

#[test]
fn relays_all_cycles_while_child_runs() {
    let cycles = vec![running(b"one "), running(b"two "), running(b"three")];
    let o = run_relay(&cycles);
    assert_eq!(o.cycles_run, 3);
    assert_eq!(o.displayed, b"one two three".to_vec());
}

#[test]
fn stops_at_child_exit_without_reading_further() {
    let cycles = vec![
        running(b"before"),
        ReadCycle { liveness: Liveness::Exited(Some(0)), data: Some(b"never read".to_vec()) },
        running(b"after"),
    ];
    let o = run_relay(&cycles);
    assert_eq!(o.cycles_run, 1);
    assert_eq!(o.displayed, b"before".to_vec());
}

#[test]
fn failed_poll_stops_the_loop_too() {
    let cycles = vec![
        running(b"x"),
        ReadCycle { liveness: Liveness::Error, data: None },
        running(b"y"),
    ];
    let o = run_relay(&cycles);
    assert_eq!(o.cycles_run, 1);
    assert_eq!(o.displayed, b"x".to_vec());
}

#[test]
fn transient_read_failure_is_just_no_data() {
    let cycles = vec![
        running(b"a"),
        ReadCycle { liveness: Liveness::Running, data: None },
        running(b"b"),
    ];
    let o = run_relay(&cycles);
    assert_eq!(o.cycles_run, 3);
    assert_eq!(o.displayed, b"ab".to_vec());
}

#[test]
fn hello_arrives_whole_despite_chunking() {
    let cycles = vec![
        running(b"hel"),
        running(b"lo\n"),
        ReadCycle { liveness: Liveness::Exited(None), data: None },
    ];
    let o = run_relay(&cycles);
    assert_eq!(o.cycles_run, 2);
    assert_eq!(String::from_utf8(o.displayed).unwrap(), "hello\n");
}

#[test]
fn snowman_split_across_cycles_arrives_whole() {
    let cycles = vec![
        running(&[0xE2, 0x98]),
        running(&[0x83]),
        ReadCycle { liveness: Liveness::Exited(Some(0)), data: None },
    ];
    let o = run_relay(&cycles);
    assert_eq!(o.cycles_run, 2);
    assert_eq!(String::from_utf8(o.displayed).unwrap(), "\u{2603}");
}

#[test]
fn bell_only_cycle_displays_nothing() {
    let cycles = vec![running(&[0x07]), running(b"ok")];
    let o = run_relay(&cycles);
    assert_eq!(o.displayed, b"ok".to_vec());
}

#[test]
fn empty_cycle_list_runs_nothing() {
    let o = run_relay(&Vec::new());
    assert_eq!(o.cycles_run, 0);
    assert!(o.displayed.is_empty());
}
