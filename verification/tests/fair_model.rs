use powerlocks::handle::HandleId;
use powerlocks::strategies::{fair, Method, State};

#[test]
fn fair_empty_queue() {
    let entries: Vec<(HandleId, Method)> = Vec::new();
    assert_eq!(fair(&entries), Vec::<State>::new());
}

#[test]
fn fair_two_readers_then_writer() {
    let entries = vec![
        (HandleId(1), Method::Read),
        (HandleId(2), Method::Read),
        (HandleId(3), Method::Write),
    ];
    assert_eq!(fair(&entries), vec![State::Admitted, State::Admitted, State::Blocked]);
}

#[test]
fn fair_writer_convoy() {
    let entries = vec![
        (HandleId(1), Method::Write),
        (HandleId(2), Method::Write),
        (HandleId(3), Method::Write),
    ];
    assert_eq!(fair(&entries), vec![State::Admitted, State::Blocked, State::Blocked]);
}

#[test]
fn fair_reader_never_overtakes_writer() {
    let entries = vec![
        (HandleId(1), Method::Read),
        (HandleId(2), Method::Write),
        (HandleId(3), Method::Read),
    ];
    assert_eq!(fair(&entries), vec![State::Admitted, State::Blocked, State::Blocked]);
}

#[test]
fn fair_writer_at_head_blocks_everything() {
    let entries = vec![
        (HandleId(1), Method::Write),
        (HandleId(2), Method::Read),
        (HandleId(3), Method::Read),
    ];
    assert_eq!(fair(&entries), vec![State::Admitted, State::Blocked, State::Blocked]);
}

#[test]
fn method_switch_picks_by_access() {
    assert_eq!(Method::Read.switch(1, 2), 1);
    assert_eq!(Method::Write.switch(1, 2), 2);
}
