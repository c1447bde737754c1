use game_server::server::{Server, State, TickWork};

#[test]
fn new_server_is_idle() {
    let s = Server::new("alpha".to_string(), 128);
    assert_eq!(s.id(), "alpha");
    assert_eq!(s.tps(), 128);
    assert_eq!(s.state(), State::Idle);
}

#[test]
fn no_tick_before_a_pass_begins() {
    let mut s = Server::new("alpha".to_string(), 128);
    assert_eq!(s.tick(), None);
    assert_eq!(s.state(), State::Idle);
}

#[test]
fn pass_runs_every_owed_tick() {
    let mut s = Server::new("alpha".to_string(), 128);
    assert_eq!(s.begin_pass(3), 0);
    assert_eq!(s.tick(), Some(TickWork::Command));
    assert_eq!(s.tick(), Some(TickWork::Transport));
    assert_eq!(s.tick(), Some(TickWork::Transport));
    assert_eq!(s.tick(), None);
    assert_eq!(s.tick(), None);
}

#[test]
fn pass_without_owed_ticks_runs_none() {
    let mut s = Server::new("alpha".to_string(), 128);
    assert_eq!(s.begin_pass(0), 0);
    assert_eq!(s.tick(), None);
    assert_eq!(s.state(), State::Idle);
}

#[test]
fn a_full_second_is_still_caught_up() {
    let mut s = Server::new("alpha".to_string(), 4);
    assert_eq!(s.begin_pass(4), 0);
    let mut ran = 0;
    while s.tick().is_some() {
        ran += 1;
    }
    assert_eq!(ran, 4);
}

#[test]
fn more_than_a_second_runs_one_tick() {
    let mut s = Server::new("alpha".to_string(), 4);
    assert_eq!(s.begin_pass(5), 4);
    assert!(s.tick().is_some());
    assert_eq!(s.tick(), None);
}

#[test]
fn huge_backlog_runs_one_tick() {
    let mut s = Server::new("alpha".to_string(), 128);
    assert_eq!(s.begin_pass(u32::MAX), u32::MAX - 1);
    let mut ran = 0;
    while s.tick().is_some() {
        ran += 1;
    }
    assert_eq!(ran, 1);
}

#[test]
fn first_tick_leaves_idle() {
    let mut s = Server::new("alpha".to_string(), 128);
    s.begin_pass(1);
    assert_eq!(s.tick(), Some(TickWork::Command));
    assert_eq!(s.state(), State::Loading);
    s.begin_pass(1);
    assert_eq!(s.tick(), Some(TickWork::Transport));
    assert_eq!(s.state(), State::Loading);
}

#[test]
fn new_pass_replaces_the_old_one() {
    let mut s = Server::new("alpha".to_string(), 128);
    s.begin_pass(10);
    assert!(s.tick().is_some());
    s.begin_pass(1);
    assert!(s.tick().is_some());
    assert_eq!(s.tick(), None);
}

#[test]
fn timer_has_the_servers_rate() {
    let s = Server::new("alpha".to_string(), 250);
    let t = s.timer();
    assert_eq!(t.tick_nanos(), 4_000_000);
    assert_eq!(t.residue_nanos(), 0);
}
