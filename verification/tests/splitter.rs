use std::collections::HashMap;

use bloodthief_autosplitter::memory::{Reply, Request, Step};
use bloodthief_autosplitter::splitter::{setup, tick, SplitterState, TickActions};

fn none() -> TickActions {
    TickActions {
        restart_on_entry: false,
        set_game_time: false,
        restart_on_reset: false,
        accumulate: false,
        split: false,
    }
}

#[test]
fn entering_the_first_level_restarts_the_timer() {
    let s = SplitterState::new();
    let (next, a) = tick(s, Some("JakePractice2"), Some(0), Some(false));
    assert_eq!(next, SplitterState { is_in_level: true, level_is_finished: 0 });
    assert_eq!(
        a,
        TickActions { restart_on_entry: true, set_game_time: true, ..none() }
    );
}

#[test]
fn entering_another_level_does_not_restart() {
    let s = SplitterState::new();
    let (next, a) = tick(s, Some("Dungeon1"), Some(0), Some(false));
    assert!(next.is_in_level);
    assert_eq!(a, TickActions { set_game_time: true, ..none() });
}

#[test]
fn entering_a_finished_first_level_does_not_restart() {
    let s = SplitterState::new();
    let (_, a) = tick(s, Some("JakePractice2"), Some(1), Some(false));
    assert!(!a.restart_on_entry);
    assert!(a.split);
}

#[test]
fn staying_in_a_level_only_sets_the_game_time() {
    let s = SplitterState { is_in_level: true, level_is_finished: 0 };
    let (next, a) = tick(s, Some("JakePractice2"), Some(0), Some(false));
    assert_eq!(next, s);
    assert_eq!(a, TickActions { set_game_time: true, ..none() });
}

#[test]
fn finishing_a_level_splits_once() {
    let s = SplitterState { is_in_level: true, level_is_finished: 0 };
    let (next, a) = tick(s, Some("Fortress"), Some(1), Some(false));
    assert!(a.split);
    assert_eq!(next.level_is_finished, 1);
    let (next2, a2) = tick(next, Some("Fortress"), Some(1), Some(false));
    assert!(!a2.split);
    let (next3, _) = tick(next2, Some("DoomChapel"), Some(0), Some(false));
    let (_, a4) = tick(next3, Some("DoomChapel"), Some(1), Some(false));
    assert!(a4.split);
}

#[test]
fn finishing_splits_even_on_the_main_screen() {
    let s = SplitterState { is_in_level: false, level_is_finished: 0 };
    let (next, a) = tick(s, Some("MainScreen"), Some(1), Some(false));
    assert!(!next.is_in_level);
    assert_eq!(a, TickActions { split: true, ..none() });
}

#[test]
fn time_going_back_in_the_first_level_restarts() {
    let s = SplitterState { is_in_level: true, level_is_finished: 0 };
    let (_, a) = tick(s, Some("JakePractice2"), Some(0), Some(true));
    assert_eq!(a, TickActions { set_game_time: true, restart_on_reset: true, ..none() });
}

#[test]
fn time_going_back_elsewhere_accumulates() {
    let s = SplitterState { is_in_level: true, level_is_finished: 0 };
    let (_, a) = tick(s, Some("MysteryCastle2"), Some(0), Some(true));
    assert_eq!(a, TickActions { set_game_time: true, accumulate: true, ..none() });
    let s = SplitterState { is_in_level: true, level_is_finished: 1 };
    let (_, a) = tick(s, Some("JakePractice2"), Some(1), Some(true));
    assert_eq!(a, TickActions { set_game_time: true, accumulate: true, ..none() });
}

#[test]
fn leaving_to_the_main_screen_does_nothing() {
    let s = SplitterState { is_in_level: true, level_is_finished: 0 };
    let (next, a) = tick(s, Some("MainScreen"), Some(0), Some(true));
    assert!(!next.is_in_level);
    assert_eq!(a, none());
}

#[test]
fn failed_reads_change_little() {
    let s = SplitterState { is_in_level: true, level_is_finished: 0 };
    assert_eq!(tick(s, None, None, None), (s, none()));
    assert_eq!(tick(s, Some("Fortress"), None, None), (s, none()));
    let (next, a) = tick(s, Some("Fortress"), Some(1), None);
    assert_eq!(next, SplitterState { is_in_level: true, level_is_finished: 1 });
    assert_eq!(a, none());
    // the finish seen without a time read is not split on later
    let (_, a2) = tick(next, Some("Fortress"), Some(1), Some(false));
    assert!(!a2.split);
}

#[derive(Default)]
struct Mem {
    pointers: HashMap<u64, u64>,
    ints: HashMap<u64, i32>,
}

impl Mem {
    fn reply(&self, request: Request) -> Reply {
        match request {
            Request::Pointer(a) => Reply::Pointer(self.pointers.get(&a).copied()),
            Request::Int(a) => Reply::Int(self.ints.get(&a).copied()),
        }
    }

    /// A node at `node` named `name` on Linux.
    fn put_node(&mut self, node: u64, name: &str) {
        let name_ptr = node + 0x800;
        let chars = node + 0x900;
        self.pointers.insert(node + 0x200, name_ptr);
        self.pointers.insert(name_ptr + 0x10, chars);
        for (i, c) in name.chars().enumerate() {
            self.ints.insert(chars + 4 * i as u64, c as i32);
        }
        self.ints.insert(chars + 4 * name.len() as u64, 0);
    }
}

fn run_setup(mem: &Mem, os: &str, scan: u64) -> Option<(u64, u64, u64, u64)> {
    let (mut m, mut req) = setup(os, scan);
    loop {
        match m.resume(mem.reply(req)) {
            Step::Read(next, r) => {
                m = next;
                req = r;
            }
            Step::Done(v) => return v,
        }
    }
}

/// The game as seen on Linux: the scan matched at 0x1000.
fn game(children: &[(u64, &str)]) -> Mem {
    let mut mem = Mem::default();
    mem.ints.insert(0x1003, 0x200);
    mem.pointers.insert(0x1000 + 0x200 + 7, 0x20000); // scene tree
    mem.pointers.insert(0x20000 + 0x370, 0x30000); // root window
    mem.ints.insert(0x30000 + 0x1a0, children.len() as i32);
    mem.pointers.insert(0x30000 + 0x1a8, 0x40000); // child array
    for (i, (node, name)) in children.iter().enumerate() {
        mem.pointers.insert(0x40000 + 8 * i as u64, *node);
        mem.put_node(*node, name);
        mem.pointers.insert(node + 0x68, node + 0x5);
    }
    mem
}

#[test]
fn setup_finds_the_nodes_and_scripts() {
    let mem = game(&[
        (0x50000, "Root"),
        (0x51000, "GameManager"),
        (0x52000, "EndLevelScreen"),
        (0x53000, "StatsService"),
    ]);
    assert_eq!(run_setup(&mem, "linux", 0x1000), Some((0x20000, 0x51005, 0x52000, 0x53005)));
}

#[test]
fn setup_with_a_negative_displacement() {
    let mut mem = game(&[(0x51000, "GameManager"), (0x52000, "EndLevelScreen"), (0x53000, "StatsService")]);
    mem.ints.insert(0x1003, -0x10);
    mem.pointers.insert(0x1000 - 0x10 + 7, 0x20000);
    assert_eq!(run_setup(&mem, "linux", 0x1000), Some((0x20000, 0x51005, 0x52000, 0x53005)));
}

#[test]
fn setup_keeps_the_last_node_of_a_name() {
    let mem = game(&[
        (0x51000, "GameManager"),
        (0x52000, "EndLevelScreen"),
        (0x53000, "StatsService"),
        (0x54000, "GameManager"),
    ]);
    assert_eq!(run_setup(&mem, "linux", 0x1000), Some((0x20000, 0x54005, 0x52000, 0x53005)));
}

#[test]
fn setup_without_a_node_is_retried() {
    let mem = game(&[(0x51000, "GameManager"), (0x53000, "StatsService")]);
    assert_eq!(run_setup(&mem, "linux", 0x1000), None);
}

#[test]
fn setup_stops_at_an_unreadable_child() {
    let mut mem = game(&[
        (0x51000, "GameManager"),
        (0x52000, "EndLevelScreen"),
        (0x53000, "StatsService"),
    ]);
    mem.pointers.remove(&0x40008);
    assert_eq!(run_setup(&mem, "linux", 0x1000), None);
    let mut mem = game(&[
        (0x51000, "GameManager"),
        (0x52000, "EndLevelScreen"),
        (0x53000, "StatsService"),
        (0x54000, "Extra"),
    ]);
    mem.pointers.remove(&(0x54000 + 0x200));
    assert_eq!(run_setup(&mem, "linux", 0x1000), Some((0x20000, 0x51005, 0x52000, 0x53005)));
}

#[test]
fn setup_fails_before_the_children() {
    let mem = Mem::default();
    assert_eq!(run_setup(&mem, "linux", 0x1000), None);
    let mem = game(&[(0x51000, "GameManager"), (0x52000, "EndLevelScreen"), (0x53000, "StatsService")]);
    assert_eq!(run_setup(&mem, "windows", 0x1000), None);
}

#[test]
fn setup_needs_both_scripts() {
    let mut mem = game(&[(0x51000, "GameManager"), (0x52000, "EndLevelScreen"), (0x53000, "StatsService")]);
    mem.pointers.remove(&(0x53000 + 0x68));
    assert_eq!(run_setup(&mem, "linux", 0x1000), None);
}
