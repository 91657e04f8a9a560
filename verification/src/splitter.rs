//! The splitter's decisions: which level a scene is, what to do with the
//! timer on each tick, and finding the game's nodes after attaching.
use vstd::prelude::*;
use crate::bt_memory::{
    get_node_child_array, get_node_child_count, get_node_script, get_root_window,
    law_read_node_name, lemma_node_name_reads_bounded, node_child_array_offset,
    node_child_count_offset, node_name_at, node_name_offset, read_node_name, root_window_offset,
    str_equal, NodeNameRead, NodeNameReadModel, SCENE_TREE, SCENE_TREE_OFFSET,
};
use crate::memory::{
    add_offset, after_reads, offset_address, signed_offset_address, Progress, Reply, Request, Snapshot,
    Step,
};

verus! {

/// The level number of the scene named `name`; 0 for any scene that is no level.
pub open spec fn level_of(name: Seq<char>) -> isize {
    if name == "JakePractice2"@ {
        1
    } else if name == "JakePractice3"@ {
        2
    } else if name == "MysteryCastle2"@ {
        3
    } else if name == "Dungeon1"@ {
        4
    } else if name == "Fortress"@ {
        5
    } else if name == "DoomChapel"@ {
        6
    } else {
        0
    }
}

/// The level number of the scene named `name` (0 for the main screen and
/// any other scene that is no level).
pub fn level_number(name: &str) -> (r: isize)
    ensures
        r == level_of(name@),
{
    if str_equal(name, "JakePractice2") {
        return 1;
    } else if str_equal(name, "JakePractice3") {
        return 2;
    } else if str_equal(name, "MysteryCastle2") {
        return 3;
    } else if str_equal(name, "Dungeon1") {
        return 4;
    } else if str_equal(name, "Fortress") {
        return 5;
    } else if str_equal(name, "DoomChapel") {
        return 6;
    }
    return 0;
}

/// What the splitter remembers from one tick to the next.
#[derive(Clone, Copy, Debug, PartialEq, Eq, Structural)]
pub struct SplitterState {
    /// The current scene was a level (not the main screen).
    pub is_in_level: bool,
    /// The last value read of the end level screen's visibility flag.
    pub level_is_finished: i32,
}

impl SplitterState {
    /// The state before the first tick.
    pub fn new() -> (r: SplitterState)
        ensures
            r == (SplitterState { is_in_level: false, level_is_finished: 0 }),
    {
        SplitterState { is_in_level: false, level_is_finished: 0 }
    }
}

/// What the host does with the timer on a tick, in this order.
#[derive(Clone, Copy, Debug, PartialEq, Eq, Structural)]
pub struct TickActions {
    /// A level was entered: zero the accumulated in-game time, then reset and
    /// start the timer.
    pub restart_on_entry: bool,
    /// Set the timer's game time to the in-game time plus the accumulated time.
    pub set_game_time: bool,
    /// The in-game time went back: reset and start the timer.
    pub restart_on_reset: bool,
    /// The in-game time went back: add the previous in-game time to the
    /// accumulated time.
    pub accumulate: bool,
    /// Split.
    pub split: bool,
}

/// No action at all.
pub open spec fn no_actions() -> TickActions {
    TickActions {
        restart_on_entry: false,
        set_game_time: false,
        restart_on_reset: false,
        accumulate: false,
        split: false,
    }
}

/// One tick's decisions, from what this tick's reads gave: the name of the
/// current scene, the end level screen's visibility flag, and whether the
/// in-game time went back since the last tick (`None` where a read failed;
/// each read is made only when the ones before it succeeded).
///
/// Where the scene or the flag could not be read, nothing changes. Where the
/// in-game time could not be read, only the flag is remembered. Otherwise
/// the scene is a level unless it is `MainScreen`, and:
/// - entering a level that is the first one, while the level is not
///   finished, restarts the timer;
/// - in a level, the game time is set; when the in-game time went back, the
///   timer restarts if this is the first level and it was not finished at the
///   last tick, and the previous in-game time is accumulated otherwise;
/// - the flag turning from 0 to 1, the level being finished, splits.
pub open spec fn tick_outcome(
    state: SplitterState,
    current_scene: Option<Seq<char>>,
    level_end_visible: Option<i32>,
    igt_went_back: Option<bool>,
) -> (SplitterState, TickActions) {
    match (current_scene, level_end_visible, igt_went_back) {
        (Some(scene), Some(finished), Some(went_back)) => {
            let in_level = scene != "MainScreen"@;
            let first_level = level_of(scene) == 1;
            (
                SplitterState { is_in_level: in_level, level_is_finished: finished },
                TickActions {
                    restart_on_entry: in_level && !state.is_in_level && first_level && finished != 1,
                    set_game_time: in_level,
                    restart_on_reset: in_level && went_back && first_level && state.level_is_finished
                        == 0,
                    accumulate: in_level && went_back && !(first_level && state.level_is_finished
                        == 0),
                    split: finished == 1 && state.level_is_finished == 0,
                },
            )
        },
        (Some(_), Some(finished), None) => (
            SplitterState { is_in_level: state.is_in_level, level_is_finished: finished },
            no_actions(),
        ),
        _ => (state, no_actions()),
    }
}

/// The name of the scene, where it could be read.
pub open spec fn scene_view(current_scene: Option<&str>) -> Option<Seq<char>> {
    match current_scene {
        Some(s) => Some(s@),
        None => None,
    }
}

/// One tick's decisions (see [`tick_outcome`]).
pub fn tick(
    state: SplitterState,
    current_scene: Option<&str>,
    level_end_visible: Option<i32>,
    igt_went_back: Option<bool>,
) -> (r: (SplitterState, TickActions))
    ensures
        r == tick_outcome(state, scene_view(current_scene), level_end_visible, igt_went_back),
{
    let none = TickActions {
        restart_on_entry: false,
        set_game_time: false,
        restart_on_reset: false,
        accumulate: false,
        split: false,
    };
    let scene = match current_scene {
        Some(s) => s,
        None => return (state, none),
    };
    let level_was_finished = state.level_is_finished;
    let level_is_finished = match level_end_visible {
        Some(v) => v,
        None => return (state, none),
    };
    let went_back = match igt_went_back {
        Some(b) => b,
        None => return (SplitterState { is_in_level: state.is_in_level, level_is_finished }, none),
    };
    let was_in_level = state.is_in_level;
    let is_in_level = !str_equal(scene, "MainScreen");
    let mut actions = none;
    if is_in_level && !was_in_level {
        if level_number(scene) == 1 && level_is_finished != 1 {
            actions.restart_on_entry = true;
        }
    }
    if is_in_level {
        actions.set_game_time = true;
        if went_back {
            if level_number(scene) == 1 && level_was_finished == 0 {
                actions.restart_on_reset = true;
            } else {
                actions.accumulate = true;
            }
        }
    }
    if level_is_finished == 1 && level_was_finished == 0 {
        actions.split = true;
    }
    (SplitterState { is_in_level, level_is_finished }, actions)
}


/// The nodes found among the root window's children; 0 where none was found.
#[derive(Clone, Copy, Debug, PartialEq, Eq, Structural)]
pub struct FoundNodes {
    pub game_manager: u64,
    pub end_level_screen: u64,
    pub stats_service: u64,
}

/// Nothing found yet.
pub open spec fn nothing_found() -> FoundNodes {
    FoundNodes { game_manager: 0, end_level_screen: 0, stats_service: 0 }
}

/// `found` after the child at `child`, named `name`: the child is the game
/// manager, the stats service or the end level screen when it has that name.
pub open spec fn record_child(found: FoundNodes, name: Seq<char>, child: u64) -> FoundNodes {
    FoundNodes {
        game_manager: if name == "GameManager"@ { child } else { found.game_manager },
        end_level_screen: if name == "EndLevelScreen"@ { child } else { found.end_level_screen },
        stats_service: if name == "StatsService"@ { child } else { found.stats_service },
    }
}

/// Where the pointer to the `index`-th child lies in the array at
/// `child_array`: pointers are 8 bytes apart, and `8 * index` is computed in
/// 32 bits and wraps.
pub open spec fn child_address(child_array: u64, index: int) -> u64 {
    add_offset(child_array, vstd::wrapping::i32_specs::wrapping_mul(8, index as i32) as int)
}

/// What setting up gives: the scene tree, the game manager's script, the end
/// level screen and the stats service's script.
pub type SetupResult = (u64, u64, u64, u64);

/// Where a [`SetupRead`] stands, seen abstractly.
pub enum SetupPhase {
    /// Waiting for the 32-bit displacement to the scene tree pointer.
    Offset,
    /// Waiting for the scene tree.
    SceneTree { offset: i32 },
    /// Waiting for the root window.
    RootWindow { scene_tree: u64 },
    /// Waiting for the root window's child count.
    ChildCount { scene_tree: u64, root_window: u64 },
    /// Waiting for the root window's array of children.
    ChildArray { scene_tree: u64, root_window: u64, child_count: i32 },
    /// Waiting for the pointer to the `index`-th child.
    Child { scene_tree: u64, child_array: u64, child_count: i32, index: int, found: FoundNodes },
    /// Reading the name of the `index`-th child, at `child`.
    ChildName {
        scene_tree: u64,
        child_array: u64,
        child_count: i32,
        index: int,
        child: u64,
        reader: NodeNameReadModel,
        found: FoundNodes,
    },
    /// Waiting for the game manager's script.
    GameManagerScript { scene_tree: u64, found: FoundNodes },
    /// Waiting for the stats service's script.
    StatsScript { scene_tree: u64, found: FoundNodes, game_manager_script: u64 },
}

/// Where a [`SetupRead`] stands, seen abstractly: on `os`, from the address
/// `scan` where the scene tree signature was found.
pub struct SetupModel {
    pub os: Seq<char>,
    pub scan: u64,
    pub phase: SetupPhase,
}

/// The outcome, and the reads made, of going on from `progress` within `fuel`
/// steps answered from `snap`.
pub open spec fn setup_progress_run(
    progress: Progress<SetupModel, Option<SetupResult>>,
    snap: Snapshot,
    fuel: nat,
) -> Option<(Option<SetupResult>, nat)> {
    match progress {
        Progress::Finished(r) => Some((r, 0)),
        Progress::Continue(m) => m.run(snap, fuel),
    }
}

impl SetupModel {
    pub open spec fn start(os: Seq<char>, scan: u64) -> SetupModel {
        SetupModel { os, scan, phase: SetupPhase::Offset }
    }

    pub open spec fn with_phase(self, phase: SetupPhase) -> SetupModel {
        SetupModel { os: self.os, scan: self.scan, phase }
    }

    pub open spec fn pending(self) -> Request {
        match self.phase {
            SetupPhase::Offset => Request::Int(add_offset(self.scan, SCENE_TREE_OFFSET as int)),
            SetupPhase::SceneTree { offset } => Request::Pointer(
                add_offset(add_offset(self.scan, offset as int), SCENE_TREE as int),
            ),
            SetupPhase::RootWindow { scene_tree } => Request::Pointer(
                add_offset(scene_tree, root_window_offset(self.os) as int),
            ),
            SetupPhase::ChildCount { root_window, .. } => Request::Int(
                add_offset(root_window, node_child_count_offset(self.os) as int),
            ),
            SetupPhase::ChildArray { root_window, .. } => Request::Pointer(
                add_offset(root_window, node_child_array_offset(self.os) as int),
            ),
            SetupPhase::Child { child_array, index, .. } => Request::Pointer(
                child_address(child_array, index),
            ),
            SetupPhase::ChildName { reader, .. } => reader.pending(),
            SetupPhase::GameManagerScript { found, .. } => Request::Pointer(
                add_offset(found.game_manager, 0x68),
            ),
            SetupPhase::StatsScript { found, .. } => Request::Pointer(
                add_offset(found.stats_service, 0x68),
            ),
        }
    }

    /// After the children: all three nodes must have been found, else
    /// setting up gives `None` (and is tried again); then the game manager's
    /// script is read.
    pub open spec fn check(self, scene_tree: u64, found: FoundNodes) -> Progress<
        SetupModel,
        Option<SetupResult>,
    > {
        if found.game_manager == 0 || found.end_level_screen == 0 || found.stats_service == 0 {
            Progress::Finished(None)
        } else {
            Progress::Continue(self.with_phase(SetupPhase::GameManagerScript { scene_tree, found }))
        }
    }

    /// Arriving at the `index`-th child: past the child count, the children
    /// are done; otherwise its pointer is read.
    pub open spec fn arrive(
        self,
        scene_tree: u64,
        child_array: u64,
        child_count: i32,
        index: int,
        found: FoundNodes,
    ) -> Progress<SetupModel, Option<SetupResult>> {
        if index >= child_count {
            self.check(scene_tree, found)
        } else {
            Progress::Continue(
                self.with_phase(SetupPhase::Child { scene_tree, child_array, child_count, index, found }),
            )
        }
    }

    /// One step. A failed read before the children gives `None`; a failed
    /// read of a child's pointer or name ends the children early.
    pub open spec fn advance(self, reply: Reply) -> Progress<SetupModel, Option<SetupResult>> {
        match self.phase {
            SetupPhase::Offset => match reply {
                Reply::Int(Some(offset)) => Progress::Continue(
                    self.with_phase(SetupPhase::SceneTree { offset }),
                ),
                _ => Progress::Finished(None),
            },
            SetupPhase::SceneTree { .. } => match reply {
                Reply::Pointer(Some(scene_tree)) => Progress::Continue(
                    self.with_phase(SetupPhase::RootWindow { scene_tree }),
                ),
                _ => Progress::Finished(None),
            },
            SetupPhase::RootWindow { scene_tree } => match reply {
                Reply::Pointer(Some(root_window)) => Progress::Continue(
                    self.with_phase(SetupPhase::ChildCount { scene_tree, root_window }),
                ),
                _ => Progress::Finished(None),
            },
            SetupPhase::ChildCount { scene_tree, root_window } => match reply {
                Reply::Int(Some(child_count)) => Progress::Continue(
                    self.with_phase(SetupPhase::ChildArray { scene_tree, root_window, child_count }),
                ),
                _ => Progress::Finished(None),
            },
            SetupPhase::ChildArray { scene_tree, child_count, .. } => match reply {
                Reply::Pointer(Some(child_array)) => self.arrive(
                    scene_tree,
                    child_array,
                    child_count,
                    0,
                    nothing_found(),
                ),
                _ => Progress::Finished(None),
            },
            SetupPhase::Child { scene_tree, child_array, child_count, index, found } => match reply {
                Reply::Pointer(Some(child)) => Progress::Continue(
                    self.with_phase(
                        SetupPhase::ChildName {
                            scene_tree,
                            child_array,
                            child_count,
                            index,
                            child,
                            reader: NodeNameReadModel::start(child, node_name_offset(self.os)),
                            found,
                        },
                    ),
                ),
                _ => self.check(scene_tree, found),
            },
            SetupPhase::ChildName {
                scene_tree,
                child_array,
                child_count,
                index,
                child,
                reader,
                found,
            } => match reader.advance(reply) {
                Progress::Continue(next) => Progress::Continue(
                    self.with_phase(
                        SetupPhase::ChildName {
                            scene_tree,
                            child_array,
                            child_count,
                            index,
                            child,
                            reader: next,
                            found,
                        },
                    ),
                ),
                Progress::Finished(name) => self.after_child(
                    scene_tree,
                    child_array,
                    child_count,
                    index,
                    child,
                    found,
                    name,
                ),
            },
            SetupPhase::GameManagerScript { scene_tree, found } => match reply {
                Reply::Pointer(Some(game_manager_script)) => Progress::Continue(
                    self.with_phase(SetupPhase::StatsScript { scene_tree, found, game_manager_script }),
                ),
                _ => Progress::Finished(None),
            },
            SetupPhase::StatsScript { scene_tree, found, game_manager_script } => match reply {
                Reply::Pointer(Some(stats_script)) => Progress::Finished(
                    Some((scene_tree, game_manager_script, found.end_level_screen, stats_script)),
                ),
                _ => Progress::Finished(None),
            },
        }
    }

    /// After the name of the `index`-th child: a failed name ends the
    /// children; otherwise the child is recorded and the next one follows.
    pub open spec fn after_child(
        self,
        scene_tree: u64,
        child_array: u64,
        child_count: i32,
        index: int,
        child: u64,
        found: FoundNodes,
        name: Option<Seq<char>>,
    ) -> Progress<SetupModel, Option<SetupResult>> {
        match name {
            None => self.check(scene_tree, found),
            Some(name) => self.arrive(
                scene_tree,
                child_array,
                child_count,
                index + 1,
                record_child(found, name, child),
            ),
        }
    }

    /// The outcome and the reads made within `fuel` steps answered from `snap`.
    pub open spec fn run(self, snap: Snapshot, fuel: nat) -> Option<(Option<SetupResult>, nat)>
        decreases fuel,
    {
        if fuel == 0 {
            None
        } else {
            match self.advance(snap.reply_to(self.pending())) {
                Progress::Finished(r) => Some((r, 1)),
                Progress::Continue(next) => after_reads(1, next.run(snap, (fuel - 1) as nat)),
            }
        }
    }
}

/// The root window's children in `snap` from the `index`-th on, within `fuel`
/// reads: the nodes found among them, starting from `found`, and the reads it
/// takes. A child's pointer or name that cannot be read ends the children.
pub open spec fn children_at(
    snap: Snapshot,
    os: Seq<char>,
    child_array: u64,
    child_count: int,
    index: int,
    found: FoundNodes,
    fuel: nat,
) -> Option<(FoundNodes, nat)>
    decreases fuel,
{
    if index >= child_count {
        Some((found, 0))
    } else if fuel == 0 {
        None
    } else {
        match snap.pointer_at(child_address(child_array, index)) {
            None => Some((found, 1)),
            Some(child) => match node_name_at(snap, child, node_name_offset(os), (fuel - 1) as nat) {
                None => None,
                Some((None, k)) => Some((found, k + 1)),
                Some((Some(name), k)) => if k < fuel {
                    after_reads(
                        k + 1,
                        children_at(
                            snap,
                            os,
                            child_array,
                            child_count,
                            index + 1,
                            record_child(found, name, child),
                            (fuel - 1 - k) as nat,
                        ),
                    )
                } else {
                    None
                },
            },
        }
    }
}

/// With the children done: unless all three nodes were found, `None` at once;
/// otherwise the scripts of the game manager and the stats service are read,
/// within `fuel` reads.
pub open spec fn scripts_at(snap: Snapshot, scene_tree: u64, found: FoundNodes, fuel: nat) -> Option<
    (Option<SetupResult>, nat),
> {
    if found.game_manager == 0 || found.end_level_screen == 0 || found.stats_service == 0 {
        Some((None, 0))
    } else if fuel == 0 {
        None
    } else {
        match snap.pointer_at(add_offset(found.game_manager, 0x68)) {
            None => Some((None, 1)),
            Some(game_manager_script) => if fuel < 2 {
                None
            } else {
                match snap.pointer_at(add_offset(found.stats_service, 0x68)) {
                    None => Some((None, 2)),
                    Some(stats_script) => Some(
                        (
                            Some(
                                (
                                    scene_tree,
                                    game_manager_script,
                                    found.end_level_screen,
                                    stats_script,
                                ),
                            ),
                            2,
                        ),
                    ),
                }
            },
        }
    }
}

/// Setting up in `snap` on `os`, from the address `scan` where the scene tree
/// signature was found, within `fuel` reads, and the reads it takes: the
/// displacement after `scan` leads to the scene tree, whose root window's
/// children are searched by name for the game manager, the end level screen
/// and the stats service; then the two scripts are read.
pub open spec fn setup_at(snap: Snapshot, os: Seq<char>, scan: u64, fuel: nat) -> Option<(Option<SetupResult>, nat)> {
    if fuel == 0 {
        None
    } else {
        match snap.int_at(add_offset(scan, SCENE_TREE_OFFSET as int)) {
            None => Some((None, 1)),
            Some(offset) => if fuel < 2 {
                None
            } else {
                match snap.pointer_at(add_offset(add_offset(scan, offset as int), SCENE_TREE as int)) {
                    None => Some((None, 2)),
                    Some(scene_tree) => if fuel < 3 {
                        None
                    } else {
                        match snap.pointer_at(add_offset(scene_tree, root_window_offset(os) as int)) {
                            None => Some((None, 3)),
                            Some(root_window) => if fuel < 4 {
                                None
                            } else {
                                match snap.int_at(add_offset(root_window, node_child_count_offset(os) as int)) {
                                    None => Some((None, 4)),
                                    Some(child_count) => if fuel < 5 {
                                        None
                                    } else {
                                        match snap.pointer_at(
                                            add_offset(root_window, node_child_array_offset(os) as int),
                                        ) {
                                            None => Some((None, 5)),
                                            Some(child_array) => match children_at(
                                                snap,
                                                os,
                                                child_array,
                                                child_count as int,
                                                0,
                                                nothing_found(),
                                                (fuel - 5) as nat,
                                            ) {
                                                None => None,
                                                Some((found, k)) => after_reads(
                                                    k + 5,
                                                    scripts_at(snap, scene_tree, found, (fuel - 5 - k) as nat),
                                                ),
                                            },
                                        }
                                    },
                                }
                            },
                        }
                    },
                }
            },
        }
    }
}


enum SetupStage {
    Offset,
    SceneTree { offset: i32 },
    RootWindow { scene_tree: u64 },
    ChildCount { scene_tree: u64, root_window: u64 },
    ChildArray { scene_tree: u64, root_window: u64, child_count: i32 },
    Child { scene_tree: u64, child_array: u64, child_count: i32, index: i32, found: FoundNodes },
    ChildName {
        scene_tree: u64,
        child_array: u64,
        child_count: i32,
        index: i32,
        child: u64,
        reader: NodeNameRead,
        found: FoundNodes,
    },
    GameManagerScript { scene_tree: u64, found: FoundNodes },
    StatsScript { scene_tree: u64, found: FoundNodes, game_manager_script: u64 },
}

impl View for SetupStage {
    type V = SetupPhase;

    closed spec fn view(&self) -> SetupPhase {
        match *self {
            SetupStage::Offset => SetupPhase::Offset,
            SetupStage::SceneTree { offset } => SetupPhase::SceneTree { offset },
            SetupStage::RootWindow { scene_tree } => SetupPhase::RootWindow { scene_tree },
            SetupStage::ChildCount { scene_tree, root_window } => SetupPhase::ChildCount {
                scene_tree,
                root_window,
            },
            SetupStage::ChildArray { scene_tree, root_window, child_count } => SetupPhase::ChildArray {
                scene_tree,
                root_window,
                child_count,
            },
            SetupStage::Child { scene_tree, child_array, child_count, index, found } => SetupPhase::Child {
                scene_tree,
                child_array,
                child_count,
                index: index as int,
                found,
            },
            SetupStage::ChildName {
                scene_tree,
                child_array,
                child_count,
                index,
                child,
                reader,
                found,
            } => SetupPhase::ChildName {
                scene_tree,
                child_array,
                child_count,
                index: index as int,
                child,
                reader: reader@,
                found,
            },
            SetupStage::GameManagerScript { scene_tree, found } => SetupPhase::GameManagerScript {
                scene_tree,
                found,
            },
            SetupStage::StatsScript { scene_tree, found, game_manager_script } => SetupPhase::StatsScript {
                scene_tree,
                found,
                game_manager_script,
            },
        }
    }
}

/// Finds the scene tree and the game's nodes after attaching, one read at a
/// time (see [`setup`]).
pub struct SetupRead {
    os: String,
    scan: u64,
    stage: SetupStage,
}

impl View for SetupRead {
    type V = SetupModel;

    closed spec fn view(&self) -> SetupModel {
        SetupModel { os: self.os@, scan: self.scan, phase: self.stage@ }
    }
}

/// The abstract counterpart of a step of a [`SetupRead`].
pub open spec fn setup_step_view(step: Step<SetupRead, Option<SetupResult>>) -> Progress<
    SetupModel,
    Option<SetupResult>,
> {
    match step {
        Step::Read(m, _) => Progress::Continue(m@),
        Step::Done(r) => Progress::Finished(r),
    }
}

/// Starts setting up on `os`, from the address `scene_tree_ptr` where the
/// scene tree signature was found: the machine and its first read, the
/// displacement to the scene tree pointer. A result of `None` means that the
/// game is not ready yet and setting up is to be tried again.
pub fn setup(os: &str, scene_tree_ptr: u64) -> (r: (SetupRead, Request))
    ensures
        r.0@ == SetupModel::start(os@, scene_tree_ptr),
        r.1 == r.0@.pending(),
{
    let m = SetupRead { os: os.to_owned(), scan: scene_tree_ptr, stage: SetupStage::Offset };
    let req = m.request();
    (m, req)
}

/// `found` after the child at `child` named `name`.
fn record(found: FoundNodes, name: &String, child: u64) -> (r: FoundNodes)
    ensures
        r == record_child(found, name@, child),
{
    let mut r = found;
    if str_equal(name.as_str(), "GameManager") {
        r.game_manager = child;
    }
    if str_equal(name.as_str(), "StatsService") {
        r.stats_service = child;
    }
    if str_equal(name.as_str(), "EndLevelScreen") {
        r.end_level_screen = child;
    }
    r
}

impl SetupRead {
    #[verifier::type_invariant]
    spec fn inv(self) -> bool {
        match self.stage {
            SetupStage::Child { child_count, index, .. } => 0 <= index < child_count,
            SetupStage::ChildName { child_count, index, .. } => 0 <= index < child_count,
            _ => true,
        }
    }

    /// The read the machine waits for.
    pub fn request(&self) -> (r: Request)
        ensures
            r == self@.pending(),
    {
        let os = self.os.as_str();
        match &self.stage {
            SetupStage::Offset => Request::Int(offset_address(self.scan, SCENE_TREE_OFFSET)),
            SetupStage::SceneTree { offset } => Request::Pointer(
                offset_address(signed_offset_address(self.scan, *offset), SCENE_TREE),
            ),
            SetupStage::RootWindow { scene_tree } => Request::Pointer(
                offset_address(*scene_tree, get_root_window(os)),
            ),
            SetupStage::ChildCount { root_window, .. } => Request::Int(
                offset_address(*root_window, get_node_child_count(os)),
            ),
            SetupStage::ChildArray { root_window, .. } => Request::Pointer(
                offset_address(*root_window, get_node_child_array(os)),
            ),
            SetupStage::Child { child_array, index, .. } => {
                let step: i32 = 8;
                Request::Pointer(signed_offset_address(*child_array, step.wrapping_mul(*index)))
            },
            SetupStage::ChildName { reader, .. } => reader.request(),
            SetupStage::GameManagerScript { found, .. } => Request::Pointer(
                offset_address(found.game_manager, get_node_script(os)),
            ),
            SetupStage::StatsScript { found, .. } => Request::Pointer(
                offset_address(found.stats_service, get_node_script(os)),
            ),
        }
    }

    /// The machine in `stage`, with the read it waits for.
    fn enter(os: String, scan: u64, stage: SetupStage) -> (r: Step<SetupRead, Option<SetupResult>>)
        requires
            (SetupRead { os, scan, stage }).inv(),
        ensures
            r matches Step::Read(m, req) && m@ == (SetupModel { os: os@, scan, phase: stage@ })
                && req == m@.pending(),
    {
        let m = SetupRead { os, scan, stage };
        let req = m.request();
        Step::Read(m, req)
    }

    fn check(os: String, scan: u64, scene_tree: u64, found: FoundNodes) -> (r: Step<
        SetupRead,
        Option<SetupResult>,
    >)
        ensures
            setup_step_view(r) == SetupModel::start(os@, scan).check(scene_tree, found),
            r matches Step::Read(m, req) ==> req == m@.pending(),
    {
        if found.game_manager == 0 || found.end_level_screen == 0 || found.stats_service == 0 {
            Step::Done(None)
        } else {
            SetupRead::enter(os, scan, SetupStage::GameManagerScript { scene_tree, found })
        }
    }

    fn arrive(
        os: String,
        scan: u64,
        scene_tree: u64,
        child_array: u64,
        child_count: i32,
        index: i32,
        found: FoundNodes,
    ) -> (r: Step<SetupRead, Option<SetupResult>>)
        requires
            0 <= index,
        ensures
            setup_step_view(r) == SetupModel::start(os@, scan).arrive(
                scene_tree,
                child_array,
                child_count,
                index as int,
                found,
            ),
            r matches Step::Read(m, req) ==> req == m@.pending(),
    {
        if index >= child_count {
            SetupRead::check(os, scan, scene_tree, found)
        } else {
            SetupRead::enter(
                os,
                scan,
                SetupStage::Child { scene_tree, child_array, child_count, index, found },
            )
        }
    }

    /// Takes the reply to the pending read and moves on.
    pub fn resume(self, reply: Reply) -> (r: Step<SetupRead, Option<SetupResult>>)
        requires
            reply.answers(self@.pending()),
        ensures
            setup_step_view(r) == self@.advance(reply),
            r matches Step::Read(m, req) ==> req == m@.pending(),
    {
        proof {
            use_type_invariant(&self);
        }
        let SetupRead { os, scan, stage } = self;
        match stage {
            SetupStage::Offset => match reply {
                Reply::Int(Some(offset)) => SetupRead::enter(os, scan, SetupStage::SceneTree { offset }),
                _ => Step::Done(None),
            },
            SetupStage::SceneTree { .. } => match reply {
                Reply::Pointer(Some(scene_tree)) => SetupRead::enter(
                    os,
                    scan,
                    SetupStage::RootWindow { scene_tree },
                ),
                _ => Step::Done(None),
            },
            SetupStage::RootWindow { scene_tree } => match reply {
                Reply::Pointer(Some(root_window)) => SetupRead::enter(
                    os,
                    scan,
                    SetupStage::ChildCount { scene_tree, root_window },
                ),
                _ => Step::Done(None),
            },
            SetupStage::ChildCount { scene_tree, root_window } => match reply {
                Reply::Int(Some(child_count)) => SetupRead::enter(
                    os,
                    scan,
                    SetupStage::ChildArray { scene_tree, root_window, child_count },
                ),
                _ => Step::Done(None),
            },
            SetupStage::ChildArray { scene_tree, child_count, .. } => match reply {
                Reply::Pointer(Some(child_array)) => SetupRead::arrive(
                    os,
                    scan,
                    scene_tree,
                    child_array,
                    child_count,
                    0,
                    FoundNodes { game_manager: 0, end_level_screen: 0, stats_service: 0 },
                ),
                _ => Step::Done(None),
            },
            SetupStage::Child { scene_tree, child_array, child_count, index, found } => match reply {
                Reply::Pointer(Some(child)) => {
                    let (reader, _) = read_node_name(child, os.as_str());
                    SetupRead::enter(
                        os,
                        scan,
                        SetupStage::ChildName {
                            scene_tree,
                            child_array,
                            child_count,
                            index,
                            child,
                            reader,
                            found,
                        },
                    )
                },
                _ => SetupRead::check(os, scan, scene_tree, found),
            },
            SetupStage::ChildName {
                scene_tree,
                child_array,
                child_count,
                index,
                child,
                reader,
                found,
            } => match reader.resume(reply) {
                Step::Read(next, _) => SetupRead::enter(
                    os,
                    scan,
                    SetupStage::ChildName {
                        scene_tree,
                        child_array,
                        child_count,
                        index,
                        child,
                        reader: next,
                        found,
                    },
                ),
                Step::Done(None) => SetupRead::check(os, scan, scene_tree, found),
                Step::Done(Some(name)) => {
                    let found = record(found, &name, child);
                    SetupRead::arrive(os, scan, scene_tree, child_array, child_count, index + 1, found)
                },
            },
            SetupStage::GameManagerScript { scene_tree, found } => match reply {
                Reply::Pointer(Some(game_manager_script)) => SetupRead::enter(
                    os,
                    scan,
                    SetupStage::StatsScript { scene_tree, found, game_manager_script },
                ),
                _ => Step::Done(None),
            },
            SetupStage::StatsScript { scene_tree, found, game_manager_script } => match reply {
                Reply::Pointer(Some(stats_script)) => Step::Done(
                    Some((scene_tree, game_manager_script, found.end_level_screen, stats_script)),
                ),
                _ => Step::Done(None),
            },
        }
    }
}


proof fn lemma_setup_name_phase(
    m: SetupModel,
    scene_tree: u64,
    child_array: u64,
    child_count: i32,
    index: int,
    child: u64,
    reader: NodeNameReadModel,
    found: FoundNodes,
    snap: Snapshot,
    fuel: nat,
)
    ensures
        m.with_phase(
            SetupPhase::ChildName { scene_tree, child_array, child_count, index, child, reader, found },
        ).run(snap, fuel) == (match reader.run(snap, fuel) {
            None => None,
            Some((name, k)) => after_reads(
                k,
                setup_progress_run(
                    m.after_child(scene_tree, child_array, child_count, index, child, found, name),
                    snap,
                    (fuel - k) as nat,
                ),
            ),
        }),
    decreases fuel,
{
    if fuel > 0 {
        match reader.advance(snap.reply_to(reader.pending())) {
            Progress::Continue(next) => {
                lemma_setup_name_phase(
                    m,
                    scene_tree,
                    child_array,
                    child_count,
                    index,
                    child,
                    next,
                    found,
                    snap,
                    (fuel - 1) as nat,
                );
            },
            Progress::Finished(_) => {},
        }
    }
}

proof fn lemma_setup_children(
    m: SetupModel,
    scene_tree: u64,
    child_array: u64,
    child_count: i32,
    index: int,
    found: FoundNodes,
    snap: Snapshot,
    fuel: nat,
)
    ensures
        setup_progress_run(m.arrive(scene_tree, child_array, child_count, index, found), snap, fuel)
            == (match children_at(snap, m.os, child_array, child_count as int, index, found, fuel) {
            None => None,
            Some((f, k)) => after_reads(
                k,
                setup_progress_run(m.check(scene_tree, f), snap, (fuel - k) as nat),
            ),
        }),
    decreases fuel,
{
    if index < child_count && fuel > 0 {
        match snap.pointer_at(child_address(child_array, index)) {
            Some(child) => {
                let f = (fuel - 1) as nat;
                let reader = NodeNameReadModel::start(child, node_name_offset(m.os));
                lemma_setup_name_phase(
                    m,
                    scene_tree,
                    child_array,
                    child_count,
                    index,
                    child,
                    reader,
                    found,
                    snap,
                    f,
                );
                law_read_node_name(snap, child, node_name_offset(m.os), f);
                lemma_node_name_reads_bounded(snap, child, node_name_offset(m.os), f);
                match node_name_at(snap, child, node_name_offset(m.os), f) {
                    Some((Some(name), k)) => {
                        lemma_setup_children(
                            m,
                            scene_tree,
                            child_array,
                            child_count,
                            index + 1,
                            record_child(found, name, child),
                            snap,
                            (f - k) as nat,
                        );
                    },
                    _ => {},
                }
            },
            None => {},
        }
    }
}

proof fn lemma_setup_scripts(m: SetupModel, scene_tree: u64, found: FoundNodes, snap: Snapshot, fuel: nat)
    ensures
        setup_progress_run(m.check(scene_tree, found), snap, fuel) == scripts_at(
            snap,
            scene_tree,
            found,
            fuel,
        ),
{
    if !(found.game_manager == 0 || found.end_level_screen == 0 || found.stats_service == 0) && fuel
        > 0 {
        let g = m.with_phase(SetupPhase::GameManagerScript { scene_tree, found });
        match snap.pointer_at(add_offset(found.game_manager, 0x68)) {
            Some(game_manager_script) => {
                let t = m.with_phase(
                    SetupPhase::StatsScript { scene_tree, found, game_manager_script },
                );
                assert(g.run(snap, fuel) == after_reads(1, t.run(snap, (fuel - 1) as nat)));
            },
            None => {},
        }
    }
}

/// Setting up against a snapshot of memory finds what is stored there: the
/// scene tree behind the scanned instruction, the game manager, end level
/// screen and stats service among its root window's children by name, and
/// the two scripts; with as many reads.
pub proof fn law_setup(snap: Snapshot, os: Seq<char>, scan: u64, fuel: nat)
    ensures
        SetupModel::start(os, scan).run(snap, fuel) == setup_at(snap, os, scan, fuel),
{
    let m = SetupModel::start(os, scan);
    if fuel > 0 {
        match snap.int_at(add_offset(scan, SCENE_TREE_OFFSET as int)) {
            Some(offset) => {
                let m1 = m.with_phase(SetupPhase::SceneTree { offset });
                assert(m.run(snap, fuel) == after_reads(1, m1.run(snap, (fuel - 1) as nat)));
                if fuel > 1 {
                    match snap.pointer_at(add_offset(add_offset(scan, offset as int), SCENE_TREE as int)) {
                        Some(scene_tree) => {
                            let m2 = m.with_phase(SetupPhase::RootWindow { scene_tree });
                            assert(m1.run(snap, (fuel - 1) as nat) == after_reads(
                                1,
                                m2.run(snap, (fuel - 2) as nat),
                            ));
                            if fuel > 2 {
                                match snap.pointer_at(add_offset(scene_tree, root_window_offset(os) as int)) {
                                    Some(root_window) => {
                                        let m3 = m.with_phase(
                                            SetupPhase::ChildCount { scene_tree, root_window },
                                        );
                                        assert(m2.run(snap, (fuel - 2) as nat) == after_reads(
                                            1,
                                            m3.run(snap, (fuel - 3) as nat),
                                        ));
                                        if fuel > 3 {
                                            law_setup_tail(snap, m, scene_tree, root_window, fuel);
                                        }
                                    },
                                    None => {},
                                }
                            }
                        },
                        None => {},
                    }
                }
            },
            None => {},
        }
    }
}

proof fn law_setup_tail(snap: Snapshot, m: SetupModel, scene_tree: u64, root_window: u64, fuel: nat)
    requires
        fuel > 3,
    ensures
        m.with_phase(SetupPhase::ChildCount { scene_tree, root_window }).run(snap, (fuel - 3) as nat)
            == (match snap.int_at(add_offset(root_window, node_child_count_offset(m.os) as int)) {
            None => Some((None, 1)),
            Some(child_count) => if fuel < 5 {
                None
            } else {
                match snap.pointer_at(add_offset(root_window, node_child_array_offset(m.os) as int)) {
                    None => Some((None, 2)),
                    Some(child_array) => match children_at(
                        snap,
                        m.os,
                        child_array,
                        child_count as int,
                        0,
                        nothing_found(),
                        (fuel - 5) as nat,
                    ) {
                        None => None,
                        Some((found, k)) => after_reads(
                            k + 2,
                            scripts_at(snap, scene_tree, found, (fuel - 5 - k) as nat),
                        ),
                    },
                }
            },
        }),
{
    let m3 = m.with_phase(SetupPhase::ChildCount { scene_tree, root_window });
    match snap.int_at(add_offset(root_window, node_child_count_offset(m.os) as int)) {
        Some(child_count) => {
            let m4 = m.with_phase(SetupPhase::ChildArray { scene_tree, root_window, child_count });
            assert(m3.run(snap, (fuel - 3) as nat) == after_reads(1, m4.run(snap, (fuel - 4) as nat)));
            if fuel > 4 {
                match snap.pointer_at(add_offset(root_window, node_child_array_offset(m.os) as int)) {
                    Some(child_array) => {
                        let f = (fuel - 5) as nat;
                        assert(m4.run(snap, (fuel - 4) as nat) == after_reads(
                            1,
                            setup_progress_run(
                                m.arrive(scene_tree, child_array, child_count, 0, nothing_found()),
                                snap,
                                f,
                            ),
                        ));
                        lemma_setup_children(
                            m,
                            scene_tree,
                            child_array,
                            child_count,
                            0,
                            nothing_found(),
                            snap,
                            f,
                        );
                        match children_at(snap, m.os, child_array, child_count as int, 0, nothing_found(), f) {
                            Some((found, k)) => {
                                lemma_setup_scripts(m, scene_tree, found, snap, (f - k) as nat);
                            },
                            None => {},
                        }
                    },
                    None => {},
                }
            }
        },
        None => {},
    }
}


/// A finish splits once: right after a tick that split, the next tick does
/// not split, whatever it reads.
pub proof fn law_split_once(
    state: SplitterState,
    scene: Option<Seq<char>>,
    level_end_visible: Option<i32>,
    igt_went_back: Option<bool>,
    next_scene: Option<Seq<char>>,
    next_level_end_visible: Option<i32>,
    next_igt_went_back: Option<bool>,
)
    requires
        tick_outcome(state, scene, level_end_visible, igt_went_back).1.split,
    ensures
        !tick_outcome(
            tick_outcome(state, scene, level_end_visible, igt_went_back).0,
            next_scene,
            next_level_end_visible,
            next_igt_went_back,
        ).1.split,
{
}

/// The timer is restarted only in the first level, and the game time is set
/// and in-game time accumulated only in a level.
pub proof fn law_restart_in_first_level(
    state: SplitterState,
    scene: Option<Seq<char>>,
    level_end_visible: Option<i32>,
    igt_went_back: Option<bool>,
)
    ensures
        ({
            let (next, actions) = tick_outcome(state, scene, level_end_visible, igt_went_back);
            &&& (actions.restart_on_entry || actions.restart_on_reset) ==> (scene matches Some(s)
                && level_of(s) == 1)
            &&& (actions.set_game_time || actions.accumulate) ==> next.is_in_level
            &&& !(actions.restart_on_reset && actions.accumulate)
        }),
{
}

/// On the main screen no timer action but a split is ever taken.
pub proof fn law_main_screen_only_splits(
    state: SplitterState,
    level_end_visible: Option<i32>,
    igt_went_back: Option<bool>,
)
    ensures
        ({
            let actions = tick_outcome(state, Some("MainScreen"@), level_end_visible, igt_went_back).1;
            !actions.restart_on_entry && !actions.set_game_time && !actions.restart_on_reset
                && !actions.accumulate
        }),
{
}

/// When every read of a tick succeeds, each timer action is decided as
/// follows, with the scene a level unless it is `MainScreen`, and the first
/// level being `JakePractice2`: the timer restarts on entering the first
/// level from outside a level while it is not finished; the game time is set
/// in any level; when the in-game time went back in a level, the timer
/// restarts in the first level if it was not finished at the last tick, and
/// otherwise the previous in-game time is accumulated, whether or not the
/// last tick was in a level; a split is made when the finished flag turns
/// from 0 to 1. The state then remembers whether the scene is a level and
/// the flag.
pub proof fn law_tick_actions(state: SplitterState, scene: Seq<char>, finished: i32, went_back: bool)
    ensures
        ({
            let (next, actions) = tick_outcome(state, Some(scene), Some(finished), Some(went_back));
            let in_level = scene != "MainScreen"@;
            let first = scene == "JakePractice2"@;
            &&& next.is_in_level == in_level
            &&& next.level_is_finished == finished
            &&& actions.restart_on_entry == (in_level && !state.is_in_level && first && finished != 1)
            &&& actions.set_game_time == in_level
            &&& actions.restart_on_reset == (in_level && went_back && first && state.level_is_finished
                == 0)
            &&& actions.accumulate == (in_level && went_back && !(first && state.level_is_finished
                == 0))
            &&& actions.split == (finished == 1 && state.level_is_finished == 0)
        }),
{
}

/// When the in-game time goes back in a level, exactly one of restarting and
/// accumulating happens, and which one does not depend on whether the last
/// tick was in a level: the previous in-game time is kept unless the timer
/// restarts in the unfinished first level.
pub proof fn law_time_going_back(state: SplitterState, scene: Seq<char>, finished: i32, was_in_level: bool)
    requires
        scene != "MainScreen"@,
    ensures
        ({
            let actions = tick_outcome(state, Some(scene), Some(finished), Some(true)).1;
            let other = tick_outcome(
                SplitterState { is_in_level: was_in_level, level_is_finished: state.level_is_finished },
                Some(scene),
                Some(finished),
                Some(true),
            ).1;
            &&& actions.accumulate == !(scene == "JakePractice2"@ && state.level_is_finished == 0)
            &&& actions.restart_on_reset == !actions.accumulate
            &&& other.accumulate == actions.accumulate
            &&& other.restart_on_reset == actions.restart_on_reset
        }),
{
}

/// Recording a child changes only the node that its name is exactly: a
/// `GameManager` child becomes the game manager, a `StatsService` child the
/// stats service, an `EndLevelScreen` child the end level screen; a child of
/// any other name leaves all three as they were.
pub proof fn law_record_child(found: FoundNodes, name: Seq<char>, child: u64)
    ensures
        record_child(found, name, child).game_manager == (if name == "GameManager"@ {
            child
        } else {
            found.game_manager
        }),
        record_child(found, name, child).stats_service == (if name == "StatsService"@ {
            child
        } else {
            found.stats_service
        }),
        record_child(found, name, child).end_level_screen == (if name == "EndLevelScreen"@ {
            child
        } else {
            found.end_level_screen
        }),
        name != "GameManager"@ && name != "StatsService"@ && name != "EndLevelScreen"@
            ==> record_child(found, name, child) == found,
{
}

/// The node at `node` is named exactly `name` in `snap`.
pub open spec fn names_node(snap: Snapshot, os: Seq<char>, node: u64, name: Seq<char>) -> bool {
    exists|fuel: nat|
        #[trigger] node_name_at(snap, node, node_name_offset(os), fuel) matches Some((Some(n), _)) && n
            == name
}

/// The node at `node` is one of the children from the `index`-th on, and is
/// named exactly `name`.
pub open spec fn is_child_named(
    snap: Snapshot,
    os: Seq<char>,
    child_array: u64,
    child_count: int,
    index: int,
    node: u64,
    name: Seq<char>,
) -> bool {
    &&& exists|j: int|
        index <= j < child_count && snap.pointer_at(#[trigger] child_address(child_array, j)) == Some(
            node,
        )
    &&& names_node(snap, os, node, name)
}

/// Searching the children never takes a node for one it is not: the game
/// manager, end level screen and stats service found are each what they were
/// before, or a child named exactly `GameManager`, `EndLevelScreen` or
/// `StatsService`; a child of another name never takes their place.
pub proof fn law_children_found_by_name(
    snap: Snapshot,
    os: Seq<char>,
    child_array: u64,
    child_count: int,
    index: int,
    found: FoundNodes,
    fuel: nat,
)
    ensures
        children_at(snap, os, child_array, child_count, index, found, fuel) matches Some((f, _))
            ==> {
            &&& f.game_manager == found.game_manager || is_child_named(
                snap,
                os,
                child_array,
                child_count,
                index,
                f.game_manager,
                "GameManager"@,
            )
            &&& f.end_level_screen == found.end_level_screen || is_child_named(
                snap,
                os,
                child_array,
                child_count,
                index,
                f.end_level_screen,
                "EndLevelScreen"@,
            )
            &&& f.stats_service == found.stats_service || is_child_named(
                snap,
                os,
                child_array,
                child_count,
                index,
                f.stats_service,
                "StatsService"@,
            )
        },
    decreases fuel,
{
    if index < child_count && fuel > 0 {
        match snap.pointer_at(child_address(child_array, index)) {
            Some(child) => {
                let g = (fuel - 1) as nat;
                match node_name_at(snap, child, node_name_offset(os), g) {
                    Some((Some(name), k)) => {
                        if k < fuel {
                            let next = record_child(found, name, child);
                            law_children_found_by_name(
                                snap,
                                os,
                                child_array,
                                child_count,
                                index + 1,
                                next,
                                (fuel - 1 - k) as nat,
                            );
                            assert(names_node(snap, os, child, name));
                            assert(snap.pointer_at(child_address(child_array, index)) == Some(child));
                        }
                    },
                    _ => {},
                }
            },
            None => {},
        }
    }
}

/// What setting up finds is what memory holds: the game manager's script is
/// read from a node named exactly `GameManager`, the end level screen is a
/// node named exactly `EndLevelScreen`, and the stats service's script is
/// read from a node named exactly `StatsService`.
pub proof fn law_setup_finds_named_nodes(snap: Snapshot, os: Seq<char>, scan: u64, fuel: nat)
    ensures
        SetupModel::start(os, scan).run(snap, fuel) matches Some(
            (Some((_, game_manager_script, end_level_screen, stats_script)), _),
        ) ==> {
            &&& names_node(snap, os, end_level_screen, "EndLevelScreen"@)
            &&& exists|game_manager: u64|
                names_node(snap, os, game_manager, "GameManager"@) && #[trigger] snap.pointer_at(
                    add_offset(game_manager, 0x68),
                ) == Some(game_manager_script)
            &&& exists|stats_service: u64|
                names_node(snap, os, stats_service, "StatsService"@) && #[trigger] snap.pointer_at(
                    add_offset(stats_service, 0x68),
                ) == Some(stats_script)
        },
{
    law_setup(snap, os, scan, fuel);
    if fuel >= 5 {
        match snap.int_at(add_offset(scan, SCENE_TREE_OFFSET as int)) {
            Some(offset) => match snap.pointer_at(
                add_offset(add_offset(scan, offset as int), SCENE_TREE as int),
            ) {
                Some(scene_tree) => match snap.pointer_at(
                    add_offset(scene_tree, root_window_offset(os) as int),
                ) {
                    Some(root_window) => match snap.int_at(
                        add_offset(root_window, node_child_count_offset(os) as int),
                    ) {
                        Some(child_count) => match snap.pointer_at(
                            add_offset(root_window, node_child_array_offset(os) as int),
                        ) {
                            Some(child_array) => {
                                law_children_found_by_name(
                                    snap,
                                    os,
                                    child_array,
                                    child_count as int,
                                    0,
                                    nothing_found(),
                                    (fuel - 5) as nat,
                                );
                            },
                            None => {},
                        },
                        None => {},
                    },
                    None => {},
                },
                None => {},
            },
            None => {},
        }
    }
}

/// A tick whose scene or end level flag could not be read changes nothing and
/// takes no action; one whose in-game time could not be read only remembers
/// the flag.
pub proof fn law_tick_failed_reads(
    state: SplitterState,
    scene: Option<Seq<char>>,
    finished: Option<i32>,
    went_back: Option<bool>,
)
    ensures
        (scene is None || finished is None) ==> tick_outcome(state, scene, finished, went_back) == (
        state,
        no_actions(),
        ),
        scene is Some ==> (finished matches Some(f) ==> tick_outcome(state, scene, finished, None)
            == (SplitterState { is_in_level: state.is_in_level, level_is_finished: f }, no_actions())),
        no_actions() == (TickActions {
            restart_on_entry: false,
            set_game_time: false,
            restart_on_reset: false,
            accumulate: false,
            split: false,
        }),
{
}

/// The levels, in order: `JakePractice2`, `JakePractice3`, `MysteryCastle2`,
/// `Dungeon1`, `Fortress`, `DoomChapel`; every other scene is level 0.
pub proof fn law_level_numbers(name: Seq<char>)
    ensures
        level_of("JakePractice2"@) == 1,
        level_of("JakePractice3"@) == 2,
        level_of("MysteryCastle2"@) == 3,
        level_of("Dungeon1"@) == 4,
        level_of("Fortress"@) == 5,
        level_of("DoomChapel"@) == 6,
        name != "JakePractice2"@ && name != "JakePractice3"@ && name != "MysteryCastle2"@ && name
            != "Dungeon1"@ && name != "Fortress"@ && name != "DoomChapel"@ ==> level_of(name) == 0,
        (level_of(name) == 1) == (name == "JakePractice2"@),
{
    reveal_strlit("JakePractice2");
    reveal_strlit("JakePractice3");
    reveal_strlit("MysteryCastle2");
    reveal_strlit("Dungeon1");
    reveal_strlit("Fortress");
    reveal_strlit("DoomChapel");
    assert("JakePractice2"@.len() == 13);
    assert("JakePractice3"@.len() == 13);
    assert("MysteryCastle2"@.len() == 14);
    assert("Dungeon1"@.len() == 8);
    assert("Fortress"@.len() == 8);
    assert("DoomChapel"@.len() == 10);
    assert("JakePractice3"@[12] != "JakePractice2"@[12]);
    assert("Fortress"@[0] != "Dungeon1"@[0]);
    assert("JakePractice3"@ != "JakePractice2"@);
    assert("Fortress"@ != "Dungeon1"@);
}

/// The reads of setting up, from the scanned address `scan`: the 32-bit
/// displacement at `scan + 3`, the scene tree at `scan + displacement + 7`,
/// the root window in the scene tree, its child count and child array, the
/// `index`-th child's pointer `8 * index` bytes into the array, and each
/// script 0x68 bytes into its node. Setting up starts with nothing found.
pub proof fn law_setup_reads(
    m: SetupModel,
    offset: i32,
    scene_tree: u64,
    root_window: u64,
    child_count: i32,
    child_array: u64,
    index: int,
    found: FoundNodes,
    game_manager_script: u64,
)
    requires
        0 <= index < 0x1000_0000,
    ensures
        SetupModel::start(m.os, m.scan).pending() == Request::Int(add_offset(m.scan, 3)),
        m.with_phase(SetupPhase::SceneTree { offset }).pending() == Request::Pointer(
            add_offset(add_offset(m.scan, offset as int), 7),
        ),
        m.with_phase(SetupPhase::RootWindow { scene_tree }).pending() == Request::Pointer(
            add_offset(scene_tree, root_window_offset(m.os) as int),
        ),
        m.with_phase(SetupPhase::ChildCount { scene_tree, root_window }).pending() == Request::Int(
            add_offset(root_window, node_child_count_offset(m.os) as int),
        ),
        m.with_phase(SetupPhase::ChildArray { scene_tree, root_window, child_count }).pending()
            == Request::Pointer(add_offset(root_window, node_child_array_offset(m.os) as int)),
        m.with_phase(SetupPhase::Child { scene_tree, child_array, child_count, index, found }).pending()
            == Request::Pointer(add_offset(child_array, 8 * index)),
        m.with_phase(SetupPhase::GameManagerScript { scene_tree, found }).pending() == Request::Pointer(
            add_offset(found.game_manager, 0x68),
        ),
        m.with_phase(SetupPhase::StatsScript { scene_tree, found, game_manager_script }).pending()
            == Request::Pointer(add_offset(found.stats_service, 0x68)),
        m.with_phase(SetupPhase::ChildArray { scene_tree, root_window, child_count }).advance(
            Reply::Pointer(Some(child_array)),
        ) == m.arrive(scene_tree, child_array, child_count, 0, (FoundNodes {
            game_manager: 0,
            end_level_screen: 0,
            stats_service: 0,
        })),
{
    let q: int = 0x1_0000_0000;
    vstd::arithmetic::div_mod::lemma_small_mod((8 * index) as nat, q as nat);
}

/// Searching the children: a child whose pointer or name cannot be read ends
/// the search, which goes on to the check of what was found; a child whose
/// name is read is recorded and the search goes on with the next child.
pub proof fn law_setup_child_steps(
    m: SetupModel,
    scene_tree: u64,
    child_array: u64,
    child_count: i32,
    index: int,
    child: u64,
    reader: NodeNameReadModel,
    found: FoundNodes,
    reply: Reply,
)
    ensures
        m.with_phase(SetupPhase::Child { scene_tree, child_array, child_count, index, found }).advance(
            Reply::Pointer(None),
        ) == m.check(scene_tree, found),
        m.with_phase(SetupPhase::Child { scene_tree, child_array, child_count, index, found }).advance(
            Reply::Pointer(Some(child)),
        ) == Progress::<SetupModel, Option<SetupResult>>::Continue(
            m.with_phase(
                SetupPhase::ChildName {
                    scene_tree,
                    child_array,
                    child_count,
                    index,
                    child,
                    reader: NodeNameReadModel::start(child, node_name_offset(m.os)),
                    found,
                },
            ),
        ),
        ({
            let s = m.with_phase(
                SetupPhase::ChildName { scene_tree, child_array, child_count, index, child, reader, found },
            );
            match reader.advance(reply) {
                Progress::Continue(next) => s.advance(reply) == Progress::<
                    SetupModel,
                    Option<SetupResult>,
                >::Continue(
                    m.with_phase(
                        SetupPhase::ChildName {
                            scene_tree,
                            child_array,
                            child_count,
                            index,
                            child,
                            reader: next,
                            found,
                        },
                    ),
                ),
                Progress::Finished(None) => s.advance(reply) == m.check(scene_tree, found),
                Progress::Finished(Some(name)) => s.advance(reply) == m.arrive(
                    scene_tree,
                    child_array,
                    child_count,
                    index + 1,
                    record_child(found, name, child),
                ),
            }
        }),
        index >= child_count ==> m.arrive(scene_tree, child_array, child_count, index, found)
            == m.check(scene_tree, found),
        index < child_count ==> m.arrive(scene_tree, child_array, child_count, index, found)
            == Progress::<SetupModel, Option<SetupResult>>::Continue(
            m.with_phase(SetupPhase::Child { scene_tree, child_array, child_count, index, found }),
        ),
        (found.game_manager == 0 || found.end_level_screen == 0 || found.stats_service == 0)
            ==> m.check(scene_tree, found) == Progress::<SetupModel, Option<SetupResult>>::Finished(
            None,
        ),
        !(found.game_manager == 0 || found.end_level_screen == 0 || found.stats_service == 0)
            ==> m.check(scene_tree, found) == Progress::<SetupModel, Option<SetupResult>>::Continue(
            m.with_phase(SetupPhase::GameManagerScript { scene_tree, found }),
        ),
{
}

} // verus!
