//! Where Bloodthief (a Godot game) keeps what the splitter reads, per operating
//! system, and the routines that walk its memory: Godot string names, node
//! names and script variables.
use vstd::prelude::*;
use crate::memory::{
    add_offset, after_reads, offset_address, signed_offset_address, Progress, Reply, Request,
    Snapshot, Step,
};

verus! {

/// `os` names Linux; every other value is taken for Windows.
pub open spec fn is_linux(os: Seq<char>) -> bool {
    os == "linux"@
}

/// Compares two strings by their characters.
pub fn str_equal(a: &str, b: &str) -> (r: bool)
    ensures
        r == (a@ == b@),
{
    let a_owned = a.to_owned();
    let b_owned = b.to_owned();
    a_owned == b_owned
}

/// Whether `os` is `"linux"`.
fn os_is_linux(os: &str) -> (r: bool)
    ensures
        r == is_linux(os@),
{
    str_equal(os, "linux")
}

/// The executable name of the game on `os`.
pub fn get_p_name(os: &str) -> (r: &str)
    ensures
        r@ == (if is_linux(os@) { "bloodthief.x86_64"@ } else { "bloodthief.exe"@ }),
{
    if os_is_linux(os) {
        "bloodthief.x86_64"
    } else {
        "bloodthief.exe"
    }
}

/// The byte pattern, in hex with `??` for any byte, of the instruction that
/// loads the scene tree pointer, as `asr::signature::Signature` reads it.
pub fn get_scene_tree_sig(os: &str) -> (r: &str)
    ensures
        r@ == (if is_linux(os@) {
            "48 8b 05 ?? ?? ?? ?? 48 8b b7 ?? ?? ?? ?? 48 89 fb 48 89 d5"@
        } else {
            "4C 8B 35 ?? ?? ?? ?? 4D 85 F6 74 7E E8 ?? ?? ?? ?? 49 8B CE"@
        }),
{
    if os_is_linux(os) {
        "48 8b 05 ?? ?? ?? ?? 48 8b b7 ?? ?? ?? ?? 48 89 fb 48 89 d5"
    } else {
        "4C 8B 35 ?? ?? ?? ?? 4D 85 F6 74 7E E8 ?? ?? ?? ?? 49 8B CE"
    }
}

/// Offset, from the scan match, of the 32-bit displacement to the scene tree pointer.
pub const SCENE_TREE_OFFSET: u64 = 0x3;

/// Length of the instruction the displacement is relative to.
pub const SCENE_TREE: u64 = 0x7;

/// Offset of the root window in the scene tree.
pub open spec fn root_window_offset(os: Seq<char>) -> u64 {
    if is_linux(os) { 0x370u64 } else { 0x348u64 }
}

/// Offset of the root window in the scene tree.
pub fn get_root_window(os: &str) -> (r: u64)
    ensures
        r == root_window_offset(os@),
{
    if os_is_linux(os) {
        0x2d0 + 0xa0
    } else {
        0x348
    }
}

/// Offset of a node's child count.
pub open spec fn node_child_count_offset(os: Seq<char>) -> u64 {
    if is_linux(os) { 0x1a0u64 } else { 0x1b8u64 }
}

/// Offset of a node's child count.
pub fn get_node_child_count(os: &str) -> (r: u64)
    ensures
        r == node_child_count_offset(os@),
{
    if os_is_linux(os) {
        0x190 + 0x10
    } else {
        0x1b8
    }
}

/// Offset of a node's array of children.
pub open spec fn node_child_array_offset(os: Seq<char>) -> u64 {
    if is_linux(os) { 0x1a8u64 } else { 0x1c0u64 }
}

/// Offset of a node's array of children.
pub fn get_node_child_array(os: &str) -> (r: u64)
    ensures
        r == node_child_array_offset(os@),
{
    if os_is_linux(os) {
        0x198 + 0x10
    } else {
        0x1c0
    }
}

/// Offset of a node's script; the same on every system.
pub fn get_node_script(os: &str) -> (r: u64)
    ensures
        r == 0x68u64,
{
    if os_is_linux(os) {
        0x68
    } else {
        0x68
    }
}

/// Offset, in a script, of its reference to the script resource.
pub const SCRIPT_REFERENCE: u64 = 0x18;

/// Offset, in the script resource, of its map of members.
pub open spec fn member_map_offset(os: Seq<char>) -> u64 {
    if is_linux(os) { 0x230u64 } else { 0x258u64 }
}

/// Offset, in the script resource, of its map of members.
pub fn get_member_map(os: &str) -> (r: u64)
    ensures
        r == member_map_offset(os@),
{
    if os_is_linux(os) {
        0x230
    } else {
        0x258
    }
}

/// Offset, in a script, of its array of member values; the same on every system.
pub fn get_script_member_array(os: &str) -> (r: u64)
    ensures
        r == 0x28u64,
{
    if os_is_linux(os) {
        0x28
    } else {
        0x28
    }
}

/// Offset of a node's name.
pub open spec fn node_name_offset(os: Seq<char>) -> u64 {
    if is_linux(os) { 0x200u64 } else { 0x218u64 }
}

/// Offset of a node's name.
pub fn get_node_name(os: &str) -> (r: u64)
    ensures
        r == node_name_offset(os@),
{
    if os_is_linux(os) {
        0x1f0 + 0x10
    } else {
        0x218
    }
}

/// Offset, in a string name, of its pointer to the characters.
pub const STRING_NAME_START: u64 = 0x10;

/// Offset, in the scene tree, of the current scene.
pub open spec fn current_scene_offset(os: Seq<char>) -> u64 {
    if is_linux(os) { 0x460u64 } else { 0x438u64 }
}

/// Offset, in the scene tree, of the current scene.
pub fn get_current_scene(os: &str) -> (r: u64)
    ensures
        r == current_scene_offset(os@),
{
    if os_is_linux(os) {
        0x460
    } else {
        0x438
    }
}

/// Offset, in the end level screen, of its visibility flag.
pub open spec fn level_end_visible_offset(os: Seq<char>) -> u64 {
    if is_linux(os) { 0x42cu64 } else { 0x444u64 }
}

/// Offset, in the end level screen, of its visibility flag.
pub fn get_level_end_visible(os: &str) -> (r: u64)
    ensures
        r == level_end_visible_offset(os@),
{
    if os_is_linux(os) {
        0x42c
    } else {
        0x444
    }
}

/// Offset of the in-game time in the game manager's script.
pub const GAME_IGT: u64 = 0xe0;

/// Offset of the reset counter in the game manager's script.
pub const GAME_RESET_COUNT: u64 = 0x2f0;

/// Offset of the checkpoint in the game manager's script.
pub const GAME_CHECKPOINT: u64 = 0x248;

/// Offset of the secret statistic.
pub const SECRET_STAT: u64 = 0x50;

/// Offset of the key statistic.
pub const KEY_STAT: u64 = 0x68;


/// `u` is a Unicode scalar value: at most 0x10FFFF and not a surrogate.
pub open spec fn is_scalar_value(u: u32) -> bool {
    u <= 0x10FFFF && !(0xD800 <= u && u <= 0xDFFF)
}

/// The character that the 32-bit value `v`, taken as a `u32`, stands for, if any.
pub open spec fn char_value(v: i32) -> Option<char> {
    if is_scalar_value(v as u32) {
        Some((v as u32) as char)
    } else {
        None
    }
}

/// `char::from_u32`: the character with scalar value `u`, or `None` where `u`
/// is not a Unicode scalar value, as std documents it.
#[verifier::external_body]
fn char_from_u32(u: u32) -> (r: Option<char>)
    ensures
        r == (if is_scalar_value(u) { Some(u as char) } else { None }),
{
    char::from_u32(u)
}

/// `String::push`: appends `c` to the end of `s`.
#[verifier::external_body]
fn push_char(s: &mut String, c: char)
    ensures
        final(s)@ == old(s)@.push(c),
{
    s.push(c)
}


/// Where a [`StringNameRead`] stands, seen abstractly.
pub struct StringNameReadModel {
    /// Whether the pointer to the characters has been read.
    pub reading_chars: bool,
    /// The read the machine waits for.
    pub pending: Request,
    /// The characters read so far.
    pub chars: Seq<char>,
}

/// Prepends `prefix` to a successful string outcome and counts one more read.
pub open spec fn prepend_char(
    c: char,
    outcome: Option<(Option<Seq<char>>, nat)>,
) -> Option<(Option<Seq<char>>, nat)> {
    match outcome {
        Some((Some(rest), n)) => Some((Some(seq![c] + rest), n + 1)),
        Some((None, n)) => Some((None, n + 1)),
        None => None,
    }
}

impl StringNameReadModel {
    pub open spec fn wf(self) -> bool {
        &&& self.reading_chars == (self.pending is Int)
        &&& !self.reading_chars ==> self.chars.len() == 0
    }

    /// The state in which reading the string name at `start_location` begins:
    /// waiting for the pointer to its characters.
    pub open spec fn start(start_location: u64) -> StringNameReadModel {
        StringNameReadModel {
            reading_chars: false,
            pending: Request::Pointer(add_offset(start_location, STRING_NAME_START as int)),
            chars: Seq::empty(),
        }
    }

    /// One step: the character pointer leads to the first character; each
    /// character is appended and the next one, 4 bytes on, is asked for; a 0
    /// ends the string; a failed read or a value that is no character gives `None`.
    pub open spec fn advance(self, reply: Reply) -> Progress<
        StringNameReadModel,
        Option<Seq<char>>,
    > {
        if !self.reading_chars {
            match reply {
                Reply::Pointer(Some(p)) => Progress::Continue(
                    StringNameReadModel {
                        reading_chars: true,
                        pending: Request::Int(p),
                        chars: self.chars,
                    },
                ),
                _ => Progress::Finished(None),
            }
        } else {
            match reply {
                Reply::Int(Some(v)) => if v == 0 {
                    Progress::Finished(Some(self.chars))
                } else {
                    match char_value(v) {
                        Some(c) => Progress::Continue(
                            StringNameReadModel {
                                reading_chars: true,
                                pending: Request::Int(add_offset(self.pending.address(), 4)),
                                chars: self.chars.push(c),
                            },
                        ),
                        None => Progress::Finished(None),
                    }
                },
                _ => Progress::Finished(None),
            }
        }
    }

    /// The outcome, and the number of reads made, of at most `fuel` steps in
    /// which every read is answered from `snap`; `None` when the machine has
    /// not finished by then.
    pub open spec fn run(self, snap: Snapshot, fuel: nat) -> Option<(Option<Seq<char>>, nat)>
        decreases fuel,
    {
        if fuel == 0 {
            None
        } else {
            match self.advance(snap.reply_to(self.pending)) {
                Progress::Finished(r) => Some((r, 1)),
                Progress::Continue(next) => after_reads(1, next.run(snap, (fuel - 1) as nat)),
            }
        }
    }
}

/// The characters stored in `snap` as 32-bit values from `address` on, 4 bytes
/// apart, up to the first 0, with the number of reads that takes, within
/// `fuel` reads: `Some(s)` for the characters before the 0, `None` where a
/// read fails or a value is no character first; the whole is `None` where
/// `fuel` reads do not reach the end.
pub open spec fn chars_at(snap: Snapshot, address: u64, fuel: nat) -> Option<(Option<Seq<char>>, nat)>
    decreases fuel,
{
    if fuel == 0 {
        None
    } else {
        match snap.int_at(address) {
            None => Some((None, 1)),
            Some(v) => if v == 0 {
                Some((Some(Seq::empty()), 1))
            } else {
                match char_value(v) {
                    None => Some((None, 1)),
                    Some(c) => prepend_char(c, chars_at(snap, add_offset(address, 4), (fuel - 1) as nat)),
                }
            },
        }
    }
}

/// The Godot string name at `start_location` in `snap`, and the reads it
/// takes, within `fuel` reads: the pointer at
/// `start_location + STRING_NAME_START` leads to its characters.
pub open spec fn string_name_at(snap: Snapshot, start_location: u64, fuel: nat) -> Option<(Option<Seq<char>>, nat)> {
    if fuel == 0 {
        None
    } else {
        match snap.pointer_at(add_offset(start_location, STRING_NAME_START as int)) {
            None => Some((None, 1)),
            Some(p) => after_reads(1, chars_at(snap, p, (fuel - 1) as nat)),
        }
    }
}

/// Reads a Godot string name, one read at a time (see [`read_string_name`]).
pub struct StringNameRead {
    reading_chars: bool,
    pending: Request,
    output: String,
}

impl View for StringNameRead {
    type V = StringNameReadModel;

    closed spec fn view(&self) -> StringNameReadModel {
        StringNameReadModel {
            reading_chars: self.reading_chars,
            pending: self.pending,
            chars: self.output@,
        }
    }
}

/// The abstract counterpart of a step of a [`StringNameRead`].
pub open spec fn string_step_view(step: Step<StringNameRead, Option<String>>) -> Progress<
    StringNameReadModel,
    Option<Seq<char>>,
> {
    match step {
        Step::Read(m, _) => Progress::Continue(m@),
        Step::Done(Some(s)) => Progress::Finished(Some(s@)),
        Step::Done(None) => Progress::Finished(None),
    }
}

/// Starts reading the Godot string name at `start_location`: the machine and
/// its first read, the pointer to the characters.
pub fn read_string_name(start_location: u64) -> (r: (StringNameRead, Request))
    ensures
        r.0@ == StringNameReadModel::start(start_location),
        r.1 == r.0@.pending,
{
    let pending = Request::Pointer(offset_address(start_location, STRING_NAME_START));
    (StringNameRead { reading_chars: false, pending, output: String::new() }, pending)
}

impl StringNameRead {
    /// The read the machine waits for.
    pub fn request(&self) -> (r: Request)
        ensures
            r == self@.pending,
    {
        self.pending
    }

    #[verifier::type_invariant]
    spec fn inv(self) -> bool {
        self@.wf()
    }

    /// Takes the reply to the pending read and moves on.
    pub fn resume(self, reply: Reply) -> (r: Step<StringNameRead, Option<String>>)
        requires
            reply.answers(self@.pending),
        ensures
            string_step_view(r) == self@.advance(reply),
            r matches Step::Read(m, req) ==> req == m@.pending,
    {
        proof {
            use_type_invariant(&self);
        }
        let StringNameRead { reading_chars, pending, output } = self;
        if !reading_chars {
            match reply {
                Reply::Pointer(Some(p)) => {
                    let next = Request::Int(p);
                    Step::Read(StringNameRead { reading_chars: true, pending: next, output }, next)
                },
                _ => Step::Done(None),
            }
        } else {
            let cursor = match pending {
                Request::Int(a) => a,
                Request::Pointer(a) => a,
            };
            match reply {
                Reply::Int(Some(v)) => {
                    if v == 0 {
                        Step::Done(Some(output))
                    } else {
                        match char_from_u32(v as u32) {
                            Some(c) => {
                                let mut output = output;
                                push_char(&mut output, c);
                                let next = Request::Int(offset_address(cursor, 4));
                                Step::Read(
                                    StringNameRead { reading_chars: true, pending: next, output },
                                    next,
                                )
                            },
                            None => Step::Done(None),
                        }
                    }
                },
                _ => Step::Done(None),
            }
        }
    }
}

/// The characters read so far, then what is still in memory.
pub open spec fn with_prefix(prefix: Seq<char>, outcome: Option<(Option<Seq<char>>, nat)>) -> Option<(Option<Seq<char>>, nat)> {
    match outcome {
        Some((Some(rest), n)) => Some((Some(prefix + rest), n)),
        other => other,
    }
}

/// Run on characters, a string name machine gives back the characters read so
/// far followed by those still in memory.
proof fn lemma_run_chars(m: StringNameReadModel, snap: Snapshot, fuel: nat)
    requires
        m.wf(),
        m.reading_chars,
    ensures
        m.run(snap, fuel) == with_prefix(m.chars, chars_at(snap, m.pending.address(), fuel)),
    decreases fuel,
{
    if fuel > 0 {
        let a = m.pending.address();
        match snap.int_at(a) {
            Some(v) => {
                if v == 0 {
                    assert(m.chars + Seq::<char>::empty() =~= m.chars);
                } else {
                    match char_value(v) {
                        Some(c) => {
                            let next = StringNameReadModel {
                                reading_chars: true,
                                pending: Request::Int(add_offset(a, 4)),
                                chars: m.chars.push(c),
                            };
                            lemma_run_chars(next, snap, (fuel - 1) as nat);
                            match chars_at(snap, add_offset(a, 4), (fuel - 1) as nat) {
                                Some((Some(rest), n)) => {
                                    assert(m.chars.push(c) + rest =~= m.chars + (seq![c] + rest));
                                },
                                _ => {},
                            }
                        },
                        None => {},
                    }
                }
            },
            None => {},
        }
    }
}

/// Reading a string name against a snapshot of memory gives the string name
/// stored there, the characters behind its character pointer up to the first
/// 0, with as many reads.
pub proof fn law_read_string_name(snap: Snapshot, start_location: u64, fuel: nat)
    ensures
        StringNameReadModel::start(start_location).run(snap, fuel) == string_name_at(
            snap,
            start_location,
            fuel,
        ),
{
    let m = StringNameReadModel::start(start_location);
    if fuel > 0 {
        match snap.pointer_at(m.pending.address()) {
            Some(p) => {
                let next = StringNameReadModel {
                    reading_chars: true,
                    pending: Request::Int(p),
                    chars: Seq::empty(),
                };
                lemma_run_chars(next, snap, (fuel - 1) as nat);
                match chars_at(snap, p, (fuel - 1) as nat) {
                    Some((Some(rest), n)) => {
                        assert(Seq::<char>::empty() + rest =~= rest);
                    },
                    _ => {},
                }
            },
            None => {},
        }
    }
}


/// Reading a string name takes at least one read and no more than the fuel.
pub(crate) proof fn lemma_string_reads_bounded(snap: Snapshot, start_location: u64, fuel: nat)
    ensures
        string_name_at(snap, start_location, fuel) matches Some((_, k)) ==> 1 <= k <= fuel,
{
    if fuel > 0 {
        match snap.pointer_at(add_offset(start_location, STRING_NAME_START as int)) {
            Some(p) => lemma_chars_reads_bounded(snap, p, (fuel - 1) as nat),
            None => {},
        }
    }
}

pub(crate) proof fn lemma_chars_reads_bounded(snap: Snapshot, address: u64, fuel: nat)
    ensures
        chars_at(snap, address, fuel) matches Some((_, k)) ==> 1 <= k <= fuel,
    decreases fuel,
{
    if fuel > 0 {
        lemma_chars_reads_bounded(snap, add_offset(address, 4), (fuel - 1) as nat);
    }
}

/// Where a [`NodeNameRead`] stands, seen abstractly.
pub enum NodeNameReadModel {
    /// Waiting for the pointer, at this address, to the node's string name.
    NamePointer(u64),
    /// Reading the string name.
    Name(StringNameReadModel),
}

impl NodeNameReadModel {
    pub open spec fn start(node_ptr: u64, name_offset: u64) -> NodeNameReadModel {
        NodeNameReadModel::NamePointer(add_offset(node_ptr, name_offset as int))
    }

    pub open spec fn pending(self) -> Request {
        match self {
            NodeNameReadModel::NamePointer(a) => Request::Pointer(a),
            NodeNameReadModel::Name(m) => m.pending,
        }
    }

    /// One step: the name pointer leads to the string name, which is then read.
    pub open spec fn advance(self, reply: Reply) -> Progress<NodeNameReadModel, Option<Seq<char>>> {
        match self {
            NodeNameReadModel::NamePointer(_) => match reply {
                Reply::Pointer(Some(p)) => Progress::Continue(
                    NodeNameReadModel::Name(StringNameReadModel::start(p)),
                ),
                _ => Progress::Finished(None),
            },
            NodeNameReadModel::Name(m) => match m.advance(reply) {
                Progress::Continue(next) => Progress::Continue(NodeNameReadModel::Name(next)),
                Progress::Finished(r) => Progress::Finished(r),
            },
        }
    }

    /// The outcome and the reads made within `fuel` steps answered from `snap`.
    pub open spec fn run(self, snap: Snapshot, fuel: nat) -> Option<(Option<Seq<char>>, nat)>
        decreases fuel,
    {
        if fuel == 0 {
            None
        } else {
            match self.advance(snap.reply_to(self.pending())) {
                Progress::Finished(r) => Some((r, 1)),
                Progress::Continue(next) => after_reads(1, next.run(snap, (fuel - 1) as nat)),
            }
        }
    }
}

/// The name of the node at `node_ptr` in `snap`, and the reads it takes,
/// within `fuel` reads: the pointer at `node_ptr + name_offset` is the string
/// name of the node.
pub open spec fn node_name_at(snap: Snapshot, node_ptr: u64, name_offset: u64, fuel: nat) -> Option<(Option<Seq<char>>, nat)> {
    if fuel == 0 {
        None
    } else {
        match snap.pointer_at(add_offset(node_ptr, name_offset as int)) {
            None => Some((None, 1)),
            Some(p) => after_reads(1, string_name_at(snap, p, (fuel - 1) as nat)),
        }
    }
}

/// Reads the name of a Godot node, one read at a time (see [`read_node_name`]).
pub enum NodeNameRead {
    NamePointer(u64),
    Name(StringNameRead),
}

impl View for NodeNameRead {
    type V = NodeNameReadModel;

    open spec fn view(&self) -> NodeNameReadModel {
        match self {
            NodeNameRead::NamePointer(a) => NodeNameReadModel::NamePointer(*a),
            NodeNameRead::Name(m) => NodeNameReadModel::Name(m@),
        }
    }
}

/// The abstract counterpart of a step of a [`NodeNameRead`].
pub open spec fn node_step_view(step: Step<NodeNameRead, Option<String>>) -> Progress<
    NodeNameReadModel,
    Option<Seq<char>>,
> {
    match step {
        Step::Read(m, _) => Progress::Continue(m@),
        Step::Done(Some(s)) => Progress::Finished(Some(s@)),
        Step::Done(None) => Progress::Finished(None),
    }
}

/// Starts reading the name of the node at `node_ptr` on `os`: the machine and
/// its first read, the pointer to the node's string name.
pub fn read_node_name(node_ptr: u64, os: &str) -> (r: (NodeNameRead, Request))
    ensures
        r.0@ == NodeNameReadModel::start(node_ptr, node_name_offset(os@)),
        r.1 == r.0@.pending(),
{
    let a = offset_address(node_ptr, get_node_name(os));
    (NodeNameRead::NamePointer(a), Request::Pointer(a))
}

impl NodeNameRead {
    /// The read the machine waits for.
    pub fn request(&self) -> (r: Request)
        ensures
            r == self@.pending(),
    {
        match self {
            NodeNameRead::NamePointer(a) => Request::Pointer(*a),
            NodeNameRead::Name(m) => m.request(),
        }
    }

    /// Takes the reply to the pending read and moves on.
    pub fn resume(self, reply: Reply) -> (r: Step<NodeNameRead, Option<String>>)
        requires
            reply.answers(self@.pending()),
        ensures
            node_step_view(r) == self@.advance(reply),
            r matches Step::Read(m, req) ==> req == m@.pending(),
    {
        match self {
            NodeNameRead::NamePointer(_) => match reply {
                Reply::Pointer(Some(p)) => {
                    let (m, req) = read_string_name(p);
                    Step::Read(NodeNameRead::Name(m), req)
                },
                _ => Step::Done(None),
            },
            NodeNameRead::Name(m) => match m.resume(reply) {
                Step::Read(next, req) => Step::Read(NodeNameRead::Name(next), req),
                Step::Done(r) => Step::Done(r),
            },
        }
    }
}

pub(crate) proof fn lemma_node_name_phase(m: StringNameReadModel, snap: Snapshot, fuel: nat)
    ensures
        NodeNameReadModel::Name(m).run(snap, fuel) == m.run(snap, fuel),
    decreases fuel,
{
    if fuel > 0 {
        match m.advance(snap.reply_to(m.pending)) {
            Progress::Continue(next) => lemma_node_name_phase(next, snap, (fuel - 1) as nat),
            Progress::Finished(_) => {},
        }
    }
}

/// Reading a node's name against a snapshot of memory gives the string name
/// that the node's name pointer leads to, with as many reads.
pub proof fn law_read_node_name(snap: Snapshot, node_ptr: u64, name_offset: u64, fuel: nat)
    ensures
        NodeNameReadModel::start(node_ptr, name_offset).run(snap, fuel) == node_name_at(
            snap,
            node_ptr,
            name_offset,
            fuel,
        ),
{
    if fuel > 0 {
        match snap.pointer_at(add_offset(node_ptr, name_offset as int)) {
            Some(p) => {
                lemma_node_name_phase(StringNameReadModel::start(p), snap, (fuel - 1) as nat);
                law_read_string_name(snap, p, (fuel - 1) as nat);
            },
            None => {},
        }
    }
}


/// Offset, in a member list node, of the pointer to the member's string name.
pub const MEMBER_NAME: u64 = 0x10;

/// Offset, in a member list node, of the member's index in the member array.
pub const MEMBER_INDEX: u64 = 0x18;

/// The address of the value of the member with index `index` in the member
/// array at `member_array`: entries are 0x18 bytes long and the value is 8
/// bytes into its entry; `index * 0x18` is computed in 32 bits and wraps.
pub open spec fn member_value_address(member_array: u64, index: i32) -> u64 {
    add_offset(
        add_offset(member_array, vstd::wrapping::i32_specs::wrapping_mul(index, 0x18) as int),
        0x8,
    )
}

/// Where a [`FindVar`] stands in the walk, seen abstractly.
pub enum FindVarPhase {
    /// Waiting for the script's member array pointer.
    MemberArray { script: u64 },
    /// Waiting for the script's reference to its resource.
    ScriptReference { script: u64, member_array: u64 },
    /// Waiting for the first node of the resource's member list.
    ScriptMap { script_reference: u64, member_array: u64 },
    /// Waiting for the pointer to the name of the member at `current`.
    NamePointer { member_array: u64, current: u64 },
    /// Reading the name of the member at `current`.
    Name { member_array: u64, current: u64, reader: StringNameReadModel },
    /// Waiting for the node after `current`.
    Next { member_array: u64, current: u64 },
    /// Waiting for the index of the member at `current`.
    Index { member_array: u64, current: u64 },
}

/// Where a [`FindVar`] stands, seen abstractly.
pub struct FindVarModel {
    /// The name of the variable looked for.
    pub variable: Seq<char>,
    /// The offset of the member map in the script resource.
    pub member_map: u64,
    pub phase: FindVarPhase,
}

impl FindVarModel {
    pub open spec fn start(script: u64, variable: Seq<char>, member_map: u64) -> FindVarModel {
        FindVarModel { variable, member_map, phase: FindVarPhase::MemberArray { script } }
    }

    pub open spec fn with_phase(self, phase: FindVarPhase) -> FindVarModel {
        FindVarModel { variable: self.variable, member_map: self.member_map, phase }
    }

    /// Arriving at list node `current`: a null node ends the walk, and the
    /// index is then read at `0 + MEMBER_INDEX`; any other node's name is read.
    pub open spec fn visit(self, member_array: u64, current: u64) -> FindVarModel {
        if current == 0 {
            self.with_phase(FindVarPhase::Index { member_array, current })
        } else {
            self.with_phase(FindVarPhase::NamePointer { member_array, current })
        }
    }

    pub open spec fn pending(self) -> Request {
        match self.phase {
            FindVarPhase::MemberArray { script } => Request::Pointer(add_offset(script, 0x28)),
            FindVarPhase::ScriptReference { script, .. } => Request::Pointer(
                add_offset(script, SCRIPT_REFERENCE as int),
            ),
            FindVarPhase::ScriptMap { script_reference, .. } => Request::Pointer(
                add_offset(script_reference, self.member_map as int),
            ),
            FindVarPhase::NamePointer { current, .. } => Request::Pointer(
                add_offset(current, MEMBER_NAME as int),
            ),
            FindVarPhase::Name { reader, .. } => reader.pending,
            FindVarPhase::Next { current, .. } => Request::Pointer(current),
            FindVarPhase::Index { current, .. } => Request::Int(add_offset(current, MEMBER_INDEX as int)),
        }
    }

    /// One step of the walk. Any failed read ends it with `None`. A member
    /// whose name is the variable's ends the list walk, and so does a null node.
    pub open spec fn advance(self, reply: Reply) -> Progress<FindVarModel, Option<u64>> {
        match self.phase {
            FindVarPhase::MemberArray { script } => match reply {
                Reply::Pointer(Some(member_array)) => Progress::Continue(
                    self.with_phase(FindVarPhase::ScriptReference { script, member_array }),
                ),
                _ => Progress::Finished(None),
            },
            FindVarPhase::ScriptReference { member_array, .. } => match reply {
                Reply::Pointer(Some(script_reference)) => Progress::Continue(
                    self.with_phase(FindVarPhase::ScriptMap { script_reference, member_array }),
                ),
                _ => Progress::Finished(None),
            },
            FindVarPhase::ScriptMap { member_array, .. } => match reply {
                Reply::Pointer(Some(first)) => Progress::Continue(self.visit(member_array, first)),
                _ => Progress::Finished(None),
            },
            FindVarPhase::NamePointer { member_array, current } => match reply {
                Reply::Pointer(Some(name_ptr)) => Progress::Continue(
                    self.with_phase(
                        FindVarPhase::Name {
                            member_array,
                            current,
                            reader: StringNameReadModel::start(name_ptr),
                        },
                    ),
                ),
                _ => Progress::Finished(None),
            },
            FindVarPhase::Name { member_array, current, reader } => match reader.advance(reply) {
                Progress::Continue(next) => Progress::Continue(
                    self.with_phase(FindVarPhase::Name { member_array, current, reader: next }),
                ),
                Progress::Finished(None) => Progress::Finished(None),
                Progress::Finished(Some(name)) => Progress::Continue(
                    self.after_name(member_array, current, name),
                ),
            },
            FindVarPhase::Next { member_array, .. } => match reply {
                Reply::Pointer(Some(next)) => Progress::Continue(self.visit(member_array, next)),
                _ => Progress::Finished(None),
            },
            FindVarPhase::Index { member_array, .. } => match reply {
                Reply::Int(Some(index)) => Progress::Finished(
                    Some(member_value_address(member_array, index)),
                ),
                _ => Progress::Finished(None),
            },
        }
    }

    /// After the name of the member at `current` is read: the variable's own
    /// name stops the walk there; any other name moves on to the next node.
    pub open spec fn after_name(self, member_array: u64, current: u64, name: Seq<char>) -> FindVarModel {
        if name == self.variable {
            self.with_phase(FindVarPhase::Index { member_array, current })
        } else {
            self.with_phase(FindVarPhase::Next { member_array, current })
        }
    }

    /// The outcome and the reads made within `fuel` steps answered from `snap`.
    pub open spec fn run(self, snap: Snapshot, fuel: nat) -> Option<(Option<u64>, nat)>
        decreases fuel,
    {
        if fuel == 0 {
            None
        } else {
            match self.advance(snap.reply_to(self.pending())) {
                Progress::Finished(r) => Some((r, 1)),
                Progress::Continue(next) => after_reads(1, next.run(snap, (fuel - 1) as nat)),
            }
        }
    }
}

/// The index read at node `current`, within `fuel` reads.
pub open spec fn member_index_at(snap: Snapshot, member_array: u64, current: u64, fuel: nat) -> Option<(Option<u64>, nat)> {
    if fuel == 0 {
        None
    } else {
        match snap.int_at(add_offset(current, MEMBER_INDEX as int)) {
            None => Some((None, 1)),
            Some(index) => Some((Some(member_value_address(member_array, index)), 1)),
        }
    }
}

/// The walk of a script's member list in `snap` from node `current`, within
/// `fuel` reads, and the reads it takes: nodes are followed through their
/// first pointer until a null node or a member named `variable`; the index
/// read at that node gives the address of the member's value.
pub open spec fn member_walk_at(
    snap: Snapshot,
    variable: Seq<char>,
    member_array: u64,
    current: u64,
    fuel: nat,
) -> Option<(Option<u64>, nat)>
    decreases fuel,
{
    if fuel == 0 {
        None
    } else if current == 0 {
        member_index_at(snap, member_array, current, fuel)
    } else {
        match snap.pointer_at(add_offset(current, MEMBER_NAME as int)) {
            None => Some((None, 1)),
            Some(name_ptr) => match string_name_at(snap, name_ptr, (fuel - 1) as nat) {
                None => None,
                Some((None, k)) => Some((None, k + 1)),
                Some((Some(name), k)) => if name == variable {
                    after_reads(
                        k + 1,
                        member_index_at(snap, member_array, current, (fuel - 1 - k) as nat),
                    )
                } else if k + 1 < fuel {
                    match snap.pointer_at(current) {
                        None => Some((None, k + 2)),
                        Some(next) => after_reads(
                            k + 2,
                            member_walk_at(snap, variable, member_array, next, (fuel - 2 - k) as nat),
                        ),
                    }
                } else {
                    None
                },
            },
        }
    }
}

/// Where the value of the script variable `variable` lies, looked up in
/// `snap` from the script at `script`, within `fuel` reads, and the reads it
/// takes: the script's member array, then its resource's member map, whose
/// list is walked for the variable.
pub open spec fn find_var_at(
    snap: Snapshot,
    script: u64,
    variable: Seq<char>,
    member_map: u64,
    fuel: nat,
) -> Option<(Option<u64>, nat)> {
    if fuel == 0 {
        None
    } else {
        match snap.pointer_at(add_offset(script, 0x28)) {
            None => Some((None, 1)),
            Some(member_array) => if fuel < 2 {
                None
            } else {
                match snap.pointer_at(add_offset(script, SCRIPT_REFERENCE as int)) {
                    None => Some((None, 2)),
                    Some(script_reference) => if fuel < 3 {
                        None
                    } else {
                        match snap.pointer_at(add_offset(script_reference, member_map as int)) {
                            None => Some((None, 3)),
                            Some(first) => after_reads(
                                3,
                                member_walk_at(snap, variable, member_array, first, (fuel - 3) as nat),
                            ),
                        }
                    },
                }
            },
        }
    }
}


enum WalkPhase {
    MemberArray { script: u64 },
    ScriptReference { script: u64, member_array: u64 },
    ScriptMap { script_reference: u64, member_array: u64 },
    NamePointer { member_array: u64, current: u64 },
    Name { member_array: u64, current: u64, reader: StringNameRead },
    Next { member_array: u64, current: u64 },
    Index { member_array: u64, current: u64 },
}

impl View for WalkPhase {
    type V = FindVarPhase;

    closed spec fn view(&self) -> FindVarPhase {
        match *self {
            WalkPhase::MemberArray { script } => FindVarPhase::MemberArray { script },
            WalkPhase::ScriptReference { script, member_array } => FindVarPhase::ScriptReference {
                script,
                member_array,
            },
            WalkPhase::ScriptMap { script_reference, member_array } => FindVarPhase::ScriptMap {
                script_reference,
                member_array,
            },
            WalkPhase::NamePointer { member_array, current } => FindVarPhase::NamePointer {
                member_array,
                current,
            },
            WalkPhase::Name { member_array, current, reader } => FindVarPhase::Name {
                member_array,
                current,
                reader: reader@,
            },
            WalkPhase::Next { member_array, current } => FindVarPhase::Next { member_array, current },
            WalkPhase::Index { member_array, current } => FindVarPhase::Index {
                member_array,
                current,
            },
        }
    }
}

/// Looks up where a script variable's value lies, one read at a time (see [`find_var`]).
pub struct FindVar {
    variable: String,
    member_map: u64,
    phase: WalkPhase,
}

impl View for FindVar {
    type V = FindVarModel;

    closed spec fn view(&self) -> FindVarModel {
        FindVarModel { variable: self.variable@, member_map: self.member_map, phase: self.phase@ }
    }
}

/// The abstract counterpart of a step of a [`FindVar`].
pub open spec fn find_var_step_view(step: Step<FindVar, Option<u64>>) -> Progress<
    FindVarModel,
    Option<u64>,
> {
    match step {
        Step::Read(m, _) => Progress::Continue(m@),
        Step::Done(r) => Progress::Finished(r),
    }
}

/// Starts looking up where the value of the variable named `variable` of the
/// script at `script` lies, on `os`: the machine and its first read, the
/// script's member array pointer.
pub fn find_var(os: &str, script: u64, variable: &str) -> (r: (FindVar, Request))
    ensures
        r.0@ == FindVarModel::start(script, variable@, member_map_offset(os@)),
        r.1 == r.0@.pending(),
{
    let member_map = get_member_map(os);
    let request = Request::Pointer(offset_address(script, get_script_member_array(os)));
    (
        FindVar {
            variable: variable.to_owned(),
            member_map,
            phase: WalkPhase::MemberArray { script },
        },
        request,
    )
}

impl FindVar {
    /// The machine in `phase`, with the read that phase waits for.
    fn enter(variable: String, member_map: u64, phase: WalkPhase) -> (r: Step<FindVar, Option<u64>>)
        ensures
            r matches Step::Read(m, req) && m@ == (FindVarModel {
                variable: variable@,
                member_map,
                phase: phase@,
            }) && req == m@.pending(),
    {
        let request = match &phase {
            WalkPhase::MemberArray { script } => Request::Pointer(offset_address(*script, 0x28)),
            WalkPhase::ScriptReference { script, .. } => Request::Pointer(
                offset_address(*script, SCRIPT_REFERENCE),
            ),
            WalkPhase::ScriptMap { script_reference, .. } => Request::Pointer(
                offset_address(*script_reference, member_map),
            ),
            WalkPhase::NamePointer { current, .. } => Request::Pointer(
                offset_address(*current, MEMBER_NAME),
            ),
            WalkPhase::Name { reader, .. } => reader.request(),
            WalkPhase::Next { current, .. } => Request::Pointer(*current),
            WalkPhase::Index { current, .. } => Request::Int(offset_address(*current, MEMBER_INDEX)),
        };
        Step::Read(FindVar { variable, member_map, phase }, request)
    }

    /// The phase of arriving at list node `current`.
    fn visit(member_array: u64, current: u64) -> (r: WalkPhase)
        ensures
            r@ == (if current == 0 {
                FindVarPhase::Index { member_array, current }
            } else {
                FindVarPhase::NamePointer { member_array, current }
            }),
    {
        if current == 0 {
            WalkPhase::Index { member_array, current }
        } else {
            WalkPhase::NamePointer { member_array, current }
        }
    }

    /// Takes the reply to the pending read and moves on.
    pub fn resume(self, reply: Reply) -> (r: Step<FindVar, Option<u64>>)
        requires
            reply.answers(self@.pending()),
        ensures
            find_var_step_view(r) == self@.advance(reply),
            r matches Step::Read(m, req) ==> req == m@.pending(),
    {
        let FindVar { variable, member_map, phase } = self;
        match phase {
            WalkPhase::MemberArray { script } => match reply {
                Reply::Pointer(Some(member_array)) => FindVar::enter(
                    variable,
                    member_map,
                    WalkPhase::ScriptReference { script, member_array },
                ),
                _ => Step::Done(None),
            },
            WalkPhase::ScriptReference { member_array, .. } => match reply {
                Reply::Pointer(Some(script_reference)) => FindVar::enter(
                    variable,
                    member_map,
                    WalkPhase::ScriptMap { script_reference, member_array },
                ),
                _ => Step::Done(None),
            },
            WalkPhase::ScriptMap { member_array, .. } => match reply {
                Reply::Pointer(Some(first)) => FindVar::enter(
                    variable,
                    member_map,
                    FindVar::visit(member_array, first),
                ),
                _ => Step::Done(None),
            },
            WalkPhase::NamePointer { member_array, current } => match reply {
                Reply::Pointer(Some(name_ptr)) => {
                    let (reader, _) = read_string_name(name_ptr);
                    FindVar::enter(
                        variable,
                        member_map,
                        WalkPhase::Name { member_array, current, reader },
                    )
                },
                _ => Step::Done(None),
            },
            WalkPhase::Name { member_array, current, reader } => match reader.resume(reply) {
                Step::Read(next, _) => FindVar::enter(
                    variable,
                    member_map,
                    WalkPhase::Name { member_array, current, reader: next },
                ),
                Step::Done(None) => Step::Done(None),
                Step::Done(Some(name)) => {
                    if name == variable {
                        FindVar::enter(variable, member_map, WalkPhase::Index { member_array, current })
                    } else {
                        FindVar::enter(variable, member_map, WalkPhase::Next { member_array, current })
                    }
                },
            },
            WalkPhase::Next { member_array, .. } => match reply {
                Reply::Pointer(Some(next)) => FindVar::enter(
                    variable,
                    member_map,
                    FindVar::visit(member_array, next),
                ),
                _ => Step::Done(None),
            },
            WalkPhase::Index { member_array, .. } => match reply {
                Reply::Int(Some(index)) => {
                    let scaled = index.wrapping_mul(0x18);
                    let entry = signed_offset_address(member_array, scaled);
                    Step::Done(Some(offset_address(entry, 0x8)))
                },
                _ => Step::Done(None),
            },
        }
    }
}

proof fn lemma_find_var_name_phase(
    m: FindVarModel,
    member_array: u64,
    current: u64,
    reader: StringNameReadModel,
    snap: Snapshot,
    fuel: nat,
)
    ensures
        m.with_phase(FindVarPhase::Name { member_array, current, reader }).run(snap, fuel) == (
        match reader.run(snap, fuel) {
            None => None,
            Some((None, k)) => Some((None, k)),
            Some((Some(name), k)) => after_reads(
                k,
                m.after_name(member_array, current, name).run(snap, (fuel - k) as nat),
            ),
        }),
    decreases fuel,
{
    if fuel > 0 {
        match reader.advance(snap.reply_to(reader.pending)) {
            Progress::Continue(next) => {
                lemma_find_var_name_phase(m, member_array, current, next, snap, (fuel - 1) as nat);
            },
            Progress::Finished(_) => {},
        }
    }
}

proof fn lemma_find_var_walk(m: FindVarModel, member_array: u64, current: u64, snap: Snapshot, fuel: nat)
    ensures
        m.visit(member_array, current).run(snap, fuel) == member_walk_at(
            snap,
            m.variable,
            member_array,
            current,
            fuel,
        ),
    decreases fuel,
{
    if fuel > 0 && current != 0 {
        match snap.pointer_at(add_offset(current, MEMBER_NAME as int)) {
            Some(name_ptr) => {
                let f = (fuel - 1) as nat;
                let reader = StringNameReadModel::start(name_ptr);
                lemma_find_var_name_phase(m, member_array, current, reader, snap, f);
                law_read_string_name(snap, name_ptr, f);
                lemma_string_reads_bounded(snap, name_ptr, f);
                match string_name_at(snap, name_ptr, f) {
                    Some((Some(name), k)) => {
                        if name != m.variable && k + 1 < fuel {
                            match snap.pointer_at(current) {
                                Some(next) => {
                                    lemma_find_var_walk(
                                        m,
                                        member_array,
                                        next,
                                        snap,
                                        (fuel - 2 - k) as nat,
                                    );
                                },
                                None => {},
                            }
                        }
                    },
                    _ => {},
                }
            },
            None => {},
        }
    }
}

/// Looking a variable up against a snapshot of memory gives where its value
/// lies: the member list of the script's resource is walked to the member of
/// that name, and its index picks the entry in the script's member array.
pub proof fn law_find_var(snap: Snapshot, script: u64, variable: Seq<char>, member_map: u64, fuel: nat)
    ensures
        FindVarModel::start(script, variable, member_map).run(snap, fuel) == find_var_at(
            snap,
            script,
            variable,
            member_map,
            fuel,
        ),
{
    let m = FindVarModel::start(script, variable, member_map);
    if fuel > 0 {
        match snap.pointer_at(add_offset(script, 0x28)) {
            Some(member_array) => {
                let m1 = m.with_phase(FindVarPhase::ScriptReference { script, member_array });
                assert(m.run(snap, fuel) == after_reads(1, m1.run(snap, (fuel - 1) as nat)));
                if fuel > 1 {
                    match snap.pointer_at(add_offset(script, SCRIPT_REFERENCE as int)) {
                        Some(script_reference) => {
                            let m2 = m.with_phase(
                                FindVarPhase::ScriptMap { script_reference, member_array },
                            );
                            assert(m1.run(snap, (fuel - 1) as nat) == after_reads(
                                1,
                                m2.run(snap, (fuel - 2) as nat),
                            ));
                            if fuel > 2 {
                                match snap.pointer_at(add_offset(script_reference, member_map as int)) {
                                    Some(first) => {
                                        assert(m2.run(snap, (fuel - 2) as nat) == after_reads(
                                            1,
                                            m.visit(member_array, first).run(snap, (fuel - 3) as nat),
                                        ));
                                        lemma_find_var_walk(m, member_array, first, snap, (fuel - 3) as nat);
                                    },
                                    None => {},
                                }
                            }
                        },
                        None => {},
                    }
                }
            },
            None => {},
        }
    }
}


/// Reading a node's name takes at least one read and no more than the fuel.
pub(crate) proof fn lemma_node_name_reads_bounded(snap: Snapshot, node_ptr: u64, name_offset: u64, fuel: nat)
    ensures
        node_name_at(snap, node_ptr, name_offset, fuel) matches Some((_, k)) ==> 1 <= k <= fuel,
{
    if fuel > 0 {
        match snap.pointer_at(add_offset(node_ptr, name_offset as int)) {
            Some(p) => lemma_string_reads_bounded(snap, p, (fuel - 1) as nat),
            None => {},
        }
    }
}

/// The characters `s` are stored in `snap` as 32-bit values from `address`
/// on, 4 bytes apart, followed by a 0.
pub open spec fn stores_chars(snap: Snapshot, address: u64, s: Seq<char>) -> bool {
    &&& forall|i: int|
        0 <= i < s.len() ==> #[trigger] snap.int_at(add_offset(address, 4 * i)) == Some(
            (s[i] as u32) as i32,
        )
    &&& snap.int_at(add_offset(address, 4 * (s.len() as int))) == Some(0i32)
}

/// Every character is a Unicode scalar value, and reads back from its own
/// 32-bit value.
pub(crate) proof fn lemma_char_round_trip(c: char)
    ensures
        char_value((c as u32) as i32) == Some(c),
{
    assert(is_scalar_value(c as u32));
    assert(((c as u32) as i32) as u32 == c as u32);
}

proof fn lemma_add_offset_step(p: u64, j: int)
    requires
        0 <= j,
    ensures
        add_offset(add_offset(p, 4 * j), 4) == add_offset(p, 4 * (j + 1)),
{
    let m: int = 0x1_0000_0000_0000_0000;
    let a = (p + 4 * j) % m;
    assert((a + 4) % m == (p + 4 * j + 4) % m) by {
        vstd::arithmetic::div_mod::lemma_add_mod_noop(p + 4 * j, 4, m);
        vstd::arithmetic::div_mod::lemma_small_mod(4, m as nat);
    }
}

proof fn lemma_chars_read_back(snap: Snapshot, p: u64, s: Seq<char>, j: int, fuel: nat)
    requires
        stores_chars(snap, p, s),
        forall|i: int| 0 <= i < s.len() ==> s[i] != '\0',
        0 <= j <= s.len(),
        fuel >= s.len() - j + 1,
    ensures
        chars_at(snap, add_offset(p, 4 * j), fuel) == Some(
            (Some(s.subrange(j, s.len() as int)), (s.len() - j + 1) as nat),
        ),
    decreases s.len() - j,
{
    if j < s.len() {
        let c = s[j];
        assert(snap.int_at(add_offset(p, 4 * j)) == Some((c as u32) as i32));
        lemma_char_round_trip(c);
        assert((c as u32) as i32 != 0) by {
            assert(c as u32 != 0);
        }
        lemma_add_offset_step(p, j);
        lemma_chars_read_back(snap, p, s, j + 1, (fuel - 1) as nat);
        assert(seq![c] + s.subrange(j + 1, s.len() as int) =~= s.subrange(j, s.len() as int));
    } else {
        assert(s.subrange(j, s.len() as int) =~= Seq::<char>::empty());
    }
}

/// A string name whose character pointer leads to the characters `s`, none
/// of them 0, stored 4 bytes apart and followed by a 0, reads back as exactly
/// `s`: every Unicode scalar value is a character, and only 0 ends the
/// string. It takes one read for the pointer and one per value.
pub proof fn law_string_name_reads_back(snap: Snapshot, start_location: u64, p: u64, s: Seq<char>, fuel: nat)
    requires
        snap.pointer_at(add_offset(start_location, 0x10)) == Some(p),
        stores_chars(snap, p, s),
        forall|i: int| 0 <= i < s.len() ==> s[i] != '\0',
        fuel >= s.len() + 2,
    ensures
        StringNameReadModel::start(start_location).run(snap, fuel) == Some((Some(s), s.len() + 2)),
{
    law_read_string_name(snap, start_location, fuel);
    lemma_chars_read_back(snap, p, s, 0, (fuel - 1) as nat);
    assert(add_offset(p, 4 * 0int) == p);
    assert(s.subrange(0, s.len() as int) =~= s);
}

/// The same for a node: a node whose name pointer leads to such a string
/// name reads back as exactly its characters.
pub proof fn law_node_name_reads_back(
    snap: Snapshot,
    node_ptr: u64,
    name_offset: u64,
    start_location: u64,
    p: u64,
    s: Seq<char>,
    fuel: nat,
)
    requires
        snap.pointer_at(add_offset(node_ptr, name_offset as int)) == Some(start_location),
        snap.pointer_at(add_offset(start_location, 0x10)) == Some(p),
        stores_chars(snap, p, s),
        forall|i: int| 0 <= i < s.len() ==> s[i] != '\0',
        fuel >= s.len() + 3,
    ensures
        NodeNameReadModel::start(node_ptr, name_offset).run(snap, fuel) == Some(
            (Some(s), s.len() + 3),
        ),
{
    law_read_node_name(snap, node_ptr, name_offset, fuel);
    law_read_string_name(snap, start_location, (fuel - 1) as nat);
    law_string_name_reads_back(snap, start_location, p, s, (fuel - 1) as nat);
}

/// Once the walk stops at a node, the index read there picks the entry in
/// the whole 64-bit member array: the value lies at
/// `member_array + index * 0x18 + 8` modulo 2^64, with `index * 0x18`
/// computed in 32 bits and wrapping; where that product does not wrap, it is
/// plainly `member_array + index * 0x18 + 8` modulo 2^64. A failed index
/// read gives `None`.
pub proof fn law_member_value_address(m: FindVarModel, member_array: u64, current: u64, index: i32)
    ensures
        m.with_phase(FindVarPhase::Index { member_array, current }).advance(Reply::Int(Some(index)))
            matches Progress::Finished(Some(r)) && r as int == (member_array as int
            + vstd::wrapping::i32_specs::wrapping_mul(index, 0x18) as int + 8)
            % 0x1_0000_0000_0000_0000int,
        -0x8000_0000 <= index * 0x18 < 0x8000_0000 ==> m.with_phase(
            FindVarPhase::Index { member_array, current },
        ).advance(Reply::Int(Some(index))) == Progress::<FindVarModel, Option<u64>>::Finished(
            Some(((member_array + index * 0x18 + 8) % 0x1_0000_0000_0000_0000int) as u64),
        ),
        m.with_phase(FindVarPhase::Index { member_array, current }).advance(Reply::Int(None))
            == Progress::<FindVarModel, Option<u64>>::Finished(None),
{
    let big: int = 0x1_0000_0000_0000_0000;
    let w = vstd::wrapping::i32_specs::wrapping_mul(index, 0x18) as int;
    vstd::arithmetic::div_mod::lemma_add_mod_noop(member_array + w, 8, big);
    vstd::arithmetic::div_mod::lemma_small_mod(8, big as nat);
    vstd::arithmetic::div_mod::lemma_mod_bound(member_array + w + 8, big);
    vstd::arithmetic::div_mod::lemma_mod_bound(member_array + w, big);
    if -0x8000_0000 <= index * 0x18 < 0x8000_0000 {
        let x = index * 0x18;
        let q: int = 0x1_0000_0000;
        if x >= 0 {
            vstd::arithmetic::div_mod::lemma_small_mod(x as nat, q as nat);
        } else {
            vstd::arithmetic::div_mod::lemma_fundamental_div_mod(x, q);
            vstd::arithmetic::div_mod::lemma_mod_bound(x, q);
            assert(x % q == x + q) by {
                vstd::arithmetic::div_mod::lemma_fundamental_div_mod_converse(x, q, -1, x + q);
            }
        }
        assert(w == x);
    }
}

/// The offsets and constants of the game's layout: the system is Linux
/// exactly for `"linux"`, and each offset is, on Linux and elsewhere:
/// root window 0x370 / 0x348, child count 0x1a0 / 0x1b8, child array
/// 0x1a8 / 0x1c0, member map 0x230 / 0x258, node name 0x200 / 0x218, current
/// scene 0x460 / 0x438, level end flag 0x42c / 0x444.
pub proof fn law_layout(os: Seq<char>)
    ensures
        is_linux(os) <==> os == "linux"@,
        root_window_offset(os) == (if os == "linux"@ { 0x370u64 } else { 0x348u64 }),
        node_child_count_offset(os) == (if os == "linux"@ { 0x1a0u64 } else { 0x1b8u64 }),
        node_child_array_offset(os) == (if os == "linux"@ { 0x1a8u64 } else { 0x1c0u64 }),
        member_map_offset(os) == (if os == "linux"@ { 0x230u64 } else { 0x258u64 }),
        node_name_offset(os) == (if os == "linux"@ { 0x200u64 } else { 0x218u64 }),
        current_scene_offset(os) == (if os == "linux"@ { 0x460u64 } else { 0x438u64 }),
        level_end_visible_offset(os) == (if os == "linux"@ { 0x42cu64 } else { 0x444u64 }),
        SCENE_TREE_OFFSET == 3,
        SCENE_TREE == 7,
        SCRIPT_REFERENCE == 0x18,
        STRING_NAME_START == 0x10,
        MEMBER_NAME == 0x10,
        MEMBER_INDEX == 0x18,
{
}

/// A string name ends with `None` when its character pointer cannot be read
/// (after one read), when its first value cannot be read, or when that value
/// is not 0 and no Unicode scalar value: negative, above 0x10FFFF, or a
/// surrogate from 0xD800 to 0xDFFF (after two reads).
pub proof fn law_string_name_failures(snap: Snapshot, start_location: u64, fuel: nat)
    requires
        fuel >= 2,
    ensures
        snap.pointer_at(add_offset(start_location, 0x10)) is None ==> StringNameReadModel::start(
            start_location,
        ).run(snap, fuel) == Some((None::<Seq<char>>, 1nat)),
        snap.pointer_at(add_offset(start_location, 0x10)) matches Some(p) ==> {
            let first = snap.int_at(p);
            (first is None || (first matches Some(v) && (v < 0 || v > 0x10FFFF || (0xD800 <= v
                && v <= 0xDFFF)))) ==> StringNameReadModel::start(start_location).run(snap, fuel)
                == Some((None::<Seq<char>>, 2nat))
        },
{
    let m = StringNameReadModel::start(start_location);
    match snap.pointer_at(add_offset(start_location, 0x10)) {
        Some(p) => {
            let m1 = StringNameReadModel { reading_chars: true, pending: Request::Int(p), chars: m.chars };
            assert(m.run(snap, fuel) == after_reads(1, m1.run(snap, (fuel - 1) as nat)));
            match snap.int_at(p) {
                Some(v) => {
                    assert(v < 0 ==> v as u32 > 0x10FFFFu32) by (bit_vector);
                    assert(v >= 0 ==> v as u32 == v) by (bit_vector);
                },
                None => {},
            }
        },
        None => {},
    }
}

/// The reads of a variable lookup: the member array pointer at
/// `script + 0x28`, the script reference at `script + 0x18`, the member list
/// at `script_reference + member_map`; at each node, its name pointer at
/// `node + 0x10`, the next node at `node`, and the index at `node + 0x18`. A
/// null node stops the walk with the index read at `0x18`; a node whose name
/// is exactly the variable stops it there; any other name goes on to the
/// next node.
pub proof fn law_find_var_reads(m: FindVarModel, script: u64, member_array: u64, current: u64, name: Seq<char>)
    ensures
        FindVarModel::start(script, m.variable, m.member_map).pending() == Request::Pointer(
            add_offset(script, 0x28),
        ),
        m.with_phase(FindVarPhase::ScriptReference { script, member_array }).pending()
            == Request::Pointer(add_offset(script, 0x18)),
        m.with_phase(FindVarPhase::ScriptMap { script_reference: script, member_array }).pending()
            == Request::Pointer(add_offset(script, m.member_map as int)),
        m.with_phase(FindVarPhase::NamePointer { member_array, current }).pending()
            == Request::Pointer(add_offset(current, 0x10)),
        m.with_phase(FindVarPhase::Next { member_array, current }).pending() == Request::Pointer(
            current,
        ),
        m.with_phase(FindVarPhase::Index { member_array, current }).pending() == Request::Int(
            add_offset(current, 0x18),
        ),
        m.visit(member_array, 0) == m.with_phase(FindVarPhase::Index { member_array, current: 0 }),
        current != 0 ==> m.visit(member_array, current) == m.with_phase(
            FindVarPhase::NamePointer { member_array, current },
        ),
        m.after_name(member_array, current, name) == m.with_phase(
            if name == m.variable {
                FindVarPhase::Index { member_array, current }
            } else {
                FindVarPhase::Next { member_array, current }
            },
        ),
{
}

/// While a member's name is read, the lookup follows the name reader; a name
/// that cannot be read ends the lookup with `None`, and a name read in full
/// decides the walk (see [`law_find_var_reads`]).
pub proof fn law_find_var_name_step(
    m: FindVarModel,
    member_array: u64,
    current: u64,
    reader: StringNameReadModel,
    reply: Reply,
)
    ensures
        ({
            let s = m.with_phase(FindVarPhase::Name { member_array, current, reader });
            match reader.advance(reply) {
                Progress::Continue(next) => s.advance(reply) == Progress::<FindVarModel, Option<u64>>::Continue(
                    m.with_phase(FindVarPhase::Name { member_array, current, reader: next }),
                ),
                Progress::Finished(None) => s.advance(reply) == Progress::<
                    FindVarModel,
                    Option<u64>,
                >::Finished(None),
                Progress::Finished(Some(name)) => s.advance(reply) == Progress::<
                    FindVarModel,
                    Option<u64>,
                >::Continue(m.after_name(member_array, current, name)),
            }
        }),
        m.with_phase(FindVarPhase::NamePointer { member_array, current }).advance(
            Reply::Pointer(None),
        ) == Progress::<FindVarModel, Option<u64>>::Finished(None),
        m.with_phase(FindVarPhase::Next { member_array, current }).advance(Reply::Pointer(None))
            == Progress::<FindVarModel, Option<u64>>::Finished(None),
        forall|name_ptr: u64|
            #![trigger StringNameReadModel::start(name_ptr)]
            m.with_phase(FindVarPhase::NamePointer { member_array, current }).advance(
                Reply::Pointer(Some(name_ptr)),
            ) == Progress::<FindVarModel, Option<u64>>::Continue(
                m.with_phase(
                    FindVarPhase::Name {
                        member_array,
                        current,
                        reader: StringNameReadModel::start(name_ptr),
                    },
                ),
            ),
        forall|next: u64|
            #![trigger m.visit(member_array, next)]
            m.with_phase(FindVarPhase::Next { member_array, current }).advance(
                Reply::Pointer(Some(next)),
            ) == Progress::<FindVarModel, Option<u64>>::Continue(m.visit(member_array, next)),
{
}

} // verus!
