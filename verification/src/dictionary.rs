//! Navigating a Godot `Dictionary` in the game's memory: its size, its chain
//! of elements, the addresses of their keys and values, and the sum of its
//! values.
use vstd::prelude::*;
use crate::memory::{
    add_offset, after_reads, offset_address, Progress, Reply, Request, Snapshot, Step,
};

verus! {

/// Offset, in a dictionary, of its element count.
pub const SIZE: u32 = 0x3c;

/// Offset, in a dictionary, of the pointer to its element table.
pub const FIRST: u32 = 0x18;

/// Offset, in an element, of the pointer to the next element.
pub const NEXT: u32 = 0x0;

/// Offset, in an element, of its key.
pub const KEY: u32 = 0x18;

/// Offset, in an element, of its value.
pub const VALUE: u32 = 0x30;

/// An element of a Godot dictionary.
#[derive(Clone, Copy, Debug, PartialEq, Eq, Structural)]
pub struct Element {
    pub address: u64,
}

/// The key and value addresses of the element at `address`.
pub open spec fn key_value_of(address: u64) -> (u64, u64) {
    (add_offset(address, KEY as int), add_offset(address, VALUE as int))
}

impl Element {
    /// Where the element's key lies.
    pub fn key_address(&self) -> (r: u64)
        ensures
            r == add_offset(self.address, KEY as int),
    {
        offset_address(self.address, KEY as u64)
    }

    /// Where the element's value lies.
    pub fn value_address(&self) -> (r: u64)
        ensures
            r == add_offset(self.address, VALUE as int),
    {
        offset_address(self.address, VALUE as u64)
    }

    /// Starts reading the element after this one: the machine and its only
    /// read, the pointer at `address + NEXT`.
    pub fn next(&self) -> (r: (ElementNext, Request))
        ensures
            r.0.pending() == Request::Pointer(add_offset(self.address, NEXT as int)),
            r.1 == r.0.pending(),
    {
        let at = offset_address(self.address, NEXT as u64);
        (ElementNext { at }, Request::Pointer(at))
    }
}

/// Reads the element after an element (see [`Element::next`]).
pub struct ElementNext {
    pub at: u64,
}

impl ElementNext {
    pub open spec fn pending(self) -> Request {
        Request::Pointer(self.at)
    }

    /// Takes the reply to the read: the element the pointer leads to, or
    /// `None` where the read failed.
    pub fn resume(self, reply: Reply) -> (r: Step<ElementNext, Option<Element>>)
        requires
            reply.answers(self.pending()),
        ensures
            r == Step::<ElementNext, Option<Element>>::Done(
                match reply {
                    Reply::Pointer(Some(p)) => Some(Element { address: p }),
                    _ => None,
                },
            ),
    {
        match reply {
            Reply::Pointer(Some(p)) => Step::Done(Some(Element { address: p })),
            _ => Step::Done(None),
        }
    }
}

/// A struct used to navigate a Godot dictionary at `address`, whose first
/// element lies `weird_offset` bytes into its element table.
#[derive(Clone, Copy, Debug)]
pub struct Dictionary {
    pub address: u64,
    pub weird_offset: u32,
}

impl Dictionary {
    pub fn new(address: u64, weird_offset: u32) -> (r: Dictionary)
        ensures
            r.address == address,
            r.weird_offset == weird_offset,
    {
        Dictionary { address, weird_offset }
    }

    /// Where the element count lies.
    pub open spec fn size_address(self) -> u64 {
        add_offset(self.address, SIZE as int)
    }

    /// Where the pointer to the element table lies.
    pub open spec fn table_address(self) -> u64 {
        add_offset(self.address, FIRST as int)
    }

    /// Starts reading the element count: the machine and its only read.
    pub fn get_length(&self) -> (r: (LengthRead, Request))
        ensures
            r.0.pending() == Request::Int(self.size_address()),
            r.1 == r.0.pending(),
    {
        let at = offset_address(self.address, SIZE as u64);
        (LengthRead { at }, Request::Int(at))
    }

    /// Starts collecting the key and value addresses of the elements: the
    /// machine and its first read, the element count.
    pub fn get_key_addr_pairs(&self) -> (r: (PairsRead, Request))
        ensures
            r.0@ == PairsModel::start(*self),
            r.1 == r.0@.pending(),
    {
        let at = offset_address(self.address, SIZE as u64);
        (PairsRead { dict: *self, stage: PairsStage::Length, pairs: Vec::new() }, Request::Int(at))
    }

    /// Starts summing the values of the elements, read as 32-bit integers:
    /// the machine and its first read, the element count.
    pub fn get_sum(&self) -> (r: (SumRead, Request))
        ensures
            r.0@ == SumModel::start(*self),
            r.1 == r.0@.pending(),
    {
        let at = offset_address(self.address, SIZE as u64);
        (SumRead { dict: *self, stage: SumStage::Length }, Request::Int(at))
    }

    /// Starts reading the first element: the machine and its first read, the
    /// pointer to the element table.
    pub fn get_first_element(&self) -> (r: (FirstElementRead, Request))
        ensures
            r.0@ == (FirstElementModel::Table { at: self.table_address(), offset: self.weird_offset }),
            r.1 == r.0@.pending(),
    {
        let at = offset_address(self.address, FIRST as u64);
        (FirstElementRead { offset: self.weird_offset, table: None, at }, Request::Pointer(at))
    }
}

/// Reads a dictionary's element count (see [`Dictionary::get_length`]).
pub struct LengthRead {
    pub at: u64,
}

impl LengthRead {
    pub open spec fn pending(self) -> Request {
        Request::Int(self.at)
    }

    /// Takes the reply to the read: the count, or `None` where the read failed.
    pub fn resume(self, reply: Reply) -> (r: Step<LengthRead, Option<i32>>)
        requires
            reply.answers(self.pending()),
        ensures
            r == Step::<LengthRead, Option<i32>>::Done(
                match reply {
                    Reply::Int(v) => v,
                    _ => None,
                },
            ),
    {
        match reply {
            Reply::Int(v) => Step::Done(v),
            _ => Step::Done(None),
        }
    }
}

/// Where a [`FirstElementRead`] stands, seen abstractly.
pub enum FirstElementModel {
    /// Waiting for the table pointer at `at`; the first element's pointer
    /// lies `offset` bytes into the table.
    Table { at: u64, offset: u32 },
    /// Waiting for the first element's pointer at `at`.
    First { at: u64 },
}

impl FirstElementModel {
    pub open spec fn pending(self) -> Request {
        match self {
            FirstElementModel::Table { at, .. } => Request::Pointer(at),
            FirstElementModel::First { at } => Request::Pointer(at),
        }
    }

    /// One step: the table pointer, then the first element's pointer in the
    /// table; a failed read gives `None`.
    pub open spec fn advance(self, reply: Reply) -> Progress<FirstElementModel, Option<Element>> {
        match reply {
            Reply::Pointer(Some(p)) => match self {
                FirstElementModel::Table { offset, .. } => Progress::Continue(
                    FirstElementModel::First { at: add_offset(p, offset as int) },
                ),
                FirstElementModel::First { .. } => Progress::Finished(Some(Element { address: p })),
            },
            _ => Progress::Finished(None),
        }
    }
}

/// Reads a dictionary's first element (see [`Dictionary::get_first_element`]).
pub struct FirstElementRead {
    offset: u32,
    table: Option<u64>,
    at: u64,
}

impl View for FirstElementRead {
    type V = FirstElementModel;

    closed spec fn view(&self) -> FirstElementModel {
        match self.table {
            None => FirstElementModel::Table { at: self.at, offset: self.offset },
            Some(_) => FirstElementModel::First { at: self.at },
        }
    }
}

/// The abstract counterpart of a step of a [`FirstElementRead`].
pub open spec fn first_step_view(step: Step<FirstElementRead, Option<Element>>) -> Progress<
    FirstElementModel,
    Option<Element>,
> {
    match step {
        Step::Read(m, _) => Progress::Continue(m@),
        Step::Done(r) => Progress::Finished(r),
    }
}

impl FirstElementRead {
    /// Takes the reply to the pending read and moves on.
    pub fn resume(self, reply: Reply) -> (r: Step<FirstElementRead, Option<Element>>)
        requires
            reply.answers(self@.pending()),
        ensures
            first_step_view(r) == self@.advance(reply),
            r matches Step::Read(m, req) ==> req == m@.pending(),
    {
        match reply {
            Reply::Pointer(Some(p)) => match self.table {
                None => {
                    let at = offset_address(p, self.offset as u64);
                    Step::Read(FirstElementRead { offset: self.offset, table: Some(p), at }, Request::Pointer(at))
                },
                Some(_) => Step::Done(Some(Element { address: p })),
            },
            _ => Step::Done(None),
        }
    }
}


/// Where a [`PairsRead`] stands in collecting key and value addresses.
pub enum PairsPhase {
    /// Waiting for the element count.
    Length,
    /// Waiting for the pointer to the element table.
    Table { length: i32 },
    /// Waiting for the first element's pointer at `at`.
    First { length: i32, at: u64 },
    /// The element at `current`, the `index`-th, has been collected into
    /// `pairs`; waiting for the pointer to the next element.
    Walk { length: i32, index: int, current: u64, pairs: Seq<(u64, u64)> },
}

/// Where a [`PairsRead`] stands, seen abstractly.
pub struct PairsModel {
    pub dict: Dictionary,
    pub phase: PairsPhase,
}

impl PairsModel {
    pub open spec fn start(dict: Dictionary) -> PairsModel {
        PairsModel { dict, phase: PairsPhase::Length }
    }

    pub open spec fn pending(self) -> Request {
        match self.phase {
            PairsPhase::Length => Request::Int(self.dict.size_address()),
            PairsPhase::Table { .. } => Request::Pointer(self.dict.table_address()),
            PairsPhase::First { at, .. } => Request::Pointer(at),
            PairsPhase::Walk { current, .. } => Request::Pointer(add_offset(current, NEXT as int)),
        }
    }

    /// Arriving at the element at `current` as the `index`-th: the walk ends
    /// after `length` elements or at a null element; otherwise the element's
    /// key and value addresses are collected.
    pub open spec fn arrive(self, length: i32, index: int, current: u64, pairs: Seq<(u64, u64)>) -> Progress<
        PairsModel,
        Option<Seq<(u64, u64)>>,
    > {
        if index >= length || current == 0 {
            Progress::Finished(Some(pairs))
        } else {
            Progress::Continue(
                PairsModel {
                    dict: self.dict,
                    phase: PairsPhase::Walk {
                        length,
                        index,
                        current,
                        pairs: pairs.push(key_value_of(current)),
                    },
                },
            )
        }
    }

    /// One step. A count of 0 gives `None`, as does any failed read.
    pub open spec fn advance(self, reply: Reply) -> Progress<PairsModel, Option<Seq<(u64, u64)>>> {
        match self.phase {
            PairsPhase::Length => match reply {
                Reply::Int(Some(length)) => if length == 0 {
                    Progress::Finished(None)
                } else {
                    Progress::Continue(PairsModel { dict: self.dict, phase: PairsPhase::Table { length } })
                },
                _ => Progress::Finished(None),
            },
            PairsPhase::Table { length } => match reply {
                Reply::Pointer(Some(table)) => Progress::Continue(
                    PairsModel {
                        dict: self.dict,
                        phase: PairsPhase::First {
                            length,
                            at: add_offset(table, self.dict.weird_offset as int),
                        },
                    },
                ),
                _ => Progress::Finished(None),
            },
            PairsPhase::First { length, .. } => match reply {
                Reply::Pointer(Some(first)) => self.arrive(length, 0, first, Seq::empty()),
                _ => Progress::Finished(None),
            },
            PairsPhase::Walk { length, index, pairs, .. } => match reply {
                Reply::Pointer(Some(next)) => self.arrive(length, index + 1, next, pairs),
                _ => Progress::Finished(None),
            },
        }
    }

    /// The outcome and the reads made within `fuel` steps answered from `snap`.
    pub open spec fn run(self, snap: Snapshot, fuel: nat) -> Option<(Option<Seq<(u64, u64)>>, nat)>
        decreases fuel,
    {
        if fuel == 0 {
            None
        } else {
            match self.advance(snap.reply_to(self.pending())) {
                Progress::Finished(r) => Some((r, 1)),
                Progress::Continue(next) => after_reads(1, next.run(snap, (fuel - 1) as nat)),
            }
        }
    }
}

/// The key and value addresses of the elements in `snap` from the element at
/// `current`, the `index`-th, on, following each element's next pointer, up
/// to `length` elements or a null element, within `fuel` reads, and the reads
/// it takes. The next pointer of every element collected is read.
pub open spec fn elements_at(snap: Snapshot, current: u64, index: int, length: int, fuel: nat) -> Option<
    (Option<Seq<(u64, u64)>>, nat),
>
    decreases fuel,
{
    if index >= length || current == 0 {
        Some((Some(Seq::empty()), 0))
    } else if fuel == 0 {
        None
    } else {
        match snap.pointer_at(add_offset(current, NEXT as int)) {
            None => Some((None, 1)),
            Some(next) => match elements_at(snap, next, index + 1, length, (fuel - 1) as nat) {
                None => None,
                Some((None, k)) => Some((None, k + 1)),
                Some((Some(rest), k)) => Some((Some(seq![key_value_of(current)] + rest), k + 1)),
            },
        }
    }
}

/// The key and value addresses of the dictionary's elements in `snap`,
/// within `fuel` reads, and the reads it takes: `None` for a count of 0;
/// otherwise the elements from the first one on, at most as many as the count.
pub open spec fn key_addr_pairs_at(snap: Snapshot, dict: Dictionary, fuel: nat) -> Option<
    (Option<Seq<(u64, u64)>>, nat),
> {
    if fuel == 0 {
        None
    } else {
        match snap.int_at(dict.size_address()) {
            None => Some((None, 1)),
            Some(length) => if length == 0 {
                Some((None, 1))
            } else if fuel < 2 {
                None
            } else {
                match snap.pointer_at(dict.table_address()) {
                    None => Some((None, 2)),
                    Some(table) => if fuel < 3 {
                        None
                    } else {
                        match snap.pointer_at(add_offset(table, dict.weird_offset as int)) {
                            None => Some((None, 3)),
                            Some(first) => after_reads(
                                3,
                                elements_at(snap, first, 0, length as int, (fuel - 3) as nat),
                            ),
                        }
                    },
                }
            },
        }
    }
}

enum PairsStage {
    Length,
    Table { length: i32 },
    First { length: i32, at: u64 },
    Walk { length: i32, index: i32, current: u64 },
}

/// Collects the key and value addresses of a dictionary's elements, one
/// read at a time (see [`Dictionary::get_key_addr_pairs`]).
pub struct PairsRead {
    dict: Dictionary,
    stage: PairsStage,
    pairs: Vec<(u64, u64)>,
}

impl View for PairsRead {
    type V = PairsModel;

    closed spec fn view(&self) -> PairsModel {
        PairsModel {
            dict: self.dict,
            phase: match self.stage {
                PairsStage::Length => PairsPhase::Length,
                PairsStage::Table { length } => PairsPhase::Table { length },
                PairsStage::First { length, at } => PairsPhase::First { length, at },
                PairsStage::Walk { length, index, current } => PairsPhase::Walk {
                    length,
                    index: index as int,
                    current,
                    pairs: self.pairs@,
                },
            },
        }
    }
}

/// The abstract counterpart of a step of a [`PairsRead`].
pub open spec fn pairs_step_view(step: Step<PairsRead, Option<Vec<(u64, u64)>>>) -> Progress<
    PairsModel,
    Option<Seq<(u64, u64)>>,
> {
    match step {
        Step::Read(m, _) => Progress::Continue(m@),
        Step::Done(Some(v)) => Progress::Finished(Some(v@)),
        Step::Done(None) => Progress::Finished(None),
    }
}

impl PairsRead {
    #[verifier::type_invariant]
    spec fn inv(self) -> bool {
        match self.stage {
            PairsStage::Walk { length, index, .. } => 0 <= index < length,
            _ => true,
        }
    }

    /// The read the machine waits for.
    pub fn request(&self) -> (r: Request)
        ensures
            r == self@.pending(),
    {
        match self.stage {
            PairsStage::Length => Request::Int(offset_address(self.dict.address, SIZE as u64)),
            PairsStage::Table { .. } => Request::Pointer(offset_address(self.dict.address, FIRST as u64)),
            PairsStage::First { at, .. } => Request::Pointer(at),
            PairsStage::Walk { current, .. } => Request::Pointer(offset_address(current, NEXT as u64)),
        }
    }

    /// Arriving at the element at `current` as the `index`-th.
    fn arrive(dict: Dictionary, length: i32, index: i32, current: u64, pairs: Vec<(u64, u64)>) -> (r: Step<
        PairsRead,
        Option<Vec<(u64, u64)>>,
    >)
        requires
            0 <= index,
        ensures
            pairs_step_view(r) == PairsModel::start(dict).arrive(length, index as int, current, pairs@),
            r matches Step::Read(m, req) ==> req == m@.pending(),
    {
        if index >= length || current == 0 {
            Step::Done(Some(pairs))
        } else {
            let mut pairs = pairs;
            let element = Element { address: current };
            pairs.push((element.key_address(), element.value_address()));
            let m = PairsRead { dict, stage: PairsStage::Walk { length, index, current }, pairs };
            let req = m.request();
            Step::Read(m, req)
        }
    }

    /// Takes the reply to the pending read and moves on.
    pub fn resume(self, reply: Reply) -> (r: Step<PairsRead, Option<Vec<(u64, u64)>>>)
        requires
            reply.answers(self@.pending()),
        ensures
            pairs_step_view(r) == self@.advance(reply),
            r matches Step::Read(m, req) ==> req == m@.pending(),
    {
        proof {
            use_type_invariant(&self);
        }
        let PairsRead { dict, stage, pairs } = self;
        match stage {
            PairsStage::Length => match reply {
                Reply::Int(Some(length)) => {
                    if length == 0 {
                        Step::Done(None)
                    } else {
                        let m = PairsRead { dict, stage: PairsStage::Table { length }, pairs };
                        let req = m.request();
                        Step::Read(m, req)
                    }
                },
                _ => Step::Done(None),
            },
            PairsStage::Table { length } => match reply {
                Reply::Pointer(Some(table)) => {
                    let at = offset_address(table, dict.weird_offset as u64);
                    let m = PairsRead { dict, stage: PairsStage::First { length, at }, pairs };
                    Step::Read(m, Request::Pointer(at))
                },
                _ => Step::Done(None),
            },
            PairsStage::First { length, .. } => match reply {
                Reply::Pointer(Some(first)) => PairsRead::arrive(dict, length, 0, first, Vec::new()),
                _ => Step::Done(None),
            },
            PairsStage::Walk { length, index, .. } => match reply {
                Reply::Pointer(Some(next)) => PairsRead::arrive(dict, length, index + 1, next, pairs),
                _ => Step::Done(None),
            },
        }
    }
}


/// Where a [`SumRead`] stands, seen abstractly.
pub enum SumPhase {
    /// Waiting for the element count.
    Length,
    /// Collecting the key and value addresses.
    Pairs { reader: PairsModel },
    /// `sum` holds the values before the `index`-th; waiting for that value.
    Values { pairs: Seq<(u64, u64)>, index: int, sum: i32 },
}

/// Where a [`SumRead`] stands, seen abstractly.
pub struct SumModel {
    pub dict: Dictionary,
    pub phase: SumPhase,
}

impl SumModel {
    pub open spec fn start(dict: Dictionary) -> SumModel {
        SumModel { dict, phase: SumPhase::Length }
    }

    pub open spec fn pending(self) -> Request {
        match self.phase {
            SumPhase::Length => Request::Int(self.dict.size_address()),
            SumPhase::Pairs { reader } => reader.pending(),
            SumPhase::Values { pairs, index, .. } => Request::Int(pairs[index].1),
        }
    }

    /// With the values before the `index`-th summed into `sum`: past the last
    /// pair the sum is the result; otherwise the next value is read.
    pub open spec fn values_from(self, pairs: Seq<(u64, u64)>, index: int, sum: i32) -> Progress<
        SumModel,
        Option<(bool, i32)>,
    > {
        if index >= pairs.len() {
            Progress::Finished(Some((true, sum)))
        } else {
            Progress::Continue(SumModel { dict: self.dict, phase: SumPhase::Values { pairs, index, sum } })
        }
    }

    /// One step. A count that is not positive gives `(false, 0)` at once;
    /// otherwise the key and value addresses are collected anew (the count is
    /// read again) and the values are added up, wrapping around in 32 bits.
    /// Any failed read gives `None`.
    pub open spec fn advance(self, reply: Reply) -> Progress<SumModel, Option<(bool, i32)>> {
        match self.phase {
            SumPhase::Length => match reply {
                Reply::Int(Some(length)) => if !(length > 0) {
                    Progress::Finished(Some((false, 0)))
                } else {
                    Progress::Continue(
                        SumModel { dict: self.dict, phase: SumPhase::Pairs { reader: PairsModel::start(self.dict) } },
                    )
                },
                _ => Progress::Finished(None),
            },
            SumPhase::Pairs { reader } => match reader.advance(reply) {
                Progress::Continue(next) => Progress::Continue(
                    SumModel { dict: self.dict, phase: SumPhase::Pairs { reader: next } },
                ),
                Progress::Finished(None) => Progress::Finished(None),
                Progress::Finished(Some(pairs)) => self.values_from(pairs, 0, 0),
            },
            SumPhase::Values { pairs, index, sum } => match reply {
                Reply::Int(Some(value)) => self.values_from(
                    pairs,
                    index + 1,
                    vstd::wrapping::i32_specs::wrapping_add(sum, value),
                ),
                _ => Progress::Finished(None),
            },
        }
    }

    /// The outcome and the reads made within `fuel` steps answered from `snap`.
    pub open spec fn run(self, snap: Snapshot, fuel: nat) -> Option<(Option<(bool, i32)>, nat)>
        decreases fuel,
    {
        if fuel == 0 {
            None
        } else {
            match self.advance(snap.reply_to(self.pending())) {
                Progress::Finished(r) => Some((r, 1)),
                Progress::Continue(next) => after_reads(1, next.run(snap, (fuel - 1) as nat)),
            }
        }
    }
}

/// `sum` plus the 32-bit values in `snap` at the value addresses of `pairs`
/// from the `index`-th on, wrapping around, within `fuel` reads, and the
/// reads it takes; `None` inside where a read fails.
pub open spec fn values_sum_at(snap: Snapshot, pairs: Seq<(u64, u64)>, index: int, sum: i32, fuel: nat) -> Option<
    (Option<i32>, nat),
>
    decreases fuel,
{
    if index >= pairs.len() {
        Some((Some(sum), 0))
    } else if fuel == 0 {
        None
    } else {
        match snap.int_at(pairs[index].1) {
            None => Some((None, 1)),
            Some(value) => after_reads(
                1,
                values_sum_at(
                    snap,
                    pairs,
                    index + 1,
                    vstd::wrapping::i32_specs::wrapping_add(sum, value),
                    (fuel - 1) as nat,
                ),
            ),
        }
    }
}

/// The sum of the dictionary's values in `snap`, within `fuel` reads, and
/// the reads it takes: `(false, 0)` for a count that is not positive;
/// otherwise `true` and the wrapping sum of the values of the elements that
/// [`key_addr_pairs_at`] collects.
pub open spec fn sum_at(snap: Snapshot, dict: Dictionary, fuel: nat) -> Option<(Option<(bool, i32)>, nat)> {
    if fuel == 0 {
        None
    } else {
        match snap.int_at(dict.size_address()) {
            None => Some((None, 1)),
            Some(length) => if !(length > 0) {
                Some((Some((false, 0)), 1))
            } else {
                match key_addr_pairs_at(snap, dict, (fuel - 1) as nat) {
                    None => None,
                    Some((None, k)) => Some((None, k + 1)),
                    Some((Some(pairs), k)) => match values_sum_at(
                        snap,
                        pairs,
                        0,
                        0,
                        (fuel - 1 - k) as nat,
                    ) {
                        None => None,
                        Some((None, j)) => Some((None, j + k + 1)),
                        Some((Some(sum), j)) => Some((Some((true, sum)), j + k + 1)),
                    },
                }
            },
        }
    }
}

enum SumStage {
    Length,
    Pairs { reader: PairsRead },
    Values { pairs: Vec<(u64, u64)>, index: usize, sum: i32 },
}

/// Sums the values of a dictionary's elements, one read at a time (see
/// [`Dictionary::get_sum`]).
pub struct SumRead {
    dict: Dictionary,
    stage: SumStage,
}

impl View for SumRead {
    type V = SumModel;

    closed spec fn view(&self) -> SumModel {
        SumModel {
            dict: self.dict,
            phase: match self.stage {
                SumStage::Length => SumPhase::Length,
                SumStage::Pairs { reader } => SumPhase::Pairs { reader: reader@ },
                SumStage::Values { pairs, index, sum } => SumPhase::Values {
                    pairs: pairs@,
                    index: index as int,
                    sum,
                },
            },
        }
    }
}

/// The abstract counterpart of a step of a [`SumRead`].
pub open spec fn sum_step_view(step: Step<SumRead, Option<(bool, i32)>>) -> Progress<
    SumModel,
    Option<(bool, i32)>,
> {
    match step {
        Step::Read(m, _) => Progress::Continue(m@),
        Step::Done(r) => Progress::Finished(r),
    }
}

impl SumRead {
    #[verifier::type_invariant]
    spec fn inv(self) -> bool {
        match self.stage {
            SumStage::Values { pairs, index, .. } => index < pairs.len(),
            _ => true,
        }
    }

    fn values_from(dict: Dictionary, pairs: Vec<(u64, u64)>, index: usize, sum: i32) -> (r: Step<
        SumRead,
        Option<(bool, i32)>,
    >)
        ensures
            sum_step_view(r) == SumModel::start(dict).values_from(pairs@, index as int, sum),
            r matches Step::Read(m, req) ==> req == m@.pending(),
    {
        if index >= pairs.len() {
            Step::Done(Some((true, sum)))
        } else {
            let at = pairs[index].1;
            Step::Read(SumRead { dict, stage: SumStage::Values { pairs, index, sum } }, Request::Int(at))
        }
    }

    /// Takes the reply to the pending read and moves on.
    pub fn resume(self, reply: Reply) -> (r: Step<SumRead, Option<(bool, i32)>>)
        requires
            reply.answers(self@.pending()),
        ensures
            sum_step_view(r) == self@.advance(reply),
            r matches Step::Read(m, req) ==> req == m@.pending(),
    {
        proof {
            use_type_invariant(&self);
        }
        let SumRead { dict, stage } = self;
        match stage {
            SumStage::Length => match reply {
                Reply::Int(Some(length)) => {
                    if !(length > 0) {
                        Step::Done(Some((false, 0)))
                    } else {
                        let (reader, req) = dict.get_key_addr_pairs();
                        Step::Read(SumRead { dict, stage: SumStage::Pairs { reader } }, req)
                    }
                },
                _ => Step::Done(None),
            },
            SumStage::Pairs { reader } => match reader.resume(reply) {
                Step::Read(next, req) => Step::Read(SumRead { dict, stage: SumStage::Pairs { reader: next } }, req),
                Step::Done(None) => Step::Done(None),
                Step::Done(Some(pairs)) => SumRead::values_from(dict, pairs, 0, 0),
            },
            SumStage::Values { pairs, index, sum } => match reply {
                Reply::Int(Some(value)) => SumRead::values_from(dict, pairs, index + 1, sum.wrapping_add(value)),
                _ => Step::Done(None),
            },
        }
    }
}


/// The collected addresses `prefix`, then those still in memory.
pub open spec fn with_pairs(prefix: Seq<(u64, u64)>, outcome: Option<(Option<Seq<(u64, u64)>>, nat)>) -> Option<
    (Option<Seq<(u64, u64)>>, nat),
> {
    match outcome {
        Some((Some(rest), k)) => Some((Some(prefix + rest), k)),
        other => other,
    }
}

proof fn lemma_pairs_walk(
    dict: Dictionary,
    length: i32,
    index: int,
    current: u64,
    prefix: Seq<(u64, u64)>,
    snap: Snapshot,
    fuel: nat,
)
    requires
        0 <= index < length,
        current != 0,
    ensures
        (PairsModel {
            dict,
            phase: PairsPhase::Walk {
                length,
                index,
                current,
                pairs: prefix.push(key_value_of(current)),
            },
        }).run(snap, fuel) == with_pairs(prefix, elements_at(snap, current, index, length as int, fuel)),
    decreases fuel,
{
    let pairs = prefix.push(key_value_of(current));
    if fuel > 0 {
        match snap.pointer_at(add_offset(current, NEXT as int)) {
            Some(next) => {
                if index + 1 >= length || next == 0 {
                    assert(prefix + seq![key_value_of(current)] =~= pairs);
                } else {
                    lemma_pairs_walk(dict, length, index + 1, next, pairs, snap, (fuel - 1) as nat);
                    match elements_at(snap, next, index + 1, length as int, (fuel - 1) as nat) {
                        Some((Some(rest), k)) => {
                            assert(prefix + (seq![key_value_of(current)] + rest) =~= pairs + rest);
                        },
                        _ => {},
                    }
                }
            },
            None => {},
        }
    }
}

/// Collecting key and value addresses against a snapshot of memory gives
/// those of the dictionary's elements stored there, from the first one on,
/// at most as many as the count says, with as many reads.
pub proof fn law_get_key_addr_pairs(snap: Snapshot, dict: Dictionary, fuel: nat)
    ensures
        PairsModel::start(dict).run(snap, fuel) == key_addr_pairs_at(snap, dict, fuel),
{
    let m = PairsModel::start(dict);
    if fuel > 0 {
        match snap.int_at(dict.size_address()) {
            Some(length) => if length != 0 {
                let m1 = PairsModel { dict, phase: PairsPhase::Table { length } };
                assert(m.run(snap, fuel) == after_reads(1, m1.run(snap, (fuel - 1) as nat)));
                if fuel > 1 {
                    match snap.pointer_at(dict.table_address()) {
                        Some(table) => {
                            let at = add_offset(table, dict.weird_offset as int);
                            let m2 = PairsModel { dict, phase: PairsPhase::First { length, at } };
                            assert(m1.run(snap, (fuel - 1) as nat) == after_reads(
                                1,
                                m2.run(snap, (fuel - 2) as nat),
                            ));
                            if fuel > 2 {
                                match snap.pointer_at(at) {
                                    Some(first) => {
                                        if !(0 >= length || first == 0) {
                                            lemma_pairs_walk(
                                                dict,
                                                length,
                                                0,
                                                first,
                                                Seq::empty(),
                                                snap,
                                                (fuel - 3) as nat,
                                            );
                                            match elements_at(snap, first, 0, length as int, (fuel - 3) as nat) {
                                                Some((Some(rest), k)) => {
                                                    assert(Seq::<(u64, u64)>::empty() + rest =~= rest);
                                                },
                                                _ => {},
                                            }
                                        }
                                    },
                                    None => {},
                                }
                            }
                        },
                        None => {},
                    }
                }
            },
            None => {},
        }
    }
}

proof fn lemma_pairs_reads_bounded(m: PairsModel, snap: Snapshot, fuel: nat)
    ensures
        m.run(snap, fuel) matches Some((_, k)) ==> 1 <= k <= fuel,
    decreases fuel,
{
    if fuel > 0 {
        match m.advance(snap.reply_to(m.pending())) {
            Progress::Continue(next) => lemma_pairs_reads_bounded(next, snap, (fuel - 1) as nat),
            Progress::Finished(_) => {},
        }
    }
}

proof fn lemma_sum_pairs_phase(dict: Dictionary, reader: PairsModel, snap: Snapshot, fuel: nat)
    ensures
        (SumModel { dict, phase: SumPhase::Pairs { reader } }).run(snap, fuel) == (
        match reader.run(snap, fuel) {
            None => None,
            Some((None, k)) => Some((None, k)),
            Some((Some(pairs), k)) => match values_sum_at(snap, pairs, 0, 0, (fuel - k) as nat) {
                None => None,
                Some((None, j)) => Some((None, j + k)),
                Some((Some(sum), j)) => Some((Some((true, sum)), j + k)),
            },
        }),
    decreases fuel,
{
    if fuel > 0 {
        match reader.advance(snap.reply_to(reader.pending())) {
            Progress::Continue(next) => lemma_sum_pairs_phase(dict, next, snap, (fuel - 1) as nat),
            Progress::Finished(Some(pairs)) => {
                if 0 < pairs.len() {
                    lemma_sum_values(dict, pairs, 0, 0, snap, (fuel - 1) as nat);
                }
            },
            Progress::Finished(None) => {},
        }
    }
}

proof fn lemma_sum_values(dict: Dictionary, pairs: Seq<(u64, u64)>, index: int, sum: i32, snap: Snapshot, fuel: nat)
    requires
        0 <= index < pairs.len(),
    ensures
        (SumModel { dict, phase: SumPhase::Values { pairs, index, sum } }).run(snap, fuel) == (
        match values_sum_at(snap, pairs, index, sum, fuel) {
            None => None,
            Some((None, j)) => Some((None, j)),
            Some((Some(total), j)) => Some((Some((true, total)), j)),
        }),
    decreases fuel,
{
    if fuel > 0 {
        match snap.int_at(pairs[index].1) {
            Some(value) => {
                if index + 1 < pairs.len() {
                    lemma_sum_values(
                        dict,
                        pairs,
                        index + 1,
                        vstd::wrapping::i32_specs::wrapping_add(sum, value),
                        snap,
                        (fuel - 1) as nat,
                    );
                }
            },
            None => {},
        }
    }
}

/// Summing a dictionary's values against a snapshot of memory gives
/// `(false, 0)` where the count stored there is not positive, and otherwise
/// `true` with the wrapping sum of the 32-bit values at the value addresses
/// that collecting the key and value addresses gives, with as many reads.
pub proof fn law_get_sum(snap: Snapshot, dict: Dictionary, fuel: nat)
    ensures
        SumModel::start(dict).run(snap, fuel) == sum_at(snap, dict, fuel),
{
    if fuel > 0 {
        match snap.int_at(dict.size_address()) {
            Some(length) => if length > 0 {
                let reader = PairsModel::start(dict);
                lemma_sum_pairs_phase(dict, reader, snap, (fuel - 1) as nat);
                law_get_key_addr_pairs(snap, dict, (fuel - 1) as nat);
                lemma_pairs_reads_bounded(reader, snap, (fuel - 1) as nat);
            },
            None => {},
        }
    }
}


/// The dictionary's first element in `snap`, within `fuel` reads, and the
/// reads it takes: the pointer to the element table, then the pointer
/// `weird_offset` bytes into the table.
pub open spec fn first_element_at(snap: Snapshot, dict: Dictionary, fuel: nat) -> Option<(Option<Element>, nat)> {
    if fuel == 0 {
        None
    } else {
        match snap.pointer_at(dict.table_address()) {
            None => Some((None, 1)),
            Some(table) => if fuel < 2 {
                None
            } else {
                match snap.pointer_at(add_offset(table, dict.weird_offset as int)) {
                    None => Some((None, 2)),
                    Some(first) => Some((Some(Element { address: first }), 2)),
                }
            },
        }
    }
}

impl FirstElementModel {
    /// The outcome and the reads made within `fuel` steps answered from `snap`.
    pub open spec fn run(self, snap: Snapshot, fuel: nat) -> Option<(Option<Element>, nat)>
        decreases fuel,
    {
        if fuel == 0 {
            None
        } else {
            match self.advance(snap.reply_to(self.pending())) {
                Progress::Finished(r) => Some((r, 1)),
                Progress::Continue(next) => after_reads(1, next.run(snap, (fuel - 1) as nat)),
            }
        }
    }
}

/// Reading the first element against a snapshot of memory gives the element
/// that the table's pointer leads to, with as many reads.
pub proof fn law_get_first_element(snap: Snapshot, dict: Dictionary, fuel: nat)
    ensures
        (FirstElementModel::Table { at: dict.table_address(), offset: dict.weird_offset }).run(snap, fuel)
            == first_element_at(snap, dict, fuel),
{
    let m = FirstElementModel::Table { at: dict.table_address(), offset: dict.weird_offset };
    if fuel > 0 {
        match snap.pointer_at(dict.table_address()) {
            Some(table) => {
                let m1 = FirstElementModel::First { at: add_offset(table, dict.weird_offset as int) };
                assert(m.run(snap, fuel) == after_reads(1, m1.run(snap, (fuel - 1) as nat)));
                if fuel > 1 {
                    assert(m1.run(snap, (fuel - 1) as nat) == Some(
                        (
                            match snap.pointer_at(m1.pending().address()) {
                                Some(first) => Some(Element { address: first }),
                                None => None,
                            },
                            1nat,
                        ),
                    ));
                } else {
                    assert(m1.run(snap, 0) == None::<(Option<Element>, nat)>);
                }
            },
            None => {},
        }
    }
}

/// Arriving at an element within the count collects exactly its key and
/// value addresses, `current + 0x18` and `current + 0x30` modulo 2^64 of its
/// whole 64-bit address, after those already collected; the walk goes on to
/// that element's next pointer.
pub proof fn law_pair_of_element(
    m: PairsModel,
    length: i32,
    index: int,
    current: u64,
    pairs: Seq<(u64, u64)>,
)
    requires
        index < length,
        current != 0,
    ensures
        m.arrive(length, index, current, pairs) == Progress::<PairsModel, Option<Seq<(u64, u64)>>>::Continue(
            PairsModel {
                dict: m.dict,
                phase: PairsPhase::Walk {
                    length,
                    index,
                    current,
                    pairs: pairs.push(
                        (
                            ((current + 0x18) % 0x1_0000_0000_0000_0000int) as u64,
                            ((current + 0x30) % 0x1_0000_0000_0000_0000int) as u64,
                        ),
                    ),
                },
            },
        ),
        (PairsModel {
            dict: m.dict,
            phase: PairsPhase::Walk { length, index, current, pairs },
        }).pending() == Request::Pointer(current),
{
}

/// Arriving past the count, or at a null element, ends the walk with what was
/// collected.
pub proof fn law_pairs_walk_ends(m: PairsModel, length: i32, index: int, current: u64, pairs: Seq<(u64, u64)>)
    requires
        index >= length || current == 0,
    ensures
        m.arrive(length, index, current, pairs) == Progress::<PairsModel, Option<Seq<(u64, u64)>>>::Finished(
            Some(pairs),
        ),
{
}

/// The reads of a dictionary: the element count at `address + 0x3c`, the
/// element table pointer at `address + 0x18`, the first element's pointer
/// `weird_offset` bytes into the table, and each element's next pointer at
/// the element itself; a key lies 0x18 and a value 0x30 bytes into its
/// element.
pub proof fn law_dictionary_reads(dict: Dictionary, table: u64, element: u64, length: i32, index: int, pairs: Seq<(u64, u64)>)
    ensures
        dict.size_address() == add_offset(dict.address, 0x3c),
        dict.table_address() == add_offset(dict.address, 0x18),
        PairsModel::start(dict).pending() == Request::Int(add_offset(dict.address, 0x3c)),
        (PairsModel { dict, phase: PairsPhase::Table { length } }).pending() == Request::Pointer(
            add_offset(dict.address, 0x18),
        ),
        (PairsModel { dict, phase: PairsPhase::Table { length } }).advance(Reply::Pointer(Some(table)))
            == Progress::<PairsModel, Option<Seq<(u64, u64)>>>::Continue(
            PairsModel {
                dict,
                phase: PairsPhase::First { length, at: add_offset(table, dict.weird_offset as int) },
            },
        ),
        (PairsModel { dict, phase: PairsPhase::Walk { length, index, current: element, pairs } }).pending()
            == Request::Pointer(element),
        SumModel::start(dict).pending() == Request::Int(add_offset(dict.address, 0x3c)),
        key_value_of(element) == (add_offset(element, 0x18), add_offset(element, 0x30)),
        SIZE == 0x3c && FIRST == 0x18 && NEXT == 0 && KEY == 0x18 && VALUE == 0x30,
{
}

/// A count of 0 gives no pairs (`None`) and a count that is not positive gives
/// a sum of `(false, 0)`, each after reading the count alone; any other count
/// goes on to the element table.
pub proof fn law_dictionary_counts(dict: Dictionary, length: i32)
    ensures
        PairsModel::start(dict).advance(Reply::Int(Some(length))) == (if length == 0 {
            Progress::<PairsModel, Option<Seq<(u64, u64)>>>::Finished(None)
        } else {
            Progress::Continue(PairsModel { dict, phase: PairsPhase::Table { length } })
        }),
        length <= 0 ==> SumModel::start(dict).advance(Reply::Int(Some(length))) == Progress::<
            SumModel,
            Option<(bool, i32)>,
        >::Finished(Some((false, 0i32))),
        length > 0 ==> SumModel::start(dict).advance(Reply::Int(Some(length))) == Progress::<
            SumModel,
            Option<(bool, i32)>,
        >::Continue(SumModel { dict, phase: SumPhase::Pairs { reader: PairsModel::start(dict) } }),
{
}

/// Each value read is added to the sum, wrapping around in 32 bits: the new
/// sum is the old one plus the value, shifted by 2^32 into the range of `i32`.
/// The last value gives `(true, sum)`; a failed read gives `None`.
pub proof fn law_sum_adds_values(dict: Dictionary, pairs: Seq<(u64, u64)>, index: int, sum: i32, value: i32)
    requires
        0 <= index < pairs.len(),
    ensures
        ({
            let m = SumModel { dict, phase: SumPhase::Values { pairs, index, sum } };
            let total = sum + value;
            let wrapped = if total > i32::MAX {
                total - 0x1_0000_0000
            } else if total < i32::MIN {
                total + 0x1_0000_0000
            } else {
                total
            };
            &&& m.pending() == Request::Int(pairs[index].1)
            &&& m.advance(Reply::Int(None)) == Progress::<SumModel, Option<(bool, i32)>>::Finished(None)
            &&& index + 1 == pairs.len() ==> m.advance(Reply::Int(Some(value))) == Progress::<
                SumModel,
                Option<(bool, i32)>,
            >::Finished(Some((true, wrapped as i32)))
            &&& index + 1 < pairs.len() ==> m.advance(Reply::Int(Some(value))) == Progress::<
                SumModel,
                Option<(bool, i32)>,
            >::Continue(
                SumModel { dict, phase: SumPhase::Values { pairs, index: index + 1, sum: wrapped as i32 } },
            )
        }),
{
}

/// Reading the first element: the table pointer leads to the first
/// element's pointer `offset` bytes into the table, which is the element;
/// a failed read gives `None`.
pub proof fn law_first_element_steps(at: u64, offset: u32, table: u64, first: u64)
    ensures
        (FirstElementModel::Table { at, offset }).advance(Reply::Pointer(Some(table))) == Progress::<
            FirstElementModel,
            Option<Element>,
        >::Continue(FirstElementModel::First { at: add_offset(table, offset as int) }),
        (FirstElementModel::First { at }).advance(Reply::Pointer(Some(first))) == Progress::<
            FirstElementModel,
            Option<Element>,
        >::Finished(Some(Element { address: first })),
        (FirstElementModel::Table { at, offset }).advance(Reply::Pointer(None)) == Progress::<
            FirstElementModel,
            Option<Element>,
        >::Finished(None),
        (FirstElementModel::First { at }).advance(Reply::Pointer(None)) == Progress::<
            FirstElementModel,
            Option<Element>,
        >::Finished(None),
{
}

/// Once the pairs are collected, the sum starts from 0 at the first pair:
/// no pairs give `(true, 0)`; failing to collect them gives `None`.
pub proof fn law_sum_starts_from_zero(dict: Dictionary, reader: PairsModel, reply: Reply)
    ensures
        ({
            let m = SumModel { dict, phase: SumPhase::Pairs { reader } };
            match reader.advance(reply) {
                Progress::Finished(None) => m.advance(reply) == Progress::<
                    SumModel,
                    Option<(bool, i32)>,
                >::Finished(None),
                Progress::Finished(Some(pairs)) => m.advance(reply) == (if pairs.len() == 0 {
                    Progress::<SumModel, Option<(bool, i32)>>::Finished(Some((true, 0i32)))
                } else {
                    Progress::Continue(
                        SumModel { dict, phase: SumPhase::Values { pairs, index: 0, sum: 0 } },
                    )
                }),
                Progress::Continue(next) => m.advance(reply) == Progress::<
                    SumModel,
                    Option<(bool, i32)>,
                >::Continue(SumModel { dict, phase: SumPhase::Pairs { reader: next } }),
            }
        }),
{
}

} // verus!
