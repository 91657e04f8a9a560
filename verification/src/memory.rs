//! Reads in the game's memory, seen from the library's side.
//!
//! The library never touches the game process itself. Each routine that walks
//! the game's memory is a small machine: it says which read it needs next
//! (a [`Request`]), the host makes that read and hands back what it got (a
//! [`Reply`]), and the machine either asks for another read or finishes.
//!
//! Addresses are plain `u64` values; adding an offset wraps around modulo
//! 2^64, as address arithmetic does.
use vstd::prelude::*;

verus! {

/// A read in the game's memory that a machine waits for.
#[derive(Clone, Copy, Debug, PartialEq, Eq, Structural)]
pub enum Request {
    /// Read the 64-bit address stored at this address.
    Pointer(u64),
    /// Read the 32-bit signed integer stored at this address.
    Int(u64),
}

/// What the host read for a [`Request`]; `None` where the read failed.
#[derive(Clone, Copy, Debug, PartialEq, Eq, Structural)]
pub enum Reply {
    /// The answer to a [`Request::Pointer`].
    Pointer(Option<u64>),
    /// The answer to a [`Request::Int`].
    Int(Option<i32>),
}

impl Reply {
    /// The reply has the kind of value that `request` asks for.
    pub open spec fn answers(self, request: Request) -> bool {
        match request {
            Request::Pointer(_) => self is Pointer,
            Request::Int(_) => self is Int,
        }
    }
}

impl Request {
    /// The address the request reads at.
    pub open spec fn address(self) -> u64 {
        match self {
            Request::Pointer(a) => a,
            Request::Int(a) => a,
        }
    }
}

/// One step of a machine: it needs another read, or it has finished with a result.
pub enum Step<M, T> {
    /// The machine, moved on, and the read it needs next.
    Read(M, Request),
    /// The result.
    Done(T),
}

/// The abstract counterpart of [`Step`]: the next state, or the result.
pub enum Progress<M, T> {
    /// The machine moves on to this state.
    Continue(M),
    /// The machine has finished with this result.
    Finished(T),
}

/// `outcome` with `reads` more reads counted in front of it.
pub open spec fn after_reads<T>(reads: nat, outcome: Option<(T, nat)>) -> Option<(T, nat)> {
    match outcome {
        Some((value, n)) => Some((value, n + reads)),
        None => None,
    }
}

/// The game's memory frozen at one moment: what a pointer read and what an
/// integer read at each address give back. An address outside a map's domain
/// is one whose read fails.
pub struct Snapshot {
    pub pointers: Map<u64, u64>,
    pub ints: Map<u64, i32>,
}

impl Snapshot {
    pub open spec fn pointer_at(self, address: u64) -> Option<u64> {
        if self.pointers.dom().contains(address) {
            Some(self.pointers[address])
        } else {
            None
        }
    }

    pub open spec fn int_at(self, address: u64) -> Option<i32> {
        if self.ints.dom().contains(address) {
            Some(self.ints[address])
        } else {
            None
        }
    }

    /// What the snapshot answers to a request.
    pub open spec fn reply_to(self, request: Request) -> Reply {
        match request {
            Request::Pointer(a) => Reply::Pointer(self.pointer_at(a)),
            Request::Int(a) => Reply::Int(self.int_at(a)),
        }
    }
}

/// `base + offset`, wrapping around modulo 2^64.
pub open spec fn add_offset(base: u64, offset: int) -> u64 {
    ((base + offset) % 0x1_0000_0000_0000_0000int) as u64
}

/// The address `offset` bytes after `base` (wrapping).
pub fn offset_address(base: u64, offset: u64) -> (r: u64)
    ensures
        r == add_offset(base, offset as int),
{
    base.wrapping_add(offset)
}

/// The address `offset` bytes from `base`, where `offset` may be negative (wrapping).
pub fn signed_offset_address(base: u64, offset: i32) -> (r: u64)
    ensures
        r == add_offset(base, offset as int),
{
    let wide: i64 = offset as i64;
    base.wrapping_add_signed(wide)
}

/// Offsets wrap around modulo 2^64 over the whole 64-bit base; an offset
/// that stays in range is plain addition. A snapshot answers a pointer read
/// from its pointers and an integer read from its integers, `None` outside
/// their domains.
pub proof fn law_addresses_and_replies(base: u64, offset: int, snap: Snapshot, address: u64)
    ensures
        add_offset(base, offset) as int == (base + offset) % 0x1_0000_0000_0000_0000int,
        0 <= base + offset < 0x1_0000_0000_0000_0000int ==> add_offset(base, offset) as int == base
            + offset,
        snap.reply_to(Request::Pointer(address)) == Reply::Pointer(
            if snap.pointers.dom().contains(address) {
                Some(snap.pointers[address])
            } else {
                None
            },
        ),
        snap.reply_to(Request::Int(address)) == Reply::Int(
            if snap.ints.dom().contains(address) {
                Some(snap.ints[address])
            } else {
                None
            },
        ),
{
    vstd::arithmetic::div_mod::lemma_mod_bound(base + offset, 0x1_0000_0000_0000_0000int);
    if 0 <= base + offset < 0x1_0000_0000_0000_0000int {
        vstd::arithmetic::div_mod::lemma_small_mod((base + offset) as nat, 0x1_0000_0000_0000_0000nat);
    }
}

} // verus!
