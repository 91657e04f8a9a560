use std::collections::HashMap;

use bloodthief_autosplitter::bt_memory::{
    find_var, read_node_name, read_string_name, FindVar, NodeNameRead, StringNameRead,
};
use bloodthief_autosplitter::dictionary::{
    Dictionary, Element, ElementNext, FirstElementRead, LengthRead, PairsRead, SumRead,
};
use bloodthief_autosplitter::memory::{Reply, Request, Step};

#[derive(Default)]
struct Mem {
    pointers: HashMap<u64, u64>,
    ints: HashMap<u64, i32>,
    reads: usize,
}

impl Mem {
    fn reply(&mut self, request: Request) -> Reply {
        self.reads += 1;
        match request {
            Request::Pointer(a) => Reply::Pointer(self.pointers.get(&a).copied()),
            Request::Int(a) => Reply::Int(self.ints.get(&a).copied()),
        }
    }

    fn put_str(&mut self, at: u64, s: &str) {
        for (i, c) in s.chars().enumerate() {
            self.ints.insert(at + 4 * i as u64, c as i32);
        }
        self.ints.insert(at + 4 * s.chars().count() as u64, 0);
    }

    /// A string name at `name` whose characters lie at `chars`.
    fn put_name(&mut self, name: u64, chars: u64, s: &str) {
        self.pointers.insert(name + 0x10, chars);
        self.put_str(chars, s);
    }
}

trait Machine: Sized {
    type Out;
    fn step(self, reply: Reply) -> Step<Self, Self::Out>;
}

impl Machine for StringNameRead {
    type Out = Option<String>;
    fn step(self, reply: Reply) -> Step<Self, Self::Out> {
        self.resume(reply)
    }
}

impl Machine for NodeNameRead {
    type Out = Option<String>;
    fn step(self, reply: Reply) -> Step<Self, Self::Out> {
        self.resume(reply)
    }
}

impl Machine for FindVar {
    type Out = Option<u64>;
    fn step(self, reply: Reply) -> Step<Self, Self::Out> {
        self.resume(reply)
    }
}

impl Machine for ElementNext {
    type Out = Option<Element>;
    fn step(self, reply: Reply) -> Step<Self, Self::Out> {
        self.resume(reply)
    }
}

impl Machine for LengthRead {
    type Out = Option<i32>;
    fn step(self, reply: Reply) -> Step<Self, Self::Out> {
        self.resume(reply)
    }
}

impl Machine for FirstElementRead {
    type Out = Option<Element>;
    fn step(self, reply: Reply) -> Step<Self, Self::Out> {
        self.resume(reply)
    }
}

impl Machine for PairsRead {
    type Out = Option<Vec<(u64, u64)>>;
    fn step(self, reply: Reply) -> Step<Self, Self::Out> {
        self.resume(reply)
    }
}

impl Machine for SumRead {
    type Out = Option<(bool, i32)>;
    fn step(self, reply: Reply) -> Step<Self, Self::Out> {
        self.resume(reply)
    }
}

/// Runs a machine, answering its reads from `mem`.
fn drive<M: Machine>(mem: &mut Mem, start: (M, Request)) -> M::Out {
    let (mut m, mut req) = start;
    loop {
        let reply = mem.reply(req);
        match m.step(reply) {
            Step::Read(next, r) => {
                m = next;
                req = r;
            }
            Step::Done(v) => return v,
        }
    }
}

#[test]
fn string_name_is_read_up_to_the_first_zero() {
    let mut mem = Mem::default();
    mem.put_name(0x100, 0x2000, "GameManager");
    let name = drive(&mut mem, read_string_name(0x100));
    assert_eq!(name, Some("GameManager".to_string()));
    assert_eq!(mem.reads, 1 + 11 + 1);
}

#[test]
fn string_name_with_wide_characters() {
    let mut mem = Mem::default();
    mem.put_name(0x100, 0x2000, "é€😀");
    assert_eq!(drive(&mut mem, read_string_name(0x100)), Some("é€😀".to_string()));
}

#[test]
fn empty_string_name() {
    let mut mem = Mem::default();
    mem.put_name(0x100, 0x2000, "");
    assert_eq!(drive(&mut mem, read_string_name(0x100)), Some(String::new()));
    assert_eq!(mem.reads, 2);
}

#[test]
fn string_name_pointer_unreadable() {
    let mut mem = Mem::default();
    assert_eq!(drive(&mut mem, read_string_name(0x100)), None);
    assert_eq!(mem.reads, 1);
}

#[test]
fn string_name_character_unreadable() {
    let mut mem = Mem::default();
    mem.pointers.insert(0x110, 0x2000);
    mem.ints.insert(0x2000, 'a' as i32);
    assert_eq!(drive(&mut mem, read_string_name(0x100)), None);
    assert_eq!(mem.reads, 3);
}

#[test]
fn string_name_with_a_surrogate_is_none() {
    let mut mem = Mem::default();
    mem.pointers.insert(0x110, 0x2000);
    mem.ints.insert(0x2000, 'a' as i32);
    mem.ints.insert(0x2004, 0xD800);
    mem.ints.insert(0x2008, 0);
    assert_eq!(drive(&mut mem, read_string_name(0x100)), None);
}

#[test]
fn string_name_with_a_negative_value_is_none() {
    let mut mem = Mem::default();
    mem.pointers.insert(0x110, 0x2000);
    mem.ints.insert(0x2000, -1);
    assert_eq!(drive(&mut mem, read_string_name(0x100)), None);
}

#[test]
fn string_name_above_unicode_is_none() {
    let mut mem = Mem::default();
    mem.pointers.insert(0x110, 0x2000);
    mem.ints.insert(0x2000, 0x110000);
    assert_eq!(drive(&mut mem, read_string_name(0x100)), None);
}

#[test]
fn node_name_on_each_os() {
    let mut mem = Mem::default();
    mem.pointers.insert(0x5000 + 0x200, 0x100);
    mem.put_name(0x100, 0x2000, "StatsService");
    assert_eq!(drive(&mut mem, read_node_name(0x5000, "linux")), Some("StatsService".to_string()));
    let mut mem = Mem::default();
    mem.pointers.insert(0x5000 + 0x218, 0x100);
    mem.put_name(0x100, 0x2000, "EndLevelScreen");
    assert_eq!(drive(&mut mem, read_node_name(0x5000, "windows")), Some("EndLevelScreen".to_string()));
    assert_eq!(drive(&mut mem, read_node_name(0x5000, "linux")), None);
}

/// A script at 0x1000 whose member list holds `names`, with the given indices.
fn script_mem(os_member_map: u64, names: &[(&str, i32)]) -> Mem {
    let mut mem = Mem::default();
    mem.pointers.insert(0x1000 + 0x28, 0x9000); // member array
    mem.pointers.insert(0x1000 + 0x18, 0x3000); // script reference
    let mut node = 0x4000u64;
    mem.pointers.insert(0x3000 + os_member_map, node);
    for (i, (name, index)) in names.iter().enumerate() {
        let name_ptr = 0x6000 + 0x100 * i as u64;
        mem.pointers.insert(node + 0x10, name_ptr);
        mem.put_name(name_ptr, 0x7000 + 0x100 * i as u64, name);
        mem.ints.insert(node + 0x18, *index);
        let next = if i + 1 == names.len() { 0 } else { node + 0x40 };
        mem.pointers.insert(node, next);
        node = next;
    }
    mem
}

#[test]
fn find_var_walks_the_member_list() {
    let mut mem = script_mem(0x230, &[("speed", 3), ("_total_game_seconds_obfuscated", 5), ("x", 9)]);
    let addr = drive(&mut mem, find_var("linux", 0x1000, "_total_game_seconds_obfuscated"));
    assert_eq!(addr, Some(0x9000 + 5 * 0x18 + 8));
}

#[test]
fn find_var_on_windows_uses_its_member_map() {
    let mut mem = script_mem(0x258, &[("_enemies_killed", 2)]);
    assert_eq!(drive(&mut mem, find_var("windows", 0x1000, "_enemies_killed")), Some(0x9000 + 2 * 0x18 + 8));
    let mut mem = script_mem(0x258, &[("_enemies_killed", 2)]);
    assert_eq!(drive(&mut mem, find_var("linux", 0x1000, "_enemies_killed")), None);
}

#[test]
fn find_var_first_member() {
    let mut mem = script_mem(0x230, &[("a", 0), ("b", 1)]);
    assert_eq!(drive(&mut mem, find_var("linux", 0x1000, "a")), Some(0x9008));
}

#[test]
fn find_var_missing_reads_the_index_at_the_null_node() {
    let mut mem = script_mem(0x230, &[("a", 0), ("b", 1)]);
    assert_eq!(drive(&mut mem, find_var("linux", 0x1000, "zzz")), None);
    let mut mem = script_mem(0x230, &[("a", 0), ("b", 1)]);
    mem.ints.insert(0x18, 4);
    assert_eq!(drive(&mut mem, find_var("linux", 0x1000, "zzz")), Some(0x9000 + 4 * 0x18 + 8));
}

#[test]
fn find_var_negative_index_goes_back() {
    let mut mem = script_mem(0x230, &[("v", -1)]);
    assert_eq!(drive(&mut mem, find_var("linux", 0x1000, "v")), Some(0x9000 - 0x18 + 8));
}

#[test]
fn find_var_index_product_wraps_in_32_bits() {
    let mut mem = script_mem(0x230, &[("v", 0x0800_0000)]);
    let product = 0x0800_0000i32.wrapping_mul(0x18);
    let expected = 0x9000u64.wrapping_add_signed(product as i64) + 8;
    assert_eq!(drive(&mut mem, find_var("linux", 0x1000, "v")), Some(expected));
}

#[test]
fn find_var_fails_on_missing_script_pointers() {
    let mut mem = Mem::default();
    assert_eq!(drive(&mut mem, find_var("linux", 0x1000, "v")), None);
    assert_eq!(mem.reads, 1);
    let mut mem = script_mem(0x230, &[("v", 1)]);
    mem.pointers.remove(&0x3230);
    assert_eq!(drive(&mut mem, find_var("linux", 0x1000, "v")), None);
    assert_eq!(mem.reads, 3);
}

#[test]
fn find_var_fails_on_unreadable_name() {
    let mut mem = script_mem(0x230, &[("a", 0), ("b", 1)]);
    mem.pointers.remove(&(0x6000 + 0x10));
    assert_eq!(drive(&mut mem, find_var("linux", 0x1000, "b")), None);
}

#[test]
fn element_addresses() {
    let e = Element { address: 0x1000 };
    assert_eq!(e.key_address(), 0x1018);
    assert_eq!(e.value_address(), 0x1030);
    let mut mem = Mem::default();
    mem.pointers.insert(0x1000, 0x2000);
    assert_eq!(drive(&mut mem, e.next()), Some(Element { address: 0x2000 }));
    assert_eq!(drive(&mut mem, Element { address: 0x3000 }.next()), None);
}

/// A dictionary at 0x100 with first pointer offset 0x18 and elements at
/// 0x1000, 0x1100, ... holding `values`; the last next pointer is `tail`.
fn dict_mem(count: i32, values: &[i32], tail: Option<u64>) -> Mem {
    let mut mem = Mem::default();
    mem.ints.insert(0x100 + 0x3c, count);
    mem.pointers.insert(0x100 + 0x18, 0x500);
    mem.pointers.insert(0x500 + 0x18, if values.is_empty() { 0 } else { 0x1000 });
    for (i, v) in values.iter().enumerate() {
        let e = 0x1000 + 0x100 * i as u64;
        mem.ints.insert(e + 0x30, *v);
        if i + 1 < values.len() {
            mem.pointers.insert(e, e + 0x100);
        } else if let Some(t) = tail {
            mem.pointers.insert(e, t);
        }
    }
    mem
}

#[test]
fn dictionary_length_and_first_element() {
    let d = Dictionary::new(0x100, 0x18);
    assert_eq!(d.address, 0x100);
    let mut mem = dict_mem(3, &[1, 2, 3], Some(0));
    assert_eq!(drive(&mut mem, d.get_length()), Some(3));
    assert_eq!(drive(&mut mem, d.get_first_element()), Some(Element { address: 0x1000 }));
    let mut empty = Mem::default();
    assert_eq!(drive(&mut empty, d.get_length()), None);
    assert_eq!(drive(&mut empty, d.get_first_element()), None);
}

#[test]
fn key_addr_pairs_follow_the_chain() {
    let d = Dictionary::new(0x100, 0x18);
    let mut mem = dict_mem(3, &[1, 2, 3], Some(0));
    let pairs = drive(&mut mem, d.get_key_addr_pairs());
    assert_eq!(pairs, Some(vec![(0x1018, 0x1030), (0x1118, 0x1130), (0x1218, 0x1230)]));
    assert_eq!(mem.reads, 3 + 3);
}

#[test]
fn key_addr_pairs_stop_at_the_count() {
    let d = Dictionary::new(0x100, 0x18);
    let mut mem = dict_mem(2, &[1, 2, 3], Some(0));
    assert_eq!(drive(&mut mem, d.get_key_addr_pairs()), Some(vec![(0x1018, 0x1030), (0x1118, 0x1130)]));
}

#[test]
fn key_addr_pairs_stop_at_a_null_element() {
    let d = Dictionary::new(0x100, 0x18);
    let mut mem = dict_mem(5, &[1, 2], Some(0));
    assert_eq!(drive(&mut mem, d.get_key_addr_pairs()), Some(vec![(0x1018, 0x1030), (0x1118, 0x1130)]));
}

#[test]
fn key_addr_pairs_need_every_next_pointer() {
    let d = Dictionary::new(0x100, 0x18);
    let mut mem = dict_mem(2, &[1, 2], None);
    assert_eq!(drive(&mut mem, d.get_key_addr_pairs()), None);
}

#[test]
fn key_addr_pairs_of_an_empty_or_negative_count() {
    let d = Dictionary::new(0x100, 0x18);
    let mut mem = dict_mem(0, &[1], Some(0));
    assert_eq!(drive(&mut mem, d.get_key_addr_pairs()), None);
    assert_eq!(mem.reads, 1);
    let mut mem = dict_mem(-2, &[1], Some(0));
    assert_eq!(drive(&mut mem, d.get_key_addr_pairs()), Some(vec![]));
    assert_eq!(mem.reads, 3);
}

#[test]
fn key_addr_pairs_with_another_first_offset() {
    let d = Dictionary::new(0x100, 0x30);
    let mut mem = dict_mem(1, &[7], Some(0));
    mem.pointers.insert(0x530, 0x1000);
    assert_eq!(drive(&mut mem, d.get_key_addr_pairs()), Some(vec![(0x1018, 0x1030)]));
}

#[test]
fn sum_of_values() {
    let d = Dictionary::new(0x100, 0x18);
    let mut mem = dict_mem(3, &[1, 20, 300], Some(0));
    assert_eq!(drive(&mut mem, d.get_sum()), Some((true, 321)));
    assert_eq!(mem.reads, 1 + 6 + 3);
}

#[test]
fn sum_of_a_dictionary_without_elements() {
    let d = Dictionary::new(0x100, 0x18);
    let mut mem = dict_mem(0, &[5], Some(0));
    assert_eq!(drive(&mut mem, d.get_sum()), Some((false, 0)));
    let mut mem = dict_mem(-1, &[5], Some(0));
    assert_eq!(drive(&mut mem, d.get_sum()), Some((false, 0)));
    let mut mem = Mem::default();
    assert_eq!(drive(&mut mem, d.get_sum()), None);
}

#[test]
fn sum_with_a_null_first_element_is_zero() {
    let d = Dictionary::new(0x100, 0x18);
    let mut mem = dict_mem(2, &[], Some(0));
    assert_eq!(drive(&mut mem, d.get_sum()), Some((true, 0)));
}

#[test]
fn sum_wraps_around() {
    let d = Dictionary::new(0x100, 0x18);
    let mut mem = dict_mem(2, &[i32::MAX, 2], Some(0));
    assert_eq!(drive(&mut mem, d.get_sum()), Some((true, i32::MIN + 1)));
}

#[test]
fn sum_fails_on_an_unreadable_value() {
    let d = Dictionary::new(0x100, 0x18);
    let mut mem = dict_mem(2, &[1, 2], Some(0));
    mem.ints.remove(&0x1130);
    assert_eq!(drive(&mut mem, d.get_sum()), None);
}
