use bloodthief_autosplitter::bt_memory::{
    get_current_scene, get_level_end_visible, get_member_map, get_node_child_array,
    get_node_child_count, get_node_name, get_node_script, get_p_name, get_root_window,
    get_scene_tree_sig, get_script_member_array, str_equal,
};
use bloodthief_autosplitter::memory::{offset_address, signed_offset_address};
use bloodthief_autosplitter::splitter::level_number;

#[test]
fn process_name_per_os() {
    assert_eq!(get_p_name("linux"), "bloodthief.x86_64");
    assert_eq!(get_p_name("windows"), "bloodthief.exe");
    assert_eq!(get_p_name("Linux"), "bloodthief.exe");
}

#[test]
fn scene_tree_signature_per_os() {
    assert_eq!(
        get_scene_tree_sig("linux"),
        "48 8b 05 ?? ?? ?? ?? 48 8b b7 ?? ?? ?? ?? 48 89 fb 48 89 d5"
    );
    assert_eq!(
        get_scene_tree_sig("windows"),
        "4C 8B 35 ?? ?? ?? ?? 4D 85 F6 74 7E E8 ?? ?? ?? ?? 49 8B CE"
    );
}

#[test]
fn offsets_on_linux() {
    assert_eq!(get_root_window("linux"), 0x370);
    assert_eq!(get_node_child_count("linux"), 0x1a0);
    assert_eq!(get_node_child_array("linux"), 0x1a8);
    assert_eq!(get_node_script("linux"), 0x68);
    assert_eq!(get_member_map("linux"), 0x230);
    assert_eq!(get_script_member_array("linux"), 0x28);
    assert_eq!(get_node_name("linux"), 0x200);
    assert_eq!(get_current_scene("linux"), 0x460);
    assert_eq!(get_level_end_visible("linux"), 0x42c);
}

#[test]
fn offsets_on_windows() {
    assert_eq!(get_root_window("windows"), 0x348);
    assert_eq!(get_node_child_count("windows"), 0x1b8);
    assert_eq!(get_node_child_array("windows"), 0x1c0);
    assert_eq!(get_node_script("windows"), 0x68);
    assert_eq!(get_member_map("windows"), 0x258);
    assert_eq!(get_script_member_array("windows"), 0x28);
    assert_eq!(get_node_name("windows"), 0x218);
    assert_eq!(get_current_scene("windows"), 0x438);
    assert_eq!(get_level_end_visible("windows"), 0x444);
}

#[test]
fn level_numbers() {
    assert_eq!(level_number("JakePractice2"), 1);
    assert_eq!(level_number("JakePractice3"), 2);
    assert_eq!(level_number("MysteryCastle2"), 3);
    assert_eq!(level_number("Dungeon1"), 4);
    assert_eq!(level_number("Fortress"), 5);
    assert_eq!(level_number("DoomChapel"), 6);
    assert_eq!(level_number("MainScreen"), 0);
    assert_eq!(level_number(""), 0);
    assert_eq!(level_number("jakepractice2"), 0);
}

#[test]
fn strings_compare_by_characters() {
    assert!(str_equal("linux", "linux"));
    assert!(!str_equal("linux", "linu"));
    assert!(!str_equal("", "a"));
    assert!(str_equal("", ""));
}

#[test]
fn addresses_wrap_around() {
    assert_eq!(offset_address(0x1000, 0x18), 0x1018);
    assert_eq!(offset_address(u64::MAX, 2), 1);
    assert_eq!(signed_offset_address(0x1000, -0x10), 0xff0);
    assert_eq!(signed_offset_address(4, -8), u64::MAX - 3);
    assert_eq!(signed_offset_address(u64::MAX, 1), 0);
}
