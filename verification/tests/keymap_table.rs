use eruption::keymap::{
    stanza_lines, Action, Direction, Event, Key, KeyMappingTable, LuaBackend, Macro, Source,
    TableMetadata,
};
use eruption::text::dec_string;

fn key(i: usize) -> Key {
    Key { key_index: i }
}

#[test]
fn dec_string_renders_decimal() {
    assert_eq!(dec_string(0), "0");
    assert_eq!(dec_string(7), "7");
    assert_eq!(dec_string(42), "42");
    assert_eq!(dec_string(1000), "1000");
    assert_eq!(dec_string(u64::MAX), "18446744073709551615");
}

#[test]
fn renderings_are_exact() {
    assert_eq!(key(12).label(), "12");
    assert_eq!(
        Macro { function_name: "burst".to_string() }.label(),
        "function burst"
    );
    assert_eq!(Direction::Left.label(), "Left");
    assert_eq!(Event::Null.describe(), "<No action>");
    assert_eq!(Event::HidKeyDown(key(3)).describe(), "hid+key-down: 3");
    assert_eq!(Event::EasyShiftMouseWheel(Direction::Up).describe(), "es+mouse-wheel: Up");
    assert_eq!(Event::SimpleKeyUp(key(9)).describe(), "key-up: 9");
    assert_eq!(Action::Null.describe(), "<No action>");
    assert_eq!(Action::InjectKey(key(4)).describe(), "Key: 4");
    assert_eq!(
        Action::Call(Macro { function_name: "m".to_string() }).describe(),
        "Call: function m"
    );
}

#[test]
fn source_renders_event_and_layers() {
    let source = Source::new_with_layers(Event::SimpleKeyDown(key(5)), &vec![2, 1]);
    assert_eq!(
        source.describe(),
        "Source: event: key-down: 5, on layers: [ 1 2 ]"
    );
}

#[test]
fn source_layers_are_sorted_and_unique() {
    let source = Source::new_with_layers(Event::Null, &vec![3, 1, 3, 2, 1]);
    assert_eq!(source.layers.0, vec![1, 2, 3]);
    let default_layers = Source::new(Event::Null);
    assert_eq!(default_layers.layers.0, vec![1]);
}

#[test]
fn metadata_renders_three_lines() {
    let m = TableMetadata::new("t.keymap".to_string(), "demo".to_string(), 42);
    assert_eq!(m.describe(), "File: t.keymap\nDescription: demo\nCreation date: 42");
}

#[test]
fn table_insert_replaces_and_remove_deletes() {
    let mut table = KeyMappingTable::new();
    assert_eq!(table.file_name(), "default.keymap");
    let src1 = Source::new(Event::SimpleKeyDown(key(1)));
    let src1_again = Source::new(Event::SimpleKeyDown(key(1)));
    let src2 = Source::new(Event::SimpleKeyDown(key(2)));
    assert!(table.insert(src1, Action::InjectKey(key(10))).is_none());
    assert!(table.insert(src2, Action::InjectKey(key(20))).is_none());
    assert_eq!(table.mappings().len(), 2);
    // Inserting the same source again replaces the action in place.
    let prev = table.insert(src1_again, Action::InjectKey(key(11)));
    match prev {
        Some(Action::InjectKey(k)) => assert_eq!(k.key_index, 10),
        other => panic!("unexpected previous action: {:?}", other),
    }
    assert_eq!(table.mappings().len(), 2);
    match &table.mappings()[0].1 {
        Action::InjectKey(k) => assert_eq!(k.key_index, 11),
        other => panic!("unexpected action: {:?}", other),
    }
    // Removing a present source returns its action and shrinks the table.
    let gone = table.remove(&Source::new(Event::SimpleKeyDown(key(1))));
    assert!(matches!(gone, Some(Action::InjectKey(k)) if k.key_index == 11));
    assert_eq!(table.mappings().len(), 1);
    // Removing an absent source changes nothing.
    assert!(table.remove(&Source::new(Event::SimpleKeyDown(key(9)))).is_none());
    assert_eq!(table.mappings().len(), 1);
}

#[test]
fn table_metadata_can_be_edited() {
    let mut table = KeyMappingTable::new();
    table.set_file_name("other.keymap".to_string());
    table.set_description("edited");
    assert_eq!(table.file_name(), "other.keymap");
    assert_eq!(table.description(), "edited");
    assert_eq!(table.metadata().file_name, "other.keymap");
}

#[test]
fn stanza_for_easy_shift_remapping_covers_every_layer() {
    let _backend = LuaBackend::new();
    let source = Source::new_with_layers(Event::EasyShiftKeyDown(key(4)), &vec![0, 1]);
    let lines = stanza_lines(&source, &Action::InjectKey(key(10)));
    assert_eq!(lines, vec![
        "EASY_SHIFT_REMAPPING_TABLE[1][4] = 10".to_string(),
        "EASY_SHIFT_REMAPPING_TABLE[2][4] = 10".to_string(),
    ]);
}

#[test]
fn stanza_covers_simple_and_mouse_cases() {
    let simple = Source::new(Event::SimpleKeyDown(key(3)));
    assert_eq!(stanza_lines(&simple, &Action::InjectKey(key(7))), vec![
        "REMAPPING_TABLE[3] = 7".to_string(),
    ]);
    let hid_mouse = Source::new(Event::HidMouseDown(key(2)));
    assert_eq!(stanza_lines(&hid_mouse, &Action::InjectKey(key(9))), vec![
        "MOUSE_HID_REMAPPING_TABLE[2] = 9".to_string(),
    ]);
    let key_up = Source::new(Event::SimpleKeyUp(key(5)));
    assert_eq!(stanza_lines(&key_up, &Action::InjectKey(key(6))), vec![
        "5 6".to_string(),
    ]);
    let disabled = Source::new(Event::Null);
    assert_eq!(stanza_lines(&disabled, &Action::InjectKey(key(1))), vec![
        "-- ACTION IS DISABLED".to_string(),
    ]);
    assert_eq!(stanza_lines(&Source::new(Event::HidKeyDown(key(1))), &Action::InjectKey(key(2))), vec![
        "-- ACTION IS NOT IMPLEMENTED".to_string(),
    ]);
    let wheel = Source::new(Event::SimpleMouseWheel(Direction::Up));
    assert!(stanza_lines(&wheel, &Action::InjectKey(key(1))).is_empty());
}

#[test]
fn stanza_for_macro_calls() {
    let m = Action::Call(Macro { function_name: "easyshift_hook".to_string() });
    let source = Source::new_with_layers(Event::EasyShiftMouseWheel(Direction::Down), &vec![0]);
    assert_eq!(stanza_lines(&source, &m), vec![
        "EASY_SHIFT_MOUSE_WHEEL_MACRO_TABLE[1] = easyshift_hook".to_string(),
    ]);
    let down = Source::new_with_layers(Event::EasyShiftMouseDown(key(1)), &vec![0]);
    assert_eq!(stanza_lines(&down, &m), vec![
        "EASY_SHIFT_MOUSE_DOWN_MACRO_TABLE[1][1] = easyshift_hook".to_string(),
    ]);
    assert_eq!(stanza_lines(&Source::new(Event::SimpleKeyDown(key(1))), &m), vec![
        "-- ACTION IS DISABLED".to_string(),
    ]);
}
