use serialtool::backend::history::History;
use serialtool::backend::quick_commands::{default_slot_name, QuickCommands};
use serialtool::types::{HistoryItem, QuickCommand};

fn item(text: &str) -> HistoryItem {
    HistoryItem { text: text.to_string(), is_hex: false, time: "12:00:00".to_string() }
}

#[test]
fn history_starts_empty() {
    assert!(History::new().items().is_empty());
}

#[test]
fn history_add_puts_newest_first() {
    let mut h = History::new();
    h.add_at("one".to_string(), false, "10:00:00".to_string());
    h.add_at("two".to_string(), true, "10:00:01".to_string());
    let items = h.items();
    assert_eq!(items.len(), 2);
    assert_eq!(items[0].text, "two");
    assert!(items[0].is_hex);
    assert_eq!(items[0].time, "10:00:01");
    assert_eq!(items[1].text, "one");
}

#[test]
fn history_ignores_blank_text() {
    let mut h = History::new();
    h.add_at("   \n\t".to_string(), false, "10:00:00".to_string());
    h.add_at(String::new(), false, "10:00:00".to_string());
    assert!(h.items().is_empty());
}

#[test]
fn history_keeps_at_most_fifty() {
    let mut h = History::new();
    for i in 0..60 {
        h.add_at(format!("cmd {}", i), false, "10:00:00".to_string());
    }
    let items = h.items();
    assert_eq!(items.len(), 50);
    assert_eq!(items[0].text, "cmd 59");
    assert_eq!(items[49].text, "cmd 10");
}

#[test]
fn history_add_stamps_clock_time() {
    let mut h = History::new();
    h.add("hello".to_string(), false);
    let t = &h.items()[0].time;
    assert_eq!(t.len(), 8);
    let b = t.as_bytes();
    assert_eq!(b[2], b':');
    assert_eq!(b[5], b':');
    assert!(b.iter().enumerate().all(|(i, c)| i == 2 || i == 5 || c.is_ascii_digit()));
}

#[test]
fn history_from_saved_truncates() {
    let saved: Vec<HistoryItem> = (0..70).map(|i| item(&format!("x{}", i))).collect();
    let h = History::from_saved(saved);
    assert_eq!(h.items().len(), 50);
    assert_eq!(h.items()[0].text, "x0");
}

#[test]
fn history_clear_empties() {
    let mut h = History::from_saved(vec![item("a"), item("b")]);
    h.clear();
    assert!(h.items().is_empty());
}

#[test]
fn quick_commands_new_has_twenty_named_slots() {
    let q = QuickCommands::new();
    assert_eq!(q.items().len(), 20);
    assert_eq!(q.items()[0].name, "命令 1");
    assert_eq!(q.items()[19].name, "命令 20");
    assert!(q.items().iter().all(|c| c.text.is_empty() && !c.is_hex));
}

#[test]
fn default_slot_names() {
    assert_eq!(default_slot_name(0), "命令 1");
    assert_eq!(default_slot_name(9), "命令 10");
}

#[test]
fn quick_commands_from_saved_pads_and_truncates() {
    let saved = vec![QuickCommand { name: "ping".to_string(), text: "AT".to_string(), is_hex: false }];
    let q = QuickCommands::from_saved(saved);
    assert_eq!(q.items().len(), 20);
    assert_eq!(q.items()[0].name, "ping");
    assert_eq!(q.items()[1].name, "命令 2");
    let many: Vec<QuickCommand> = (0..25)
        .map(|i| QuickCommand { name: format!("n{}", i), text: format!("t{}", i), is_hex: true })
        .collect();
    let q = QuickCommands::from_saved(many);
    assert_eq!(q.items().len(), 20);
    assert_eq!(q.items()[19].text, "t19");
}

#[test]
fn quick_send_at_skips_blank_slots() {
    let mut q = QuickCommands::new();
    assert!(q.send_at(0).is_none());
    assert!(q.send_at(25).is_none());
    q.edit(3, "reset".to_string(), "AT+RST".to_string(), false);
    assert_eq!(q.send_at(3).unwrap().text, "AT+RST");
    q.edit(4, "blank".to_string(), "  ".to_string(), false);
    assert!(q.send_at(4).is_none());
}

#[test]
fn quick_edit_out_of_range_is_ignored() {
    let mut q = QuickCommands::new();
    q.edit(20, "x".to_string(), "y".to_string(), true);
    assert!(q.items().iter().all(|c| c.text.is_empty()));
}

#[test]
fn quick_add_to_first_empty_fills_in_order() {
    let mut q = QuickCommands::new();
    q.edit(0, "a".to_string(), "A".to_string(), false);
    assert_eq!(q.add_to_first_empty("B", true), Some(1));
    assert_eq!(q.items()[1].text, "B");
    assert!(q.items()[1].is_hex);
    assert_eq!(q.items()[1].name, "命令 2");
    for i in 2..20 {
        assert_eq!(q.add_to_first_empty("x", false), Some(i));
    }
    assert_eq!(q.add_to_first_empty("full", false), None);
}

#[test]
fn quick_delete_resets_one_slot() {
    let mut q = QuickCommands::new();
    q.edit(2, "a".to_string(), "A".to_string(), true);
    q.edit(3, "b".to_string(), "B".to_string(), false);
    q.delete(2);
    assert_eq!(q.items()[2].name, "命令 3");
    assert!(q.items()[2].text.is_empty());
    assert!(!q.items()[2].is_hex);
    assert!(q.send_at(2).is_none());
    assert_eq!(q.items()[3].text, "B");
    q.delete(99);
    assert_eq!(q.items().len(), 20);
}

#[test]
fn quick_clear_all_then_save_uses_first_slot() {
    let mut q = QuickCommands::new();
    for i in 0..20 {
        q.edit(i, "n".to_string(), "t".to_string(), true);
    }
    q.clear_all();
    assert!(q.items().iter().enumerate().all(|(i, c)| c.name == format!("命令 {}", i + 1) && c.text.is_empty()));
    assert_eq!(q.add_to_first_empty("new", false), Some(0));
}
