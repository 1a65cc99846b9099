use management::aliases::AliasTable;
use management::display::write_to_display;
use management::options::private_key;
use management::protocol::Alias;
use management::text::{contains_text, insert_text, is_at_or_after, remove_text};

fn text(s: &str) -> String {
    s.to_string()
}

fn list(items: &[&str]) -> Vec<String> {
    items.iter().map(|s| text(s)).collect()
}

#[test]
fn lists_of_text() {
    let mut peers = list(&["a", "b", "a", "c"]);
    assert!(contains_text(&peers, &text("c")));
    assert!(!contains_text(&peers, &text("d")));
    insert_text(&mut peers, text("b"));
    assert_eq!(peers, list(&["a", "b", "a", "c"]));
    insert_text(&mut peers, text("d"));
    assert_eq!(peers, list(&["a", "b", "a", "c", "d"]));
    remove_text(&mut peers, &text("a"));
    assert_eq!(peers, list(&["b", "c", "d"]));
    remove_text(&mut peers, &text("x"));
    assert_eq!(peers, list(&["b", "c", "d"]));
}

#[test]
fn order_is_that_of_strings() {
    let words = ["", "0.1", "0.10", "0.2", "0.1.0", "a", "\u{e4}", "\u{ffff}", "\u{1f600}", "Z"];
    for a in words {
        for b in words {
            let (a, b) = (text(a), text(b));
            assert_eq!(is_at_or_after(&a, &b), a >= b, "{:?} {:?}", a, b);
        }
    }
}

#[test]
fn display_gets_ascii_and_a_zero() {
    assert_eq!(write_to_display(&text("")), vec![0]);
    assert_eq!(write_to_display(&text("ab")), vec![b'a', b'b', 0]);
    assert_eq!(write_to_display(&text("a\u{e4}b\u{20ac}\u{7f}")), vec![b'a', b'b', 0x7f, 0]);
}

#[test]
fn private_key_of_a_command_line() {
    assert_eq!(private_key(&list(&[])), None);
    assert_eq!(private_key(&list(&["node"])), None);
    assert_eq!(private_key(&list(&["node", "--private-key"])), None);
    assert_eq!(private_key(&list(&["node", "--private-key", "k"])), Some(text("k")));
    assert_eq!(private_key(&list(&["--private-key", "k", "rest"])), Some(text("k")));
    let twice = list(&["node", "--private-key", "k", "x", "--private-key", "l"]);
    assert_eq!(private_key(&twice), Some(text("l")));
    let open = list(&["node", "--private-key", "k", "--private-key"]);
    assert_eq!(private_key(&open), Some(text("k")));
    let odd = list(&["node", "--private-key", "--private-key", "k"]);
    assert_eq!(private_key(&odd), Some(text("--private-key")));
}

#[test]
fn alias_table() {
    let mut table = AliasTable::new();
    assert_eq!(table.get(&text("k")), None);
    table.insert(text("k"), text("1"));
    table.insert(text("l"), text("2"));
    table.insert(text("k"), text("3"));
    assert_eq!(table.get(&text("k")), Some(text("3")));
    assert!(table.contains_key(&text("l")));
    table.remove_value(&text("2"));
    table.remove_value(&text("l"));
    assert!(!table.contains_key(&text("l")));
    assert_eq!(table.entries(), vec![Alias { peer: text("k"), alias: text("3") }]);
    table.insert(text("m"), text("4"));
    table.insert(text("n"), text("3"));
    table.insert(text("3"), text("5"));
    table.remove_value(&text("3"));
    assert!(!table.contains_key(&text("k")));
    assert!(!table.contains_key(&text("n")));
    assert_eq!(table.get(&text("m")), Some(text("4")));
    assert_eq!(table.get(&text("3")), Some(text("5")));
}
