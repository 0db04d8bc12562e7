use soundboard::model::keybind::{Keybind, Modifier};

#[test]
fn keybinds_compare_by_fields() {
    let a = Keybind { modifiers: vec![Modifier::Ctrl, Modifier::Shift], key: "k".to_string() };
    let b = a.clone();
    assert_eq!(a, b);
    let c = Keybind { modifiers: vec![Modifier::Alt], key: "k".to_string() };
    assert_ne!(a, c);
    assert_ne!(Modifier::Super, Modifier::Ctrl);
}
