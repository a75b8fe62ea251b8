//! Reading and writing settings by path.

use winbeautify::settings::access::{read, staged, toggle, Entry, Node, Value};
use winbeautify::settings::schema::{sections, Kind, ONE};

/// Every editable field, as `(path, kind)`.
fn editable_fields() -> Vec<(&'static str, Kind)> {
    let mut out = Vec::new();
    for section in sections() {
        // Visibility is irrelevant here: walk the raw cards so a hidden row is still
        // checked.
        for card in section.cards {
            for field in card.fields {
                if field.kind.holds_value() {
                    out.push((field.path, field.kind));
                }
            }
        }
    }
    out
}

/// Put a leaf at a path, with the groups above it.
fn put(root: &mut Vec<Entry>, path: &str, leaf: Node) {
    match path.split_once('.') {
        None => root.push(Entry { key: path.to_string(), node: leaf }),
        Some((group, rest)) => {
            let at = match root.iter().position(|entry| entry.key == group) {
                Some(at) => at,
                None => {
                    root.push(Entry { key: group.to_string(), node: Node::Table(Vec::new()) });
                    root.len() - 1
                }
            };
            if let Node::Table(entries) = &mut root[at].node {
                put(entries, rest, leaf);
            }
        }
    }
}

/// The fields behind a slider that store whole numbers.
fn is_whole(path: &str) -> bool {
    path.ends_with("_ms")
}

/// A tree with a value at each path of the table.
fn default_tree() -> Node {
    let mut root: Vec<Entry> = Vec::new();
    for (path, kind) in editable_fields() {
        let leaf = match kind {
            Kind::Switch => Node::Boolean(false),
            Kind::Number { min, .. } => Node::Integer(min),
            Kind::Slider(slider) => {
                if is_whole(path) {
                    Node::Integer(slider.min / ONE)
                } else {
                    Node::Float((slider.min + slider.step) as i128)
                }
            }
            Kind::Select(choices) => Node::Text(choices.choices()[0].value.to_string()),
            Kind::Color => Node::Text("#4f8cff".to_string()),
            _ => Node::Text(String::new()),
        };
        put(&mut root, path, leaf);
    }
    Node::Table(root)
}

fn any(_: &Node) -> bool {
    true
}

#[test]
fn every_field_reads_a_value_of_its_own_type() {
    let config = default_tree();
    for (path, kind) in editable_fields() {
        let value = read(&config, path).unwrap_or_else(|| panic!("{path} does not resolve"));
        let matches = match kind {
            Kind::Switch | Kind::Number { .. } => {
                // Numbers are integers in the config, switches are bools.
                matches!(value, Value::Bool(_) | Value::Integer(_))
            }
            Kind::Slider(_) => matches!(value, Value::Float(_) | Value::Integer(_)),
            Kind::Select(_) | Kind::Color | Kind::Text { .. } | Kind::Hotkey => {
                matches!(value, Value::Text(_))
            }
            Kind::Status(_) | Kind::Info(_) | Kind::Action(_) => false,
        };
        assert!(matches, "{path} read back as {value:?}, which its control cannot use");
    }
}

/// Touch every field the way its control would, and check the value survives the trip.
#[test]
fn every_field_round_trips_through_its_control() {
    for (path, kind) in editable_fields() {
        let mut config = default_tree();

        match kind {
            Kind::Switch => {
                let before = read(&config, path).unwrap().as_bool().unwrap();
                assert!(
                    winbeautify::settings::access::write(&mut config, path, &Value::Bool(!before), any),
                    "{path} refused a write"
                );
                assert_eq!(
                    read(&config, path).unwrap().as_bool().unwrap(),
                    !before,
                    "{path} did not keep the value"
                );
            }
            Kind::Slider(slider) => {
                // A slider always produces floats; the field may be an int.
                let target = slider.max as i128;
                assert!(winbeautify::settings::access::write(&mut config, path, &Value::Float(target), any), "{path} refused");
                let stored = read(&config, path).unwrap().as_number().unwrap();
                assert!(
                    (stored - target).abs() < 1,
                    "{path} stored {stored}, wanted {target}"
                );
            }
            Kind::Number { min, max, .. } => {
                assert!(winbeautify::settings::access::write(&mut config, path, &Value::Integer(max), any), "{path} refused");
                assert_eq!(read(&config, path).unwrap().as_number().unwrap(), max as i128 * ONE as i128);
                assert!(winbeautify::settings::access::write(&mut config, path, &Value::Integer(min), any), "{path} refused");
            }
            Kind::Color => {
                assert!(
                    winbeautify::settings::access::write(&mut config, path, &Value::Text("#123456".into()), any),
                    "{path} refused"
                );
                assert_eq!(read(&config, path).unwrap().as_text().unwrap(), "#123456");
            }
            Kind::Text { .. } | Kind::Hotkey => {
                assert!(
                    winbeautify::settings::access::write(&mut config, path, &Value::Text("Ctrl+Alt+Q".into()), any),
                    "{path} refused"
                );
                assert_eq!(read(&config, path).unwrap().as_text().unwrap(), "Ctrl+Alt+Q");
            }
            Kind::Select(choices) => {
                // Every option has to be storable, or picking it would snap back to the
                // first entry.
                for choice in choices.choices() {
                    assert!(
                        winbeautify::settings::access::write(&mut config, path, &Value::Text(choice.value.into()), any),
                        "{path} refused the option {}",
                        choice.value
                    );
                    assert_eq!(
                        read(&config, path).unwrap().as_text().unwrap(),
                        choice.value,
                        "{path} did not keep the option {}",
                        choice.value
                    );
                }
            }
            Kind::Status(_) | Kind::Info(_) | Kind::Action(_) => unreachable!("filtered out"),
        }
    }
}

/// Writing a value the field cannot hold must be reported, not swallowed.
#[test]
fn a_type_mismatch_is_refused() {
    let mut config = default_tree();
    let before = read(&config, "widget.opacity");
    assert!(!winbeautify::settings::access::write(&mut config, "widget.opacity", &Value::Text("nope".into()), any));
    // …and the config is untouched.
    assert_eq!(read(&config, "widget.opacity"), before);
    assert!(before.unwrap().as_number().unwrap() > 0);
}

#[test]
fn an_unknown_path_is_reported_not_panicked_on() {
    let mut config = default_tree();
    assert!(read(&config, "nope.not.here").is_none());
    assert!(read(&config, "widget").is_none(), "a group is not a field");
    assert!(!winbeautify::settings::access::write(&mut config, "nope.not.here", &Value::Bool(true), any));
    assert!(read(&config, "widget.opacity").is_some());
}

#[test]
fn an_integer_field_stays_an_integer() {
    let mut config = default_tree();
    assert!(matches!(read(&config, "widget.offset_x"), Some(Value::Integer(_))));
    winbeautify::settings::access::write(&mut config, "widget.offset_x", &Value::Float(12 * ONE as i128), any);
    assert!(
        matches!(read(&config, "widget.offset_x"), Some(Value::Integer(12))),
        "a slider feeding an integer field must not turn it into a float"
    );
}

#[test]
fn toggling_a_switch_reports_the_new_state() {
    let mut config = default_tree();
    let before = read(&config, "clipboard.enabled").unwrap().as_bool().unwrap();
    assert_eq!(toggle(&mut config, "clipboard.enabled", any), Some(!before));
    assert_eq!(read(&config, "clipboard.enabled"), Some(Value::Bool(!before)));
    assert_eq!(toggle(&mut config, "nope", any), None);
}

#[test]
fn what_the_settings_refuse_is_not_kept() {
    let mut config = default_tree();
    let refuse = |node: &Node| read(node, "ui.theme") != Some(Value::Text("sepia".into()));
    assert!(!winbeautify::settings::access::write(&mut config, "ui.theme", &Value::Text("sepia".into()), refuse));
    assert_ne!(read(&config, "ui.theme"), Some(Value::Text("sepia".into())));
    assert!(winbeautify::settings::access::write(&mut config, "ui.theme", &Value::Text("dark".into()), refuse));
    assert_eq!(read(&config, "ui.theme"), Some(Value::Text("dark".into())));
    assert_eq!(toggle(&mut config, "clipboard.enabled", |_: &Node| false), None);
    assert_eq!(toggle(&mut config, "ui.theme", any), None, "a text is no switch");
}

#[test]
fn a_write_touches_only_its_own_leaf() {
    let mut config = default_tree();
    let paths: Vec<&str> = editable_fields().into_iter().map(|(path, _)| path).collect();
    let before: Vec<Option<Value>> = paths.iter().map(|path| read(&config, path)).collect();
    assert!(winbeautify::settings::access::write(&mut config, "widget.offset_x", &Value::Integer(31), any));
    for (path, value) in paths.iter().zip(before.iter()) {
        if *path != "widget.offset_x" {
            assert_eq!(&read(&config, path), value, "{path}");
        }
    }
    // Writing back what is there changes nothing.
    let value = read(&config, "widget.offset_x").unwrap();
    let same = staged(&config, "widget.offset_x", &value).unwrap();
    assert_eq!(read(&same, "widget.offset_x"), Some(Value::Integer(31)));
    // Two flips are none.
    let on = read(&config, "todo.enabled");
    toggle(&mut config, "todo.enabled", any);
    assert_ne!(read(&config, "todo.enabled"), on);
    toggle(&mut config, "todo.enabled", any);
    assert_eq!(read(&config, "todo.enabled"), on);
}

#[test]
fn a_fraction_is_rounded_into_a_whole_field() {
    let mut config = default_tree();
    winbeautify::settings::access::write(&mut config, "widget.offset_x", &Value::Float(2_500_000), any);
    assert_eq!(read(&config, "widget.offset_x"), Some(Value::Integer(3)));
    winbeautify::settings::access::write(&mut config, "widget.offset_x", &Value::Float(-2_500_000), any);
    assert_eq!(read(&config, "widget.offset_x"), Some(Value::Integer(-3)));
    // A whole number in a field with a fraction becomes one.
    winbeautify::settings::access::write(&mut config, "widget.opacity", &Value::Integer(1), any);
    assert_eq!(read(&config, "widget.opacity"), Some(Value::Float(ONE as i128)));
    // A number in a text field is stored as its decimal form.
    winbeautify::settings::access::write(&mut config, "ui.accent", &Value::Integer(-7), any);
    assert_eq!(read(&config, "ui.accent"), Some(Value::Text("-7".into())));
    winbeautify::settings::access::write(&mut config, "ui.accent", &Value::Float(-1_250_000), any);
    assert_eq!(read(&config, "ui.accent"), Some(Value::Text("-1.25".into())));
    winbeautify::settings::access::write(&mut config, "ui.accent", &Value::Float(3 * ONE as i128), any);
    assert_eq!(read(&config, "ui.accent"), Some(Value::Text("3".into())));
}

#[test]
fn a_large_integer_is_read_as_the_float_that_holds_it() {
    for value in [
        0,
        -7,
        20_000_000_000_000,
        9_007_199_254_740_992,
        9_007_199_254_740_993,
        9_007_199_254_740_995,
        -9_007_199_254_740_993,
        1_152_921_504_606_846_977,
        i64::MAX,
        i64::MIN,
    ] {
        let number = Value::Integer(value).as_number().unwrap();
        assert_eq!(number % ONE as i128, 0);
        assert_eq!(number / ONE as i128, value as f64 as i128, "{value}");
    }
    // Beyond the last integer, a field without a fraction holds the last one.
    let mut config = default_tree();
    for (number, kept) in [
        (i128::MAX, i64::MAX),
        (i128::MIN, i64::MIN),
        (Value::Integer(i64::MAX).as_number().unwrap(), i64::MAX),
        (-20_000_000_000_000_500_000, -20_000_000_000_001),
    ] {
        winbeautify::settings::access::write(&mut config, "widget.offset_x", &Value::Float(number), any);
        assert_eq!(read(&config, "widget.offset_x"), Some(Value::Integer(kept)));
    }
    winbeautify::settings::access::write(&mut config, "widget.opacity", &Value::Integer(20_000_000_000_000), any);
    assert_eq!(read(&config, "widget.opacity"), Some(Value::Float(20_000_000_000_000_000_000)));
}
