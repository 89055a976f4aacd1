use bus::message::Message;
use bus::target::{make_signal, SignalHeaders, Target};
use bus::text::{decimal_text, join, precedes, starts_with};

#[test]
fn namespace_covers_strict_descendants() {
    let n = Target::new("com.example.I", "/a", "Changed");
    assert!(n.namespace_eq(&Target::new("com.example.I", "/a/b", "Changed")));
    assert!(n.namespace_eq(&Target::new("com.example.I", "/a/b/c", "Changed")));
    assert!(!n.namespace_eq(&Target::new("com.example.I", "/a", "Changed")));
    assert!(!n.namespace_eq(&Target::new("com.example.I", "/ab", "Changed")));
    assert!(!n.namespace_eq(&Target::new("com.example.I", "/b/a/c", "Changed")));
    assert!(!n.namespace_eq(&Target::new("com.example.J", "/a/b", "Changed")));
    assert!(!n.namespace_eq(&Target::new("com.example.I", "/a/b", "Moved")));
}

#[test]
fn namespace_with_only_a_slash_after_it() {
    let n = Target::new("i", "/a", "m");
    assert!(n.namespace_eq(&Target::new("i", "/a/", "m")));
}

#[test]
fn targets_are_ordered_by_interface_object_method() {
    let a = Target::new("a", "/z", "z");
    let b = Target::new("b", "/a", "a");
    assert!(a.precedes(&b));
    assert!(!b.precedes(&a));
    assert!(a < b);
    let c = Target::new("a", "/z", "zz");
    assert!(a.precedes(&c));
    assert!(!a.precedes(&a));
    assert!(a.same(&Target::new("a", "/z", "z")));
    assert!(!a.same(&c));
    let d = Target::new("a", "/y", "zz");
    assert!(d.precedes(&a));
}

#[test]
fn target_of_a_message() {
    let m = Message::new_signal("/a/b", "com.example.I", "Changed");
    let t = Target::extract(&m).unwrap();
    assert_eq!(t, Target::new("com.example.I", "/a/b", "Changed"));
    let h = SignalHeaders::new(&m).unwrap();
    assert_eq!((h.interface.as_str(), h.object.as_str(), h.method.as_str()), ("com.example.I", "/a/b", "Changed"));
    let mut m = Message::new_signal("/a/b", "com.example.I", "Changed");
    m.path = None;
    assert!(Target::extract(&m).is_none());
    let mut m = Message::new_signal("/a/b", "com.example.I", "Changed");
    m.interface = None;
    assert!(Target::extract(&m).is_none());
    let mut m = Message::new_signal("/a/b", "com.example.I", "Changed");
    m.member = None;
    assert!(SignalHeaders::new(&m).is_none());
}

#[test]
fn signal_parts() {
    assert_eq!(
        make_signal("i".to_string(), "/o".to_string(), "m".to_string()),
        ("i".to_string(), "/o".to_string(), "m".to_string())
    );
}

#[test]
fn text_order_is_the_order_of_strings() {
    let words = ["", "a", "ab", "b", "B", "/a", "/a/b", "/ab", "é", "z", "org.freedesktop.DBus.Peer"];
    for x in words.iter() {
        for y in words.iter() {
            assert_eq!(precedes(x, y), x < y, "{:?} {:?}", x, y);
            assert_eq!(starts_with(x, y), x.starts_with(y), "{:?} {:?}", x, y);
        }
    }
}

#[test]
fn decimal_digits() {
    assert_eq!(decimal_text(0), "0");
    assert_eq!(decimal_text(7), "7");
    assert_eq!(decimal_text(10), "10");
    assert_eq!(decimal_text(4096), "4096");
    assert_eq!(decimal_text(1234567890), "1234567890");
    assert_eq!(join("ab", "cd"), "abcd");
}
