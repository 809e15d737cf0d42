use cuda_biology::Membrane;

#[test]
fn test_membrane_blocking() {
    let m = Membrane::default_antibodies();
    assert!(!m.check(b"sudo rm -rf /")); // blocked
    assert!(m.check(b"read file")); // safe
    assert!(!m.check(b"format disk")); // blocked
}

#[test]
fn new_membrane_admits_everything() {
    let m = Membrane::new();
    assert!(m.antibodies.is_empty());
    assert!(m.check(b""));
    assert!(m.check(b"rm -rf /"));
}

#[test]
fn add_antibody_appends_pattern_and_reason() {
    let mut m = Membrane::new();
    m.add_antibody(vec![1, 2, 3], "test pattern");
    m.add_antibody(vec![9], "nine");
    assert_eq!(m.antibodies.len(), 2);
    assert_eq!(m.antibodies[0].pattern, vec![1, 2, 3]);
    assert_eq!(m.antibodies[0].reason, "test pattern");
    assert_eq!(m.antibodies[1].pattern, vec![9]);
    assert_eq!(m.antibodies[1].reason, "nine");
}

#[test]
fn default_antibodies_in_order() {
    let m = Membrane::default_antibodies();
    let expected: Vec<(&[u8], &str)> = vec![
        (b"rm -rf", "destructive filesystem operation"),
        (b"format", "disk format"),
        (b"drop_all", "database destruction"),
        (b"DELETE FROM", "SQL injection"),
        (b"sudo rm", "privileged deletion"),
    ];
    assert_eq!(m.antibodies.len(), expected.len());
    for (ab, (pattern, reason)) in m.antibodies.iter().zip(expected.iter()) {
        assert_eq!(ab.pattern.as_slice(), *pattern);
        assert_eq!(ab.reason, *reason);
    }
}

#[test]
fn pattern_found_anywhere() {
    let mut m = Membrane::new();
    m.add_antibody(vec![7, 8], "seven eight");
    assert!(!m.check(&[7, 8]));
    assert!(!m.check(&[7, 8, 0, 0]));
    assert!(!m.check(&[0, 0, 7, 8]));
    assert!(!m.check(&[0, 7, 8, 0]));
    assert!(m.check(&[7, 0, 8]));
    assert!(m.check(&[8, 7]));
    assert!(m.check(&[0, 0, 0, 7]));
    assert!(m.check(&[7]));
}

#[test]
fn pattern_longer_than_signal_passes() {
    let mut m = Membrane::new();
    m.add_antibody(vec![1, 2, 3, 4], "long");
    assert!(m.check(&[1, 2, 3]));
    assert!(m.check(&[]));
}

#[test]
fn empty_pattern_blocks_everything() {
    let mut m = Membrane::new();
    m.add_antibody(vec![], "everything");
    assert!(!m.check(&[]));
    assert!(!m.check(b"read file"));
}

#[test]
fn later_antibodies_are_checked_too() {
    let mut m = Membrane::new();
    m.add_antibody(vec![1], "one");
    m.add_antibody(vec![2], "two");
    assert!(!m.check(&[0, 2, 0]));
    assert!(!m.check(&[1]));
    assert!(m.check(&[0, 3]));
}

#[test]
fn adding_antibody_keeps_blocked_signals_blocked() {
    let mut m = Membrane::default_antibodies();
    let signals: Vec<&[u8]> = vec![b"format c:", b"read file", b"drop_all tables", b"hello"];
    let before: Vec<bool> = signals.iter().map(|s| m.check(s)).collect();
    m.add_antibody(b"hello".to_vec(), "greeting");
    for (s, was_safe) in signals.iter().zip(before.iter()) {
        let holds_new = s.windows(5).any(|w| w == b"hello");
        assert_eq!(m.check(s), *was_safe && !holds_new);
    }
}

#[test]
fn wrapped_dangerous_signal_still_blocked() {
    let m = Membrane::default_antibodies();
    assert!(!m.check(b"DELETE FROM"));
    assert!(!m.check(b"please DELETE FROM users now"));
    assert!(m.check(b"DELETE  FROM"));
    assert!(m.check(b"delete from users"));
}
