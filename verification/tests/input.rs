use agent_computer::input::{
    click_events, encode_utf16, parse_modifier_flags, plan_typing, scroll_deltas, scroll_deltas_checked, MouseButton,
    MouseEventStep, TypingStep,
};

#[test]
fn modifier_flags_from_names() {
    let flags = parse_modifier_flags(&["Cmd".to_string(), "shift".to_string(), "fn".to_string()]);
    assert!(flags.command && flags.shift && !flags.alternate && !flags.control);
    let flags2 = parse_modifier_flags(&["option".to_string(), "CONTROL".to_string(), "meta".to_string()]);
    assert!(flags2.command && !flags2.shift && flags2.alternate && flags2.control);
    let none = parse_modifier_flags(&[]);
    assert!(!none.command && !none.shift && !none.alternate && !none.control);
}

#[test]
fn scroll_wheel_deltas() {
    assert_eq!(scroll_deltas("down", 300), Some((-300, 0)));
    assert_eq!(scroll_deltas("Up", 3), Some((3, 0)));
    assert_eq!(scroll_deltas("left", 2), Some((0, 2)));
    assert_eq!(scroll_deltas("RIGHT", 2), Some((0, -2)));
    assert_eq!(scroll_deltas("diagonal", 2), None);
    assert_eq!(scroll_deltas_checked("down", i32::MIN), None);
    assert_eq!(scroll_deltas_checked("up", i32::MIN), Some((i32::MIN, 0)));
    assert_eq!(scroll_deltas_checked("right", 7), Some((0, -7)));
}

#[test]
fn typing_plan_line_break() {
    let steps = plan_typing("ab\ncd");
    assert_eq!(steps.len(), 3);
    match &steps[0] {
        TypingStep::Text(u) => assert_eq!(u, &vec![97u16, 98]),
        _ => panic!("Expected text"),
    }
    assert!(matches!(steps[1], TypingStep::Return));
    match &steps[2] {
        TypingStep::Text(u) => assert_eq!(u, &vec![99u16, 100]),
        _ => panic!("Expected text"),
    }
}

#[test]
fn typing_chunks_and_line_breaks() {
    let text = "x".repeat(45);
    let steps = plan_typing(&text);
    let sizes: Vec<usize> = steps
        .iter()
        .map(|s| match s {
            TypingStep::Text(u) => u.len(),
            TypingStep::Return => 0,
        })
        .collect();
    assert_eq!(sizes, vec![20, 20, 5]);
    let newlines = plan_typing("\n\n");
    assert_eq!(newlines.len(), 2);
    assert!(newlines.iter().all(|s| matches!(s, TypingStep::Return)));
    let mid = plan_typing(&format!("{}\n{}", "a".repeat(10), "b".repeat(3)));
    assert_eq!(mid.len(), 3);
    assert!(matches!(mid[1], TypingStep::Return));
    let typed: Vec<u16> = plan_typing("héllo 😀\nok")
        .iter()
        .flat_map(|s| match s {
            TypingStep::Text(u) => u.clone(),
            TypingStep::Return => vec![10u16],
        })
        .collect();
    assert_eq!(typed, "héllo 😀\nok".encode_utf16().collect::<Vec<u16>>());
    assert_eq!(encode_utf16("😀"), "😀".encode_utf16().collect::<Vec<u16>>());
    assert!(plan_typing("").is_empty());
}

fn chunk_sizes(text: &str) -> Vec<usize> {
    plan_typing(text)
        .iter()
        .map(|s| match s {
            TypingStep::Text(u) => u.len(),
            TypingStep::Return => 0,
        })
        .collect()
}

#[test]
fn typing_never_splits_a_surrogate_pair() {
    let text = format!("{}😀", "a".repeat(19));
    assert_eq!(chunk_sizes(&text), vec![19, 2]);
    let steps = plan_typing(&text);
    match &steps[1] {
        TypingStep::Text(u) => assert_eq!(u, &"😀".encode_utf16().collect::<Vec<u16>>()),
        _ => panic!("Expected text"),
    }
    assert_eq!(chunk_sizes(&format!("{}😀", "a".repeat(18))), vec![20]);
    assert_eq!(chunk_sizes(&format!("{}😀", "a".repeat(20))), vec![20, 2]);
    assert_eq!(chunk_sizes(&"😀".repeat(11)), vec![20, 2]);
    assert_eq!(chunk_sizes(&format!("a{}", "😀".repeat(10))), vec![19, 2]);
    for text in [format!("{}😀\n😀", "b".repeat(19)), "é😀".repeat(9)] {
        let steps = plan_typing(&text);
        let typed: Vec<u16> = steps
            .iter()
            .flat_map(|s| match s {
                TypingStep::Text(u) => u.clone(),
                TypingStep::Return => vec![10u16],
            })
            .collect();
        assert_eq!(typed, text.encode_utf16().collect::<Vec<u16>>());
        for s in &steps {
            if let TypingStep::Text(u) = s {
                assert!(!(0xD800..=0xDBFF).contains(u.last().unwrap()));
            }
        }
    }
}

#[test]
fn click_event_sequences() {
    let single = click_events(MouseButton::Left, 1);
    assert_eq!(
        single,
        vec![
            MouseEventStep { button: MouseButton::Left, down: true, click_state: 1 },
            MouseEventStep { button: MouseButton::Left, down: false, click_state: 1 },
        ]
    );
    let double = click_events(MouseButton::Right, 2);
    assert_eq!(double.len(), 4);
    assert_eq!(double[2], MouseEventStep { button: MouseButton::Right, down: true, click_state: 2 });
    assert_eq!(double[3], MouseEventStep { button: MouseButton::Right, down: false, click_state: 2 });
    let triple = click_events(MouseButton::Left, 3);
    assert_eq!(triple.len(), 2);
    assert_eq!(triple[0].click_state, 3);
}
