use winbeautify::tap::logging::{debug_log_fmt, Ring, StackBuffer, Taken, SLOTS, TEXT_MAX};

#[test]
fn formatting_stops_at_the_end_of_the_stack_buffer() {
    let mut buffer = StackBuffer::new();
    let long = "x".repeat(TEXT_MAX * 2);
    buffer.write_str(&long);
    assert_eq!(buffer.filled().len(), TEXT_MAX);
}

fn line(taken: Taken) -> Vec<u8> {
    match taken {
        Taken::Line(text) => text,
        Taken::Dropped => panic!("the line was dropped"),
        Taken::Empty => panic!("there is no line"),
    }
}

#[test]
fn ring_publishes_in_order_then_reports_the_drops_it_has_to_make() {
    let mut ring = Ring::new();
    ring.push(b"first");
    ring.push(b"second");
    assert_eq!(line(ring.take()), b"first".to_vec());
    assert_eq!(line(ring.take()), b"second".to_vec());
    assert!(matches!(ring.take(), Taken::Empty));

    for _ in 0..SLOTS + 3 {
        ring.push(b"x");
    }
    let mut lines = 0;
    let mut drops = 0;
    loop {
        match ring.take() {
            Taken::Line(_) => lines += 1,
            Taken::Dropped => drops += 1,
            Taken::Empty => break,
        }
    }
    assert_eq!(lines, SLOTS);
    assert_eq!(drops, 3);

    ring.push(b"third");
    assert_eq!(line(ring.take()), b"third".to_vec());
}

#[test]
fn a_slot_keeps_nothing_of_the_line_before() {
    let mut ring = Ring::new();
    for _ in 0..SLOTS {
        ring.push(&[b'y'; TEXT_MAX + 9]);
    }
    for _ in 0..SLOTS {
        assert_eq!(line(ring.take()), vec![b'y'; TEXT_MAX]);
    }
    ring.push(b"short");
    ring.push(b"");
    assert_eq!(line(ring.take()), b"short".to_vec());
    assert_eq!(line(ring.take()), Vec::new());
}

#[test]
fn a_formatted_line_takes_one_ticket() {
    let mut buffer = StackBuffer::new();
    buffer.write_str("at ");
    buffer.write_str("17");
    let mut ring = Ring::new();
    debug_log_fmt(&mut ring, false, &buffer);
    assert_eq!((ring.write_ticket, ring.read_ticket), (0, 0));
    debug_log_fmt(&mut ring, true, &buffer);
    assert_eq!((ring.write_ticket, ring.read_ticket), (1, 0));
    assert_eq!(line(ring.take()), b"at 17".to_vec());
    assert_eq!((ring.write_ticket, ring.read_ticket), (1, 1));
}
