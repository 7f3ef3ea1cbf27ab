use sync_supervisor::reassembly::{Chunk, Reassembler};

#[test]
fn example_one_message_and_remainder() {
    // Chunks "AB" (open), "CD" (terminal), "EF" (open) yield one completed
    // message "ABCD" and leave "EF" in progress.
    let mut r = Reassembler::new();
    let chunks = vec![
        Chunk::new(b"AB".to_vec(), false),
        Chunk::new(b"CD".to_vec(), true),
        Chunk::new(b"EF".to_vec(), false),
    ];
    let out = r.tick(&chunks);
    assert_eq!(out.len(), 1);
    assert_eq!(out[0], b"ABCD".to_vec());
    assert_eq!(*r.in_progress(), b"EF".to_vec());
}

#[test]
fn empty_tick_changes_nothing() {
    let mut r = Reassembler::new();
    let first = vec![Chunk::new(b"partial".to_vec(), false)];
    let out = r.tick(&first);
    assert_eq!(out.len(), 0);
    assert_eq!(*r.in_progress(), b"partial".to_vec());

    // A tick that drains no chunks completes nothing and leaves the
    // in-progress buffer untouched.
    let none: Vec<Chunk> = Vec::new();
    let out = r.tick(&none);
    assert_eq!(out.len(), 0);
    assert_eq!(*r.in_progress(), b"partial".to_vec());
}

#[test]
fn many_messages_in_one_tick() {
    let mut r = Reassembler::new();
    let chunks = vec![
        Chunk::new(b"one".to_vec(), true),
        Chunk::new(b"two ".to_vec(), false),
        Chunk::new(b"parts".to_vec(), true),
        Chunk::new(b"three".to_vec(), true),
    ];
    let out = r.tick(&chunks);
    assert_eq!(out.len(), 3);
    assert_eq!(out[0], b"one".to_vec());
    assert_eq!(out[1], b"two parts".to_vec());
    assert_eq!(out[2], b"three".to_vec());
    assert_eq!(*r.in_progress(), Vec::<u8>::new());
}

#[test]
fn terminal_chunk_with_no_bytes_yields_empty_message() {
    let mut r = Reassembler::new();
    let chunks = vec![Chunk::new(Vec::new(), true)];
    let out = r.tick(&chunks);
    assert_eq!(out.len(), 1);
    assert_eq!(out[0], Vec::<u8>::new());
}

#[test]
fn remainder_carries_across_ticks() {
    let mut r = Reassembler::new();
    let first = vec![Chunk::new(b"AB".to_vec(), false)];
    let out = r.tick(&first);
    assert_eq!(out.len(), 0);

    let second = vec![Chunk::new(b"CD".to_vec(), true)];
    let out = r.tick(&second);
    assert_eq!(out.len(), 1);
    assert_eq!(out[0], b"ABCD".to_vec());
    assert_eq!(*r.in_progress(), Vec::<u8>::new());
}

#[test]
fn push_chunk_appends_and_closes() {
    let mut r = Reassembler::new();
    let mut out: Vec<Vec<u8>> = Vec::new();
    r.push_chunk(&Chunk::new(b"he".to_vec(), false), &mut out);
    assert_eq!(out.len(), 0);
    assert_eq!(*r.in_progress(), b"he".to_vec());
    r.push_chunk(&Chunk::new(b"llo".to_vec(), true), &mut out);
    assert_eq!(out.len(), 1);
    assert_eq!(out[0], b"hello".to_vec());
    assert_eq!(*r.in_progress(), Vec::<u8>::new());
}
