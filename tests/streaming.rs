use rp2040_sandbox::oscillator::{Square, FIXED_MAX};
use rp2040_sandbox::stream::{fill_left, Stream};
use rp2040_sandbox::transfer::{Transfer, TransferError};

#[test]
fn words_stream_in_submission_order() {
    let a = vec![11u32; 4];
    let b = vec![22u32; 4];
    let mut t = Transfer::start(a, 4).ok().unwrap();
    assert!(t.read_next(b).is_ok());
    let mut out = Vec::new();
    while let Some(w) = t.pull() {
        out.push(w);
    }
    assert_eq!(out, vec![11, 11, 11, 11, 22, 22, 22, 22]);
    assert!(t.is_done());
    let drained = t.wait();
    assert_eq!(drained, vec![11u32; 4]);
    assert_eq!(t.pull(), None);
}

#[test]
fn distinct_words_keep_their_order() {
    let mut t = Transfer::start(vec![1, 2, 3], 3).ok().unwrap();
    assert_eq!(t.pull(), Some(1));
    assert!(t.read_next(vec![4, 5, 6]).is_ok());
    let mut out = Vec::new();
    while let Some(w) = t.pull() {
        out.push(w);
    }
    assert_eq!(out, vec![2, 3, 4, 5, 6]);
}

#[test]
fn size_mismatch_is_refused() {
    match Transfer::start(vec![1, 2, 3], 4) {
        Err((e, b)) => {
            assert_eq!(e, TransferError::SizeMismatch);
            assert_eq!(b, vec![1, 2, 3]);
        }
        Ok(_) => panic!("a short buffer was accepted"),
    }
    let mut t = Transfer::start(vec![1, 2], 2).ok().unwrap();
    match t.read_next(vec![1]) {
        Err((e, b)) => {
            assert_eq!(e, TransferError::SizeMismatch);
            assert_eq!(b, vec![1]);
        }
        Ok(()) => panic!("a short buffer was queued"),
    }
    assert!(Stream::start(vec![0; 2], vec![0; 3], 2).is_err());
}

#[test]
fn second_queued_buffer_is_refused() {
    let mut t = Transfer::start(vec![1, 2], 2).ok().unwrap();
    assert!(t.read_next(vec![3, 4]).is_ok());
    match t.read_next(vec![5, 6]) {
        Err((e, b)) => {
            assert_eq!(e, TransferError::Busy);
            assert_eq!(b, vec![5, 6]);
        }
        Ok(()) => panic!("a third buffer was queued"),
    }
}

#[test]
fn poll_waits_until_the_first_buffer_drains() {
    let mut s = Stream::start(vec![1, 2, 3, 4], vec![5, 6, 7, 8], 4).ok().unwrap();
    let mut sq = Square::new(2, 4).unwrap();
    assert!(!s.poll(&mut sq, 100));
    assert_eq!(s.pull(), Some(1));
    assert!(!s.poll(&mut sq, 100));
    assert!(s.spare.is_none());
}

#[test]
fn poll_refills_left_channel_only() {
    let mut s = Stream::start(vec![1, 2, 3, 4], vec![5, 6, 7, 8], 4).ok().unwrap();
    let mut sq = Square::new(2, 4).unwrap();
    for _ in 0..4 {
        s.pull();
    }
    assert!(s.poll(&mut sq, 100));
    // the control loop holds no buffer once it has resubmitted
    assert!(s.spare.is_none());
    let mut out = Vec::new();
    while let Some(w) = s.pull() {
        out.push(w);
    }
    assert_eq!(out, vec![5, 6, 7, 8, FIXED_MAX / 100, 2, 0, 4]);
}

#[test]
fn ownership_alternates_between_loop_and_engine() {
    let mut s = Stream::start(vec![0; 2], vec![0; 2], 2).ok().unwrap();
    let mut sq = Square::new(1, 2).unwrap();
    assert!(s.spare.is_none() && s.transfer.second.is_some());
    for _ in 0..2 {
        s.pull();
    }
    assert!(s.reclaim());
    // refilling: one buffer each
    assert!(s.spare.is_some() && s.transfer.second.is_none());
    assert!(!s.reclaim());
    s.refill(&mut sq, 1);
    assert_eq!(s.spare.as_ref().unwrap(), &vec![FIXED_MAX, 0]);
    s.submit();
    assert!(s.spare.is_none() && s.transfer.second.is_some());
}

#[test]
fn fill_left_keeps_right_slots() {
    let mut sq = Square::new(2, 4).unwrap();
    let mut buf = vec![9u32; 5];
    fill_left(&mut buf, &mut sq, 1);
    assert_eq!(buf, vec![FIXED_MAX, 9, 0, 9, FIXED_MAX]);
    assert_eq!(sq.phase.step, 3);
}
