use demuxer::video::frames::{FrameCache, FrameCacheStore};
use demuxer::{DemuxError, Demuxer};

fn demuxer_of(keys: &[bool]) -> Demuxer {
    let mut list = Vec::new();
    for (i, key) in keys.iter().enumerate() {
        list.push(FrameCache::init(&[i as u8], 40 * i as u64, *key));
    }
    let store = FrameCacheStore::new(list).unwrap();
    Demuxer::new(store, 640, 360, Some("vp8".to_string()))
}

fn ten_frames() -> Demuxer {
    demuxer_of(&[true, false, false, false, true, false, false, false, true, false])
}

fn decode(demuxer: &mut Demuxer, from: usize, to: usize) -> (usize, Vec<usize>) {
    let mut submitted = Vec::new();
    let count = demuxer.decode(from, to, &mut submitted);
    (count, submitted)
}

fn seek(demuxer: &mut Demuxer, frame: usize) -> (u64, Vec<usize>) {
    let mut submitted = Vec::new();
    let timestamp = demuxer.seek(frame, &mut submitted);
    (timestamp, submitted)
}

#[test]
fn what_a_demuxer_is_made_of() {
    let demuxer = ten_frames();
    assert_eq!(demuxer.coded_width(), 640);
    assert_eq!(demuxer.coded_height(), 360);
    assert_eq!(demuxer.codec(), Some("vp8".to_string()));
    assert_eq!(demuxer.frame_count(), 10);
    assert_eq!(demuxer.timestamp_to_frame(120), Some(3));
    assert_eq!(demuxer.timestamp_to_frame(121), None);
    assert_eq!(
        demuxer.render(9),
        Ok(&FrameCache { keyframe: false, timestamp: 360, payload: vec![9] })
    );
    let plain = Demuxer::new(
        FrameCacheStore::new(vec![FrameCache::init(&[], 0, true)]).unwrap(),
        1,
        2,
        None,
    );
    assert_eq!(plain.codec(), None);
    assert_eq!(plain.frame_count(), 1);
}

#[test]
fn a_frame_that_is_not_stored_cannot_be_rendered() {
    let demuxer = ten_frames();
    assert_eq!(
        demuxer.render(10),
        Err(DemuxError::FrameNotFound("Could not render frame: 10".to_string()))
    );
    assert_eq!(
        demuxer.render(127),
        Err(DemuxError::FrameNotFound("Could not render frame: 127".to_string()))
    );
    assert_eq!(
        demuxer.render(4096),
        Err(DemuxError::FrameNotFound("Could not render frame: 4096".to_string()))
    );
    assert_eq!(
        demuxer.render(usize::MAX),
        Err(DemuxError::FrameNotFound(format!("Could not render frame: {}", usize::MAX)))
    );
}

#[test]
fn every_frame_handed_over_can_be_rendered() {
    let mut demuxer = ten_frames();
    let mut submitted = Vec::new();
    demuxer.decode(2, 100, &mut submitted);
    demuxer.seek(50, &mut submitted);
    demuxer.seek(3, &mut submitted);
    assert_eq!(submitted.len(), 14);
    for index in submitted {
        assert_eq!(demuxer.render(index).unwrap().timestamp, 40 * index as u64);
    }
}

#[test]
fn the_first_decode_hands_over_the_first_frame() {
    let mut demuxer = ten_frames();
    assert_eq!(decode(&mut demuxer, 0, 3), (4, vec![0, 1, 2, 3]));
}

#[test]
fn the_first_seek_to_the_first_frame_hands_it_over() {
    let mut demuxer = ten_frames();
    assert_eq!(seek(&mut demuxer, 0), (0, vec![0]));
    assert_eq!(seek(&mut demuxer, 0), (0, vec![]));
}

#[test]
fn seeking_to_the_current_frame_hands_over_nothing() {
    let mut demuxer = ten_frames();
    assert_eq!(seek(&mut demuxer, 3), (120, vec![0, 1, 2, 3]));
    assert_eq!(seek(&mut demuxer, 3), (120, vec![]));
    assert_eq!(seek(&mut demuxer, 3), (120, vec![]));
    assert_eq!(decode(&mut demuxer, 3, 3), (0, vec![]));
}

#[test]
fn seeking_ahead_starts_at_the_keyframe_between() {
    let mut demuxer = ten_frames();
    assert_eq!(seek(&mut demuxer, 3), (120, vec![0, 1, 2, 3]));
    assert_eq!(seek(&mut demuxer, 6), (240, vec![4, 5, 6]));
}

#[test]
fn seeking_ahead_without_a_keyframe_between_goes_on() {
    let mut demuxer = ten_frames();
    assert_eq!(seek(&mut demuxer, 5), (200, vec![4, 5]));
    assert_eq!(seek(&mut demuxer, 7), (280, vec![6, 7]));
    assert_eq!(seek(&mut demuxer, 8), (320, vec![8]));
}

#[test]
fn seeking_ahead_from_a_keyframe_goes_on_after_it() {
    let mut demuxer = ten_frames();
    assert_eq!(seek(&mut demuxer, 4), (160, vec![4]));
    assert_eq!(seek(&mut demuxer, 6), (240, vec![5, 6]));
}

#[test]
fn seeking_back_starts_at_the_keyframe_before() {
    let mut demuxer = ten_frames();
    assert_eq!(seek(&mut demuxer, 9), (360, vec![8, 9]));
    assert_eq!(seek(&mut demuxer, 6), (240, vec![4, 5, 6]));
    assert_eq!(seek(&mut demuxer, 2), (80, vec![0, 1, 2]));
    assert_eq!(seek(&mut demuxer, 0), (0, vec![0]));
}

#[test]
fn the_last_frame_can_be_reached() {
    let mut demuxer = ten_frames();
    assert_eq!(decode(&mut demuxer, 0, 9), (10, vec![0, 1, 2, 3, 4, 5, 6, 7, 8, 9]));
    assert_eq!(seek(&mut demuxer, 9), (360, vec![]));
}

#[test]
fn the_range_ends_with_the_last_frame() {
    let mut demuxer = ten_frames();
    assert_eq!(decode(&mut demuxer, 8, 100), (2, vec![8, 9]));
    assert_eq!(decode(&mut demuxer, 5, usize::MAX), (6, vec![4, 5, 6, 7, 8, 9]));
    assert_eq!(seek(&mut demuxer, 50), (360, vec![]));
    assert_eq!(decode(&mut demuxer, 50, 60), (0, vec![]));
}

#[test]
fn a_range_that_ends_before_its_start_is_empty() {
    let mut demuxer = ten_frames();
    assert_eq!(decode(&mut demuxer, 6, 3), (0, vec![]));
    assert_eq!(decode(&mut demuxer, 6, 4), (1, vec![4]));
    assert_eq!(decode(&mut demuxer, 9, 1), (0, vec![]));
    assert_eq!(seek(&mut demuxer, 4), (160, vec![]));
}

#[test]
fn decoding_back_over_the_current_frame_hands_it_over_again() {
    let mut demuxer = ten_frames();
    assert_eq!(seek(&mut demuxer, 5), (200, vec![4, 5]));
    assert_eq!(decode(&mut demuxer, 2, 7), (8, vec![0, 1, 2, 3, 4, 5, 6, 7]));
    assert_eq!(decode(&mut demuxer, 7, 9), (2, vec![8, 9]));
}

#[test]
fn a_file_without_keyframes() {
    let mut demuxer = demuxer_of(&[false, false, false, false, false, false]);
    assert_eq!(decode(&mut demuxer, 0, 2), (3, vec![0, 1, 2]));
    assert_eq!(seek(&mut demuxer, 1), (40, vec![0, 1]));
    assert_eq!(seek(&mut demuxer, 5), (200, vec![2, 3, 4, 5]));
    assert_eq!(seek(&mut demuxer, 5), (200, vec![]));
}

#[test]
fn a_first_seek_ahead_without_keyframes_starts_at_the_first_frame() {
    let mut demuxer = demuxer_of(&[false, false, false, false]);
    assert_eq!(seek(&mut demuxer, 2), (80, vec![0, 1, 2]));
}

#[test]
fn a_first_seek_ahead_starts_at_the_keyframe() {
    let mut demuxer = demuxer_of(&[false, false, true, false, false]);
    assert_eq!(seek(&mut demuxer, 3), (120, vec![2, 3]));
    let mut demuxer = demuxer_of(&[false, false, true, false, false]);
    assert_eq!(seek(&mut demuxer, 1), (40, vec![0, 1]));
}

#[test]
fn the_resolved_start() {
    let mut demuxer = ten_frames();
    assert_eq!(demuxer.skip_to_keyframe(0), 0);
    assert_eq!(demuxer.skip_to_keyframe(3), 0);
    assert_eq!(demuxer.skip_to_keyframe(6), 4);
    seek(&mut demuxer, 5);
    assert_eq!(demuxer.skip_to_keyframe(5), 5);
    assert_eq!(demuxer.skip_to_keyframe(6), 6);
    assert_eq!(demuxer.skip_to_keyframe(7), 6);
    assert_eq!(demuxer.skip_to_keyframe(8), 8);
    assert_eq!(demuxer.skip_to_keyframe(9), 8);
    assert_eq!(demuxer.skip_to_keyframe(1000), 8);
    assert_eq!(demuxer.skip_to_keyframe(4), 4);
    assert_eq!(demuxer.skip_to_keyframe(3), 0);
    assert_eq!(demuxer.skip_to_keyframe(0), 0);
    let mut none = demuxer_of(&[false, false, false, false]);
    seek(&mut none, 2);
    assert_eq!(none.skip_to_keyframe(3), 2);
    assert_eq!(none.skip_to_keyframe(1), 0);
}

#[test]
fn submissions_are_appended() {
    let mut demuxer = ten_frames();
    let mut submitted = vec![77];
    assert_eq!(demuxer.decode(0, 1, &mut submitted), 2);
    assert_eq!(demuxer.seek(4, &mut submitted), 160);
    assert_eq!(submitted, vec![77, 0, 1, 4]);
}

#[test]
fn every_frame_handed_over_can_be_decoded() {
    let keys = [true, false, false, true, false, false, false, true, false, false, false];
    let requests: [(usize, usize); 14] = [
        (0, 2),
        (5, 5),
        (5, 6),
        (1, 1),
        (9, 9),
        (10, 10),
        (4, 8),
        (8, 3),
        (2, 30),
        (10, 10),
        (0, 0),
        (6, 6),
        (7, 7),
        (3, 9),
    ];
    let mut demuxer = demuxer_of(&keys);
    let mut trace = Vec::new();
    for (from, to) in requests {
        if from == to {
            demuxer.seek(from, &mut trace);
        } else {
            demuxer.decode(from, to, &mut trace);
        }
    }
    assert!(!trace.is_empty());
    for p in 0..trace.len() {
        let index = trace[p];
        assert!(index < keys.len());
        assert!(keys[index] || index == 0 || (p > 0 && trace[p - 1] + 1 == index));
        let key = (0..=index).rev().find(|i| keys[*i]).unwrap();
        let run: Vec<usize> = (key..=index).collect();
        assert!(p + 1 >= run.len());
        assert_eq!(&trace[p + 1 - run.len()..=p], &run[..]);
    }
}

struct Player {
    keys: Vec<bool>,
    current: usize,
    has_decoded_any: bool,
}

impl Player {
    fn nearest_key(&self, limit: usize) -> Option<usize> {
        (0..self.keys.len()).rev().find(|i| *i <= limit && self.keys[*i])
    }

    fn start(&self, target: usize) -> usize {
        if target == self.current {
            self.current
        } else if target > self.current {
            let key = self.nearest_key(target).unwrap_or(self.current);
            if key < self.current {
                self.current + 1
            } else {
                key
            }
        } else {
            self.nearest_key(target).unwrap_or(0)
        }
    }

    fn submit(&mut self, target: usize, to: usize) -> Vec<usize> {
        let start = self.start(target);
        let mut sent = Vec::new();
        for index in 0..self.keys.len() {
            if index < start {
                continue;
            }
            if index > to {
                break;
            }
            if self.current == index && self.has_decoded_any {
                continue;
            }
            self.current = index;
            self.has_decoded_any = true;
            sent.push(index);
        }
        sent
    }
}

#[test]
fn requests_follow_the_rule_step_by_step() {
    let mut seed: u64 = 0x9e37_79b9_7f4a_7c15;
    let mut next = move || {
        seed = seed.wrapping_mul(6364136223846793005).wrapping_add(1442695040888963407);
        (seed >> 33) as usize
    };
    for round in 0..60 {
        let length = 1 + next() % 14;
        let keys: Vec<bool> = (0..length).map(|_| next() % (1 + round % 4) == 0).collect();
        let mut demuxer = demuxer_of(&keys);
        let mut player = Player { keys: keys.clone(), current: 0, has_decoded_any: false };
        for _ in 0..40 {
            let from = next() % (length + 3);
            let to = next() % (length + 3);
            if next() % 2 == 0 {
                assert_eq!(demuxer.skip_to_keyframe(from), player.start(from));
                let expected = player.submit(from, to);
                assert_eq!(decode(&mut demuxer, from, to), (expected.len(), expected));
            } else {
                assert_eq!(demuxer.skip_to_keyframe(to), player.start(to));
                let expected = player.submit(to, to);
                assert_eq!(seek(&mut demuxer, to), (40 * player.current as u64, expected));
            }
        }
    }
}
