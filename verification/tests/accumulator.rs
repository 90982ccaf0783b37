use audio_pipeline::accumulator::FrameAccumulator;
use audio_pipeline::util::Channels;

fn ramp(len: usize) -> Vec<i16> {
    (0..len).map(|i| (i % 30000) as i16).collect()
}

fn feed_in_chunks(samples: &[i16], chunk: usize, frame_len: usize) -> (Vec<i16>, usize) {
    let mut acc = FrameAccumulator::with_frame_len(frame_len).unwrap();
    let mut out: Vec<i16> = Vec::new();
    for piece in samples.chunks(chunk) {
        acc.push(piece);
        loop {
            match acc.try_take_frame() {
                Some(frame) => {
                    assert_eq!(frame.len(), frame_len);
                    out.extend_from_slice(&frame);
                }
                None => break,
            }
        }
    }
    (out, acc.pending_len())
}

#[test]
fn chunk_size_does_not_change_output() {
    let samples = ramp(10_000);
    let (all_at_once, pending) = feed_in_chunks(&samples, samples.len(), 1920);
    assert_eq!(all_at_once, samples[..9600].to_vec());
    assert_eq!(pending, 400);
    for chunk in [1usize, 7, 960, 4096] {
        let (out, left) = feed_in_chunks(&samples, chunk, 1920);
        assert_eq!(out, all_at_once);
        assert_eq!(left, pending);
    }
}

#[test]
fn feed_matches_push_and_drain() {
    let samples = ramp(5000);
    let mut acc = FrameAccumulator::with_frame_len(1920).unwrap();
    let mut out: Vec<i16> = Vec::new();
    for piece in samples.chunks(777) {
        for frame in acc.feed(piece) {
            out.extend_from_slice(&frame);
        }
    }
    assert_eq!(out, samples[..3840].to_vec());
    assert_eq!(acc.pending_len(), 1160);
}

#[test]
fn no_frame_until_enough_samples() {
    let mut acc = FrameAccumulator::with_frame_len(4).unwrap();
    assert_eq!(acc.try_take_frame(), None);
    acc.push(&[1, 2, 3]);
    assert_eq!(acc.try_take_frame(), None);
    assert_eq!(acc.pending_len(), 3);
    acc.push(&[4]);
    assert_eq!(acc.try_take_frame(), Some(vec![1, 2, 3, 4]));
    assert_eq!(acc.pending_len(), 0);
    assert_eq!(acc.try_take_frame(), None);
}

#[test]
fn large_push_yields_every_frame() {
    let mut acc = FrameAccumulator::with_frame_len(3).unwrap();
    acc.push(&[1, 2, 3, 4, 5, 6, 7, 8]);
    assert_eq!(acc.try_take_frame(), Some(vec![1, 2, 3]));
    assert_eq!(acc.try_take_frame(), Some(vec![4, 5, 6]));
    assert_eq!(acc.try_take_frame(), None);
    assert_eq!(acc.pending_len(), 2);
    acc.push(&[9]);
    assert_eq!(acc.take_frames(), vec![vec![7, 8, 9]]);
    assert_eq!(acc.pending_len(), 0);
}

#[test]
fn take_frames_returns_all_whole_frames() {
    let mut acc = FrameAccumulator::with_frame_len(2).unwrap();
    acc.push(&[10, 11, 12, 13, 14]);
    assert_eq!(acc.take_frames(), vec![vec![10, 11], vec![12, 13]]);
    assert_eq!(acc.pending_len(), 1);
    assert!(acc.take_frames().is_empty());
}

#[test]
fn frame_length_follows_layout() {
    assert_eq!(FrameAccumulator::new(Channels::Stereo).frame_len(), 1920);
    assert_eq!(FrameAccumulator::new(Channels::Mono).frame_len(), 960);
    assert_eq!(FrameAccumulator::new(Channels::Stereo).pending_len(), 0);
}

#[test]
fn zero_frame_length_is_refused() {
    assert!(FrameAccumulator::with_frame_len(0).is_none());
    assert_eq!(FrameAccumulator::with_frame_len(5).unwrap().frame_len(), 5);
}
