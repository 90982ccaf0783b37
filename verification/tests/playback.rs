use audio_pipeline::jitter::JitterBuffer;
use audio_pipeline::playback::PlaybackFeeder;

#[test]
fn empty_buffer_yields_silence_and_counts_underflow() {
    let mut jb = JitterBuffer::new(1920, 4).unwrap();
    let mut feeder = PlaybackFeeder::new();
    assert_eq!(feeder.underflow_count(), 0);
    let out = feeder.pull(&mut jb, 1920);
    assert_eq!(out, vec![0i16; 1920]);
    assert_eq!(feeder.underflow_count(), 1);
}

#[test]
fn shortfall_is_padded_with_zeros() {
    let mut jb = JitterBuffer::new(4, 4).unwrap();
    jb.enqueue(&[5, 6, 7]);
    let mut feeder = PlaybackFeeder::new();
    assert_eq!(feeder.pull(&mut jb, 5), vec![5, 6, 7, 0, 0]);
    assert_eq!(feeder.underflow_count(), 1);
    assert_eq!(jb.len(), 0);
    assert_eq!(feeder.pull(&mut jb, 2), vec![0, 0]);
    assert_eq!(feeder.underflow_count(), 2);
}

#[test]
fn full_request_is_served_without_underflow() {
    let mut jb = JitterBuffer::new(4, 4).unwrap();
    jb.enqueue(&[1, 2, 3, 4]);
    jb.enqueue(&[5, 6, 7, 8]);
    let mut feeder = PlaybackFeeder::new();
    assert_eq!(feeder.pull(&mut jb, 3), vec![1, 2, 3]);
    assert_eq!(feeder.pull(&mut jb, 5), vec![4, 5, 6, 7, 8]);
    assert_eq!(feeder.underflow_count(), 0);
    assert_eq!(jb.len(), 0);
}

#[test]
fn empty_request_is_no_underflow() {
    let mut jb = JitterBuffer::new(4, 4).unwrap();
    let mut feeder = PlaybackFeeder::new();
    assert_eq!(feeder.pull(&mut jb, 0), Vec::<i16>::new());
    assert_eq!(feeder.underflow_count(), 0);
}

#[test]
fn fill_overwrites_the_whole_request_in_place() {
    let mut jb = JitterBuffer::new(4, 4).unwrap();
    jb.enqueue(&[1, 2, 3, 4]);
    jb.enqueue(&[5, 6, 7, 8]);
    let mut feeder = PlaybackFeeder::new();
    let mut out = vec![-1i16; 6];
    feeder.fill(&mut jb, &mut out);
    assert_eq!(out, vec![1, 2, 3, 4, 5, 6]);
    assert_eq!(feeder.underflow_count(), 0);
    feeder.fill(&mut jb, &mut out);
    assert_eq!(out, vec![7, 8, 0, 0, 0, 0]);
    assert_eq!(feeder.underflow_count(), 1);
    assert_eq!(jb.len(), 0);
}

#[test]
fn fill_of_empty_buffer_is_silence() {
    let mut jb = JitterBuffer::new(1920, 4).unwrap();
    let mut feeder = PlaybackFeeder::new();
    let mut out = vec![123i16; 1920];
    feeder.fill(&mut jb, &mut out);
    assert_eq!(out, vec![0i16; 1920]);
    assert_eq!(feeder.underflow_count(), 1);
}
