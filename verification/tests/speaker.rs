use discrivener::audio::resample::round_up_to_frames;
use discrivener::audio::speaker::{SeekPosition, VecMediaSource};

#[test]
fn source_reads_its_bytes_in_order() {
    let mut source = VecMediaSource::new(&vec![1, -2, 0x0304]);
    assert!(source.is_seekable());
    assert_eq!(source.byte_len(), Some(6));
    assert_eq!(source.read(4), vec![1, 0, 0xfe, 0xff]);
    assert_eq!(source.read(4), vec![4, 3]);
    assert_eq!(source.read(4), Vec::<u8>::new());
}

#[test]
fn seeking_moves_within_the_bytes() {
    let mut source = VecMediaSource::new(&vec![1, 2, 3]);
    assert_eq!(source.seek(SeekPosition::Start(2)), 2);
    assert_eq!(source.read(1), vec![2]);
    assert_eq!(source.seek(SeekPosition::Current(-3)), 0);
    assert_eq!(source.seek(SeekPosition::End(-2)), 4);
    assert_eq!(source.read(10), vec![3, 0]);
    // past the end, or before the start, lands at the end
    assert_eq!(source.seek(SeekPosition::Start(100)), 6);
    assert_eq!(source.seek(SeekPosition::End(-7)), 6);
    assert_eq!(source.seek(SeekPosition::Current(-7)), 6);
}

#[test]
fn empty_source_has_no_length() {
    let source = VecMediaSource::new(&vec![]);
    assert_eq!(source.byte_len(), None);
}

#[test]
fn output_is_rounded_up_to_whole_frames() {
    assert_eq!(round_up_to_frames(0, 960), 0);
    assert_eq!(round_up_to_frames(1, 960), 960);
    assert_eq!(round_up_to_frames(960, 960), 960);
    assert_eq!(round_up_to_frames(2000, 960), 2880);
}
