use textspill::wav::{
    is_silent, locate_pcm, segment_boundary, snapshot_pcm, write_wav, Frame, WavFault,
    BYTES_PER_SECOND, HEAD_BYTES, WINDOW_BYTES,
};

#[test]
fn segmenting_waits_for_a_pause_or_four_seconds() {
    let speech = [0xff, 0x20].repeat(64000);
    assert_eq!(segment_boundary(&speech[..32000]), None);
    assert_eq!(segment_boundary(&speech[..64000]), None);
    assert_eq!(segment_boundary(&speech), Some(128000));
    let mut paused = speech[..48000].to_vec();
    paused.extend(vec![0; 6400]);
    assert_eq!(segment_boundary(&paused), Some(paused.len()));
}

#[test]
fn snapshots_ignore_stale_lengths_and_keep_only_the_recent_window() {
    let mut file = write_wav(&vec![1; 20 * BYTES_PER_SECOND as usize]);
    file[4..8].copy_from_slice(&0u32.to_le_bytes());
    file[40..44].copy_from_slice(&0u32.to_le_bytes());
    let frame = snapshot_pcm(&file, 5 * BYTES_PER_SECOND).unwrap().unwrap();
    assert_eq!(frame.start, 5 * BYTES_PER_SECOND);
    assert_eq!(frame.end, 20 * BYTES_PER_SECOND);
    assert_eq!(frame.pcm.len(), WINDOW_BYTES as usize);
    // Partial writes must not be mistaken for an entire corrupt recording.
    file.truncate(20);
    assert!(snapshot_pcm(&file, 0).unwrap().is_none());
}

#[test]
fn a_pause_counts_only_after_a_second_and_a_half() {
    let mut early = vec![0u8; 6000];
    early.extend([0xff, 0x20].repeat(25000));
    assert_eq!(segment_boundary(&early), None);
    // Of two pauses the later one ends the segment.
    let mut two = [0xff, 0x20].repeat(24000);
    two.extend(vec![0; 5120]);
    two.extend([0xff, 0x20].repeat(1000));
    two.extend(vec![0; 5120]);
    two.extend([0xff, 0x20].repeat(10));
    assert_eq!(segment_boundary(&two), Some(48000 + 5120 + 2000 + 5120));
    // 249 is quiet, 250 is not; the same below zero.
    let loud = [0xff, 0x20].repeat(24000);
    for (sample, ends) in [(249i16, true), (250, false), (-249, true), (-250, false)] {
        let mut pcm = loud.clone();
        for _ in 0..2560 {
            pcm.extend(sample.to_le_bytes());
        }
        assert_eq!(segment_boundary(&pcm).is_some(), ends, "{sample}");
    }
}

#[test]
fn a_written_wav_reads_back() {
    let pcm: Vec<u8> = (0..10u8).collect();
    let file = write_wav(&pcm);
    assert_eq!(file.len(), 54);
    assert_eq!(&file[..4], b"RIFF");
    assert_eq!(&file[4..8], &46u32.to_le_bytes());
    assert_eq!(&file[8..16], b"WAVEfmt ");
    assert_eq!(&file[16..20], &16u32.to_le_bytes());
    assert_eq!(&file[20..24], &[1, 0, 1, 0]);
    assert_eq!(&file[24..28], &16000u32.to_le_bytes());
    assert_eq!(&file[28..32], &32000u32.to_le_bytes());
    assert_eq!(&file[32..36], &[2, 0, 16, 0]);
    assert_eq!(&file[36..40], b"data");
    assert_eq!(&file[40..44], &10u32.to_le_bytes());
    let frame = snapshot_pcm(&file, 4).unwrap().unwrap();
    assert_eq!((frame.start, frame.end), (4, 10));
    assert_eq!(frame.pcm, [4, 5, 6, 7, 8, 9]);
    assert!(snapshot_pcm(&file, 10).unwrap().is_none());
    // Half a sample is left for later.
    let odd = write_wav(&pcm[..9]);
    assert_eq!(snapshot_pcm(&odd, 0).unwrap().unwrap().end, 8);
}

#[test]
fn other_captures_are_refused() {
    let good = write_wav(&[0; 100]);
    let mut not_riff = good.clone();
    not_riff[0] = b'X';
    assert!(matches!(snapshot_pcm(&not_riff, 0), Err(WavFault::NotRiff)));
    let mut stereo = good.clone();
    stereo[22] = 2;
    assert!(matches!(snapshot_pcm(&stereo, 0), Err(WavFault::WrongFormat)));
    let mut short = good.clone();
    short[16] = 15;
    assert!(matches!(snapshot_pcm(&short, 0), Err(WavFault::ShortFormat)));
    // A chunk that fills the header beyond its limit.
    let mut long = good[..12].to_vec();
    long.extend(b"LIST");
    long.extend(70000u32.to_le_bytes());
    long.extend(vec![0; 70000]);
    long.extend(&good[12..]);
    assert!(matches!(snapshot_pcm(&long, 0), Err(WavFault::HeaderTooLarge)));
    // A chunk that is not complete yet.
    let mut pending = good[..12].to_vec();
    pending.extend(b"LIST");
    pending.extend(100u32.to_le_bytes());
    pending.extend(vec![0; 40]);
    assert!(snapshot_pcm(&pending, 0).unwrap().is_none());
}

#[test]
fn other_chunks_are_skipped_with_their_padding() {
    let good = write_wav(&[7; 20]);
    let mut file = good[..12].to_vec();
    file.extend(b"LIST");
    file.extend(3u32.to_le_bytes());
    file.extend([0; 4]);
    file.extend(&good[12..]);
    let frame = snapshot_pcm(&file, 0).unwrap().unwrap();
    assert_eq!(frame.pcm, [7; 20]);
    let span = locate_pcm(&file[..], file.len() as u64, 6).unwrap().unwrap();
    assert_eq!((span.offset, span.start, span.end), (12 + 12 + 32 + 6, 6, 20));
}

#[test]
fn the_head_of_a_file_decides_where_its_audio_is() {
    let file = write_wav(&vec![3; 200000]);
    let head = &file[..HEAD_BYTES as usize];
    let from_head = locate_pcm(head, file.len() as u64, 64000).unwrap();
    let from_all = locate_pcm(&file, file.len() as u64, 64000).unwrap();
    assert_eq!(from_head, from_all);
    assert_eq!(from_all.unwrap().end, 200000);
}

#[test]
fn a_frame_is_cut_at_its_boundary() {
    let frame = Frame { pcm: vec![1, 2, 3, 4], start: 10, end: 14 };
    assert!(frame.is_whole());
    let cut = frame.cut_to(2);
    assert_eq!((cut.start, cut.end), (10, 12));
    assert_eq!(cut.pcm, [1, 2]);
    assert!(!Frame { pcm: vec![1], start: 2, end: 4 }.is_whole());
}

#[test]
fn only_zeros_are_silence() {
    assert!(is_silent(&[0; 100]));
    assert!(is_silent(&[]));
    assert!(!is_silent(&[0, 0, 1, 0]));
}
