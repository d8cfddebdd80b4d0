use blackhole::{
    apply_gain, decode_frame, encode_frame, outbound_for, scale_sample, ChunkAggregator,
    FrameAssembler, Outbound, PipelineError, PlaybackState, Received, SampleChannel,
    VoicePlayer, VoiceRecorder,
};
use std::sync::mpsc;

#[test]
fn channel_delivers_in_order_sent() {
    let mut ch = SampleChannel::new(8);
    let chunks: Vec<Vec<i16>> = vec![vec![1, 2], vec![], vec![3], vec![4, 5, 6]];
    for c in &chunks {
        assert_eq!(ch.send(c.clone()), Ok(()));
    }
    assert_eq!(ch.len(), 4);
    for c in &chunks {
        assert_eq!(ch.receive(), Ok(c.clone()));
    }
    assert_eq!(ch.receive(), Err(PipelineError::Timeout));
}

#[test]
fn full_channel_drops_oldest() {
    let mut ch = SampleChannel::new(2);
    ch.send(vec![1]).unwrap();
    ch.send(vec![2]).unwrap();
    ch.send(vec![3]).unwrap();
    assert_eq!(ch.len(), 2);
    assert_eq!(ch.receive(), Ok(vec![2]));
    assert_eq!(ch.receive(), Ok(vec![3]));
}

#[test]
fn closed_channel_refuses_sends_and_drains() {
    let mut ch = SampleChannel::new(4);
    ch.send(vec![7]).unwrap();
    ch.close();
    assert!(ch.is_closed());
    assert_eq!(ch.send(vec![8]), Err(PipelineError::ChannelClosed));
    assert_eq!(ch.receive(), Ok(vec![7]));
    assert_eq!(ch.receive(), Err(PipelineError::ChannelClosed));
}

#[test]
fn gain_five_saturates_high() {
    assert_eq!(scale_sample(10000, 500), 32767);
}

#[test]
fn gain_five_saturates_low() {
    assert_eq!(scale_sample(-10000, 500), -32768);
}

#[test]
fn gain_values_exact() {
    assert_eq!(scale_sample(1234, 100), 1234);
    assert_eq!(scale_sample(-3, 50), -1);
    assert_eq!(scale_sample(3, 50), 1);
    assert_eq!(scale_sample(32767, 0), 0);
    assert_eq!(scale_sample(-32768, 100), -32768);
    assert_eq!(scale_sample(200, 250), 500);
}

#[test]
fn apply_gain_scales_every_sample() {
    assert_eq!(apply_gain(&[10, -20, 30000], 200), vec![20, -40, 32767]);
    assert_eq!(apply_gain(&[], 200), Vec::<i16>::new());
}

#[test]
fn frame_bytes_are_little_endian() {
    assert_eq!(
        encode_frame(&[1, -1, -32768, 32767]),
        vec![1, 0, 255, 255, 0, 128, 255, 127]
    );
}

#[test]
fn frame_round_trip_keeps_extremes() {
    let samples: Vec<i16> = vec![-32768, -1, 0, 1, 12345, 32767];
    let bytes = encode_frame(&samples);
    assert_eq!(bytes.len(), 12);
    assert_eq!(decode_frame(&bytes, 6), Ok(samples));
}

#[test]
fn decode_rejects_wrong_length() {
    assert_eq!(decode_frame(&[1, 2, 3], 2), Err(PipelineError::SerializationError));
    assert_eq!(decode_frame(&[1, 2, 3, 4], 1), Err(PipelineError::SerializationError));
}

#[test]
fn assembler_joins_short_reads() {
    let mut reader = FrameAssembler::new(2);
    let bytes = encode_frame(&[5, -6, 7, -8, 9]);
    assert_eq!(reader.feed(&bytes[..3]), Vec::<Vec<i16>>::new());
    assert_eq!(reader.feed(&bytes[3..9]), vec![vec![5, -6], vec![7, -8]]);
    assert_eq!(reader.pending_bytes(), 1);
    assert_eq!(reader.finish(), Err(PipelineError::TransportError));
    assert_eq!(reader.feed(&[0, 0, 0]), vec![vec![9, 0]]);
    assert_eq!(reader.finish(), Ok(()));
}

#[test]
fn short_stream_then_close_is_transport_error() {
    let mut reader = FrameAssembler::new(400);
    let bytes = encode_frame(&vec![3i16; 399]);
    assert_eq!(reader.feed(&bytes), Vec::<Vec<i16>>::new());
    assert_eq!(reader.finish(), Err(PipelineError::TransportError));
}

#[test]
fn aggregator_emits_two_frames_of_four_hundred() {
    let mut agg = ChunkAggregator::new(400);
    let mut frames: Vec<Vec<i16>> = Vec::new();
    for k in 0..10i16 {
        let chunk: Vec<i16> = (0..100i16).map(|j| k * 100 + j).collect();
        frames.extend(agg.push(&chunk));
    }
    assert_eq!(frames.len(), 2);
    assert!(frames.iter().all(|f| f.len() == 400));
    let expected_first: Vec<i16> = (0..400i16).collect();
    assert_eq!(frames[0], expected_first);
    let expected_second: Vec<i16> = (400..800i16).collect();
    assert_eq!(frames[1], expected_second);
    assert_eq!(agg.pending_samples(), 200);
}

#[test]
fn aggregator_passes_end_marker_without_partial_frame() {
    let mut agg = ChunkAggregator::new(4);
    assert_eq!(agg.push(&[1, 2, 3]), Vec::<Vec<i16>>::new());
    assert_eq!(agg.push(&[]), vec![Vec::<i16>::new()]);
    assert_eq!(agg.pending_samples(), 0);
}

#[test]
fn aggregator_drains_several_frames_at_once() {
    let mut agg = ChunkAggregator::new(2);
    assert_eq!(agg.push(&[1, 2, 3, 4, 5, 6, 7]), vec![vec![1, 2], vec![3, 4], vec![5, 6]]);
    assert_eq!(agg.pending_samples(), 1);
    assert_eq!(agg.push(&[8]), Vec::<Vec<i16>>::new());
    assert_eq!(agg.pending_samples(), 2);
}

#[test]
fn writer_step_encodes_or_ends() {
    assert!(matches!(outbound_for(&[]), Outbound::EndOfStream));
    match outbound_for(&[256, -2]) {
        Outbound::Bytes(b) => assert_eq!(b, vec![0, 1, 254, 255]),
        Outbound::EndOfStream => panic!("a frame must be written"),
    }
}

#[test]
fn playback_plays_then_stops_on_end_marker() {
    let (tx, rx) = mpsc::channel();
    let mut player = VoicePlayer::new(rx, 44100);
    assert_eq!(player.state(), PlaybackState::AwaitingChunk);
    tx.send(vec![1, 2, 3]).unwrap();
    tx.send(vec![]).unwrap();
    assert_eq!(player.get_data(), (vec![1, 2, 3], true));
    assert_eq!(player.state(), PlaybackState::PlayingChunk);
    assert_eq!(player.get_data(), (vec![0], false));
    assert_eq!(player.state(), PlaybackState::Finished);
}

#[test]
fn playback_stays_finished() {
    let (tx, rx) = mpsc::channel();
    let mut player = VoicePlayer::new(rx, 44100);
    tx.send(vec![]).unwrap();
    assert_eq!(player.get_data(), (vec![0], false));
    tx.send(vec![4, 5]).unwrap();
    assert_eq!(player.get_data(), (vec![0], false));
    assert_eq!(player.get_data(), (vec![0], false));
    assert_eq!(player.state(), PlaybackState::Finished);
    assert_eq!(player.on_received(Received::Chunk(vec![9])), (vec![0], false));
}

#[test]
fn playback_stops_when_sender_is_gone() {
    let (tx, rx) = mpsc::channel::<Vec<i16>>();
    let mut player = VoicePlayer::new(rx, 8000);
    drop(tx);
    assert_eq!(player.get_data(), (vec![0], false));
    assert_eq!(player.sample_rate(), 8000);
    assert_eq!(player.channel_count(), 1);
}

#[test]
fn playback_timeout_after_a_chunk_finishes() {
    let (_tx, rx) = mpsc::channel::<Vec<i16>>();
    let mut player = VoicePlayer::new(rx, 44100);
    assert_eq!(player.on_received(Received::Chunk(vec![7, 7])), (vec![7, 7], true));
    assert_eq!(player.state(), PlaybackState::PlayingChunk);
    assert_eq!(player.on_received(Received::Timeout), (vec![0], false));
    assert_eq!(player.state(), PlaybackState::Finished);
}

#[test]
fn playback_closed_is_like_timeout() {
    let (_tx, rx) = mpsc::channel::<Vec<i16>>();
    let mut player = VoicePlayer::new(rx, 44100);
    assert_eq!(player.on_received(Received::Closed), (vec![0], false));
    assert_eq!(player.state(), PlaybackState::Finished);
}

#[test]
fn end_marker_in_channel_stops_next_pull() {
    let (_tx, rx) = mpsc::channel::<Vec<i16>>();
    let mut player = VoicePlayer::new(rx, 44100);
    let mut ch = SampleChannel::new(4);
    ch.send(vec![10, 20]).unwrap();
    assert_eq!(player.pull_from(&mut ch), (vec![10, 20], true));
    ch.send(vec![]).unwrap();
    assert_eq!(player.pull_from(&mut ch), (vec![0], false));
    ch.send(vec![30]).unwrap();
    assert_eq!(player.pull_from(&mut ch), (vec![0], false));
    assert_eq!(ch.len(), 1);
}

#[test]
fn empty_open_channel_ends_playback() {
    let (_tx, rx) = mpsc::channel::<Vec<i16>>();
    let mut player = VoicePlayer::new(rx, 44100);
    let mut ch = SampleChannel::new(1);
    assert_eq!(player.pull_from(&mut ch), (vec![0], false));
}

#[test]
fn recorder_sends_scaled_samples() {
    let (tx, rx) = mpsc::channel();
    let mut rec = VoiceRecorder::new(tx, 500);
    assert_eq!(rec.microphone_volume(), 500);
    assert!(rec.on_process_samples(&[10000, -100, 0]));
    assert_eq!(rx.try_recv(), Ok(vec![32767, -500, 0]));
}

#[test]
fn recorder_keeps_capturing_without_receiver() {
    let (tx, rx) = mpsc::channel();
    drop(rx);
    let mut rec = VoiceRecorder::new(tx, 100);
    assert!(rec.on_process_samples(&[1, 2]));
}

#[test]
fn recorder_fills_channel() {
    let (tx, _rx) = mpsc::channel();
    let rec = VoiceRecorder::new(tx, 50);
    let mut ch = SampleChannel::new(2);
    assert!(rec.process_into(&[101, -101], &mut ch));
    assert_eq!(ch.receive(), Ok(vec![50, -50]));
}
