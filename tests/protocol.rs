use uninutsh::protocol::{
    AudioAction, AudioConsumer, AudioEvent, ConsumerState, Display, DisplayAction, Producer,
    ProducerAction, ProducerPhase, Signal,
};

#[test]
fn audio_requests_then_waits_then_plays() {
    let mut a = AudioConsumer::new();
    assert_eq!(a.handle(AudioEvent::SampleDue), AudioAction::RequestFrame);
    assert_eq!(a.state, ConsumerState::WaitingForFrame);
    assert_eq!(a.handle(AudioEvent::SampleDue), AudioAction::Wait);
    assert_eq!(a.handle(AudioEvent::FrameSended(3)), AudioAction::ForwardVideo);
    assert_eq!(a.handle(AudioEvent::SampleDue), AudioAction::Play(0));
    assert_eq!(a.handle(AudioEvent::SampleDue), AudioAction::Play(1));
    assert_eq!(a.handle(AudioEvent::SampleDue), AudioAction::Play(2));
    assert_eq!(a.state, ConsumerState::NeedFrame);
    assert_eq!(a.handle(AudioEvent::SampleDue), AudioAction::RequestFrame);
}

#[test]
fn audio_ignores_frames_it_did_not_ask_for() {
    let mut a = AudioConsumer::new();
    assert_eq!(a.handle(AudioEvent::FrameSended(4)), AudioAction::Ignore);
    assert_eq!(a.state, ConsumerState::NeedFrame);
    a.handle(AudioEvent::SampleDue);
    assert_eq!(a.handle(AudioEvent::FrameSended(0)), AudioAction::Ignore);
    assert_eq!(a.handle(AudioEvent::FrameSended(2)), AudioAction::ForwardVideo);
    assert_eq!(a.handle(AudioEvent::FrameSended(5)), AudioAction::Ignore);
    assert_eq!(a.frame_length, 2);
}

#[test]
fn producer_sends_builds_and_waits() {
    let mut p = Producer::new();
    assert_eq!(p.next_action(), ProducerAction::SendFrame);
    assert_eq!(p.next_action(), ProducerAction::ProduceFrame);
    assert_eq!(p.next_action(), ProducerAction::WaitForRequest);
    p.receive(Signal::FrameSended);
    assert_eq!(p.phase, ProducerPhase::AwaitingRequest);
    p.receive(Signal::NeedFrame);
    assert_eq!(p.next_action(), ProducerAction::SendFrame);
}

#[test]
fn display_adopts_steps_and_holds() {
    let mut d = Display::new();
    assert_eq!(d.update(true, None), DisplayAction::Hold);
    assert_eq!(d.update(false, Some(2)), DisplayAction::Show(0));
    assert_eq!(d.update(false, None), DisplayAction::Hold);
    assert_eq!(d.update(true, None), DisplayAction::Show(1));
    assert!(d.need_frame);
    assert_eq!(d.update(true, None), DisplayAction::Hold);
    assert_eq!(d.update(true, Some(3)), DisplayAction::Show(0));
    assert_eq!(d.sample_index, 1);
}

/// A lockstep run of the producer and the audio unit, with frames of four
/// samples: the audio unit never asks twice without a frame in between.
#[test]
fn synchronous_run_never_requests_twice_in_a_row() {
    let frame_length = 4usize;
    let mut producer = Producer::new();
    let mut audio = AudioConsumer::new();
    let mut channel_to_audio: Vec<usize> = Vec::new();
    let mut channel_to_producer: Vec<Signal> = Vec::new();
    let mut trace: Vec<&str> = Vec::new();
    let mut played = 0;
    while played < 40 {
        match producer.next_action() {
            ProducerAction::SendFrame => channel_to_audio.push(frame_length),
            ProducerAction::ProduceFrame => {}
            ProducerAction::WaitForRequest => {
                if !channel_to_producer.is_empty() {
                    producer.receive(channel_to_producer.remove(0));
                }
            }
        }
        match audio.handle(AudioEvent::SampleDue) {
            AudioAction::RequestFrame => {
                trace.push("need");
                channel_to_producer.push(Signal::NeedFrame);
            }
            AudioAction::Wait => {
                if !channel_to_audio.is_empty() {
                    let length = channel_to_audio.remove(0);
                    if audio.handle(AudioEvent::FrameSended(length)) == AudioAction::ForwardVideo {
                        trace.push("frame");
                    }
                }
            }
            AudioAction::Play(_) => played += 1,
            _ => {}
        }
    }
    for pair in trace.windows(2) {
        assert!(!(pair[0] == "need" && pair[1] == "need"));
    }
    assert!(trace.iter().filter(|t| **t == "frame").count() >= 10);
}

#[test]
fn producer_never_runs_two_frames_ahead() {
    let mut p = Producer::new();
    let mut sent = 0;
    let mut requests = 0;
    let script = [None, None, None, Some(Signal::FrameSended), None, Some(Signal::NeedFrame), None, None, None, None];
    for step in script {
        match step {
            None => {
                if p.next_action() == ProducerAction::SendFrame {
                    sent += 1;
                }
            }
            Some(signal) => {
                if signal == Signal::NeedFrame {
                    requests += 1;
                }
                p.receive(signal);
            }
        }
        assert!(sent <= requests + 1);
    }
    assert_eq!(sent, 2);
}
