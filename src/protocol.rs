//! The decisions of the three units that exchange frames: the producer, the
//! audio consumer and the display consumer. Each is a state machine from an
//! event to its next state and an action; the caller performs the action
//! (sending, blocking, playing, drawing) and reports what came back.
use vstd::prelude::*;

verus! {

/// The kinds of message that travel between the units.
#[derive(Clone, Copy, Debug, PartialEq, Eq, Structural)]
pub enum Signal {
    NeedFrame,
    FrameSended,
    VideoFrameSended,
}

/// Where a consumer stands with respect to its frame.
#[derive(Clone, Copy, Debug, PartialEq, Eq, Structural)]
pub enum ConsumerState {
    NeedFrame,
    WaitingForFrame,
    HasFrame,
}

/// What the audio unit is told.
#[derive(Clone, Copy, Debug, PartialEq, Eq, Structural)]
pub enum AudioEvent {
    /// The device wants the next sample.
    SampleDue,
    /// A frame of this many samples arrived.
    FrameSended(usize),
}

/// What the audio unit asks its caller to do.
#[derive(Clone, Copy, Debug, PartialEq, Eq, Structural)]
pub enum AudioAction {
    /// Send `NeedFrame` to the producer.
    RequestFrame,
    /// Block until the producer's answer arrives.
    Wait,
    /// Output this sample of the current frame.
    Play(usize),
    /// Adopt the frame that arrived and hand its video to the display.
    ForwardVideo,
    /// Drop the message.
    Ignore,
}

/// The audio consumer: a current frame and a cursor into it.
#[derive(Clone, Copy, Debug)]
pub struct AudioConsumer {
    pub state: ConsumerState,
    pub sample_index: usize,
    pub frame_length: usize,
}

pub open spec fn audio_wf(a: AudioConsumer) -> bool {
    a.state == ConsumerState::HasFrame ==> a.sample_index < a.frame_length
}

/// The audio unit's decision on one event.
pub open spec fn audio_next(a: AudioConsumer, e: AudioEvent) -> (AudioConsumer, AudioAction) {
    match e {
        AudioEvent::SampleDue => match a.state {
            ConsumerState::NeedFrame => (
                AudioConsumer { state: ConsumerState::WaitingForFrame, ..a },
                AudioAction::RequestFrame,
            ),
            ConsumerState::WaitingForFrame => (a, AudioAction::Wait),
            ConsumerState::HasFrame => if a.sample_index + 1 >= a.frame_length {
                (
                    AudioConsumer { state: ConsumerState::NeedFrame, sample_index: 0, ..a },
                    AudioAction::Play(a.sample_index),
                )
            } else {
                (
                    AudioConsumer { sample_index: (a.sample_index + 1) as usize, ..a },
                    AudioAction::Play(a.sample_index),
                )
            },
        },
        AudioEvent::FrameSended(length) => if a.state == ConsumerState::WaitingForFrame && length > 0 {
            (
                AudioConsumer { state: ConsumerState::HasFrame, sample_index: 0, frame_length: length },
                AudioAction::ForwardVideo,
            )
        } else {
            (a, AudioAction::Ignore)
        },
    }
}

/// The audio unit after the first `k` of `events`.
pub open spec fn audio_after(a: AudioConsumer, events: Seq<AudioEvent>, k: nat) -> AudioConsumer
    decreases k,
{
    if k == 0 {
        a
    } else {
        audio_next(audio_after(a, events, (k - 1) as nat), events[k - 1]).0
    }
}

/// The action the audio unit takes on event `k` of `events`.
pub open spec fn audio_action(a: AudioConsumer, events: Seq<AudioEvent>, k: nat) -> AudioAction {
    audio_next(audio_after(a, events, k), events[k as int]).1
}

impl AudioConsumer {
    /// A consumer that has no frame yet.
    pub fn new() -> (r: AudioConsumer)
        ensures
            r == (AudioConsumer { state: ConsumerState::NeedFrame, sample_index: 0, frame_length: 0 }),
    {
        AudioConsumer { state: ConsumerState::NeedFrame, sample_index: 0, frame_length: 0 }
    }

    /// Decides what to do on `event`.
    pub fn handle(&mut self, event: AudioEvent) -> (r: AudioAction)
        requires
            audio_wf(*old(self)),
        ensures
            (*final(self), r) == audio_next(*old(self), event),
            audio_wf(*final(self)),
    {
        match event {
            AudioEvent::SampleDue => match self.state {
                ConsumerState::NeedFrame => {
                    self.state = ConsumerState::WaitingForFrame;
                    AudioAction::RequestFrame
                },
                ConsumerState::WaitingForFrame => AudioAction::Wait,
                ConsumerState::HasFrame => {
                    let index = self.sample_index;
                    if index + 1 >= self.frame_length {
                        self.state = ConsumerState::NeedFrame;
                        self.sample_index = 0;
                    } else {
                        self.sample_index = index + 1;
                    }
                    AudioAction::Play(index)
                },
            },
            AudioEvent::FrameSended(length) => {
                if self.state == ConsumerState::WaitingForFrame && length > 0 {
                    self.state = ConsumerState::HasFrame;
                    self.sample_index = 0;
                    self.frame_length = length;
                    AudioAction::ForwardVideo
                } else {
                    AudioAction::Ignore
                }
            },
        }
    }
}

/// A request leaves the unit waiting, and only an adopted frame ends the wait.
proof fn lemma_wait_ends_with_frame(a: AudioConsumer, events: Seq<AudioEvent>, i: nat, j: nat)
    requires
        i < j <= events.len(),
        audio_after(a, events, i).state == ConsumerState::WaitingForFrame,
        audio_after(a, events, j).state != ConsumerState::WaitingForFrame,
    ensures
        exists|k: nat| i <= k < j && #[trigger] audio_action(a, events, k) == AudioAction::ForwardVideo,
    decreases j - i,
{
    let k = (j - 1) as nat;
    if audio_after(a, events, k).state == ConsumerState::WaitingForFrame {
        assert(audio_action(a, events, k) == AudioAction::ForwardVideo);
    } else {
        lemma_wait_ends_with_frame(a, events, i, k);
    }
}

/// Whatever the events, the audio unit never asks for a frame twice without
/// a frame arriving in between: between two `RequestFrame` actions there is
/// a `FrameSended` event that it adopts.
pub proof fn lemma_no_double_request(a: AudioConsumer, events: Seq<AudioEvent>, i: nat, j: nat)
    requires
        i < j < events.len(),
        audio_action(a, events, i) == AudioAction::RequestFrame,
        audio_action(a, events, j) == AudioAction::RequestFrame,
    ensures
        exists|k: nat|
            i < k < j && (#[trigger] audio_action(a, events, k) == AudioAction::ForwardVideo) && events[k as int]
                is FrameSended,
{
    assert(audio_after(a, events, i + 1).state == ConsumerState::WaitingForFrame);
    assert(audio_after(a, events, j).state == ConsumerState::NeedFrame);
    lemma_wait_ends_with_frame(a, events, i + 1, j);
    let k = choose|k: nat| i + 1 <= k < j && #[trigger] audio_action(a, events, k) == AudioAction::ForwardVideo;
    assert(events[k as int] is FrameSended);
}

/// What the producer does next.
#[derive(Clone, Copy, Debug, PartialEq, Eq, Structural)]
pub enum ProducerAction {
    /// Send the frame that is ready.
    SendFrame,
    /// Build the next frame.
    ProduceFrame,
    /// Block until a message arrives.
    WaitForRequest,
}

/// Where the producer is in its loop: send, build the next, wait for a
/// request.
#[derive(Clone, Copy, Debug, PartialEq, Eq, Structural)]
pub enum ProducerPhase {
    Sending,
    Producing,
    AwaitingRequest,
}

/// The producer, which keeps one frame ready ahead of the one in flight.
#[derive(Clone, Copy, Debug)]
pub struct Producer {
    pub phase: ProducerPhase,
}

pub open spec fn producer_step(p: Producer) -> (Producer, ProducerAction) {
    match p.phase {
        ProducerPhase::Sending => (Producer { phase: ProducerPhase::Producing }, ProducerAction::SendFrame),
        ProducerPhase::Producing => (Producer { phase: ProducerPhase::AwaitingRequest }, ProducerAction::ProduceFrame),
        ProducerPhase::AwaitingRequest => (p, ProducerAction::WaitForRequest),
    }
}

pub open spec fn producer_receive(p: Producer, s: Signal) -> Producer {
    if p.phase == ProducerPhase::AwaitingRequest && s == Signal::NeedFrame {
        Producer { phase: ProducerPhase::Sending }
    } else {
        p
    }
}

impl Producer {
    /// A producer whose first frame is built and about to be sent.
    pub fn new() -> (r: Producer)
        ensures
            r.phase == ProducerPhase::Sending,
    {
        Producer { phase: ProducerPhase::Sending }
    }

    /// The next thing to do, and the phase after it.
    pub fn next_action(&mut self) -> (r: ProducerAction)
        ensures
            (*final(self), r) == producer_step(*old(self)),
    {
        match self.phase {
            ProducerPhase::Sending => {
                self.phase = ProducerPhase::Producing;
                ProducerAction::SendFrame
            },
            ProducerPhase::Producing => {
                self.phase = ProducerPhase::AwaitingRequest;
                ProducerAction::ProduceFrame
            },
            ProducerPhase::AwaitingRequest => ProducerAction::WaitForRequest,
        }
    }

    /// Takes a message: a request ends the wait, anything else is dropped.
    pub fn receive(&mut self, signal: Signal)
        ensures
            *final(self) == producer_receive(*old(self), signal),
    {
        if self.phase == ProducerPhase::AwaitingRequest && signal == Signal::NeedFrame {
            self.phase = ProducerPhase::Sending;
        }
    }
}

/// The producer after the first `k` of `steps`, where `None` is a call of
/// `next_action` and `Some(s)` the receipt of `s`.
pub open spec fn producer_after(p: Producer, steps: Seq<Option<Signal>>, k: nat) -> Producer
    decreases k,
{
    if k == 0 {
        p
    } else {
        let q = producer_after(p, steps, (k - 1) as nat);
        match steps[k - 1] {
            None => producer_step(q).0,
            Some(s) => producer_receive(q, s),
        }
    }
}

/// How many frames the producer sends during the first `k` steps.
pub open spec fn frames_sent(p: Producer, steps: Seq<Option<Signal>>, k: nat) -> nat
    decreases k,
{
    if k == 0 {
        0
    } else {
        let q = producer_after(p, steps, (k - 1) as nat);
        frames_sent(p, steps, (k - 1) as nat) + if steps[k - 1] is None && producer_step(q).1
            == ProducerAction::SendFrame {
            1nat
        } else {
            0nat
        }
    }
}

/// How many requests arrive during the first `k` steps.
pub open spec fn requests_received(steps: Seq<Option<Signal>>, k: nat) -> nat
    decreases k,
{
    if k == 0 {
        0
    } else {
        requests_received(steps, (k - 1) as nat) + if steps[k - 1] == Some(Signal::NeedFrame) {
            1nat
        } else {
            0nat
        }
    }
}

/// A producer that starts about to send its first frame never has more
/// than one frame in flight: whatever the order of calls and messages, it
/// has sent at most one frame more than it was asked for.
pub proof fn lemma_one_frame_ahead(p: Producer, steps: Seq<Option<Signal>>, k: nat)
    requires
        p.phase == ProducerPhase::Sending,
        k <= steps.len(),
    ensures
        frames_sent(p, steps, k) <= requests_received(steps, k) + 1,
        producer_after(p, steps, k).phase == ProducerPhase::Sending ==> frames_sent(p, steps, k)
            <= requests_received(steps, k),
    decreases k,
{
    if k > 0 {
        lemma_one_frame_ahead(p, steps, (k - 1) as nat);
    }
}

/// What the display draws on an update.
#[derive(Clone, Copy, Debug, PartialEq, Eq, Structural)]
pub enum DisplayAction {
    /// Draw this snapshot of the held video frame.
    Show(usize),
    /// Keep what is on screen.
    Hold,
}

/// The display consumer: at most one video frame and a cursor into it.
#[derive(Clone, Copy, Debug)]
pub struct Display {
    pub need_frame: bool,
    pub sample_index: usize,
    pub frame_length: usize,
}

pub open spec fn display_wf(d: Display) -> bool {
    !d.need_frame ==> d.sample_index < d.frame_length
}

/// Shows snapshot `sample_index` and moves on; past the last one the display
/// needs a new frame.
pub open spec fn display_draw(d: Display) -> (Display, DisplayAction) {
    if d.sample_index + 1 >= d.frame_length {
        (Display { need_frame: true, sample_index: 0, ..d }, DisplayAction::Show(d.sample_index))
    } else {
        (Display { sample_index: (d.sample_index + 1) as usize, ..d }, DisplayAction::Show(d.sample_index))
    }
}

/// The display's decision on an update tick. `due` tells whether a
/// snapshot's time has passed; `offered` is the length of a video frame that
/// was waiting, looked for only while the display needs one.
pub open spec fn display_next(d: Display, due: bool, offered: Option<usize>) -> (Display, DisplayAction) {
    if d.need_frame {
        match offered {
            Some(length) => if length > 0 {
                display_draw(Display { need_frame: false, sample_index: 0, frame_length: length })
            } else {
                (d, DisplayAction::Hold)
            },
            None => (d, DisplayAction::Hold),
        }
    } else if due {
        display_draw(d)
    } else {
        (d, DisplayAction::Hold)
    }
}

impl Display {
    /// A display that holds no frame yet.
    pub fn new() -> (r: Display)
        ensures
            r == (Display { need_frame: true, sample_index: 0, frame_length: 0 }),
    {
        Display { need_frame: true, sample_index: 0, frame_length: 0 }
    }

    fn draw(&mut self) -> (r: DisplayAction)
        requires
            display_wf(*old(self)),
            !old(self).need_frame,
        ensures
            (*final(self), r) == display_draw(*old(self)),
            display_wf(*final(self)),
    {
        let index = self.sample_index;
        if index + 1 >= self.frame_length {
            self.need_frame = true;
            self.sample_index = 0;
        } else {
            self.sample_index = index + 1;
        }
        DisplayAction::Show(index)
    }

    /// Decides what to draw on an update tick.
    pub fn update(&mut self, due: bool, offered: Option<usize>) -> (r: DisplayAction)
        requires
            display_wf(*old(self)),
        ensures
            (*final(self), r) == display_next(*old(self), due, offered),
            display_wf(*final(self)),
    {
        if self.need_frame {
            match offered {
                Some(length) => {
                    if length > 0 {
                        self.need_frame = false;
                        self.sample_index = 0;
                        self.frame_length = length;
                        self.draw()
                    } else {
                        DisplayAction::Hold
                    }
                },
                None => DisplayAction::Hold,
            }
        } else if due {
            self.draw()
        } else {
            DisplayAction::Hold
        }
    }
}

} // verus!
