//! A per-player ring buffer of confirmed inputs, with prediction of inputs
//! that have not arrived yet and detection of the first mispredicted frame.
use vstd::prelude::*;
use crate::game_input::{Frame, FrameNum, GameInput, erased_bits, GAMEINPUT_MAX_BYTES};

verus! {

/// Number of slots in the ring buffer.
pub const INPUT_QUEUE_LENGTH: usize = 128;

/// Input size of a queue made by `InputQueue::new`.
pub const DEFAULT_INPUT_SIZE: usize = 4;

/// The slot before `h` in the ring buffer.
pub open spec fn previous_index(h: int) -> int {
    if h == 0 {
        127
    } else {
        h - 1
    }
}

/// `a < b` on frames, where no frame comes before every frame.
pub open spec fn frame_lt(a: Frame, b: Frame) -> bool {
    match (a, b) {
        (None, Some(_)) => true,
        (Some(x), Some(y)) => x < y,
        _ => false,
    }
}

/// The state of an input queue.
pub ghost struct InputQueueView {
    pub id: nat,
    pub head: int,
    pub tail: int,
    pub length: int,
    pub first_frame: bool,
    pub last_user_added_frame: Frame,
    pub last_added_frame: Frame,
    pub first_incorrect_frame: Frame,
    pub last_frame_requested: Frame,
    pub frame_delay: nat,
    pub inputs: Seq<GameInput>,
    pub prediction: GameInput,
}

/// The input queue of one player.
#[derive(Copy, Clone)]
pub struct InputQueue {
    id: usize,
    head: usize,
    tail: usize,
    length: usize,
    first_frame: bool,
    last_user_added_frame: Frame,
    last_added_frame: Frame,
    first_incorrect_frame: Frame,
    last_frame_requested: Frame,
    frame_delay: usize,
    inputs: [GameInput; 128],
    prediction: GameInput,
}

impl View for InputQueue {
    type V = InputQueueView;

    closed spec fn view(&self) -> InputQueueView {
        InputQueueView {
            id: self.id as nat,
            head: self.head as int,
            tail: self.tail as int,
            length: self.length as int,
            first_frame: self.first_frame,
            last_user_added_frame: self.last_user_added_frame,
            last_added_frame: self.last_added_frame,
            first_incorrect_frame: self.first_incorrect_frame,
            last_frame_requested: self.last_frame_requested,
            frame_delay: self.frame_delay as nat,
            inputs: self.inputs@,
            prediction: self.prediction,
        }
    }
}

impl InputQueueView {
    /// The input in the slot before the head: the one added last.
    pub open spec fn previous_input(self) -> GameInput {
        self.inputs[previous_index(self.head)]
    }

    /// The frame of the input in the tail slot.
    pub open spec fn tail_frame(self) -> Frame {
        self.inputs[self.tail].frame
    }

    /// The slot in which a confirmed input for frame `f` is kept.
    pub open spec fn slot_of(self, f: int) -> int {
        f % 128
    }

    /// What holds of every queue between calls.
    pub open spec fn wf(self) -> bool {
        &&& self.inputs.len() == 128
        &&& 0 <= self.head < 128
        &&& 0 <= self.tail < 128
        &&& 0 <= self.length <= 128
        &&& self.previous_input().frame == self.last_added_frame
        &&& self.first_frame ==> self.last_added_frame is None
        &&& self.head == match self.last_added_frame {
            Some(la) => (la + 1) % 128,
            None => 0,
        }
        &&& (self.prediction.frame matches Some(pf) ==> pf >= 1 && self.last_added_frame == Some(
            (pf - 1) as usize,
        ))
    }

    /// Whether `g` is an erased input with no frame and `size` bytes per player.
    pub open spec fn is_blank(g: GameInput, size: nat) -> bool {
        g.frame is None && g.size == size && g.bits_view() == erased_bits()
    }

    /// Whether this is a queue in its initial state for `id`, whose inputs
    /// have `input_size` bytes per player.
    pub open spec fn is_initial(self, id: nat, input_size: nat) -> bool {
        &&& self.id == id
        &&& self.head == 0
        &&& self.tail == 0
        &&& self.length == 0
        &&& self.first_frame
        &&& self.last_user_added_frame is None
        &&& self.last_added_frame is None
        &&& self.first_incorrect_frame is None
        &&& self.last_frame_requested is None
        &&& self.frame_delay == 0
        &&& self.inputs.len() == 128
        &&& forall|i: int| 0 <= i < 128 ==> Self::is_blank(#[trigger] self.inputs[i], input_size)
        &&& Self::is_blank(self.prediction, input_size)
    }
}

impl Default for InputQueue {
    /// A queue for player 0 with inputs of `DEFAULT_INPUT_SIZE` bytes.
    fn default() -> (q: InputQueue)
        ensures
            q@.wf(),
            q@.is_initial(0, DEFAULT_INPUT_SIZE as nat),
    {
        InputQueue::init(0, DEFAULT_INPUT_SIZE)
    }
}

impl InputQueue {
    /// A queue for player 0 with inputs of `DEFAULT_INPUT_SIZE` bytes.
    pub fn new() -> (q: InputQueue)
        ensures
            q@.wf(),
            q@.is_initial(0, DEFAULT_INPUT_SIZE as nat),
    {
        InputQueue::init(0, DEFAULT_INPUT_SIZE)
    }

    /// A queue for player `id` with inputs of `input_size` bytes per player.
    pub fn init(id: usize, input_size: usize) -> (q: InputQueue)
        requires
            input_size <= GAMEINPUT_MAX_BYTES,
        ensures
            q@.wf(),
            q@.is_initial(id as nat, input_size as nat),
    {
        let erased: [u8; 18] = [48u8; 18];
        let slot = GameInput::init(None, Some(&erased), input_size);
        let prediction = GameInput::init(None, None, input_size);
        let q = InputQueue {
            id,
            head: 0,
            tail: 0,
            length: 0,
            first_frame: true,
            last_user_added_frame: None,
            last_added_frame: None,
            first_incorrect_frame: None,
            last_frame_requested: None,
            frame_delay: 0,
            prediction,
            inputs: [slot; 128],
        };
        proof {
            assert(erased@ =~= erased_bits());
            assert(forall|i: int| 0 <= i < 128 ==> #[trigger] q.inputs@[i] == slot);
        }
        q
    }

    /// Copies the confirmed input for `requested_frame` into `input` and
    /// returns true when its slot holds that frame; returns false, leaving
    /// `input` as it was, otherwise.
    pub fn get_confirmed_input(&self, requested_frame: Frame, input: &mut GameInput) -> (found:
        bool)
        requires
            self@.wf(),
            self@.first_incorrect_frame is Some ==> frame_lt(
                requested_frame,
                self@.first_incorrect_frame,
            ),
        ensures
            found == (requested_frame matches Some(f) && self@.inputs[self@.slot_of(
                f as int,
            )].frame == requested_frame),
            found ==> *final(input) == self@.inputs[self@.slot_of(requested_frame->0 as int)],
            !found ==> *final(input) == *old(input),
    {
        if let Some(requested_frame_value) = requested_frame {
            let offset = requested_frame_value % INPUT_QUEUE_LENGTH;
            let same = match (self.inputs[offset].frame, requested_frame) {
                (Some(a), Some(b)) => a == b,
                (None, None) => true,
                _ => false,
            };
            if !same {
                return false;
            }
            *input = self.inputs[offset];
            return true;
        }
        false
    }

    /// The frame of the input added last.
    pub fn get_last_confirmed_frame(&self) -> (f: Frame)
        ensures
            f == self@.last_added_frame,
    {
        self.last_added_frame
    }

    /// Sets the frame delay.
    pub fn set_frame_delay(&mut self, delay: usize)
        ensures
            final(self)@ == (InputQueueView { frame_delay: delay as nat, ..old(self)@ }),
    {
        self.frame_delay = delay;
    }

    /// The first frame whose input did not match its prediction, if any.
    pub fn get_first_incorrect_frame(&self) -> (f: Frame)
        ensures
            f == self@.first_incorrect_frame,
    {
        self.first_incorrect_frame
    }

    /// Drops confirmed inputs up to `in_frame` (but not past the last
    /// requested frame) from the tail of the queue. When that point is at or
    /// past the last added frame the tail jumps to the head; otherwise the
    /// tail advances past the discarded frames and the length shrinks by as
    /// many.
    pub fn discard_confirmed_frames(&mut self, in_frame: FrameNum)
        requires
            old(self)@.wf(),
            Self::discard_ok(old(self)@, in_frame as int),
        ensures
            final(self)@.wf(),
            final(self)@ == Self::after_discard(old(self)@, in_frame as int),
    {
        let mut frame = in_frame;
        if let Some(last_frame_requested) = self.last_frame_requested {
            if last_frame_requested < frame {
                frame = last_frame_requested;
            }
        }
        if let Some(last_added_frame) = self.last_added_frame {
            if frame >= last_added_frame {
                self.tail = self.head;
            } else {
                if let Some(tail_frame) = self.inputs[self.tail].frame {
                    let offset: usize = frame - tail_frame + 1;
                    self.tail = (self.tail + offset) % INPUT_QUEUE_LENGTH;
                    self.length = self.length - offset;
                }
            }
        }
    }

    /// The frame up to which `discard_confirmed_frames(in_frame)` discards.
    pub open spec fn discard_point(q: InputQueueView, in_frame: int) -> int {
        match q.last_frame_requested {
            Some(r) => if (r as int) < in_frame {
                r as int
            } else {
                in_frame
            },
            None => in_frame,
        }
    }

    /// Whether the tail advances (rather than jumping to the head or staying).
    pub open spec fn discard_advances(q: InputQueueView, in_frame: int) -> bool {
        &&& q.last_added_frame matches Some(la)
        &&& Self::discard_point(q, in_frame) < la
        &&& q.tail_frame() is Some
    }

    /// The inputs on which discarding neither underflows nor overruns.
    pub open spec fn discard_ok(q: InputQueueView, in_frame: int) -> bool {
        Self::discard_advances(q, in_frame) ==> {
            let d = Self::discard_point(q, in_frame) - q.tail_frame()->0 + 1;
            &&& Self::discard_point(q, in_frame) >= q.tail_frame()->0
            &&& d <= q.length
        }
    }

    /// The queue after `discard_confirmed_frames(in_frame)`.
    pub open spec fn after_discard(q: InputQueueView, in_frame: int) -> InputQueueView {
        let frame = Self::discard_point(q, in_frame);
        match q.last_added_frame {
            Some(la) => if frame >= la {
                InputQueueView { tail: q.head, ..q }
            } else {
                match q.tail_frame() {
                    Some(tf) => {
                        let d = frame - tf + 1;
                        InputQueueView { tail: (q.tail + d) % 128, length: q.length - d, ..q }
                    },
                    None => q,
                }
            },
            None => q,
        }
    }

    /// Leaves prediction mode: forgets the prediction, the first incorrect
    /// frame and the last requested frame.
    pub fn reset_prediction(&mut self, frame: FrameNum)
        requires
            old(self)@.wf(),
            old(self)@.first_incorrect_frame matches Some(f) ==> frame <= f,
        ensures
            final(self)@.wf(),
            final(self)@ == (InputQueueView {
                prediction: GameInput { frame: None, ..old(self)@.prediction },
                first_incorrect_frame: None,
                last_frame_requested: None,
                ..old(self)@
            }),
    {
        self.prediction.frame = None;
        self.first_incorrect_frame = None;
        self.last_frame_requested = None;
    }

    /// Whether `get_input(requested_frame)` finds a confirmed input in the
    /// queue: the queue is not predicting and the frame lies within the
    /// queued window.
    pub open spec fn get_input_hit(q: InputQueueView, rf: int, input: GameInput) -> bool {
        &&& q.prediction.frame is None
        &&& q.tail_frame() matches Some(tf)
        &&& rf - tf < q.length
        &&& (q.inputs[(rf - tf + q.tail) % 128].frame is Some || input.frame is Some)
    }

    /// The slot `get_input(requested_frame)` looks in.
    pub open spec fn get_input_slot(q: InputQueueView, rf: int) -> int {
        (rf - q.tail_frame()->0 + q.tail) % 128
    }

    /// The prediction after `get_input` on a frame it does not find: the
    /// current one while predicting, else the input added last, for the frame
    /// after it.
    pub open spec fn next_prediction(q: InputQueueView) -> GameInput {
        if q.prediction.frame is Some {
            q.prediction
        } else {
            GameInput { frame: Some((q.last_added_frame->0 + 1) as usize), ..q.previous_input() }
        }
    }

    /// The inputs on which `get_input` runs to its end: no misprediction is
    /// pending, the frame is not before the tail, a slot found holds the
    /// requested frame, and a prediction can be made when none is found.
    pub open spec fn get_input_ok(q: InputQueueView, rf: int, input: GameInput) -> bool {
        &&& q.first_incorrect_frame is None
        &&& (q.tail_frame() matches Some(tf) ==> rf >= tf)
        &&& (q.prediction.frame is None && q.tail_frame() is Some && rf - q.tail_frame()->0
            < q.length) ==> (q.inputs[Self::get_input_slot(q, rf)].frame matches Some(f) ==> f
            == rf)
        &&& !Self::get_input_hit(q, rf, input) ==> (q.prediction.frame is Some || (
        q.tail_frame() is Some && rf != 0 && q.last_added_frame is Some
            && q.last_added_frame->0 < usize::MAX))
    }

    /// Gives the input for `requested_frame`: the confirmed one when it is in
    /// the queue (returning true), else a prediction for that frame (returning
    /// false), and remembers the frame as the last requested one.
    pub fn get_input(&mut self, requested_frame: FrameNum, input: &mut GameInput) -> (confirmed:
        bool)
        requires
            old(self)@.wf(),
            Self::get_input_ok(old(self)@, requested_frame as int, *old(input)),
        ensures
            final(self)@.wf(),
            confirmed == Self::get_input_hit(old(self)@, requested_frame as int, *old(input)),
            confirmed ==> final(self)@ == (InputQueueView {
                last_frame_requested: Some(requested_frame),
                ..old(self)@
            }),
            confirmed ==> *final(input) == if old(self)@.inputs[Self::get_input_slot(
                old(self)@,
                requested_frame as int,
            )].frame is Some {
                old(self)@.inputs[Self::get_input_slot(old(self)@, requested_frame as int)]
            } else {
                *old(input)
            },
            !confirmed ==> final(self)@ == (InputQueueView {
                last_frame_requested: Some(requested_frame),
                prediction: Self::next_prediction(old(self)@),
                ..old(self)@
            }),
            !confirmed ==> *final(input) == (GameInput {
                frame: Some(requested_frame),
                ..Self::next_prediction(old(self)@)
            }),
    {
        self.last_frame_requested = Some(requested_frame);
        if let Some(input_tail_frame) = self.inputs[self.tail].frame {
            if self.prediction.frame.is_none() {
                let mut offset: usize = requested_frame - input_tail_frame;
                if offset < self.length {
                    offset = (offset + self.tail) % INPUT_QUEUE_LENGTH;
                    if self.inputs[offset].frame.is_some() {
                        *input = self.inputs[offset];
                    }
                    if input.frame.is_some() {
                        return true;
                    }
                }
                if requested_frame == 0 {
                    self.prediction.erase();
                } else if self.last_added_frame.is_none() {
                    self.prediction.erase();
                } else {
                    let prev = if self.head == 0 {
                        INPUT_QUEUE_LENGTH - 1
                    } else {
                        self.head - 1
                    };
                    self.prediction = self.inputs[prev];
                }
                if let Some(prediction_frame) = self.prediction.frame {
                    self.prediction.frame = Some(prediction_frame + 1);
                }
            }
        }
        *input = self.prediction;
        input.frame = Some(requested_frame);
        false
    }

    /// The inputs on which `add_delayed_input_to_queue` runs to its end: the
    /// input has the queue's size, the frame follows the one added last (or
    /// is frame 0 for the first), and the ring buffer is not full.
    pub open spec fn add_ok(q: InputQueueView, input: GameInput, fnum: int) -> bool {
        &&& input.size == q.prediction.size
        &&& (q.last_added_frame matches Some(la) ==> fnum == la + 1)
        &&& (q.last_added_frame is None ==> fnum == 0)
        &&& q.length < 128
        &&& (q.prediction.frame is Some ==> fnum < usize::MAX)
    }

    /// The first incorrect frame after adding `input` for frame `fnum` while
    /// predicting: the first frame whose input differs in size or bits from
    /// the prediction.
    pub open spec fn incorrect_after_add(q: InputQueueView, input: GameInput, fnum: int) -> Frame {
        if q.first_incorrect_frame is None && !(q.prediction.size == input.size
            && q.prediction.bits_view() == input.bits_view()) {
            Some(fnum as usize)
        } else {
            q.first_incorrect_frame
        }
    }

    /// The queue after `add_delayed_input_to_queue(input, fnum)`: the input
    /// is stored at the head for frame `fnum`, and a running prediction is
    /// checked against it and then either dropped (when the last requested
    /// frame is reached with no error) or moved to the next frame.
    pub open spec fn after_add(q: InputQueueView, input: GameInput, fnum: int) -> InputQueueView {
        let stored = InputQueueView {
            inputs: q.inputs.update(q.head, GameInput { frame: Some(fnum as usize), ..input }),
            head: (q.head + 1) % 128,
            length: q.length + 1,
            first_frame: false,
            last_added_frame: Some(fnum as usize),
            ..q
        };
        match q.prediction.frame {
            Some(pf) => {
                let incorrect = Self::incorrect_after_add(q, input, fnum);
                let pframe: Frame = if q.prediction.frame == q.last_frame_requested
                    && incorrect is None {
                    None
                } else {
                    Some((pf + 1) as usize)
                };
                InputQueueView {
                    first_incorrect_frame: incorrect,
                    prediction: GameInput { frame: pframe, ..q.prediction },
                    ..stored
                }
            },
            None => stored,
        }
    }

    /// Stores `input` as the confirmed input for `frame_number` at the head of
    /// the queue, and checks a running prediction against it.
    pub fn add_delayed_input_to_queue(&mut self, input: &GameInput, frame_number: FrameNum)
        requires
            old(self)@.wf(),
            Self::add_ok(old(self)@, *input, frame_number as int),
        ensures
            final(self)@.wf(),
            final(self)@ == Self::after_add(old(self)@, *input, frame_number as int),
    {
        let ghost q = self@;
        self.inputs[self.head] = *input;
        self.inputs[self.head].frame = Some(frame_number);
        self.head = (self.head + 1) % INPUT_QUEUE_LENGTH;
        self.length = self.length + 1;
        self.first_frame = false;
        self.last_added_frame = Some(frame_number);
        if let Some(prediction_frame) = self.prediction.frame {
            if self.first_incorrect_frame.is_none() && !self.prediction.equal(input, true) {
                self.first_incorrect_frame = Some(frame_number);
            }
            let same_as_requested = match self.last_frame_requested {
                Some(r) => r == prediction_frame,
                None => false,
            };
            if same_as_requested && self.first_incorrect_frame.is_none() {
                self.prediction.frame = None;
            } else {
                self.prediction.frame = Some(prediction_frame + 1);
            }
        }
        proof {
            assert(self@.inputs =~= Self::after_add(q, *input, frame_number as int).inputs);
        }
    }

    /// The frame the queue expects next: the one after the frame added last,
    /// frame 0 for an empty queue.
    pub open spec fn expected_frame(q: InputQueueView) -> int {
        match q.last_added_frame {
            Some(la) => la + 1,
            None => 0,
        }
    }

    /// The queue after padding the frames from `e` up to (not including)
    /// `frame` with copies of the input added last.
    pub open spec fn padded(q: InputQueueView, e: int, frame: int) -> InputQueueView
        decreases frame - e,
    {
        if e >= frame {
            q
        } else {
            Self::padded(Self::after_add(q, q.previous_input(), e), e + 1, frame)
        }
    }

    /// Whether every padding step from `e` up to `frame` can be stored.
    pub open spec fn pad_ok(q: InputQueueView, e: int, frame: int) -> bool
        decreases frame - e,
    {
        e < frame ==> {
            &&& Self::add_ok(q, q.previous_input(), e)
            &&& Self::pad_ok(Self::after_add(q, q.previous_input(), e), e + 1, frame)
        }
    }

    /// The inputs on which `advance_queue_head` runs to its end: when the
    /// frame lies beyond the expected one, every padding input can be stored.
    pub open spec fn advance_ok(q: InputQueueView, input_frame: Frame) -> bool {
        input_frame matches Some(f) ==> Self::pad_ok(q, Self::expected_frame(q), f as int)
    }

    /// What `advance_queue_head(input_frame)` returns: no frame for a frame
    /// before the expected one (its place is taken), else the frame itself.
    pub open spec fn advanced_frame(q: InputQueueView, input_frame: Frame) -> Frame {
        match input_frame {
            Some(f) => if (f as int) < Self::expected_frame(q) {
                None
            } else {
                Some(f)
            },
            None => None,
        }
    }

    /// The queue after `advance_queue_head(input_frame)`: when the frame lies
    /// beyond the expected one, the gap is padded with the input added last.
    pub open spec fn after_advance(q: InputQueueView, input_frame: Frame) -> InputQueueView {
        match input_frame {
            Some(f) => Self::padded(q, Self::expected_frame(q), f as int),
            None => q,
        }
    }

    /// Moves the head of the queue to `input_frame`: a frame before the
    /// expected one is dropped (no frame is returned); a frame beyond it
    /// (after the frame delay grew) has the frames between filled with
    /// copies of the input added last, and is returned.
    pub fn advance_queue_head(&mut self, input_frame: Frame) -> (f: Frame)
        requires
            old(self)@.wf(),
            Self::advance_ok(old(self)@, input_frame),
        ensures
            final(self)@.wf(),
            final(self)@ == Self::after_advance(old(self)@, input_frame),
            f == Self::advanced_frame(old(self)@, input_frame),
    {
        if let Some(frame) = input_frame {
            let prev = if self.head == 0 {
                INPUT_QUEUE_LENGTH - 1
            } else {
                self.head - 1
            };
            let mut expected_frame: FrameNum = match self.inputs[prev].frame {
                Some(input_previous_head) => if self.first_frame {
                    0
                } else if input_previous_head >= frame {
                    return None;
                } else {
                    input_previous_head + 1
                },
                None => 0,
            };
            let ghost target = Self::padded(self@, expected_frame as int, frame as int);
            while expected_frame < frame
                invariant
                    expected_frame <= frame,
                    self@.wf(),
                    Self::pad_ok(self@, expected_frame as int, frame as int),
                    Self::padded(self@, expected_frame as int, frame as int) == target,
                decreases frame - expected_frame,
            {
                let last = if self.head == 0 {
                    INPUT_QUEUE_LENGTH - 1
                } else {
                    self.head - 1
                };
                let last_frame_input: GameInput = self.inputs[last];
                self.add_delayed_input_to_queue(&last_frame_input, expected_frame);
                expected_frame = expected_frame + 1;
            }
            return Some(frame);
        }
        input_frame
    }

    /// Whether `add_input(input)` stores the input: it has a frame, and that
    /// frame moved on by the frame delay is not already taken.
    pub open spec fn input_added(q: InputQueueView, input: GameInput) -> bool {
        input.frame matches Some(f) && Self::advanced_frame(q, Some((f + q.frame_delay) as usize)) is Some
    }

    /// The inputs on which `add_input` runs to its end: frames come from the
    /// user one after another, the delayed frame is a `usize`, the padding
    /// fits and a stored input fits the padded queue.
    pub open spec fn add_input_ok(q: InputQueueView, input: GameInput) -> bool {
        input.frame matches Some(f) ==> {
            let d = f + q.frame_delay;
            &&& (q.last_user_added_frame matches Some(lu) ==> f == lu + 1)
            &&& d <= usize::MAX
            &&& Self::advance_ok(q, Some(d as usize))
            &&& (Self::input_added(q, input) ==> Self::add_ok(
                Self::after_advance(q, Some(d as usize)),
                input,
                d,
            ))
        }
    }

    /// The queue after `add_input(input)`: the user's frame is remembered;
    /// the input goes in at its frame moved on by the frame delay, after
    /// the padding of any gap, unless that frame is taken.
    pub open spec fn after_add_input(q: InputQueueView, input: GameInput) -> InputQueueView {
        if input.frame is None {
            q
        } else {
            let d = input.frame->0 + q.frame_delay;
            let q1 = InputQueueView { last_user_added_frame: input.frame, ..q };
            if Self::input_added(q, input) {
                Self::after_add(Self::after_advance(q1, Some(d as usize)), input, d)
            } else {
                q1
            }
        }
    }

    /// Adds the user's input for its frame: remembers the frame as the last
    /// one the user added and stores the input at that frame plus the frame
    /// delay (see `advance_queue_head`). An input with no frame is ignored.
    pub fn add_input(&mut self, input: GameInput)
        requires
            old(self)@.wf(),
            Self::add_input_ok(old(self)@, input),
        ensures
            final(self)@.wf(),
            final(self)@ == Self::after_add_input(old(self)@, input),
    {
        if let Some(input_frame) = input.frame {
            self.last_user_added_frame = input.frame;
            let delayed = input_frame + self.frame_delay;
            proof {
                lemma_padded_ignores_user_frame(old(self)@, self@, Self::expected_frame(self@), delayed as int);
            }
            if let Some(new_frame) = self.advance_queue_head(Some(delayed)) {
                self.add_delayed_input_to_queue(&input, new_frame);
            }
        }
    }
}

/// Padding does not look at the frame the user added last, and keeps it.
proof fn lemma_padded_ignores_user_frame(q: InputQueueView, q1: InputQueueView, e: int, frame: int)
    requires
        q1 == (InputQueueView { last_user_added_frame: q1.last_user_added_frame, ..q }),
    ensures
        InputQueue::pad_ok(q1, e, frame) == InputQueue::pad_ok(q, e, frame),
        InputQueue::padded(q1, e, frame) == (InputQueueView {
            last_user_added_frame: q1.last_user_added_frame,
            ..InputQueue::padded(q, e, frame)
        }),
    decreases frame - e,
{
    if e < frame {
        let a = InputQueue::after_add(q, q.previous_input(), e);
        let a1 = InputQueue::after_add(q1, q1.previous_input(), e);
        lemma_padded_ignores_user_frame(a, a1, e + 1, frame);
    }
}


/// A confirmed input, once stored for its frame, sits in that frame's slot
/// with that frame number: it is what `get_confirmed_input` gives back for the
/// frame until the ring buffer wraps around to the slot.
pub proof fn lemma_read_after_add(q: InputQueueView, input: GameInput, fnum: FrameNum)
    requires
        q.wf(),
        InputQueue::add_ok(q, input, fnum as int),
    ensures
        InputQueue::after_add(q, input, fnum as int).wf(),
        InputQueue::after_add(q, input, fnum as int).inputs[q.slot_of(fnum as int)] == (GameInput {
            frame: Some(fnum),
            ..input
        }),
        InputQueue::after_add(q, input, fnum as int).last_added_frame == Some(fnum),
{
}

/// Once an input has been found to differ from its prediction, adding more
/// inputs never moves the first incorrect frame.
pub proof fn lemma_first_incorrect_is_kept(q: InputQueueView, input: GameInput, fnum: FrameNum)
    requires
        q.wf(),
        InputQueue::add_ok(q, input, fnum as int),
        q.first_incorrect_frame is Some,
    ensures
        InputQueue::after_add(q, input, fnum as int).first_incorrect_frame
            == q.first_incorrect_frame,
{
}

/// While predicting, an input that differs from the prediction in its bits
/// marks its frame as the first incorrect one when none was marked yet, and
/// an input that matches the prediction marks nothing.
pub proof fn lemma_misprediction_marked(q: InputQueueView, input: GameInput, fnum: FrameNum)
    requires
        q.wf(),
        InputQueue::add_ok(q, input, fnum as int),
        q.prediction.frame is Some,
        q.first_incorrect_frame is None,
    ensures
        (q.prediction.bits_view() != input.bits_view()) ==> InputQueue::after_add(
            q,
            input,
            fnum as int,
        ).first_incorrect_frame == Some(fnum),
        (q.prediction.bits_view() == input.bits_view()) ==> InputQueue::after_add(
            q,
            input,
            fnum as int,
        ).first_incorrect_frame is None,
{
}

proof fn lemma_padded_wf(q: InputQueueView, e: int, frame: int)
    requires
        q.wf(),
        0 <= e,
        frame <= usize::MAX,
        InputQueue::pad_ok(q, e, frame),
    ensures
        InputQueue::padded(q, e, frame).wf(),
    decreases frame - e,
{
    if e < frame {
        lemma_read_after_add(q, q.previous_input(), e as FrameNum);
        lemma_padded_wf(InputQueue::after_add(q, q.previous_input(), e), e + 1, frame);
    }
}

/// Frame delay: the user's input for frame `f`, when stored, becomes the
/// confirmed input of frame `f` plus the queue's frame delay, and that is
/// the frame added last.
pub proof fn lemma_input_delayed(q: InputQueueView, input: GameInput)
    requires
        q.wf(),
        InputQueue::add_input_ok(q, input),
        InputQueue::input_added(q, input),
    ensures
        ({
            let d = input.frame->0 + q.frame_delay;
            let a = InputQueue::after_add_input(q, input);
            &&& a.wf()
            &&& a.last_added_frame == Some(d as usize)
            &&& a.inputs[q.slot_of(d)] == (GameInput { frame: Some(d as usize), ..input })
        }),
{
    let d = input.frame->0 + q.frame_delay;
    let q1 = InputQueueView { last_user_added_frame: input.frame, ..q };
    lemma_padded_ignores_user_frame(q, q1, InputQueue::expected_frame(q), d);
    lemma_padded_wf(q, InputQueue::expected_frame(q), d);
    let q2 = InputQueue::after_advance(q1, Some(d as usize));
    lemma_read_after_add(q2, input, d as FrameNum);
}

/// While predicting, an input that matches the prediction ends prediction
/// mode when it is for the last frame requested and no misprediction was
/// marked: the queue then holds confirmed inputs only. Otherwise a running
/// prediction moves on to the next frame.
pub proof fn lemma_correct_prediction_ends_prediction(q: InputQueueView, input: GameInput, fnum: FrameNum)
    requires
        q.wf(),
        InputQueue::add_ok(q, input, fnum as int),
        q.prediction.frame is Some,
        q.first_incorrect_frame is None,
        input.size == q.prediction.size,
        input.bits_view() == q.prediction.bits_view(),
    ensures
        InputQueue::after_add(q, input, fnum as int).first_incorrect_frame is None,
        q.prediction.frame == q.last_frame_requested ==> InputQueue::after_add(
            q,
            input,
            fnum as int,
        ).prediction.frame is None,
        q.prediction.frame != q.last_frame_requested ==> InputQueue::after_add(
            q,
            input,
            fnum as int,
        ).prediction.frame == Some((q.prediction.frame->0 + 1) as usize),
{
}

} // verus!
