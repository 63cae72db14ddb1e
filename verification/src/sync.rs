//! The synchronisation layer: the frame counter, the input queues of all
//! players, the ring of saved states and the check for mispredictions that
//! require a rollback.
use vstd::prelude::*;
use crate::game_input::{
    Frame, FrameNum, GameInput, InputBuffer, GAMEINPUT_MAX_BYTES, INPUT_BUFFER_SIZE, erased_bits,
};
use crate::ggpo::GGPOSessionCallbacks;
use crate::input_queue::{InputQueue, InputQueueView, frame_lt};
use crate::udp_msg::ConnectStatus;

verus! {

/// Saved states kept in the ring (`GGPO_MAX_PREDICTION_FRAMES + 2`).
pub const SAVED_FRAME_COUNT: usize = 10;

/// Errors of the synchronisation layer.
#[derive(Debug, Copy, Clone, PartialEq, Eq, Structural)]
pub enum SyncError {
    ConfigNone,
}

/// A call the layer made into the game's callbacks, as it is recorded in
/// the layer's log: the buffer freed, the slot handed over to be filled
/// with the state of a frame, the state loaded, a frame run again.
pub ghost enum CallbackCall {
    FreeBuffer { buffer: Seq<u8> },
    SaveGameState { buffer: Seq<u8>, size: usize, checksum: Option<u32>, frame: Frame },
    LoadGameState { buffer: Seq<u8>, size: usize },
    AdvanceFrame { flags: i32 },
}

/// Configuration of the synchronisation layer.
pub struct Config<T: GGPOSessionCallbacks> {
    pub callbacks: Option<T>,
    pub num_prediction_frames: FrameNum,
    pub num_players: usize,
    pub input_size: usize,
}

impl<T: GGPOSessionCallbacks> Default for Config<T> {
    /// No callbacks, no players, nothing predicted.
    fn default() -> (c: Config<T>)
        ensures
            c.callbacks is None,
            c.num_prediction_frames == 0,
            c.num_players == 0,
            c.input_size == 0,
    {
        Config { callbacks: None, num_prediction_frames: 0, num_players: 0, input_size: 0 }
    }
}

impl<T: GGPOSessionCallbacks> Config<T> {
    /// No callbacks, no players, nothing predicted.
    pub fn new() -> (c: Config<T>)
        ensures
            c.callbacks is None,
            c.num_prediction_frames == 0,
            c.num_players == 0,
            c.input_size == 0,
    {
        Config { callbacks: None, num_prediction_frames: 0, num_players: 0, input_size: 0 }
    }

    /// Sets the callbacks, the number of players and the input size. The
    /// number of prediction frames is taken but not stored.
    pub fn init(
        &mut self,
        callbacks: T,
        num_prediction_frames: FrameNum,
        num_players: usize,
        input_size: usize,
    )
        ensures
            final(self).callbacks == Some(callbacks),
            final(self).num_players == num_players,
            final(self).input_size == input_size,
            final(self).num_prediction_frames == old(self).num_prediction_frames,
    {
        self.callbacks = Some(callbacks);
        self.num_players = num_players;
        self.input_size = input_size;
    }
}

/// Whether an event carries a confirmed input.
#[derive(Debug, Copy, Clone, PartialEq, Eq, Structural)]
pub enum Type {
    ConfirmedInput,
    Other,
}

/// An event of the synchronisation layer.
#[derive(Debug, Copy, Clone)]
pub struct Event {
    pub input_type: Type,
    pub input: GameInput,
}

impl Event {
    /// An event of the other kind with a fresh input.
    pub fn new() -> (e: Event)
        ensures
            e.input_type == Type::Other,
            e.input.frame is None,
            e.input.size == 0,
    {
        Event { input_type: Type::Other, input: GameInput::new() }
    }
}

/// A saved game state.
pub struct SavedFrame {
    pub size: usize,
    pub frame: Frame,
    pub checksum: Option<u32>,
    pub buffer: Vec<u8>,
}

impl SavedFrame {
    /// An empty slot.
    fn new() -> (f: SavedFrame)
        ensures
            f.size == 0,
            f.frame is None,
            f.checksum is None,
            f.buffer@.len() == 0,
    {
        SavedFrame { size: 0, frame: None, checksum: None, buffer: Vec::new() }
    }
}

/// The saved-state part of a saved frame.
pub ghost struct SavedFrameView {
    pub size: usize,
    pub frame: Frame,
    pub checksum: Option<u32>,
    pub buffer: Seq<u8>,
}

impl View for SavedFrame {
    type V = SavedFrameView;

    open spec fn view(&self) -> SavedFrameView {
        SavedFrameView {
            size: self.size,
            frame: self.frame,
            checksum: self.checksum,
            buffer: self.buffer@,
        }
    }
}

/// The state of the synchronisation layer.
pub ghost struct GGPOSyncView {
    pub has_callbacks: bool,
    pub saved_frames: Seq<SavedFrameView>,
    pub saved_head: int,
    pub has_config: bool,
    pub config_has_callbacks: bool,
    pub num_players: nat,
    pub input_size: nat,
    pub rolling_back: bool,
    pub last_confirmed_frame: Frame,
    pub frame_count: nat,
    pub max_prediction_frames: nat,
    pub input_queues: Seq<InputQueueView>,
    pub event_queue: Seq<Event>,
    pub calls: Seq<CallbackCall>,
}

/// The synchronisation layer.
pub struct GGPOSync<T: GGPOSessionCallbacks> {
    callbacks: Option<T>,
    saved_frames: Vec<SavedFrame>,
    saved_head: usize,
    config: Option<Config<T>>,
    rolling_back: bool,
    last_confirmed_frame: Frame,
    frame_count: FrameNum,
    max_prediction_frames: FrameNum,
    input_queues: Vec<InputQueue>,
    event_queue: std::collections::VecDeque<Event>,
    calls: Ghost<Seq<CallbackCall>>,
}

impl<T: GGPOSessionCallbacks> View for GGPOSync<T> {
    type V = GGPOSyncView;

    closed spec fn view(&self) -> GGPOSyncView {
        GGPOSyncView {
            has_callbacks: self.callbacks is Some,
            saved_frames: self.saved_frames@.map_values(|f: SavedFrame| f@),
            saved_head: self.saved_head as int,
            has_config: self.config is Some,
            config_has_callbacks: self.config is Some && self.config->0.callbacks is Some,
            num_players: if self.config is Some {
                self.config->0.num_players as nat
            } else {
                0
            },
            input_size: if self.config is Some {
                self.config->0.input_size as nat
            } else {
                0
            },
            rolling_back: self.rolling_back,
            last_confirmed_frame: self.last_confirmed_frame,
            frame_count: self.frame_count as nat,
            max_prediction_frames: self.max_prediction_frames as nat,
            input_queues: self.input_queues@.map_values(|q: InputQueue| q@),
            event_queue: self.event_queue@,
            calls: self.calls@,
        }
    }
}

impl GGPOSyncView {
    /// The saved-state ring is whole and every input queue is well formed.
    pub open spec fn parts_wf(self) -> bool {
        &&& self.saved_frames.len() == SAVED_FRAME_COUNT
        &&& 0 <= self.saved_head < SAVED_FRAME_COUNT
        &&& forall|i: int| 0 <= i < self.input_queues.len() ==> (#[trigger] self.input_queues[i]).wf()
    }

    /// What holds of the layer between calls: its parts are well formed and
    /// every configured player has a queue.
    pub open spec fn wf(self) -> bool {
        &&& self.parts_wf()
        &&& self.num_players <= self.input_queues.len()
    }
}

/// The inputs on which `set_last_confirmed_frame(frame)` discards without
/// a failed check in any player's queue.
pub open spec fn confirm_ok(v: GGPOSyncView, frame: Frame) -> bool {
    (v.has_config && frame is Some && frame->0 > 0) ==> forall|i: int|
        0 <= i < v.num_players ==> InputQueue::discard_ok(
            #[trigger] v.input_queues[i],
            frame->0 - 1,
        )
}

/// The queues after `set_last_confirmed_frame(frame)`: every player's
/// queue discards the frames before `frame`.
pub open spec fn confirmed_queues(v: GGPOSyncView, frame: Frame) -> Seq<InputQueueView> {
    if v.has_config && frame is Some && frame->0 > 0 {
        Seq::new(
            v.input_queues.len(),
            |i: int|
                if i < v.num_players {
                    InputQueue::after_discard(v.input_queues[i], frame->0 - 1)
                } else {
                    v.input_queues[i]
                },
        )
    } else {
        v.input_queues
    }
}

/// The frames this side is behind the last confirmed frame (one more
/// than the frame count when nothing is confirmed).
pub open spec fn frames_behind(v: GGPOSyncView) -> int {
    match v.last_confirmed_frame {
        Some(l) => v.frame_count - l as int,
        None => (v.frame_count + 1) as int,
    }
}

/// Whether local input is accepted: not both the frame count and the
/// frames behind have reached the prediction limit.
pub open spec fn accepts_local_input(v: GGPOSyncView) -> bool {
    !(v.frame_count >= v.max_prediction_frames && frames_behind(v)
        >= v.max_prediction_frames)
}

/// The inputs on which `add_local_input` runs to its end.
pub open spec fn local_input_ok(v: GGPOSyncView, queue: u32, input: GameInput) -> bool {
    &&& (v.last_confirmed_frame matches Some(l) ==> l <= v.frame_count)
    &&& v.frame_count < usize::MAX
    &&& accepts_local_input(v) ==> {
        &&& queue < v.input_queues.len()
        &&& InputQueue::add_input_ok(
            v.input_queues[queue as int],
            GameInput { frame: Some(v.frame_count as usize), ..input },
        )
    }
}

/// The inputs on which `reset_prediction(frame)` passes every player's
/// check.
pub open spec fn reset_ok(v: GGPOSyncView, frame: FrameNum) -> bool {
    v.has_config ==> forall|i: int|
        0 <= i < v.num_players ==> ((#[trigger] v.input_queues[i]).first_incorrect_frame matches Some(
            f,
        ) ==> frame <= f)
}

/// The queues after `reset_prediction`: every player's queue leaves
/// prediction mode.
pub open spec fn reset_queues(v: GGPOSyncView) -> Seq<InputQueueView> {
    Seq::new(
        v.input_queues.len(),
        |i: int|
            if v.has_config && i < v.num_players {
                InputQueueView {
                    prediction: GameInput { frame: None, ..v.input_queues[i].prediction },
                    first_incorrect_frame: None,
                    last_frame_requested: None,
                    ..v.input_queues[i]
                }
            } else {
                v.input_queues[i]
            },
    )
}

/// The first of the slots from `i` on that holds `frame`; the last slot
/// when none before it does.
pub open spec fn scan_saved(frames: Seq<SavedFrameView>, frame: Frame, i: int) -> int
    decreases SAVED_FRAME_COUNT - i,
{
    if i >= SAVED_FRAME_COUNT - 1 || i < 0 {
        SAVED_FRAME_COUNT - 1
    } else if frames[i].frame == frame {
        i
    } else {
        scan_saved(frames, frame, i + 1)
    }
}

/// The slot `find_saved_frame_index(frame)` gives: the first slot holding
/// `frame`, or the last slot when none holds it.
pub open spec fn saved_index(v: GGPOSyncView, frame: Frame) -> int {
    scan_saved(v.saved_frames, frame, 0)
}

proof fn lemma_scan_range(frames: Seq<SavedFrameView>, frame: Frame, i: int)
    requires
        0 <= i <= SAVED_FRAME_COUNT,
    ensures
        i <= scan_saved(frames, frame, i) < SAVED_FRAME_COUNT || scan_saved(frames, frame, i)
            == SAVED_FRAME_COUNT - 1,
        0 <= scan_saved(frames, frame, i) < SAVED_FRAME_COUNT,
    decreases SAVED_FRAME_COUNT - i,
{
    if i < SAVED_FRAME_COUNT - 1 && frames[i].frame != frame {
        lemma_scan_range(frames, frame, i + 1);
    }
}

proof fn lemma_scan_holds(frames: Seq<SavedFrameView>, frame: Frame, i: int, k: int)
    requires
        0 <= i <= k < SAVED_FRAME_COUNT,
        frames[k].frame == frame,
    ensures
        frames[scan_saved(frames, frame, i)].frame == frame,
        scan_saved(frames, frame, i) <= k,
    decreases SAVED_FRAME_COUNT - i,
{
    if i < SAVED_FRAME_COUNT - 1 && frames[i].frame != frame {
        lemma_scan_holds(frames, frame, i + 1, k);
    }
}

/// The slot `get_last_saved_frame` reads: the one before the head.
pub open spec fn last_saved_index(v: GGPOSyncView) -> int {
    if v.saved_head == 0 {
        SAVED_FRAME_COUNT - 1
    } else {
        v.saved_head - 1
    }
}

/// The calls `save_current_frame` makes into the callbacks: the
/// configured callbacks free the head slot's old buffer, then the layer's
/// own callbacks get the slot (its buffer emptied if it was freed), stamped
/// with the current frame, to fill.
pub open spec fn save_calls(v: GGPOSyncView) -> Seq<CallbackCall> {
    let slot = v.saved_frames[v.saved_head];
    let buffer = if v.config_has_callbacks {
        Seq::empty()
    } else {
        slot.buffer
    };
    let freed = if v.config_has_callbacks {
        seq![CallbackCall::FreeBuffer { buffer: slot.buffer }]
    } else {
        Seq::empty()
    };
    let saved = if v.has_callbacks {
        seq![
            CallbackCall::SaveGameState {
                buffer,
                size: slot.size,
                checksum: slot.checksum,
                frame: Some(v.frame_count as usize),
            },
        ]
    } else {
        Seq::empty()
    };
    freed + saved
}

/// The layer after `save_current_frame`: the head slot holds the current
/// frame (its buffer freed and emptied when the configuration has
/// callbacks), the head moves on round the ring and the calls of
/// `save_calls` are logged.
pub open spec fn saved_after(v: GGPOSyncView) -> GGPOSyncView {
    let slot = v.saved_frames[v.saved_head];
    GGPOSyncView {
        calls: v.calls + save_calls(v),
        saved_frames: v.saved_frames.update(
            v.saved_head,
            SavedFrameView {
                frame: Some(v.frame_count as usize),
                buffer: if v.config_has_callbacks {
                    Seq::empty()
                } else {
                    slot.buffer
                },
                ..slot
            },
        ),
        saved_head: (v.saved_head + 1) % (SAVED_FRAME_COUNT as int),
        ..v
    }
}

/// The inputs on which `load_frame(frame)` passes its check: unless the
/// frame is the current one, the slot it finds holds a non-empty state.
pub open spec fn load_ok(v: GGPOSyncView, frame: Frame) -> bool {
    frame != Some(v.frame_count as usize) ==> {
        let slot = v.saved_frames[saved_index(v, frame)];
        slot.buffer.len() > 0 && slot.size > 0
    }
}

/// The layer after `load_frame(frame)`: nothing changes for the current
/// frame; otherwise the layer's callbacks, if any, load the state of the
/// slot found by `saved_index` (a logged call), the frame count becomes
/// that slot's frame (unchanged when the slot holds none) and the head
/// moves to the slot after it, as if that frame had just been saved.
pub open spec fn loaded(v: GGPOSyncView, frame: Frame) -> GGPOSyncView {
    if frame == Some(v.frame_count as usize) {
        v
    } else {
        let i = saved_index(v, frame);
        GGPOSyncView {
            calls: if v.has_callbacks {
                v.calls.push(
                    CallbackCall::LoadGameState {
                        buffer: v.saved_frames[i].buffer,
                        size: v.saved_frames[i].size,
                    },
                )
            } else {
                v.calls
            },
            frame_count: match v.saved_frames[i].frame {
                Some(f) => f as nat,
                None => v.frame_count,
            },
            saved_head: (i + 1) % (SAVED_FRAME_COUNT as int),
            ..v
        }
    }
}

/// The first incorrect frame reported by the first `n` queues: the
/// earliest of those reported, `None` when none is.
pub open spec fn earliest_incorrect(queues: Seq<InputQueueView>, n: int) -> Frame
    decreases n,
{
    if n <= 0 {
        None
    } else {
        let rest = earliest_incorrect(queues, n - 1);
        match (queues[n - 1].first_incorrect_frame, rest) {
            (Some(a), Some(b)) => if a < b {
                Some(a)
            } else {
                Some(b)
            },
            (Some(a), None) => Some(a),
            (None, _) => rest,
        }
    }
}

/// The earliest incorrect frame is one that a queue reports, and no
/// queue reports an earlier one.
pub proof fn lemma_earliest_is_least(queues: Seq<InputQueueView>, n: int)
    ensures
        earliest_incorrect(queues, n) matches Some(e) ==> exists|i: int|
            0 <= i < n && (#[trigger] queues[i]).first_incorrect_frame == Some(e),
        forall|i: int|
            0 <= i < n ==> ((#[trigger] queues[i]).first_incorrect_frame matches Some(f)
                ==> earliest_incorrect(queues, n) matches Some(e) && e <= f),
    decreases n,
{
    if n > 0 {
        lemma_earliest_is_least(queues, n - 1);
        if let Some(e) = earliest_incorrect(queues, n) {
            if queues[n - 1].first_incorrect_frame == Some(e) {
            } else {
                let w = choose|i: int|
                    0 <= i < n - 1 && (#[trigger] queues[i]).first_incorrect_frame == Some(e);
                assert(0 <= w < n && queues[w].first_incorrect_frame == Some(e));
            }
        }
    }
}

/// The layer after a rollback to the current frame: every player's queue
/// has left prediction mode and no rollback is in progress.
pub open spec fn adjusted(v: GGPOSyncView) -> GGPOSyncView {
    GGPOSyncView { input_queues: reset_queues(v), rolling_back: false, ..v }
}

/// The inputs on which `get_confirmed_inputs(values, frame, status)` runs
/// to its end: the players fit in the buffer and, for a frame, every
/// player has a status and each player whose input is kept has no
/// misprediction at or before the frame.
pub open spec fn confirmed_inputs_ok(v: GGPOSyncView, frame: Frame, status: Seq<ConnectStatus>) -> bool {
    v.has_config ==> {
        &&& v.num_players <= INPUT_BUFFER_SIZE
        &&& frame matches Some(f) ==> {
            &&& status.len() >= v.num_players
            &&& forall|i: int|
                0 <= i < v.num_players && !input_dropped(#[trigger] status[i], f)
                    ==> (v.input_queues[i].first_incorrect_frame is Some ==> frame_lt(
                    frame,
                    v.input_queues[i].first_incorrect_frame,
                ))
        }
    }
}

/// Byte `i` of the buffer `get_confirmed_inputs` fills: for a player and
/// a frame, byte `i` of that player's input (erased when the player's
/// input is dropped, blank when the queue does not hold the frame);
/// otherwise `'0'`.
pub open spec fn confirmed_byte(v: GGPOSyncView, frame: Frame, status: Seq<ConnectStatus>, i: int) -> u8 {
    if i < v.num_players && frame is Some {
        let f = frame->0;
        let q = v.input_queues[i];
        if input_dropped(status[i], f) {
            erased_bits()[i]
        } else if q.inputs[q.slot_of(f as int)].frame == frame {
            q.inputs[q.slot_of(f as int)].bits_view()[i]
        } else {
            0u8
        }
    } else {
        48u8
    }
}

/// The input `get_input` gives a queue asked for frame `rf` with a blank
/// input: the queued one when it is there, else a prediction for `rf`.
pub open spec fn requested_input(q: InputQueueView, rf: int) -> GameInput {
    if InputQueue::get_input_hit(q, rf, GameInput::blank()) {
        q.inputs[InputQueue::get_input_slot(q, rf)]
    } else {
        GameInput { frame: Some(rf as usize), ..InputQueue::next_prediction(q) }
    }
}

/// The queue after `get_input` for frame `rf` with a blank input.
pub open spec fn after_request(q: InputQueueView, rf: int) -> InputQueueView {
    if InputQueue::get_input_hit(q, rf, GameInput::blank()) {
        InputQueueView { last_frame_requested: Some(rf as usize), ..q }
    } else {
        InputQueueView {
            last_frame_requested: Some(rf as usize),
            prediction: InputQueue::next_prediction(q),
            ..q
        }
    }
}

/// Whether `synchronize_inputs` drops the input of player `i`.
pub open spec fn sync_dropped(v: GGPOSyncView, status: Seq<ConnectStatus>, i: int) -> bool {
    input_dropped(status[i], v.frame_count as usize)
}

/// The inputs on which `synchronize_inputs(values, status)` runs to its
/// end: every player has a status and a slot in `values`, no player from
/// the 33rd on is dropped (its flag would not fit), and every kept
/// player's queue can give an input for the current frame.
pub open spec fn synchronize_ok(v: GGPOSyncView, values_len: nat, status: Seq<ConnectStatus>) -> bool {
    v.has_config ==> {
        &&& status.len() >= v.num_players
        &&& values_len >= v.num_players
        &&& forall|i: int|
            32 <= i < v.num_players ==> !sync_dropped(v, status, i)
        &&& forall|i: int|
            0 <= i < v.num_players && !sync_dropped(v, status, i)
                ==> InputQueue::get_input_ok(
                #[trigger] v.input_queues[i],
                v.frame_count as int,
                GameInput::blank(),
            )
    }
}

/// The queues after `synchronize_inputs`: each kept player's queue has
/// been asked for the current frame.
pub open spec fn synchronized_queues(v: GGPOSyncView, status: Seq<ConnectStatus>) -> Seq<InputQueueView> {
    Seq::new(
        v.input_queues.len(),
        |i: int|
            if v.has_config && i < v.num_players && !sync_dropped(v, status, i) {
                after_request(v.input_queues[i], v.frame_count as int)
            } else {
                v.input_queues[i]
            },
    )
}

/// The bytes `synchronize_inputs` writes for player `i`: erased when the
/// player's input is dropped, else the input of the current frame.
pub open spec fn synchronized_bytes(v: GGPOSyncView, status: Seq<ConnectStatus>, i: int) -> Seq<u8> {
    if sync_dropped(v, status, i) {
        erased_bits()
    } else {
        requested_input(v.input_queues[i], v.frame_count as int).bits_view()
    }
}

impl<T: GGPOSessionCallbacks> Default for GGPOSync<T> {
    /// A layer with no configuration (see `GGPOSync::new`).
    fn default() -> (s: GGPOSync<T>)
        ensures
            s@.wf(),
            !s@.has_callbacks,
            !s@.has_config,
            s@.saved_head == 0,
            !s@.rolling_back,
            s@.last_confirmed_frame is None,
            s@.frame_count == 0,
            s@.max_prediction_frames == 0,
            s@.input_queues.len() == 0,
            s@.event_queue.len() == 0,
    {
        GGPOSync::new()
    }
}

impl<T: GGPOSessionCallbacks> GGPOSync<T> {
    /// A layer with no configuration, no queues, frame zero and an empty
    /// ring of saved states.
    pub fn new() -> (s: GGPOSync<T>)
        ensures
            s@.wf(),
            !s@.has_callbacks,
            !s@.has_config,
            s@.saved_head == 0,
            forall|i: int|
                0 <= i < SAVED_FRAME_COUNT ==> (#[trigger] s@.saved_frames[i]).frame is None
                    && s@.saved_frames[i].size == 0 && s@.saved_frames[i].buffer.len() == 0,
            !s@.rolling_back,
            s@.last_confirmed_frame is None,
            s@.frame_count == 0,
            s@.max_prediction_frames == 0,
            s@.input_queues.len() == 0,
            s@.event_queue.len() == 0,
            s@.calls.len() == 0,
    {
        let mut saved_frames: Vec<SavedFrame> = Vec::new();
        let mut k: usize = 0;
        while k < SAVED_FRAME_COUNT
            invariant
                0 <= k <= SAVED_FRAME_COUNT,
                saved_frames@.len() == k,
                forall|i: int|
                    0 <= i < k ==> (#[trigger] saved_frames@[i]).frame is None
                        && saved_frames@[i].size == 0 && saved_frames@[i].buffer@.len() == 0,
            decreases SAVED_FRAME_COUNT - k,
        {
            saved_frames.push(SavedFrame::new());
            k = k + 1;
        }
        let s = GGPOSync {
            callbacks: None,
            saved_frames,
            saved_head: 0,
            config: None,
            rolling_back: false,
            last_confirmed_frame: None,
            frame_count: 0,
            max_prediction_frames: 0,
            input_queues: Vec::new(),
            event_queue: std::collections::VecDeque::new(),
            calls: Ghost(Seq::empty()),
        };
        proof {
            assert(s@.input_queues =~= Seq::<InputQueueView>::empty());
        }
        s
    }

    /// Creates one input queue per configured player; fails (returning
    /// false) when unconfigured.
    pub fn create_queues(&mut self) -> (ok: bool)
        requires
            old(self)@.parts_wf(),
            !old(self)@.has_config ==> old(self)@.wf(),
            old(self)@.has_config && old(self)@.num_players > 0 ==> old(self)@.input_size
                <= GAMEINPUT_MAX_BYTES,
        ensures
            final(self)@.wf(),
            ok == old(self)@.has_config,
            !ok ==> final(self)@ == old(self)@,
            ok ==> final(self)@ == (GGPOSyncView {
                input_queues: final(self)@.input_queues,
                ..old(self)@
            }),
            ok ==> final(self)@.input_queues.len() == old(self)@.num_players,
            ok ==> forall|i: int|
                0 <= i < old(self)@.num_players ==> (#[trigger] final(self)@.input_queues[i]).is_initial(
                    i as nat,
                    old(self)@.input_size,
                ),
    {
        let (num_players, input_size) = match &self.config {
            Some(config) => (config.num_players, config.input_size),
            None => {
                return false;
            },
        };
        let mut queues: Vec<InputQueue> = Vec::new();
        let mut i: usize = 0;
        while i < num_players
            invariant
                0 <= i <= num_players,
                num_players == old(self)@.num_players,
                input_size == old(self)@.input_size,
                num_players > 0 ==> input_size <= GAMEINPUT_MAX_BYTES,
                queues@.len() == i,
                forall|k: int|
                    0 <= k < i ==> (#[trigger] queues@[k])@.wf() && queues@[k]@.is_initial(
                        k as nat,
                        input_size as nat,
                    ),
            decreases num_players - i,
        {
            queues.push(InputQueue::init(i, input_size));
            i = i + 1;
        }
        self.input_queues = queues;
        true
    }

    /// Takes `config`: its prediction limit, a frame count of zero, no
    /// rollback, and one input queue per player.
    pub fn init(&mut self, config: Config<T>)
        requires
            old(self)@.wf(),
            config.num_players > 0 ==> config.input_size <= GAMEINPUT_MAX_BYTES,
        ensures
            final(self)@.wf(),
            final(self)@ == (GGPOSyncView {
                max_prediction_frames: config.num_prediction_frames as nat,
                has_config: true,
                config_has_callbacks: config.callbacks is Some,
                num_players: config.num_players as nat,
                input_size: config.input_size as nat,
                frame_count: 0,
                rolling_back: false,
                input_queues: final(self)@.input_queues,
                ..old(self)@
            }),
            final(self)@.input_queues.len() == config.num_players,
            forall|i: int|
                0 <= i < config.num_players ==> (#[trigger] final(self)@.input_queues[i]).is_initial(
                    i as nat,
                    config.input_size as nat,
                ),
    {
        self.max_prediction_frames = config.num_prediction_frames;
        self.config = Some(config);
        self.frame_count = 0;
        self.rolling_back = false;
        self.create_queues();
    }

    /// Records `frame` as the last confirmed one and lets every player's
    /// queue discard the inputs before it.
    pub fn set_last_confirmed_frame(&mut self, frame: Frame)
        requires
            old(self)@.wf(),
            confirm_ok(old(self)@, frame),
        ensures
            final(self)@.wf(),
            final(self)@ == (GGPOSyncView {
                last_confirmed_frame: frame,
                input_queues: confirmed_queues(old(self)@, frame),
                ..old(self)@
            }),
    {
        self.last_confirmed_frame = frame;
        let num_players = match &self.config {
            Some(config) => config.num_players,
            None => {
                proof {
                    assert(self@.input_queues =~= confirmed_queues(old(self)@, frame));
                }
                return;
            },
        };
        if let Some(last_confirmed_frame) = frame {
            if last_confirmed_frame > 0 {
                let mut i: usize = 0;
                while i < num_players
                    invariant
                        0 <= i <= num_players,
                        num_players == old(self)@.num_players,
                        old(self)@.wf(),
                        confirm_ok(old(self)@, frame),
                        old(self)@.has_config,
                        frame == Some(last_confirmed_frame),
                        last_confirmed_frame > 0,
                        self@ == (GGPOSyncView {
                            last_confirmed_frame: frame,
                            input_queues: self@.input_queues,
                            ..old(self)@
                        }),
                        self@.input_queues.len() == old(self)@.input_queues.len(),
                        forall|k: int|
                            0 <= k < self@.input_queues.len() ==> #[trigger] self@.input_queues[k]
                                == if k < i {
                                InputQueue::after_discard(
                                    old(self)@.input_queues[k],
                                    last_confirmed_frame - 1,
                                )
                            } else {
                                old(self)@.input_queues[k]
                            },
                    decreases num_players - i,
                {
                    let mut q = self.input_queues[i];
                    let ghost before = self.input_queues@;
                    let ghost vq = self@.input_queues;
                    proof {
                        assert(self@.input_queues[i as int] == before[i as int]@);
                        assert(old(self)@.input_queues[i as int] == q@);
                        assert(InputQueue::discard_ok(old(self)@.input_queues[i as int], frame->0 - 1));
                    }
                    q.discard_confirmed_frames(last_confirmed_frame - 1);
                    self.input_queues.set(i, q);
                    proof {
                        assert forall|k: int| 0 <= k < self@.input_queues.len() implies #[trigger] self@.input_queues[k]
                            == if k < i + 1 {
                            InputQueue::after_discard(old(self)@.input_queues[k], last_confirmed_frame - 1)
                        } else {
                            old(self)@.input_queues[k]
                        } by {
                            assert(self@.input_queues[k] == self.input_queues@[k]@);
                            if k != i {
                                assert(self.input_queues@[k] == before[k]);
                                assert(vq[k] == before[k]@);
                            }
                        }
                    }
                    i = i + 1;
                }
                proof {
                    assert(self@.input_queues =~= confirmed_queues(old(self)@, frame));
                }
                return;
            }
        }
        proof {
            assert(self@.input_queues =~= confirmed_queues(old(self)@, frame));
        }
    }

    /// Adds the local player's input for the current frame to queue `queue`,
    /// unless the prediction limit is reached (then returns false); the input
    /// is stamped with the current frame.
    pub fn add_local_input(&mut self, queue: u32, input: &mut GameInput) -> (accepted: bool)
        requires
            old(self)@.wf(),
            local_input_ok(old(self)@, queue, *old(input)),
        ensures
            final(self)@.wf(),
            accepted == accepts_local_input(old(self)@),
            !accepted ==> final(self)@ == old(self)@ && *final(input) == *old(input),
            accepted ==> *final(input) == (GameInput {
                frame: Some(old(self)@.frame_count as usize),
                ..*old(input)
            }),
            accepted ==> final(self)@ == (GGPOSyncView {
                input_queues: old(self)@.input_queues.update(
                    queue as int,
                    InputQueue::after_add_input(old(self)@.input_queues[queue as int], *final(input)),
                ),
                ..old(self)@
            }),
    {
        let frames_behind: FrameNum = match self.last_confirmed_frame {
            Some(last_confirmed_frame) => self.frame_count - last_confirmed_frame,
            None => self.frame_count + 1,
        };
        if self.frame_count >= self.max_prediction_frames && frames_behind
            >= self.max_prediction_frames {
            return false;
        }
        input.frame = Some(self.frame_count);
        let mut q = self.input_queues[queue as usize];
        proof {
            assert(q@ == old(self)@.input_queues[queue as int]);
        }
        q.add_input(*input);
        let ghost s0 = self.input_queues@;
        self.input_queues.set(queue as usize, q);
        proof {
            lemma_queue_update(s0, queue as int, q);
        }
        true
    }

    /// Adds a remote player's input to queue `queue`.
    pub fn add_remote_input(&mut self, queue: u32, input: &GameInput)
        requires
            old(self)@.wf(),
            queue < old(self)@.input_queues.len(),
            InputQueue::add_input_ok(old(self)@.input_queues[queue as int], *input),
        ensures
            final(self)@.wf(),
            final(self)@ == (GGPOSyncView {
                input_queues: old(self)@.input_queues.update(
                    queue as int,
                    InputQueue::after_add_input(old(self)@.input_queues[queue as int], *input),
                ),
                ..old(self)@
            }),
    {
        let mut q = self.input_queues[queue as usize];
        q.add_input(*input);
        let ghost s0 = self.input_queues@;
        self.input_queues.set(queue as usize, q);
        proof {
            lemma_queue_update(s0, queue as int, q);
        }
    }

    /// Sets the frame delay of queue `queue`.
    pub fn set_frame_delay(&mut self, queue: usize, delay: usize)
        requires
            old(self)@.wf(),
            queue < old(self)@.input_queues.len(),
        ensures
            final(self)@.wf(),
            final(self)@ == (GGPOSyncView {
                input_queues: old(self)@.input_queues.update(
                    queue as int,
                    InputQueueView { frame_delay: delay as nat, ..old(self)@.input_queues[queue as int] },
                ),
                ..old(self)@
            }),
    {
        let mut q = self.input_queues[queue];
        q.set_frame_delay(delay);
        let ghost s0 = self.input_queues@;
        self.input_queues.set(queue, q);
        proof {
            lemma_queue_update(s0, queue as int, q);
        }
    }

    /// Takes the oldest event into `event`; false when there is none.
    pub fn get_event(&mut self, event: &mut Event) -> (got: bool)
        ensures
            got == (old(self)@.event_queue.len() > 0),
            got ==> *final(event) == old(self)@.event_queue[0] && final(self)@ == (GGPOSyncView {
                event_queue: old(self)@.event_queue.drop_first(),
                ..old(self)@
            }),
            !got ==> *final(event) == *old(event) && final(self)@ == old(self)@,
    {
        if let Some(e) = self.event_queue.pop_front() {
            *event = e;
            return true;
        }
        false
    }

    /// The current frame.
    pub fn get_frame_count(&self) -> (f: FrameNum)
        ensures
            f == self@.frame_count,
    {
        self.frame_count
    }

    /// Whether a rollback is in progress.
    pub fn in_rollback(&self) -> (b: bool)
        ensures
            b == self@.rolling_back,
    {
        self.rolling_back
    }

    /// Moves on to the next frame.
    pub fn increment_frame(&mut self)
        requires
            old(self)@.frame_count < usize::MAX,
        ensures
            final(self)@ == (GGPOSyncView { frame_count: old(self)@.frame_count + 1, ..old(self)@ }),
    {
        self.frame_count = self.frame_count + 1;
    }

    /// Lets every player's queue leave prediction mode.
    pub fn reset_prediction(&mut self, frame_number: FrameNum)
        requires
            old(self)@.wf(),
            reset_ok(old(self)@, frame_number),
        ensures
            final(self)@.wf(),
            final(self)@ == (GGPOSyncView {
                input_queues: reset_queues(old(self)@),
                ..old(self)@
            }),
    {
        let num_players = match &self.config {
            Some(config) => config.num_players,
            None => {
                proof {
                    assert(self@.input_queues =~= reset_queues(old(self)@));
                }
                return;
            },
        };
        let mut i: usize = 0;
        while i < num_players
            invariant
                0 <= i <= num_players,
                num_players == old(self)@.num_players,
                old(self)@.wf(),
                old(self)@.has_config,
                reset_ok(old(self)@, frame_number),
                self@ == (GGPOSyncView { input_queues: self@.input_queues, ..old(self)@ }),
                self@.input_queues.len() == old(self)@.input_queues.len(),
                forall|k: int|
                    0 <= k < self@.input_queues.len() ==> #[trigger] self@.input_queues[k] == if k
                        < i {
                        reset_queues(old(self)@)[k]
                    } else {
                        old(self)@.input_queues[k]
                    },
            decreases num_players - i,
        {
            let mut q = self.input_queues[i];
            let ghost s0 = self.input_queues@;
            proof {
                assert(self@.input_queues[i as int] == s0[i as int]@);
            }
            q.reset_prediction(frame_number);
            self.input_queues.set(i, q);
            proof {
                lemma_queue_update(s0, i as int, q);
            }
            i = i + 1;
        }
        proof {
            assert(self@.input_queues =~= reset_queues(old(self)@));
        }
    }

    /// Looks for the saved state of `frame`; see `saved_index`.
    pub fn find_saved_frame_index(&self, frame: Frame) -> (j: usize)
        requires
            self@.wf(),
        ensures
            j == saved_index(self@, frame),
            j < SAVED_FRAME_COUNT,
    {
        let count = self.saved_frames.len();
        let mut i: usize = 0;
        proof {
            lemma_scan_range(self@.saved_frames, frame, 0);
        }
        while i + 1 < count
            invariant
                count == SAVED_FRAME_COUNT,
                self@.wf(),
                0 <= i < count,
                scan_saved(self@.saved_frames, frame, i as int) == saved_index(self@, frame),
            decreases count - i,
        {
            let same = match (self.saved_frames[i].frame, frame) {
                (Some(a), Some(b)) => a == b,
                (None, None) => true,
                _ => false,
            };
            proof {
                assert(self@.saved_frames[i as int] == self.saved_frames@[i as int]@);
            }
            if same {
                return i;
            }
            i = i + 1;
        }
        count - 1
    }

    /// The state saved last.
    pub fn get_last_saved_frame(&self) -> (f: &SavedFrame)
        requires
            self@.wf(),
        ensures
            f@ == self@.saved_frames[last_saved_index(self@)],
    {
        let i: usize = if self.saved_head == 0 {
            self.saved_frames.len() - 1
        } else {
            self.saved_head - 1
        };
        proof {
            assert(self@.saved_frames[i as int] == self.saved_frames@[i as int]@);
        }
        &self.saved_frames[i]
    }

    /// Saves the current frame into the head slot of the ring: frees the
    /// slot's old buffer through the configured callbacks, stamps the slot
    /// with the frame count, hands it to the session's own callbacks to fill
    /// and advances the head.
    pub fn save_current_frame(&mut self)
        requires
            old(self)@.wf(),
        ensures
            final(self)@.wf(),
            final(self)@ == saved_after(old(self)@),
    {
        let head = self.saved_head;
        let state = self.saved_frames.remove(head);
        let size = state.size;
        let checksum = state.checksum;
        let mut buffer = state.buffer;
        let ghost old_buffer = buffer@;
        match &mut self.config {
            Some(config) => match &mut config.callbacks {
                Some(callbacks) => {
                    callbacks.free_buffer(&buffer);
                    proof {
                        self.calls@ = self.calls@.push(CallbackCall::FreeBuffer { buffer: old_buffer });
                    }
                    buffer.clear();
                },
                None => {},
            },
            None => {},
        }
        let frame: Frame = Some(self.frame_count);
        match &mut self.callbacks {
            Some(callbacks) => {
                let _ = callbacks.save_game_state(&buffer, &size, checksum, frame);
                proof {
                    self.calls@ = self.calls@.push(
                        CallbackCall::SaveGameState { buffer: buffer@, size, checksum, frame },
                    );
                }
            },
            None => {},
        }
        self.saved_frames.insert(head, SavedFrame { size, frame, checksum, buffer });
        self.saved_head = (head + 1) % SAVED_FRAME_COUNT;
        proof {
            assert(self@.saved_frames =~= saved_after(old(self)@).saved_frames);
            assert(self@.calls =~= saved_after(old(self)@).calls);
        }
    }


    /// Loads the saved state of `frame` through the session's callbacks and
    /// moves the frame count and the head of the ring to it (see `loaded`);
    /// a request for the current frame does nothing.
    pub fn load_frame(&mut self, frame: Frame)
        requires
            old(self)@.wf(),
            load_ok(old(self)@, frame),
        ensures
            final(self)@.wf(),
            final(self)@ == loaded(old(self)@, frame),
    {
        let current: Frame = Some(self.frame_count);
        if frame == current {
            return;
        }
        let head = self.find_saved_frame_index(frame);
        self.saved_head = head;
        let size = self.saved_frames[head].size;
        let saved = self.saved_frames[head].frame;
        proof {
            assert(self@.saved_frames[head as int] == self.saved_frames@[head as int]@);
        }
        match &mut self.callbacks {
            Some(callbacks) => {
                let _ = callbacks.load_game_state(&self.saved_frames[head].buffer, size);
                proof {
                    self.calls@ = self.calls@.push(
                        CallbackCall::LoadGameState { buffer: self@.saved_frames[head as int].buffer, size },
                    );
                }
            },
            None => {},
        }
        self.frame_count = match saved {
            Some(f) => f,
            None => self.frame_count,
        };
        self.saved_head = (head + 1) % SAVED_FRAME_COUNT;
    }

    /// Whether every player's prediction was right: sets `seek_to` to the
    /// earliest incorrect frame and returns false when one was wrong; an
    /// unconfigured layer is an error.
    pub fn check_simulation_consistency(&mut self, seek_to: &mut FrameNum) -> (r: Result<
        bool,
        SyncError,
    >)
        requires
            old(self)@.wf(),
        ensures
            final(self)@ == old(self)@,
            !old(self)@.has_config ==> r == Err::<bool, SyncError>(SyncError::ConfigNone)
                && *final(seek_to) == *old(seek_to),
            old(self)@.has_config ==> r == Ok::<bool, SyncError>(
                earliest_incorrect(old(self)@.input_queues, old(self)@.num_players as int)
                    is None,
            ),
            old(self)@.has_config ==> *final(seek_to) == match earliest_incorrect(
                old(self)@.input_queues,
                old(self)@.num_players as int,
            ) {
                Some(f) => f,
                None => *old(seek_to),
            },
    {
        let num_players = match &self.config {
            Some(config) => config.num_players,
            None => {
                return Err(SyncError::ConfigNone);
            },
        };
        let mut first_incorrect: Frame = None;
        let mut i: usize = 0;
        while i < num_players
            invariant
                0 <= i <= num_players,
                num_players == self@.num_players,
                self@.wf(),
                first_incorrect == earliest_incorrect(self@.input_queues, i as int),
            decreases num_players - i,
        {
            let incorrect = self.input_queues[i].get_first_incorrect_frame();
            proof {
                assert(self@.input_queues[i as int] == self.input_queues@[i as int]@);
            }
            match (incorrect, first_incorrect) {
                (Some(incorrect), Some(f_cor)) => {
                    first_incorrect = if incorrect < f_cor {
                        Some(incorrect)
                    } else {
                        first_incorrect
                    };
                },
                (Some(incorrect), None) => {
                    first_incorrect = Some(incorrect);
                },
                (None, _) => {},
            }
            i = i + 1;
        }
        if let Some(f_cor) = first_incorrect {
            *seek_to = f_cor;
        } else {
            return Ok(true);
        }
        Ok(false)
    }

    /// Rolls the game back to `seek_to` and runs it forward again to the
    /// current frame. The state is loaded before the frame count is checked
    /// against `seek_to`, so the frame count must already be `seek_to`: the
    /// load is then a no-op and no frame is re-run.
    pub fn adjust_simulation(&mut self, seek_to: FrameNum)
        requires
            old(self)@.wf(),
            seek_to == old(self)@.frame_count,
            reset_ok(old(self)@, seek_to),
        ensures
            final(self)@.wf(),
            final(self)@ == adjusted(old(self)@),
    {
        let framecount = self.frame_count;
        let count = self.frame_count - seek_to;
        self.rolling_back = true;
        self.load_frame(Some(seek_to));
        let frame_count = self.frame_count;
        self.reset_prediction(frame_count);
        match &mut self.callbacks {
            Some(callbacks) => {
                let mut k: usize = 0;
                while k < count
                    decreases count - k,
                {
                    let _ = callbacks.advance_frame(0);
                    k = k + 1;
                }
            },
            None => {},
        }
        self.rolling_back = false;
    }

    /// Checks the predictions of all players and rolls back when one was
    /// wrong; an unconfigured layer is an error. A rollback is possible only
    /// to the current frame (see `adjust_simulation`).
    pub fn check_simulation(&mut self) -> (r: Result<(), SyncError>)
        requires
            old(self)@.wf(),
            old(self)@.has_config ==> (earliest_incorrect(
                old(self)@.input_queues,
                old(self)@.num_players as int,
            ) matches Some(f) ==> f == old(self)@.frame_count),
        ensures
            final(self)@.wf(),
            !old(self)@.has_config ==> r == Err::<(), SyncError>(SyncError::ConfigNone)
                && final(self)@ == old(self)@,
            old(self)@.has_config ==> r == Ok::<(), SyncError>(()),
            old(self)@.has_config ==> final(self)@ == if earliest_incorrect(
                old(self)@.input_queues,
                old(self)@.num_players as int,
            ) is Some {
                adjusted(old(self)@)
            } else {
                old(self)@
            },
    {
        let mut seek_to: FrameNum = 0;
        let consistent = match self.check_simulation_consistency(&mut seek_to) {
            Ok(b) => b,
            Err(e) => {
                return Err(e);
            },
        };
        if !consistent {
            proof {
                lemma_earliest_is_least(self@.input_queues, self@.num_players as int);
            }
            self.adjust_simulation(seek_to);
        }
        Ok(())
    }


    /// Fills `values` with the confirmed input of `frame` (see
    /// `confirmed_byte`) and returns the players whose input was dropped as
    /// bit flags; an unconfigured layer is an error and leaves `values`.
    pub fn get_confirmed_inputs(
        &mut self,
        values: &mut InputBuffer,
        frame: Frame,
        connect_status: &[ConnectStatus],
    ) -> (r: Result<usize, SyncError>)
        requires
            old(self)@.wf(),
            confirmed_inputs_ok(old(self)@, frame, connect_status@),
        ensures
            final(self)@ == old(self)@,
            !old(self)@.has_config ==> r == Err::<usize, SyncError>(SyncError::ConfigNone)
                && *final(values) == *old(values),
            old(self)@.has_config ==> r is Ok,
            old(self)@.has_config ==> forall|i: int|
                0 <= i < INPUT_BUFFER_SIZE ==> (#[trigger] final(values)@[i]) == confirmed_byte(
                    old(self)@,
                    frame,
                    connect_status@,
                    i,
                ),
            r matches Ok(flags) ==> forall|j: usize|
                j < usize::BITS ==> (#[trigger] flag_set(flags, j) <==> (frame matches Some(f) && j
                    < old(self)@.num_players && input_dropped(connect_status@[j as int], f))),
    {
        let num_players = match &self.config {
            Some(config) => config.num_players,
            None => {
                return Err(SyncError::ConfigNone);
            },
        };
        let mut disconnect_flags: usize = 0;
        *values = [48u8; 18];
        proof {
            assert forall|j: usize| j < usize::BITS implies !flag_set(0usize, j) by {
                lemma_no_flags(j);
            }
        }
        let mut i: usize = 0;
        while i < num_players
            invariant
                0 <= i <= num_players,
                num_players == self@.num_players,
                self@ == old(self)@,
                self@.wf(),
                self@.has_config,
                confirmed_inputs_ok(self@, frame, connect_status@),
                forall|k: int|
                    0 <= k < INPUT_BUFFER_SIZE ==> (#[trigger] values@[k]) == if k < i {
                        confirmed_byte(self@, frame, connect_status@, k)
                    } else {
                        48u8
                    },
                forall|j: usize|
                    j < usize::BITS ==> (#[trigger] flag_set(disconnect_flags, j) <==> (
                    frame matches Some(f) && j < i && input_dropped(connect_status@[j as int], f))),
            decreases num_players - i,
        {
            let mut input: GameInput = GameInput::new();
            if let Some(frame_value) = frame {
                let status = connect_status[i];
                let last: FrameNum = match status.last_frame {
                    Some(l) => l,
                    None => 0,
                };
                if status.disconnected && (frame_value as i32 as i64) > (last as i32 as i64) - 1 {
                    let ghost before = disconnect_flags;
                    disconnect_flags = disconnect_flags | (1usize << i);
                    proof {
                        assert forall|j: usize| j < usize::BITS implies (flag_set(disconnect_flags, j)
                            <==> (frame matches Some(f) && j < i + 1 && input_dropped(
                            connect_status@[j as int],
                            f,
                        ))) by {
                            lemma_flag_or(before, i, j);
                        }
                    }
                    input.erase();
                } else {
                    proof {
                        assert(self@.input_queues[i as int] == self.input_queues@[i as int]@);
                    }
                    self.input_queues[i].get_confirmed_input(frame, &mut input);
                }
                values[i] = input.bits[i];
            }
            i = i + 1;
        }
        Ok(disconnect_flags)
    }

    /// Fills `values` with every player's input for the current frame (see
    /// `synchronized_bytes`; the slots after the players are erased) and
    /// returns the players whose input was dropped as bit flags; an
    /// unconfigured layer is an error and leaves `values`.
    pub fn synchronize_inputs(
        &mut self,
        values: &mut Vec<InputBuffer>,
        connect_status: &[ConnectStatus],
    ) -> (r: Result<i32, SyncError>)
        requires
            old(self)@.wf(),
            synchronize_ok(old(self)@, old(values)@.len(), connect_status@),
        ensures
            final(self)@.wf(),
            !old(self)@.has_config ==> r == Err::<i32, SyncError>(SyncError::ConfigNone)
                && *final(values) == *old(values) && final(self)@ == old(self)@,
            old(self)@.has_config ==> r is Ok,
            old(self)@.has_config ==> final(self)@ == (GGPOSyncView {
                input_queues: synchronized_queues(old(self)@, connect_status@),
                ..old(self)@
            }),
            old(self)@.has_config ==> final(values)@.len() == old(values)@.len(),
            old(self)@.has_config ==> forall|i: int|
                0 <= i < final(values)@.len() ==> (#[trigger] final(values)@[i])@ == if i
                    < old(self)@.num_players {
                    synchronized_bytes(old(self)@, connect_status@, i)
                } else {
                    erased_bits()
                },
            r matches Ok(flags) ==> forall|j: u32|
                j < 32 ==> (#[trigger] flag_set32(flags as u32, j) <==> (j < old(self)@.num_players
                    && sync_dropped(old(self)@, connect_status@, j as int))),
    {
        let num_players = match &self.config {
            Some(config) => config.num_players,
            None => {
                return Err(SyncError::ConfigNone);
            },
        };
        let mut disconnect_flags: u32 = 0;
        let n = values.len();
        let mut k: usize = 0;
        while k < n
            invariant
                0 <= k <= n,
                n == values@.len(),
                values@.len() == old(values)@.len(),
                forall|m: int| 0 <= m < k ==> (#[trigger] values@[m])@ == erased_bits(),
            decreases n - k,
        {
            let erased: InputBuffer = [48u8; 18];
            assert(erased@ =~= erased_bits());
            values.set(k, erased);
            k = k + 1;
        }
        proof {
            assert forall|j: u32| j < 32 implies !flag_set32(0u32, j) by {
                lemma_no_flags32(j);
            }
        }
        let frame_count = self.frame_count;
        let mut i: usize = 0;
        while i < num_players
            invariant
                0 <= i <= num_players,
                num_players == old(self)@.num_players,
                frame_count == old(self)@.frame_count,
                old(self)@.wf(),
                old(self)@.has_config,
                synchronize_ok(old(self)@, old(values)@.len(), connect_status@),
                self@ == (GGPOSyncView { input_queues: self@.input_queues, ..old(self)@ }),
                self@.input_queues.len() == old(self)@.input_queues.len(),
                forall|m: int|
                    0 <= m < self@.input_queues.len() ==> #[trigger] self@.input_queues[m] == if m
                        < i {
                        synchronized_queues(old(self)@, connect_status@)[m]
                    } else {
                        old(self)@.input_queues[m]
                    },
                values@.len() == old(values)@.len(),
                forall|m: int|
                    0 <= m < values@.len() ==> (#[trigger] values@[m])@ == if m < i {
                        synchronized_bytes(old(self)@, connect_status@, m)
                    } else {
                        erased_bits()
                    },
                forall|j: u32|
                    j < 32 ==> (#[trigger] flag_set32(disconnect_flags, j) <==> (j < i
                        && sync_dropped(old(self)@, connect_status@, j as int))),
            decreases num_players - i,
        {
            let mut input: GameInput = GameInput::new();
            let status = connect_status[i];
            let last: FrameNum = match status.last_frame {
                Some(l) => l,
                None => 0,
            };
            if status.disconnected && (frame_count as i32 as i64) > (last as i32 as i64) - 1 {
                let ghost before = disconnect_flags;
                proof {
                    assert(sync_dropped(old(self)@, connect_status@, i as int));
                }
                let shift: u32 = i as u32;
                disconnect_flags = disconnect_flags | (1u32 << shift);
                proof {
                    assert forall|j: u32| j < 32 implies (flag_set32(disconnect_flags, j) <==> (j < i
                        + 1 && sync_dropped(old(self)@, connect_status@, j as int))) by {
                        lemma_flag_or32(before, shift, j);
                    }
                }
                input.erase();
            } else {
                let mut q = self.input_queues[i];
                let ghost s0 = self.input_queues@;
                proof {
                    assert(self@.input_queues[i as int] == s0[i as int]@);
                    assert(q@ == old(self)@.input_queues[i as int]);
                }
                q.get_input(frame_count, &mut input);
                self.input_queues.set(i, q);
                proof {
                    lemma_queue_update(s0, i as int, q);
                }
            }
            values.set(i, input.bits);
            i = i + 1;
        }
        proof {
            assert(self@.input_queues =~= synchronized_queues(old(self)@, connect_status@));
            let flags = disconnect_flags;
            assert((flags as i32) as u32 == flags) by (bit_vector);
        }
        Ok(disconnect_flags as i32)
    }

}



/// Whether bit `j` of `x` is set.
pub open spec fn flag_set(x: usize, j: usize) -> bool {
    (x >> j) & 1usize == 1usize
}

/// Whether the input of a player with status `s` is dropped at frame `f`:
/// the player is disconnected and `f`, taken as an `i32`, is greater than its
/// last frame (zero when none) taken as an `i32`, less one.
pub open spec fn input_dropped(s: ConnectStatus, f: usize) -> bool {
    s.disconnected && (f as i32) as int > (match s.last_frame {
        Some(l) => l,
        None => 0usize,
    } as i32) as int - 1
}

proof fn lemma_no_flags(j: usize)
    by (bit_vector)
    requires
        j < usize::BITS,
    ensures
        !flag_set(0usize, j),
{
}

proof fn lemma_flag_or(x: usize, i: usize, j: usize)
    by (bit_vector)
    requires
        i < 32,
        j < usize::BITS,
    ensures
        flag_set(x | (1usize << i), j) <==> (flag_set(x, j) || i == j),
{
}

/// Whether bit `j` of `x` is set.
pub open spec fn flag_set32(x: u32, j: u32) -> bool {
    (x >> j) & 1u32 == 1u32
}

proof fn lemma_no_flags32(j: u32)
    by (bit_vector)
    requires
        j < 32,
    ensures
        !flag_set32(0u32, j),
{
}

proof fn lemma_flag_or32(x: u32, i: u32, j: u32)
    by (bit_vector)
    requires
        i < 32,
        j < 32,
    ensures
        flag_set32(x | (1u32 << i), j) <==> (flag_set32(x, j) || i == j),
{
}

/// Replacing one queue replaces its view.
proof fn lemma_queue_update(s: Seq<InputQueue>, i: int, q: InputQueue)
    requires
        0 <= i < s.len(),
    ensures
        s.update(i, q).map_values(|x: InputQueue| x@) =~= s.map_values(|x: InputQueue| x@).update(
            i,
            q@,
        ),
{
}


/// After a save, the last saved state is the one just saved: it holds the
/// frame the layer was at.
pub proof fn lemma_last_saved_is_saved(v: GGPOSyncView)
    requires
        v.wf(),
    ensures
        saved_after(v).saved_frames[last_saved_index(saved_after(v))].frame == Some(
            v.frame_count as usize,
        ),
        last_saved_index(saved_after(v)) == v.saved_head,
{
}

/// Loading a frame other than the current one whose state is in the ring
/// (first in slot `k`) moves the layer to that frame, puts the head just
/// past slot `k` as if the frame had just been saved, and hands the state
/// saved in slot `k` to the callbacks.
pub proof fn lemma_load_restores_saved(v: GGPOSyncView, f: FrameNum, k: int)
    requires
        v.wf(),
        0 <= k < SAVED_FRAME_COUNT,
        v.saved_frames[k].frame == Some(f),
        forall|j: int| 0 <= j < k ==> (#[trigger] v.saved_frames[j]).frame != Some(f),
        f != v.frame_count as usize,
    ensures
        saved_index(v, Some(f)) == k,
        loaded(v, Some(f)).frame_count == f,
        loaded(v, Some(f)).saved_head == (k + 1) % (SAVED_FRAME_COUNT as int),
        v.has_callbacks ==> loaded(v, Some(f)).calls == v.calls.push(
            CallbackCall::LoadGameState { buffer: v.saved_frames[k].buffer, size: v.saved_frames[k].size },
        ),
        !v.has_callbacks ==> loaded(v, Some(f)).calls == v.calls,
{
    lemma_scan_holds(v.saved_frames, Some(f), 0, k);
    lemma_scan_range(v.saved_frames, Some(f), 0);
    let i = saved_index(v, Some(f));
    if i < k {
        assert(v.saved_frames[i].frame != Some(f));
    }
}

/// Which players' inputs `synchronize_inputs` keeps: a connected player is
/// always kept, and a disconnected one is kept at every frame before its
/// last frame (compared as `i32`, as the frame numbers are sent), so its
/// bytes are what its queue gives for the current frame; from its last
/// frame on it is dropped and its bytes erased; a dropped player is always
/// a disconnected one.
pub proof fn lemma_synchronize_keeps_inputs_before_disconnect(
    v: GGPOSyncView,
    status: Seq<ConnectStatus>,
    i: int,
    l: usize,
)
    requires
        0 <= i < v.num_players,
        i < status.len(),
    ensures
        sync_dropped(v, status, i) ==> status[i].disconnected,
        !status[i].disconnected ==> !sync_dropped(v, status, i) && synchronized_bytes(v, status, i)
            == requested_input(v.input_queues[i], v.frame_count as int).bits_view(),
        (status[i].disconnected && status[i].last_frame == Some(l) && (v.frame_count as usize
            as i32) as int <= (l as i32) as int - 1) ==> !sync_dropped(v, status, i)
            && synchronized_bytes(v, status, i) == requested_input(
            v.input_queues[i],
            v.frame_count as int,
        ).bits_view(),
        (status[i].disconnected && status[i].last_frame == Some(l) && (v.frame_count as usize
            as i32) as int > (l as i32) as int - 1) ==> sync_dropped(v, status, i)
            && synchronized_bytes(v, status, i) == erased_bits(),
{
}

/// The same for `get_confirmed_inputs` at frame `f`: a connected player,
/// or a disconnected one at a frame before its last frame, is kept, and
/// each byte is its queue's confirmed input for `f` when the queue holds
/// that frame.
pub proof fn lemma_confirmed_keeps_inputs_before_disconnect(
    v: GGPOSyncView,
    status: Seq<ConnectStatus>,
    f: usize,
    i: int,
    l: usize,
)
    requires
        0 <= i < v.num_players,
        i < status.len(),
        !status[i].disconnected || (status[i].last_frame == Some(l) && (f as i32) as int <= (l as i32) as int
            - 1),
        v.input_queues[i].inputs[v.input_queues[i].slot_of(f as int)].frame == Some(f),
    ensures
        !input_dropped(status[i], f),
        confirmed_byte(v, Some(f), status, i) == v.input_queues[i].inputs[v.input_queues[i].slot_of(
            f as int,
        )].bits_view()[i],
{
}

} // verus!
