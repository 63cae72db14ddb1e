//! Frame-advantage bookkeeping that recommends how many frames the side
//! that runs ahead should wait.
use vstd::prelude::*;
use crate::game_input::GameInput;

verus! {

/// Frames over which advantages are averaged.
pub const FRAME_WINDOW_SIZE: usize = 40;

/// Recent inputs that must agree before a wait is recommended.
pub const MIN_UNIQUE_FRAMES: usize = 10;

/// Smallest wait worth recommending.
pub const MIN_FRAME_ADVANTAGE: usize = 3;

/// Largest wait ever recommended.
pub const MAX_FRAME_ADVANTAGE: usize = 9;

/// The recorded advantages and recent inputs.
pub ghost struct TimeSyncView {
    pub local: Seq<i32>,
    pub remote: Seq<i32>,
    pub last_inputs: Seq<GameInput>,
    pub next_prediction: nat,
}

/// Sum of the first `n` entries of `s`.
pub open spec fn sum_prefix(s: Seq<i32>, n: int) -> int
    decreases n,
{
    if n <= 0 {
        0
    } else {
        sum_prefix(s, n - 1) + s[n - 1]
    }
}

/// Time synchronisation state of one endpoint.
pub struct TimeSync {
    local: [i32; 40],
    remote: [i32; 40],
    last_inputs: [GameInput; 10],
    next_prediction: usize,
}

impl View for TimeSync {
    type V = TimeSyncView;

    closed spec fn view(&self) -> TimeSyncView {
        TimeSyncView {
            local: self.local@,
            remote: self.remote@,
            last_inputs: self.last_inputs@,
            next_prediction: self.next_prediction as nat,
        }
    }
}

impl TimeSyncView {
    /// The sizes of the windows.
    pub open spec fn wf(self) -> bool {
        self.local.len() == 40 && self.remote.len() == 40 && self.last_inputs.len() == 10
    }

    /// Whether every recorded input has the bits and size of the first one.
    pub open spec fn inputs_idle(self) -> bool {
        forall|i: int|
            1 <= i < 10 ==> (#[trigger] self.last_inputs[i]).size == self.last_inputs[0].size
                && self.last_inputs[i].bits_view() == self.last_inputs[0].bits_view()
    }
}

/// What `recommend_frame_wait_duration` recommends, given how many frames
/// the averaged advantages say to sleep (`None` when the local side is not
/// behind): nothing when that is below `MIN_FRAME_ADVANTAGE` or when idle
/// input is required and the recent inputs differ, else that many frames,
/// at most `MAX_FRAME_ADVANTAGE`.
pub open spec fn recommended_wait(v: TimeSyncView, require_idle_input: bool, sleep_frames: Option<
    i32,
>) -> i32 {
    match sleep_frames {
        None => 0,
        Some(s) => if s < 3 {
            0
        } else if require_idle_input && !v.inputs_idle() {
            0
        } else if s < 9 {
            s
        } else {
            9
        },
    }
}

impl TimeSync {
    /// Empty windows, with `next_prediction` at three windows.
    pub fn new() -> (t: TimeSync)
        ensures
            t@.wf(),
            forall|i: int| 0 <= i < 40 ==> t@.local[i] == 0 && t@.remote[i] == 0,
            forall|i: int|
                0 <= i < 10 ==> #[trigger] t@.last_inputs[i] == t@.last_inputs[0],
            t@.last_inputs[0].frame is None,
            t@.last_inputs[0].size == 0,
            t@.next_prediction == 120,
    {
        let g = GameInput::new();
        TimeSync {
            local: [0i32; 40],
            remote: [0i32; 40],
            next_prediction: FRAME_WINDOW_SIZE * 3,
            last_inputs: [g; 10],
        }
    }

    /// Records `input` and the local and remote advantages at its frame; an
    /// input with no frame is not recorded.
    pub fn advance_frame(&mut self, input: &GameInput, advantage: i32, r_advantage: i32)
        requires
            old(self)@.wf(),
        ensures
            final(self)@.wf(),
            input.frame is None ==> final(self)@ == old(self)@,
            input.frame matches Some(f) ==> final(self)@ == (TimeSyncView {
                last_inputs: old(self)@.last_inputs.update((f % 10) as int, *input),
                local: old(self)@.local.update((f % 40) as int, advantage),
                remote: old(self)@.remote.update((f % 40) as int, r_advantage),
                ..old(self)@
            }),
    {
        if let Some(frame) = input.frame {
            self.last_inputs[frame % MIN_UNIQUE_FRAMES] = *input;
            self.local[frame % FRAME_WINDOW_SIZE] = advantage;
            self.remote[frame % FRAME_WINDOW_SIZE] = r_advantage;
        }
    }

    /// The sums of the local and of the remote advantages over the window,
    /// from which the averages are taken.
    pub fn advantage_sums(&self) -> (sums: (i64, i64))
        requires
            self@.wf(),
        ensures
            sums.0 == sum_prefix(self@.local, 40),
            sums.1 == sum_prefix(self@.remote, 40),
    {
        let mut sum: i64 = 0;
        let mut r_sum: i64 = 0;
        let mut i: usize = 0;
        while i < FRAME_WINDOW_SIZE
            invariant
                0 <= i <= 40,
                self@.wf(),
                sum == sum_prefix(self@.local, i as int),
                r_sum == sum_prefix(self@.remote, i as int),
                -0x8000_0000 * i <= sum <= 0x7fff_ffff * i,
                -0x8000_0000 * i <= r_sum <= 0x7fff_ffff * i,
            decreases 40 - i,
        {
            sum = sum + self.local[i] as i64;
            r_sum = r_sum + self.remote[i] as i64;
            i = i + 1;
        }
        (sum, r_sum)
    }

    /// Counts the call in `count` and recommends how many frames to wait,
    /// given `sleep_frames`: half the amount by which the averaged remote
    /// advantage exceeds the local one, rounded, or `None` when it does not.
    pub fn recommend_frame_wait_duration(
        &self,
        require_idle_input: bool,
        count: &mut usize,
        sleep_frames: Option<i32>,
    ) -> (wait: i32)
        requires
            self@.wf(),
            *old(count) < usize::MAX,
        ensures
            *final(count) == *old(count) + 1,
            wait == recommended_wait(self@, require_idle_input, sleep_frames),
    {
        *count = *count + 1;
        let ghost count1 = *count;
        let ghost given = sleep_frames;
        let sleep_frames = match sleep_frames {
            None => {
                return 0;
            },
            Some(s) => s,
        };
        if sleep_frames < MIN_FRAME_ADVANTAGE as i32 {
            return 0;
        }
        if require_idle_input {
            let mut i: usize = 1;
            while i < MIN_UNIQUE_FRAMES
                invariant
                    1 <= i <= 10,
                    self@.wf(),
                    *count == count1,
                    count1 == *old(count) + 1,
                    require_idle_input,
                    given == Some(sleep_frames),
                    sleep_frames >= 3,
                    forall|j: int|
                        1 <= j < i ==> (#[trigger] self@.last_inputs[j]).size
                            == self@.last_inputs[0].size && self@.last_inputs[j].bits_view()
                            == self@.last_inputs[0].bits_view(),
                decreases 10 - i,
            {
                if !self.last_inputs[i].equal(&self.last_inputs[0], true) {
                    return 0;
                }
                i = i + 1;
            }
        }
        if sleep_frames < MAX_FRAME_ADVANTAGE as i32 {
            sleep_frames
        } else {
            MAX_FRAME_ADVANTAGE as i32
        }
    }
}


/// A recommended wait is either nothing or between `MIN_FRAME_ADVANTAGE`
/// and `MAX_FRAME_ADVANTAGE` frames.
pub proof fn lemma_wait_bounded(v: TimeSyncView, require_idle_input: bool, sleep_frames: Option<i32>)
    ensures
        recommended_wait(v, require_idle_input, sleep_frames) == 0 || MIN_FRAME_ADVANTAGE
            <= recommended_wait(v, require_idle_input, sleep_frames) <= MAX_FRAME_ADVANTAGE,
{
}

/// A wait asked for with idle input required is recommended only while the
/// user is idle: a nonzero recommendation means that every recorded input
/// has the size and bits of the first, and when any recorded input differs
/// from the first nothing is recommended.
pub proof fn lemma_wait_needs_idle_input(v: TimeSyncView, sleep_frames: Option<i32>, k: int)
    requires
        v.wf(),
        0 <= k < v.last_inputs.len(),
    ensures
        recommended_wait(v, true, sleep_frames) != 0 ==> v.last_inputs[k].size == v.last_inputs[0].size
            && v.last_inputs[k].bits_view() == v.last_inputs[0].bits_view(),
{
    if k > 0 && recommended_wait(v, true, sleep_frames) != 0 {
        assert(v.last_inputs[k].size == v.last_inputs[0].size);
    }
}

} // verus!
