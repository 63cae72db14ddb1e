//! The synchronisation test session: a single machine plays every player,
//! inputs are merged into one buffer and handed back, and the
//! synchronisation layer saves the first frame.
use vstd::prelude::*;
use crate::game_input::{Frame, GameInput, InputBuffer, GAMEINPUT_MAX_BYTES, GAMEINPUT_MAX_PLAYERS};
use crate::ggpo::{Event as SessionEvent, GGPOError, GGPOSessionCallbacks, GGPO_MAX_PREDICTION_FRAMES};
use crate::player::{Player, PlayerHandle};
use crate::sync::{Config, GGPOSync, GGPOSyncView, SyncError, saved_after};
use crate::udp_proto::UdpProtoError;

verus! {

/// Errors of the synchronisation test session.
#[derive(Debug, Clone, PartialEq, Eq)]
pub enum SyncTestError {
    UdpProtocol { source: UdpProtoError },
    LastFrameNone,
    SpectatorFrameNone,
    CurrentRemoteFrameNone,
    GGPO(String),
    Sync { source: SyncError },
    SavedFramesEmpty,
}

/// A frame saved for checking: its number, checksum, state and input.
pub struct SavedInfo {
    pub frame: Frame,
    pub checksum: u32,
    pub buf: Vec<u8>,
    pub cbuf: usize,
    pub input: GameInput,
}

/// A frame saved for checking, as the session's view holds it.
pub ghost struct SavedInfoView {
    pub frame: Frame,
    pub checksum: u32,
    pub buf: Seq<u8>,
    pub cbuf: usize,
    pub input: GameInput,
}

/// The state of a synchronisation test session.
pub ghost struct SyncTestView {
    pub sync: GGPOSyncView,
    pub num_players: nat,
    pub check_distance: u32,
    pub last_verified: u32,
    pub rolling_back: bool,
    pub running: bool,
    pub game: Seq<u8>,
    pub current_input: GameInput,
    pub last_input: GameInput,
    /// The saved frames, oldest first.
    pub saved: Seq<SavedInfoView>,
    /// The events handed to the client's callbacks so far, oldest first.
    pub events: Seq<SessionEvent>,
}

/// A synchronisation test session.
pub struct SyncTestBackend<T: GGPOSessionCallbacks> {
    callbacks: T,
    sync: GGPOSync<T>,
    num_players: usize,
    check_distance: u32,
    last_verified: u32,
    rolling_back: bool,
    running: bool,
    game: [u8; 128],
    current_input: GameInput,
    last_input: GameInput,
    saved_frames: std::collections::VecDeque<SavedInfo>,
    events_sent: Ghost<Seq<SessionEvent>>,
}

impl<T: GGPOSessionCallbacks> View for SyncTestBackend<T> {
    type V = SyncTestView;

    closed spec fn view(&self) -> SyncTestView {
        SyncTestView {
            sync: self.sync@,
            num_players: self.num_players as nat,
            check_distance: self.check_distance,
            last_verified: self.last_verified,
            rolling_back: self.rolling_back,
            running: self.running,
            game: self.game@,
            current_input: self.current_input,
            last_input: self.last_input,
            saved: self.saved_frames@.map_values(
                |f: SavedInfo|
                    SavedInfoView {
                        frame: f.frame,
                        checksum: f.checksum,
                        buf: f.buf@,
                        cbuf: f.cbuf,
                        input: f.input,
                    },
            ),
            events: self.events_sent@,
        }
    }
}

impl SyncTestView {
    /// What holds of a session between calls: its synchronisation layer is
    /// configured and well formed.
    pub open spec fn wf(self) -> bool {
        self.sync.wf() && self.sync.has_config
    }
}

/// The input after player `index` ORs `values` into its bytes: each player
/// owns `GAMEINPUT_MAX_BYTES` bytes of the buffer, in player order.
pub open spec fn merged_input(g: GameInput, index: int, values: Seq<u8>) -> Seq<u8> {
    Seq::new(
        18,
        |k: int|
            if index * 9 <= k < index * 9 + 9 {
                g.bits_view()[k] | values[k]
            } else {
                g.bits_view()[k]
            },
    )
}

impl<T: GGPOSessionCallbacks> SyncTestBackend<T> {
    /// A session of `num_players` players that checks `frames` frames back;
    /// its synchronisation layer has the callbacks, the prediction limit and
    /// no players of its own.
    pub fn new(callbacks: T, frames: u32, num_players: usize) -> (r: Result<Self, SyncTestError>)
        ensures
            r matches Ok(s) && {
                &&& s@.wf()
                &&& s@.num_players == num_players
                &&& s@.check_distance == frames
                &&& s@.last_verified == 0
                &&& !s@.rolling_back
                &&& !s@.running
                &&& s@.game == Seq::new(128, |i: int| 48u8)
                &&& s@.current_input == GameInput::blank()
                &&& s@.last_input == GameInput::blank()
                &&& s@.saved.len() == 0
                &&& s@.events.len() == 0
                &&& s@.sync.max_prediction_frames == GGPO_MAX_PREDICTION_FRAMES
                &&& s@.sync.num_players == 0
                &&& s@.sync.config_has_callbacks
                &&& s@.sync.frame_count == 0
                &&& !s@.sync.rolling_back
            },
    {
        let mut sync_config: Config<T> = Config::new();
        sync_config.callbacks = Some(callbacks.clone());
        sync_config.num_prediction_frames = GGPO_MAX_PREDICTION_FRAMES;
        let mut sync: GGPOSync<T> = GGPOSync::new();
        sync.init(sync_config);
        let game = [48u8; 128];
        let s = SyncTestBackend {
            callbacks,
            sync,
            num_players,
            check_distance: frames,
            last_verified: 0,
            rolling_back: false,
            running: false,
            game,
            current_input: GameInput::new(),
            last_input: GameInput::new(),
            saved_frames: std::collections::VecDeque::new(),
            events_sent: Ghost(Seq::empty()),
        };
        proof {
            assert(s@.game =~= Seq::new(128, |i: int| 48u8));
            assert(s@.saved =~= Seq::<SavedInfoView>::empty());
        }
        Ok(s)
    }

    /// Tells the client once that the session is running.
    pub fn do_poll(&mut self, _timeout_ms: Option<u64>) -> (r: Result<(), GGPOError>)
        ensures
            r is Ok,
            old(self)@.running ==> final(self)@ == old(self)@,
            !old(self)@.running ==> final(self)@ == (SyncTestView {
                running: true,
                events: old(self)@.events.push(SessionEvent::Running),
                ..old(self)@
            }),
    {
        if !self.running {
            let info = SessionEvent::Running;
            self.callbacks.on_event(&info);
            self.events_sent = Ghost(self.events_sent@.push(info));
            self.running = true;
        }
        Ok(())
    }

    /// Gives a player with a number from 1 to the session's players the
    /// handle one less than its number.
    pub fn add_player(&mut self, player: Player, handle: &mut PlayerHandle) -> (r: Result<(), GGPOError>)
        requires
            1 <= player.player_num <= old(self)@.num_players ==> player.player_num as u32 >= 1,
        ensures
            final(self)@ == old(self)@,
            1 <= player.player_num <= old(self)@.num_players ==> r is Ok && *final(handle) == (
            player.player_num as u32) - 1,
            !(1 <= player.player_num <= old(self)@.num_players) ==> r == Err::<(), GGPOError>(
                GGPOError::PlayerOutOfRange,
            ) && *final(handle) == *old(handle),
    {
        if player.player_num < 1 || player.player_num > self.num_players {
            return Err(GGPOError::PlayerOutOfRange);
        }
        *handle = player.player_num as u32 - 1;
        Ok(())
    }

    /// Merges the input bytes of player `player` from `values` into the
    /// current input; refused until the session runs.
    pub fn add_local_input(&mut self, player: PlayerHandle, values: &InputBuffer, size: usize) -> (r:
        Result<(), GGPOError>)
        requires
            old(self)@.running ==> player < GAMEINPUT_MAX_PLAYERS,
        ensures
            !old(self)@.running ==> r == Err::<(), GGPOError>(GGPOError::NotSynchronized)
                && final(self)@ == old(self)@,
            old(self)@.running ==> r is Ok && final(self)@ == (SyncTestView {
                current_input: GameInput {
                    bits: final(self)@.current_input.bits,
                    ..old(self)@.current_input
                },
                ..old(self)@
            }) && final(self)@.current_input.bits_view() == merged_input(
                old(self)@.current_input,
                player as int,
                values@,
            ),
    {
        if !self.running {
            return Err(GGPOError::NotSynchronized);
        }
        let index = player as usize;
        let mut i: usize = 0;
        while i < GAMEINPUT_MAX_BYTES
            invariant
                0 <= i <= GAMEINPUT_MAX_BYTES,
                index < GAMEINPUT_MAX_PLAYERS,
                self@ == (SyncTestView {
                    current_input: GameInput { bits: self@.current_input.bits, ..old(self)@.current_input },
                    ..old(self)@
                }),
                forall|k: int|
                    0 <= k < 18 ==> #[trigger] self.current_input.bits@[k] == if index * 9 <= k < index
                        * 9 + i {
                        old(self)@.current_input.bits_view()[k] | values@[k]
                    } else {
                        old(self)@.current_input.bits_view()[k]
                    },
            decreases GAMEINPUT_MAX_BYTES - i,
        {
            let k = index * GAMEINPUT_MAX_BYTES + i;
            let b = self.current_input.bits[k] | values[k];
            self.current_input.bits[k] = b;
            i = i + 1;
        }
        proof {
            assert(self@.current_input.bits_view() =~= merged_input(old(self)@.current_input, player as int, values@));
        }
        Ok(())
    }

    /// Hands back the inputs: the input of the oldest saved frame while
    /// rolling back (an error when none is saved), else the current input,
    /// after saving the first frame; no player is ever dropped.
    pub fn synchronize_input(
        &mut self,
        values: &mut Vec<InputBuffer>,
        disconnect_flags: Option<&mut i32>,
    ) -> (r: Result<(), GGPOError>)
        requires
            old(self)@.wf(),
        ensures
            final(self)@.wf(),
            old(self)@.rolling_back && old(self)@.saved.len() == 0 ==> r == Err::<(), GGPOError>(
                GGPOError::GeneralFailure,
            ) && final(self)@ == old(self)@ && *final(values) == *old(values),
            old(self)@.rolling_back && old(self)@.saved.len() > 0 ==> r is Ok && final(self)@
                == (SyncTestView { last_input: old(self)@.saved[0].input, ..old(self)@ })
                && final(values)@ == old(values)@.push(old(self)@.saved[0].input.bits),
            !old(self)@.rolling_back ==> r is Ok && final(self)@ == (SyncTestView {
                last_input: old(self)@.current_input,
                sync: if old(self)@.sync.frame_count == 0 {
                    saved_after(old(self)@.sync)
                } else {
                    old(self)@.sync
                },
                ..old(self)@
            }) && final(values)@ == old(values)@.push(old(self)@.current_input.bits),
    {
        if self.rolling_back {
            if self.saved_frames.len() == 0 {
                return Err(GGPOError::GeneralFailure);
            }
            self.last_input = self.saved_frames[0].input;
        } else {
            if self.sync.get_frame_count() == 0 {
                self.sync.save_current_frame();
            }
            self.last_input = self.current_input;
        }
        values.push(self.last_input.bits);
        if let Some(flags) = disconnect_flags {
            *flags = 0;
        }
        Ok(())
    }
}

} // verus!
