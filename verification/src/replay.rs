//! The replay subsystem: recording the per-frame input stream against a
//! snapshot of the game, and playing both back deterministically.
//!
//! A session is at most one of idle, recording, or playing back. The input
//! stream and the snapshot live in memory here as plain byte sequences — the
//! exact bytes a driver persists to its two slot files — so every transition
//! and read is specified and verified over those bytes.

use vstd::prelude::*;
use crate::codec::{
    decode_game_input, encode_game_input, input_bytes, lemma_fixed_record_size,
    lemma_input_roundtrip, parse_input, GAME_INPUT_RECORD_SIZE,
};
use crate::error::DecodeError;
use crate::game::{decode_game, encode_game, game_bytes, game_wf, parse_game, Game, GameModel};
use crate::input::{ControllerInput, GameInput, CONTROLLER_COUNT};
use crate::voxel::VOXEL_ROW_COUNT;

verus! {

/// The slot identifier used for the single recording/playback pair.
pub const REPLAY_SLOT: usize = 1;

/// How far the camera moves per frame per held movement key.
pub const CAMERA_MOVE_SPEED: i32 = 1;

/// The driver-owned state: the live game plus the replay session.
pub struct State {
    pub game: Game,
    /// `Some` while recording; the slot being recorded to.
    pub input_recording_index: Option<usize>,
    /// `Some` while playing back; the slot being read from.
    pub input_playback_index: Option<usize>,
    /// The input stream: concatenated fixed-size input records.
    pub recording: Vec<u8>,
    /// The snapshot taken when recording began.
    pub snapshot: Vec<u8>,
    /// The read position inside `recording` during playback.
    pub playback_pos: usize,
}

/// The mathematical view of a `State`.
#[verifier::ext_equal]
pub struct StateModel {
    pub game: GameModel,
    pub input_recording_index: Option<usize>,
    pub input_playback_index: Option<usize>,
    pub recording: Seq<u8>,
    pub snapshot: Seq<u8>,
    pub playback_pos: int,
}

impl View for State {
    type V = StateModel;

    open spec fn view(&self) -> StateModel {
        StateModel {
            game: self.game@,
            input_recording_index: self.input_recording_index,
            input_playback_index: self.input_playback_index,
            recording: self.recording@,
            snapshot: self.snapshot@,
            playback_pos: self.playback_pos as int,
        }
    }
}

impl State {
    /// A fresh idle state around a game.
    pub fn new(game: Game) -> (r: State)
        ensures
            r@.game == game@,
            r@.input_recording_index is None,
            r@.input_playback_index is None,
            r@.recording == Seq::<u8>::empty(),
            r@.snapshot == Seq::<u8>::empty(),
            r@.playback_pos == 0,
    {
        let r = State {
            game,
            input_recording_index: None,
            input_playback_index: None,
            recording: Vec::new(),
            snapshot: Vec::new(),
            playback_pos: 0,
        };
        proof {
            assert(r@.recording =~= Seq::<u8>::empty());
            assert(r@.snapshot =~= Seq::<u8>::empty());
        }
        r
    }
}

/// Beginning a recording: remember the slot, start an empty input stream,
/// and snapshot the current game.
pub open spec fn begin_recording_spec(m: StateModel, idx: usize) -> StateModel {
    StateModel {
        input_recording_index: Some(idx),
        recording: Seq::empty(),
        snapshot: game_bytes(m.game),
        ..m
    }
}

/// Ending a recording closes the stream sink; stream and snapshot stay.
pub open spec fn end_recording_spec(m: StateModel) -> StateModel {
    StateModel { input_recording_index: None, ..m }
}

/// Recording one frame appends its fixed-size encoding to the stream.
pub open spec fn record_spec(m: StateModel, cs: Seq<ControllerInput>) -> StateModel {
    StateModel { recording: m.recording + input_bytes(cs), ..m }
}

/// Beginning playback: remember the slot, rewind the stream, and restore the
/// game from the snapshot; a snapshot that does not decode is an error.
pub open spec fn begin_playback_spec(m: StateModel, idx: usize) -> Result<StateModel, DecodeError> {
    match parse_game(m.snapshot) {
        Ok(g) => Ok(
            StateModel { input_playback_index: Some(idx), playback_pos: 0, game: g, ..m },
        ),
        Err(e) => Err(e),
    }
}

/// Ending playback closes the stream source.
pub open spec fn end_playback_spec(m: StateModel) -> StateModel {
    StateModel { input_playback_index: None, ..m }
}

/// One playback read. While a whole record remains, it is decoded and the
/// position advances (`Some` of the decoded controllers). At end of stream
/// the session loops instead: the stream rewinds and the snapshot is
/// restored, and no input is fabricated for that frame (`None`).
pub open spec fn playback_spec(m: StateModel) -> Result<
    (StateModel, Option<Seq<ControllerInput>>),
    DecodeError,
> {
    if m.playback_pos + GAME_INPUT_RECORD_SIZE <= m.recording.len() {
        match parse_input(
            m.recording.subrange(m.playback_pos, m.playback_pos + GAME_INPUT_RECORD_SIZE),
        ) {
            Ok(cs) => Ok(
                (StateModel { playback_pos: m.playback_pos + GAME_INPUT_RECORD_SIZE, ..m }, Some(cs)),
            ),
            Err(e) => Err(e),
        }
    } else {
        match parse_game(m.snapshot) {
            Ok(g) => Ok((StateModel { game: g, playback_pos: 0, ..m }, None)),
            Err(e) => Err(e),
        }
    }
}

/// Begins recording input into a slot: clears the stream and snapshots the
/// current game state.
pub fn begin_recording_input(state: &mut State, input_recording_index: usize)
    requires
        old(state).game.chunk.rows@.len() == VOXEL_ROW_COUNT,
    ensures
        final(state)@ == begin_recording_spec(old(state)@, input_recording_index),
{
    state.input_recording_index = Some(input_recording_index);
    state.recording = Vec::new();
    state.snapshot = encode_game(&state.game);
    proof {
        assert(state@ =~~= begin_recording_spec(old(state)@, input_recording_index));
    }
}

/// Ends the recording; the stream and snapshot remain for playback.
pub fn end_recording_input(state: &mut State)
    ensures
        final(state)@ == end_recording_spec(old(state)@),
{
    state.input_recording_index = None;
    proof {
        assert(state@ =~~= end_recording_spec(old(state)@));
    }
}

/// Begins playback of a slot: rewinds the stream and restores the game from
/// the snapshot. Fails, leaving the state untouched, if the snapshot does
/// not decode.
pub fn begin_input_playback(state: &mut State, input_playback_index: usize) -> (r: Result<
    (),
    DecodeError,
>)
    ensures
        match r {
            Ok(_) => begin_playback_spec(old(state)@, input_playback_index) == Ok::<
                StateModel,
                DecodeError,
            >(final(state)@),
            Err(e) => {
                &&& begin_playback_spec(old(state)@, input_playback_index) == Err::<
                    StateModel,
                    DecodeError,
                >(e)
                &&& *final(state) == *old(state)
            },
        },
{
    match decode_game(&state.snapshot) {
        Ok(g) => {
            state.game = g;
            state.input_playback_index = Some(input_playback_index);
            state.playback_pos = 0;
            proof {
                assert(begin_playback_spec(old(state)@, input_playback_index)->Ok_0 =~~= state@);
            }
            Ok(())
        },
        Err(e) => Err(e),
    }
}

/// Ends playback; the stream and snapshot remain.
pub fn end_input_playback(state: &mut State)
    ensures
        final(state)@ == end_playback_spec(old(state)@),
{
    state.input_playback_index = None;
    proof {
        assert(state@ =~~= end_playback_spec(old(state)@));
    }
}

/// Records one frame's input: appends its fixed-size encoding to the open
/// stream. Only legal while recording.
pub fn record_input(state: &mut State, new_input: &GameInput)
    requires
        old(state).input_recording_index is Some,
    ensures
        final(state)@ == record_spec(old(state)@, new_input@),
{
    let mut encoded = encode_game_input(new_input);
    state.recording.append(&mut encoded);
    proof {
        assert(state@ =~~= record_spec(old(state)@, new_input@));
    }
}

/// Copies `len` bytes starting at `start`.
fn copy_range(v: &Vec<u8>, start: usize, len: usize) -> (r: Vec<u8>)
    requires
        start + len <= usize::MAX,
        start + len <= v@.len(),
    ensures
        r@ == v@.subrange(start as int, start as int + len),
{
    let mut r: Vec<u8> = Vec::new();
    let mut i: usize = 0;
    while i < len
        invariant
            start + len <= usize::MAX,
            start + len <= v@.len(),
            i <= len,
            r@.len() == i,
            forall|j: int| 0 <= j < i ==> r@[j] == v@[start + j],
        decreases len - i,
    {
        r.push(v[start + i]);
        i += 1;
    }
    proof {
        assert(r@ =~= v@.subrange(start as int, start as int + len));
    }
    r
}

/// One playback read into `new_input`. Reads and decodes exactly one
/// fixed-size record while one remains; at end of stream it loops — rewinds
/// the stream, restores the snapshotted game, and leaves `new_input`
/// untouched for this frame. A record or snapshot that does not decode is an
/// error, with the state and input left unchanged.
pub fn playback_input(state: &mut State, new_input: &mut GameInput) -> (r: Result<(), DecodeError>)
    requires
        old(state).input_playback_index is Some,
    ensures
        match r {
            Ok(_) => {
                &&& playback_spec(old(state)@) is Ok
                &&& final(state)@ == playback_spec(old(state)@)->Ok_0.0
                &&& match playback_spec(old(state)@)->Ok_0.1 {
                    Some(cs) => final(new_input)@ == cs,
                    None => final(new_input)@ == old(new_input)@,
                }
            },
            Err(e) => {
                &&& playback_spec(old(state)@) == Err::<
                    (StateModel, Option<Seq<ControllerInput>>),
                    DecodeError,
                >(e)
                &&& *final(state) == *old(state)
                &&& final(new_input)@ == old(new_input)@
            },
        },
{
    let len = state.recording.len();
    if GAME_INPUT_RECORD_SIZE <= len && state.playback_pos <= len - GAME_INPUT_RECORD_SIZE {
        let record = copy_range(&state.recording, state.playback_pos, GAME_INPUT_RECORD_SIZE);
        match decode_game_input(&record) {
            Ok(decoded) => {
                *new_input = decoded;
                state.playback_pos = state.playback_pos + GAME_INPUT_RECORD_SIZE;
                proof {
                    assert(playback_spec(old(state)@)->Ok_0.0 =~~= state@);
                }
                Ok(())
            },
            Err(e) => Err(e),
        }
    } else {
        // end of the take: close and reopen the stream, reload the snapshot
        match decode_game(&state.snapshot) {
            Ok(g) => {
                state.game = g;
                state.playback_pos = 0;
                proof {
                    assert(playback_spec(old(state)@)->Ok_0.0 =~~= state@);
                }
                Ok(())
            },
            Err(e) => Err(e),
        }
    }
}

/// Camera movement for one frame: up/down move y, left/right move x, with
/// the first held direction of each pair winning.
pub open spec fn camera_moved(offset: int, neg: bool, pos: bool) -> int {
    if neg {
        offset - CAMERA_MOVE_SPEED
    } else if pos {
        offset + CAMERA_MOVE_SPEED
    } else {
        offset
    }
}

/// Advances the simulation by one frame: applies the keyboard controller's
/// held movement keys to the camera offsets. The chunk itself is never
/// touched.
pub fn update_game(game: &mut Game, input: &GameInput)
    requires
        input@.len() >= 1,
        input@[0].move_up.ended_down ==> old(game).y_offset > i32::MIN,
        !input@[0].move_up.ended_down && input@[0].move_down.ended_down ==> old(
            game,
        ).y_offset < i32::MAX,
        input@[0].move_left.ended_down ==> old(game).x_offset > i32::MIN,
        !input@[0].move_left.ended_down && input@[0].move_right.ended_down ==> old(
            game,
        ).x_offset < i32::MAX,
    ensures
        final(game).chunk == old(game).chunk,
        final(game).y_offset == camera_moved(
            old(game).y_offset as int,
            input@[0].move_up.ended_down,
            input@[0].move_down.ended_down,
        ),
        final(game).x_offset == camera_moved(
            old(game).x_offset as int,
            input@[0].move_left.ended_down,
            input@[0].move_right.ended_down,
        ),
{
    let keyboard_controller = *input.get_controller(0);
    if keyboard_controller.move_up.ended_down {
        game.y_offset = game.y_offset - CAMERA_MOVE_SPEED;
    } else if keyboard_controller.move_down.ended_down {
        game.y_offset = game.y_offset + CAMERA_MOVE_SPEED;
    }
    if keyboard_controller.move_left.ended_down {
        game.x_offset = game.x_offset - CAMERA_MOVE_SPEED;
    } else if keyboard_controller.move_right.ended_down {
        game.x_offset = game.x_offset + CAMERA_MOVE_SPEED;
    }
}

/// The input stream produced by recording a sequence of frames: the
/// concatenation of their fixed-size encodings.
pub open spec fn concat_records(inputs: Seq<Seq<ControllerInput>>) -> Seq<u8>
    decreases inputs.len(),
{
    if inputs.len() == 0 {
        Seq::empty()
    } else {
        input_bytes(inputs[0]) + concat_records(inputs.drop_first())
    }
}

/// The session state after recording each frame of a sequence in order.
pub open spec fn record_all_spec(m: StateModel, inputs: Seq<Seq<ControllerInput>>) -> StateModel
    decreases inputs.len(),
{
    if inputs.len() == 0 {
        m
    } else {
        record_all_spec(record_spec(m, inputs[0]), inputs.drop_first())
    }
}

/// Recording a sequence of frames appends exactly their concatenated
/// records to the stream and changes nothing else.
proof fn lemma_record_all(m: StateModel, inputs: Seq<Seq<ControllerInput>>)
    ensures
        record_all_spec(m, inputs) == (StateModel {
            recording: m.recording + concat_records(inputs),
            ..m
        }),
    decreases inputs.len(),
{
    if inputs.len() == 0 {
        assert(m.recording + concat_records(inputs) =~= m.recording);
        assert(record_all_spec(m, inputs) =~~= (StateModel {
            recording: m.recording + concat_records(inputs),
            ..m
        }));
    } else {
        let m1 = record_spec(m, inputs[0]);
        lemma_record_all(m1, inputs.drop_first());
        assert(m1.recording + concat_records(inputs.drop_first()) =~= m.recording
            + concat_records(inputs));
        assert(record_all_spec(m, inputs) =~~= (StateModel {
            recording: m.recording + concat_records(inputs),
            ..m
        }));
    }
}

/// With the canonical controller count, every record has the fixed size, so
/// the stream's length is the record size times the frame count.
proof fn lemma_concat_records_len(inputs: Seq<Seq<ControllerInput>>)
    requires
        forall|i: int|
            0 <= i < inputs.len() ==> (#[trigger] inputs[i]).len() == CONTROLLER_COUNT,
    ensures
        concat_records(inputs).len() == GAME_INPUT_RECORD_SIZE * inputs.len(),
    decreases inputs.len(),
{
    if inputs.len() > 0 {
        lemma_fixed_record_size(inputs[0]);
        assert forall|i: int|
            0 <= i < inputs.drop_first().len() implies #[trigger] inputs.drop_first()[i].len()
            == CONTROLLER_COUNT by {
            assert(inputs.drop_first()[i] == inputs[i + 1]);
        }
        lemma_concat_records_len(inputs.drop_first());
    }
}

/// The k-th record-size stride of the stream holds exactly the k-th
/// recorded frame's encoding.
proof fn lemma_concat_records_index(inputs: Seq<Seq<ControllerInput>>, k: int)
    requires
        forall|i: int|
            0 <= i < inputs.len() ==> (#[trigger] inputs[i]).len() == CONTROLLER_COUNT,
        0 <= k < inputs.len(),
    ensures
        concat_records(inputs).subrange(
            GAME_INPUT_RECORD_SIZE * k,
            GAME_INPUT_RECORD_SIZE * k + GAME_INPUT_RECORD_SIZE,
        ) == input_bytes(inputs[k]),
    decreases k,
{
    let rs = GAME_INPUT_RECORD_SIZE as int;
    lemma_fixed_record_size(inputs[0]);
    lemma_concat_records_len(inputs);
    if k == 0 {
        assert(concat_records(inputs).subrange(0, rs) =~= input_bytes(inputs[0]));
    } else {
        assert forall|i: int|
            0 <= i < inputs.drop_first().len() implies #[trigger] inputs.drop_first()[i].len()
            == CONTROLLER_COUNT by {
            assert(inputs.drop_first()[i] == inputs[i + 1]);
        }
        lemma_concat_records_index(inputs.drop_first(), k - 1);
        lemma_concat_records_len(inputs.drop_first());
        assert(inputs.drop_first()[k - 1] == inputs[k]);
        assert(concat_records(inputs).subrange(rs * k, rs * k + rs) =~= concat_records(
            inputs.drop_first(),
        ).subrange(rs * (k - 1), rs * (k - 1) + rs));
    }
}

/// After a completed recording, switching to playback always succeeds and
/// lands in a fully known session: the snapshotted game restored, the
/// stream holding exactly the recorded frames, the read position rewound.
proof fn lemma_session_after_recording(
    m0: StateModel,
    idx: usize,
    inputs: Seq<Seq<ControllerInput>>,
)
    requires
        game_wf(m0.game),
        m0.game.row_data.len() <= usize::MAX,
    ensures
        ({
            let recorded = end_recording_spec(
                record_all_spec(begin_recording_spec(m0, idx), inputs),
            );
            &&& begin_playback_spec(recorded, idx) is Ok
            &&& begin_playback_spec(recorded, idx)->Ok_0 == (StateModel {
                game: m0.game,
                input_recording_index: None,
                input_playback_index: Some(idx),
                recording: concat_records(inputs),
                snapshot: game_bytes(m0.game),
                playback_pos: 0,
            })
        }),
{
    let m1 = begin_recording_spec(m0, idx);
    lemma_record_all(m1, inputs);
    assert(Seq::<u8>::empty() + concat_records(inputs) =~= concat_records(inputs));
    crate::game::lemma_game_roundtrip(m0.game);
    let recorded = end_recording_spec(record_all_spec(m1, inputs));
    assert(begin_playback_spec(recorded, idx)->Ok_0 =~~= (StateModel {
        game: m0.game,
        input_recording_index: None,
        input_playback_index: Some(idx),
        recording: concat_records(inputs),
        snapshot: game_bytes(m0.game),
        playback_pos: 0,
    }));
}

/// Replay determinism: record any sequence of frames (each with the
/// canonical controller count) from any well-formed game, end the
/// recording, and begin playback. Playback then succeeds, restores exactly
/// the game that was snapshotted, and for every k the k-th playback read —
/// made at read position k strides, which is where the k-th read happens
/// since each read advances one stride — returns exactly the k-th recorded
/// frame, field for field.
pub proof fn lemma_replay_determinism(
    m0: StateModel,
    idx: usize,
    inputs: Seq<Seq<ControllerInput>>,
    k: int,
)
    requires
        game_wf(m0.game),
        m0.game.row_data.len() <= usize::MAX,
        forall|i: int|
            0 <= i < inputs.len() ==> (#[trigger] inputs[i]).len() == CONTROLLER_COUNT,
        0 <= k < inputs.len(),
    ensures
        ({
            let recorded = end_recording_spec(
                record_all_spec(begin_recording_spec(m0, idx), inputs),
            );
            let started = begin_playback_spec(recorded, idx)->Ok_0;
            &&& begin_playback_spec(recorded, idx) is Ok
            &&& started.game == m0.game
            &&& playback_spec(
                StateModel { playback_pos: GAME_INPUT_RECORD_SIZE * k, ..started },
            ) == Ok::<(StateModel, Option<Seq<ControllerInput>>), DecodeError>(
                (
                    StateModel { playback_pos: GAME_INPUT_RECORD_SIZE * (k + 1), ..started },
                    Some(inputs[k]),
                ),
            )
        }),
{
    let rs = GAME_INPUT_RECORD_SIZE as int;
    lemma_session_after_recording(m0, idx, inputs);
    let recorded = end_recording_spec(record_all_spec(begin_recording_spec(m0, idx), inputs));
    let started = begin_playback_spec(recorded, idx)->Ok_0;
    let mk = StateModel { playback_pos: rs * k, ..started };
    lemma_concat_records_len(inputs);
    lemma_concat_records_index(inputs, k);
    lemma_input_roundtrip(inputs[k]);
    assert(rs * k + rs <= rs * inputs.len()) by (nonlinear_arith)
        requires
            0 <= k < inputs.len(),
            rs == 44,
    ;
    assert(playback_spec(mk)->Ok_0.0 =~~= (StateModel { playback_pos: rs * (k + 1), ..started }));
}

/// Loop on exhaustion: once every recorded frame has been played back, the
/// next read does not fail and fabricates no input. It rewinds the session
/// to exactly the state playback began in — read position zero and the game
/// restored from the snapshot — and the read after that returns the first
/// recorded frame again.
pub proof fn lemma_loop_on_exhaustion(m0: StateModel, idx: usize, inputs: Seq<Seq<ControllerInput>>)
    requires
        game_wf(m0.game),
        m0.game.row_data.len() <= usize::MAX,
        forall|i: int|
            0 <= i < inputs.len() ==> (#[trigger] inputs[i]).len() == CONTROLLER_COUNT,
        inputs.len() >= 1,
    ensures
        ({
            let recorded = end_recording_spec(
                record_all_spec(begin_recording_spec(m0, idx), inputs),
            );
            let started = begin_playback_spec(recorded, idx)->Ok_0;
            let exhausted = StateModel {
                playback_pos: GAME_INPUT_RECORD_SIZE * inputs.len(),
                ..started
            };
            &&& begin_playback_spec(recorded, idx) is Ok
            &&& playback_spec(exhausted) == Ok::<
                (StateModel, Option<Seq<ControllerInput>>),
                DecodeError,
            >((started, None))
            &&& playback_spec(started) == Ok::<
                (StateModel, Option<Seq<ControllerInput>>),
                DecodeError,
            >(
                (
                    StateModel { playback_pos: GAME_INPUT_RECORD_SIZE as int, ..started },
                    Some(inputs[0]),
                ),
            )
        }),
{
    let rs = GAME_INPUT_RECORD_SIZE as int;
    lemma_session_after_recording(m0, idx, inputs);
    let recorded = end_recording_spec(record_all_spec(begin_recording_spec(m0, idx), inputs));
    let started = begin_playback_spec(recorded, idx)->Ok_0;
    let exhausted = StateModel { playback_pos: rs * inputs.len(), ..started };
    lemma_concat_records_len(inputs);
    assert(exhausted.playback_pos + rs > exhausted.recording.len());
    crate::game::lemma_game_roundtrip(m0.game);
    assert(playback_spec(exhausted)->Ok_0.0 =~~= started);
    lemma_replay_determinism(m0, idx, inputs, 0);
    assert(StateModel { playback_pos: rs * 0, ..started } =~~= started);
    assert(StateModel { playback_pos: rs * (0 + 1), ..started } =~~= (StateModel {
        playback_pos: rs,
        ..started
    }));
}

} // verus!
