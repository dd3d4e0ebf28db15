//! Laws that relate the operations of buffers, registries and sessions.
//!
//! Each is stated over the views and spec functions that the contracts of the
//! executable functions use, so it holds of every run of the executable code.

use vstd::prelude::*;
use crate::audio::{
    audio_slots, compressed, expanded, kept, nanos_between, reconstructed, samples_for,
    silence_total, zeros, AudioState, SILENCE_CEILING,
};
use crate::buffer::BufferView;
use crate::buffer_set::BufferSetView;
use crate::export::{failure_of, failures_of, file_of, files_of, OutcomeView};
use crate::lobbies::LobbiesView;
use crate::lobby::LobbyView;
use crate::users::sources_of;

verus! {

/// The view after `frames` were pushed one after the other.
pub open spec fn after_frames(view: BufferView, frames: Seq<Seq<i16>>) -> BufferView
    decreases frames.len(),
{
    if frames.len() == 0 {
        view
    } else {
        after_frames(view, frames.drop_last()).push_audio(frames.last())
    }
}

proof fn lemma_compressed_push(slots: Seq<AudioState>, slot: AudioState)
    ensures
        compressed(slots.push(slot)) == match slot.sample() {
            Some(value) => compressed(slots).push(value),
            None => compressed(slots),
        },
{
    assert(slots.push(slot).drop_last() =~= slots);
}

proof fn lemma_compressed_concat(older: Seq<AudioState>, newer: Seq<AudioState>)
    ensures
        compressed(older + newer) == compressed(older) + compressed(newer),
    decreases newer.len(),
{
    if newer.len() > 0 {
        let rest = newer.drop_last();
        lemma_compressed_concat(older, rest);
        assert(older + newer =~= (older + rest).push(newer.last()));
        lemma_compressed_push(older + rest, newer.last());
        lemma_compressed_push(rest, newer.last());
    }
}

proof fn lemma_compressed_unwritten(count: nat)
    ensures
        compressed(Seq::new(count, |i: int| AudioState::Null)) == Seq::<i16>::empty(),
    decreases count,
{
    let slots = Seq::new(count, |i: int| AudioState::Null);
    if count > 0 {
        lemma_compressed_unwritten((count - 1) as nat);
        assert(slots.drop_last() =~= Seq::new((count - 1) as nat, |i: int| AudioState::Null));
    }
}

proof fn lemma_compressed_audio(samples: Seq<i16>)
    ensures
        compressed(audio_slots(samples)) == samples,
    decreases samples.len(),
{
    if samples.len() > 0 {
        let rest = samples.drop_last();
        lemma_compressed_audio(rest);
        assert(audio_slots(samples) =~= audio_slots(rest).push(AudioState::Audio(samples.last())));
        lemma_compressed_push(audio_slots(rest), AudioState::Audio(samples.last()));
    }
}

/// Pushing two frames one after the other leaves what pushing them as one
/// frame leaves.
pub proof fn lemma_push_audio_twice(view: BufferView, first: Seq<i16>, second: Seq<i16>)
    requires
        view.wf(),
    ensures
        view.push_audio(first).push_audio(second) == view.push_audio(first + second),
{
}

/// Pushing frames one after the other leaves what pushing all their samples at
/// once leaves.
pub proof fn lemma_frames_as_one(view: BufferView, frames: Seq<Seq<i16>>)
    requires
        view.wf(),
    ensures
        after_frames(view, frames) == view.push_audio(frames.flatten()),
        after_frames(view, frames).wf(),
    decreases frames.len(),
{
    if frames.len() > 0 {
        let rest = frames.drop_last();
        lemma_frames_as_one(view, rest);
        lemma_push_audio_twice(view, rest.flatten(), frames.last());
        rest.lemma_flatten_push(frames.last());
        assert(rest.push(frames.last()) =~= frames);
    }
}

/// A buffer that only ever took audio gives back, compressed, the samples it
/// was given, in the order it was given them: all of them while they are no
/// more than its capacity, the newest `capacity` of them from there on.
pub proof fn lemma_audio_history(capacity: nat, frames: Seq<Seq<i16>>)
    requires
        capacity > 0,
    ensures
        ({
            let pushed = frames.flatten();
            let held = compressed(after_frames(BufferView::fresh(capacity), frames).slots);
            &&& pushed.len() <= capacity ==> held == pushed
            &&& pushed.len() > capacity ==> held == pushed.skip(pushed.len() - capacity)
        }),
{
    let fresh = BufferView::fresh(capacity);
    let pushed = frames.flatten();
    lemma_frames_as_one(fresh, frames);
    let slots = fresh.push_audio(pushed).slots;
    if pushed.len() <= capacity {
        let unwritten = Seq::new((capacity - pushed.len()) as nat, |i: int| AudioState::Null);
        assert(slots =~= unwritten + audio_slots(pushed));
        lemma_compressed_concat(unwritten, audio_slots(pushed));
        lemma_compressed_unwritten((capacity - pushed.len()) as nat);
        lemma_compressed_audio(pushed);
    } else {
        let newest = pushed.skip(pushed.len() - capacity);
        assert(slots =~= audio_slots(newest));
        lemma_compressed_audio(newest);
    }
}

proof fn lemma_silence_total_push(slots: Seq<AudioState>, slot: AudioState, now: u64)
    ensures
        silence_total(slots.push(slot), now) == silence_total(slots, now) + slot.silence(now),
{
    assert(slots.push(slot).drop_last() =~= slots);
}

proof fn lemma_silence_total_concat(older: Seq<AudioState>, newer: Seq<AudioState>, now: u64)
    ensures
        silence_total(older + newer, now) == silence_total(older, now) + silence_total(
            newer,
            now,
        ),
    decreases newer.len(),
{
    if newer.len() > 0 {
        let rest = newer.drop_last();
        lemma_silence_total_concat(older, rest, now);
        assert((older + newer).drop_last() =~= older + rest);
    }
}

proof fn lemma_expanded_push(slots: Seq<AudioState>, slot: AudioState, now: u64)
    ensures
        expanded(slots.push(slot), now) == expanded(slots, now) + slot.signal(now),
{
    slots.lemma_flat_map_push(|slot: AudioState| slot.signal(now), slot);
}

proof fn lemma_expanded_concat(older: Seq<AudioState>, newer: Seq<AudioState>, now: u64)
    ensures
        expanded(older + newer, now) == expanded(older, now) + expanded(newer, now),
    decreases newer.len(),
{
    if newer.len() > 0 {
        let rest = newer.drop_last();
        let last = newer.last();
        lemma_expanded_concat(older, rest, now);
        assert(newer =~= rest.push(last));
        lemma_expanded_push(older + rest, last, now);
        lemma_expanded_push(rest, last, now);
    }
}

/// The expansion holds one sample for each sample among the slots and the
/// zeros of every silence among them.
pub proof fn lemma_expanded_len(slots: Seq<AudioState>, now: u64)
    ensures
        expanded(slots, now).len() == compressed(slots).len() + silence_total(slots, now),
    decreases slots.len(),
{
    if slots.len() > 0 {
        let rest = slots.drop_last();
        let last = slots.last();
        lemma_expanded_len(rest, now);
        assert(slots =~= rest.push(last));
        lemma_expanded_push(rest, last, now);
        lemma_compressed_push(rest, last);
    }
}

/// What a reconstruction keeps is the longest run of newest slots whose
/// silences fit the budget together: the kept slots fit, and where an older
/// slot is left, the kept slots and the next older one do not.
pub proof fn lemma_kept_is_longest_fit(slots: Seq<AudioState>, now: u64, budget: nat)
    ensures
        ({
            let count = kept(slots, now, budget);
            &&& count <= slots.len()
            &&& silence_total(slots.skip(slots.len() - count), now) <= budget
            &&& count < slots.len() ==> silence_total(slots.skip(slots.len() - count - 1), now)
                > budget
        }),
    decreases slots.len(),
{
    if slots.len() > 0 {
        let rest = slots.drop_last();
        let last = slots.last();
        let silence = last.silence(now);
        if silence > budget {
            lemma_silence_total_push(Seq::<AudioState>::empty(), last, now);
        } else {
            let left = (budget - silence) as nat;
            let count = kept(rest, now, left);
            lemma_kept_is_longest_fit(rest, now, left);
            assert(slots.skip(slots.len() - (count + 1)) =~= rest.skip(rest.len() - count).push(
                last,
            ));
            lemma_silence_total_push(rest.skip(rest.len() - count), last, now);
            if count < rest.len() {
                assert(slots.skip(slots.len() - (count + 1) - 1) =~= rest.skip(
                    rest.len() - count - 1,
                ).push(last));
                lemma_silence_total_push(rest.skip(rest.len() - count - 1), last, now);
            }
        }
    }
}

/// Where all the silences among the slots fit the budget together, the
/// reconstruction keeps every slot.
pub proof fn lemma_kept_all(slots: Seq<AudioState>, now: u64, budget: nat)
    requires
        silence_total(slots, now) <= budget,
    ensures
        kept(slots, now, budget) == slots.len(),
    decreases slots.len(),
{
    if slots.len() > 0 {
        let silence = slots.last().silence(now);
        lemma_kept_all(slots.drop_last(), now, (budget - silence) as nat);
    }
}

/// The ceiling on reconstructed silence: a reconstruction writes out no more
/// than [`SILENCE_CEILING`] zeros, whatever silences the buffer holds, so it
/// is never longer than the ceiling and the samples that it kept.
pub proof fn lemma_reconstruction_bounded(slots: Seq<AudioState>, now: u64)
    ensures
        ({
            let count = kept(slots, now, SILENCE_CEILING as nat);
            let newest = slots.skip(slots.len() - count);
            &&& silence_total(newest, now) <= SILENCE_CEILING
            &&& reconstructed(slots, now).len() == compressed(newest).len() + silence_total(
                newest,
                now,
            )
            &&& compressed(newest).len() <= compressed(slots).len()
            &&& reconstructed(slots, now).len() <= compressed(slots).len() + SILENCE_CEILING
        }),
{
    let count = kept(slots, now, SILENCE_CEILING as nat);
    lemma_kept_is_longest_fit(slots, now, SILENCE_CEILING as nat);
    let cut = slots.len() - count;
    let newest = slots.skip(cut);
    lemma_expanded_len(newest, now);
    assert(slots =~= slots.take(cut) + newest);
    lemma_compressed_concat(slots.take(cut), newest);
}

/// A silence that is opened and closed with nothing in between, in a buffer
/// that still has an unwritten slot, adds to the reconstruction as many zeros
/// as its length stands for and changes nothing else, as long as all silences
/// together stay within [`SILENCE_CEILING`].
pub proof fn lemma_closed_silence_appends_zeros(view: BufferView, start: u64, end: u64, now: u64)
    requires
        view.wf(),
        view.slots[0] is Null,
        silence_total(view.push_silence(start).push_silence_end(end).slots, now)
            <= SILENCE_CEILING,
    ensures
        reconstructed(view.push_silence(start).push_silence_end(end).slots, now) == reconstructed(
            view.slots,
            now,
        ) + zeros(samples_for(nanos_between(start, end))),
{
    let closed = AudioState::Padding(nanos_between(start, end) as u64);
    let older = view.slots.skip(1);
    let after = view.push_silence(start).push_silence_end(end).slots;
    assert(after =~= older.push(closed));
    assert(view.slots =~= seq![AudioState::Null] + older);
    lemma_silence_total_push(older, closed, now);
    lemma_silence_total_concat(seq![AudioState::Null], older, now);
    lemma_silence_total_push(Seq::<AudioState>::empty(), AudioState::Null, now);
    lemma_kept_all(after, now, SILENCE_CEILING as nat);
    lemma_kept_all(view.slots, now, SILENCE_CEILING as nat);
    assert(after.skip(0) =~= after);
    assert(view.slots.skip(0) =~= view.slots);
    lemma_expanded_push(older, closed, now);
    lemma_expanded_concat(seq![AudioState::Null], older, now);
    lemma_expanded_push(Seq::<AudioState>::empty(), AudioState::Null, now);
}

/// A buffer without an open silence reads the same at every time: neither
/// what a reconstruction keeps nor what it writes out depends on the clock.
pub proof fn lemma_reconstruction_without_clock(slots: Seq<AudioState>, once: u64, again: u64)
    requires
        forall|at: int| 0 <= at < slots.len() ==> !(#[trigger] slots[at] is Timestamp),
    ensures
        reconstructed(slots, once) == reconstructed(slots, again),
{
    lemma_kept_without_clock(slots, once, again, SILENCE_CEILING as nat);
    let count = kept(slots, once, SILENCE_CEILING as nat);
    lemma_kept_is_longest_fit(slots, once, SILENCE_CEILING as nat);
    lemma_expanded_without_clock(slots.skip(slots.len() - count), once, again);
}

proof fn lemma_kept_without_clock(slots: Seq<AudioState>, once: u64, again: u64, budget: nat)
    requires
        forall|at: int| 0 <= at < slots.len() ==> !(#[trigger] slots[at] is Timestamp),
    ensures
        kept(slots, once, budget) == kept(slots, again, budget),
    decreases slots.len(),
{
    if slots.len() > 0 {
        let silence = slots.last().silence(once);
        if silence <= budget {
            lemma_kept_without_clock(slots.drop_last(), once, again, (budget - silence) as nat);
        }
    }
}

proof fn lemma_expanded_without_clock(slots: Seq<AudioState>, once: u64, again: u64)
    requires
        forall|at: int| 0 <= at < slots.len() ==> !(#[trigger] slots[at] is Timestamp),
    ensures
        expanded(slots, once) == expanded(slots, again),
    decreases slots.len(),
{
    if slots.len() > 0 {
        let rest = slots.drop_last();
        let last = slots.last();
        lemma_expanded_without_clock(rest, once, again);
        assert(slots =~= rest.push(last));
        lemma_expanded_push(rest, last, once);
        lemma_expanded_push(rest, last, again);
    }
}

/// A source that is given to a speaker stays with that speaker when the
/// speaker is given another: a scan for the speaker finds both.
pub proof fn lemma_both_sources_found(users: Map<u32, u64>, first: u32, second: u32, user_id: u64)
    ensures
        sources_of(users.insert(first, user_id).insert(second, user_id), user_id).contains(first),
        sources_of(users.insert(first, user_id).insert(second, user_id), user_id).contains(second),
{
}

/// A scan for a speaker finds exactly the sources that were given to the
/// speaker last: giving `ssrc` to `user_id` adds it to the sources of
/// `user_id` and takes it from those of everyone else.
pub proof fn lemma_sources_after_update(users: Map<u32, u64>, ssrc: u32, user_id: u64, other: u64)
    requires
        other != user_id,
    ensures
        sources_of(users.insert(ssrc, user_id), user_id) == sources_of(users, user_id).insert(ssrc),
        sources_of(users.insert(ssrc, user_id), other) == sources_of(users, other).remove(ssrc),
{
}

/// Asking for a session twice leaves what asking for it once leaves.
pub proof fn lemma_get_or_create_twice(lobbies: LobbiesView, id: u64)
    ensures
        lobbies.get_or_create(id).get_or_create(id) == lobbies.get_or_create(id),
{
}

/// What one source sends never touches the buffer of another: audio and
/// silences of `ssrc` leave every other source with the buffer it had, or
/// without one.
pub proof fn lemma_sources_are_kept_apart(
    buffers: BufferSetView,
    ssrc: u32,
    other: u32,
    frame: Seq<i16>,
    now: u64,
)
    requires
        other != ssrc,
    ensures
        buffers.push_audio(ssrc, frame).buffers.contains_key(other)
            == buffers.buffers.contains_key(other),
        buffers.push_silence(ssrc, now).buffers.contains_key(other)
            == buffers.buffers.contains_key(other),
        buffers.push_silence_end(ssrc, now).buffers.contains_key(other)
            == buffers.buffers.contains_key(other),
        buffers.buffers.contains_key(other) ==> {
            &&& buffers.push_audio(ssrc, frame).buffers[other] == buffers.buffers[other]
            &&& buffers.push_silence(ssrc, now).buffers[other] == buffers.buffers[other]
            &&& buffers.push_silence_end(ssrc, now).buffers[other] == buffers.buffers[other]
        },
{
}

/// When a speaker leaves, none of the speaker's sources keeps a buffer and
/// every other source keeps the one it had.
pub proof fn lemma_disconnect_evicts_the_speaker(lobby: LobbyView, user_id: u64, ssrc: u32)
    ensures
        lobby.on_speaker_disconnect(user_id).users == lobby.users,
        lobby.on_speaker_disconnect(user_id).buffers.buffers.contains_key(ssrc) == (
            lobby.buffers.buffers.contains_key(ssrc) && !sources_of(lobby.users, user_id).contains(
                ssrc,
            )),
        lobby.on_speaker_disconnect(user_id).buffers.buffers.contains_key(ssrc)
            ==> lobby.on_speaker_disconnect(user_id).buffers.buffers[ssrc]
            == lobby.buffers.buffers[ssrc],
{
}

/// What happens in one session never touches another: whatever becomes of
/// session `id`, every other session stays as it was, under way or not.
pub proof fn lemma_sessions_are_kept_apart(
    lobbies: LobbiesView,
    id: u64,
    other: u64,
    next: LobbyView,
)
    requires
        other != id,
    ensures
        lobbies.with_lobby(id, next).lobbies.contains_key(other) == lobbies.lobbies.contains_key(
            other,
        ),
        lobbies.get_or_create(id).lobbies.contains_key(other) == lobbies.lobbies.contains_key(
            other,
        ),
        lobbies.remove(id).lobbies.contains_key(other) == lobbies.lobbies.contains_key(other),
        lobbies.lobbies.contains_key(other) ==> {
            &&& lobbies.with_lobby(id, next).lobbies[other] == lobbies.lobbies[other]
            &&& lobbies.get_or_create(id).lobbies[other] == lobbies.lobbies[other]
            &&& lobbies.remove(id).lobbies[other] == lobbies.lobbies[other]
        },
{
}

proof fn lemma_reports_count(outcomes: Seq<OutcomeView>, format: Seq<char>)
    ensures
        files_of(outcomes, format).len() + failures_of(outcomes).len() == outcomes.len(),
    decreases outcomes.len(),
{
    if outcomes.len() > 0 {
        lemma_reports_count(outcomes.drop_last(), format);
    }
}

/// Every encoder run of an export is reported once: a run that went well
/// has its file among the files, whatever became of the other runs, a run
/// that went wrong has its failure among the failures, and there is nothing
/// else in either list.
pub proof fn lemma_every_run_is_reported(outcomes: Seq<OutcomeView>, format: Seq<char>, at: int)
    requires
        0 <= at < outcomes.len(),
    ensures
        files_of(outcomes, format).len() + failures_of(outcomes).len() == outcomes.len(),
        outcomes[at].result is Ok ==> files_of(outcomes, format).contains(
            file_of(outcomes[at], format)->0,
        ),
        outcomes[at].result is Err ==> failures_of(outcomes).contains(failure_of(outcomes[at])->0),
    decreases outcomes.len(),
{
    lemma_reports_count(outcomes, format);
    let rest = outcomes.drop_last();
    let last = outcomes.last();
    let files = files_of(outcomes, format);
    let failures = failures_of(outcomes);
    if at < rest.len() {
        lemma_every_run_is_reported(rest, format, at);
        if outcomes[at].result is Ok {
            let file = file_of(outcomes[at], format)->0;
            let held = choose|i: int|
                0 <= i < files_of(rest, format).len() && files_of(rest, format)[i] == file;
            assert(files[held] == file);
        } else {
            let failure = failure_of(outcomes[at])->0;
            let held = choose|i: int|
                0 <= i < failures_of(rest).len() && failures_of(rest)[i] == failure;
            assert(failures[held] == failure);
        }
    } else {
        if last.result is Ok {
            assert(files[files.len() - 1] == file_of(last, format)->0);
        } else {
            assert(failures[failures.len() - 1] == failure_of(last)->0);
        }
    }
}

} // verus!
