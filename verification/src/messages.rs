//! Commands from the control side to the audio side, and the bounded queue
//! that carries them.
//!
//! The queue has one producer and one consumer. The audio side never waits:
//! it takes what is queued at the start of a block and goes on.

use vstd::prelude::*;
use std::path::PathBuf;
use rtrb::{Consumer, Producer, PushError, RingBuffer};
use crate::lyrics::{LyricSettings, LyricSource};

verus! {

/// The sending end of a queue of the `rtrb` crate.
#[verifier::external_type_specification]
#[verifier::external_body]
#[verifier::reject_recursive_types(T)]
pub struct ExProducer<T>(Producer<T>);

/// The receiving end of a queue of the `rtrb` crate.
#[verifier::external_type_specification]
#[verifier::external_body]
#[verifier::reject_recursive_types(T)]
pub struct ExConsumer<T>(Consumer<T>);

/// The number of commands that the queue holds at most.
pub const QUEUE_CAPACITY: usize = 10;

/// A command for the audio side.
#[derive(Clone)]
pub enum ThreadMessage {
    LoadSinger(PathBuf),
    RemoveSinger(PathBuf),
    LoadLyric(PathBuf),
    SetLyricSource(i32),
}

/// What is left to do outside the engine after a command has been applied.
pub enum ControlAction {
    /// Unload the voicebank, then load the one in this directory.
    ReloadSinger(PathBuf),
    /// Unload the voicebank.
    UnloadSinger(PathBuf),
    /// Read this lyric file.
    ReadLyricFile(PathBuf),
    /// Nothing: the command was applied in full.
    Nothing,
}

/// The settings after a command.
pub open spec fn settings_after(settings: LyricSettings, message: ThreadMessage) -> LyricSettings {
    match message {
        ThreadMessage::SetLyricSource(index) => LyricSettings {
            lyric_source: LyricSource::of_index(index),
            ..settings
        },
        _ => settings,
    }
}

/// What a command leaves to do.
pub open spec fn action_of(message: ThreadMessage) -> ControlAction {
    match message {
        ThreadMessage::LoadSinger(path) => ControlAction::ReloadSinger(path),
        ThreadMessage::RemoveSinger(path) => ControlAction::UnloadSinger(path),
        ThreadMessage::LoadLyric(path) => ControlAction::ReadLyricFile(path),
        ThreadMessage::SetLyricSource(_) => ControlAction::Nothing,
    }
}

/// The settings after a sequence of commands, applied in order.
pub open spec fn settings_after_all(settings: LyricSettings, messages: Seq<ThreadMessage>) -> LyricSettings
    decreases messages.len(),
{
    if messages.len() == 0 {
        settings
    } else {
        settings_after(settings_after_all(settings, messages.drop_last()), messages.last())
    }
}

/// The number of items that the queue behind a sending end was made for.
pub uninterp spec fn capacity_of(producer: Producer<ThreadMessage>) -> nat;

/// The number of free slots that a sending end knows of without asking the
/// other side: what `Producer::cached_slots` of `rtrb` returns. The queue
/// has at least that much room, since the other side only ever frees slots.
pub uninterp spec fn known_free(producer: Producer<ThreadMessage>) -> nat;

/// `RingBuffer::new` of `rtrb` makes a queue for `capacity` items and hands
/// out its two ends; the capacity of a queue never changes. The sending end
/// starts with all slots known to be free.
#[verifier::external_body]
fn ring_buffer(capacity: usize) -> (ends: (Producer<ThreadMessage>, Consumer<ThreadMessage>))
    requires
        capacity <= 0xFFFF,
    ensures
        capacity_of(ends.0) == capacity,
        known_free(ends.0) == capacity,
{
    RingBuffer::new(capacity)
}

/// `Producer::push` of `rtrb` queues the item, or hands the same item back
/// when the queue is full. Where the sending end knows of a free slot the
/// item is queued and that slot is used up. Where it knows of none it asks
/// the other side, and the outcome depends on how far the consumer has come;
/// after a refusal it still knows of none.
#[verifier::external_body]
fn push_message(producer: &mut Producer<ThreadMessage>, message: ThreadMessage) -> (back: Option<ThreadMessage>)
    ensures
        back is Some ==> back == Some(message),
        known_free(*old(producer)) > 0 ==> back is None && known_free(*final(producer)) == known_free(
            *old(producer),
        ) - 1,
        back is Some ==> known_free(*final(producer)) == 0,
        capacity_of(*final(producer)) == capacity_of(*old(producer)),
{
    match producer.push(message) {
        Ok(_) => None,
        Err(PushError::Full(back)) => Some(back),
    }
}

/// `Consumer::pop` of `rtrb` takes the oldest item off the queue, or reports
/// that the queue is empty. What it finds depends on the producer.
#[verifier::external_body]
fn pop_message(consumer: &mut Consumer<ThreadMessage>) -> (r: Option<ThreadMessage>) {
    consumer.pop().ok()
}

/// A queue for commands, with its sending and its receiving end. All its
/// slots are free.
pub fn control_channel() -> (ends: (Producer<ThreadMessage>, Consumer<ThreadMessage>))
    ensures
        capacity_of(ends.0) == QUEUE_CAPACITY,
        known_free(ends.0) == QUEUE_CAPACITY,
{
    ring_buffer(QUEUE_CAPACITY)
}

/// Queues a command. Where the sending end knows of a free slot the command
/// is queued and the slot is used up. Where it knows of none, the consumer's
/// progress decides: the command is queued, or the queue is full and the
/// command comes back to the sender, and nothing else happens.
pub fn send(producer: &mut Producer<ThreadMessage>, message: ThreadMessage) -> (r: Result<(), ThreadMessage>)
    ensures
        known_free(*old(producer)) > 0 ==> r is Ok && known_free(*final(producer)) == known_free(
            *old(producer),
        ) - 1,
        r is Err ==> r == Err::<(), ThreadMessage>(message),
        r is Err ==> known_free(*old(producer)) == 0 && known_free(*final(producer)) == 0,
        capacity_of(*final(producer)) == capacity_of(*old(producer)),
{
    match push_message(producer, message) {
        Some(back) => Err(back),
        None => Ok(()),
    }
}

/// Applies one command: a change of the lyric source is made at once, and
/// every other command is handed on as the action it asks for.
pub fn apply_message(settings: &mut LyricSettings, message: ThreadMessage) -> (action: ControlAction)
    ensures
        *final(settings) == settings_after(*old(settings), message),
        action == action_of(message),
{
    match message {
        ThreadMessage::LoadSinger(path) => ControlAction::ReloadSinger(path),
        ThreadMessage::RemoveSinger(path) => ControlAction::UnloadSinger(path),
        ThreadMessage::LoadLyric(path) => ControlAction::ReadLyricFile(path),
        ThreadMessage::SetLyricSource(index) => {
            settings.set_lyric_source(LyricSource::from_index(index));
            ControlAction::Nothing
        },
    }
}

/// Takes the queued commands, oldest first, and applies each. It stops when
/// the queue is empty, and after `QUEUE_CAPACITY` commands at the latest, so
/// that a busy sender cannot hold up the block. The result lists the actions
/// that the commands taken ask for.
pub fn process_messages(consumer: &mut Consumer<ThreadMessage>, settings: &mut LyricSettings) -> (actions: Vec<ControlAction>)
    ensures
        actions@.len() <= QUEUE_CAPACITY,
        exists|messages: Seq<ThreadMessage>|
            {
                &&& messages.len() == actions@.len()
                &&& *final(settings) == settings_after_all(*old(settings), messages)
                &&& forall|i: int| 0 <= i < messages.len() ==> actions@[i] == action_of(#[trigger] messages[i])
            },
{
    let mut actions: Vec<ControlAction> = Vec::new();
    let ghost mut taken: Seq<ThreadMessage> = Seq::empty();
    let mut more = true;
    while more && actions.len() < QUEUE_CAPACITY
        invariant
            actions@.len() <= QUEUE_CAPACITY,
            taken.len() == actions@.len(),
            *settings == settings_after_all(*old(settings), taken),
            forall|i: int| 0 <= i < taken.len() ==> actions@[i] == action_of(#[trigger] taken[i]),
        decreases QUEUE_CAPACITY - actions@.len() + (if more { 1int } else { 0int }),
    {
        match pop_message(consumer) {
            Some(message) => {
                proof {
                    assert(taken.push(message).drop_last() =~= taken);
                    taken = taken.push(message);
                }
                let action = apply_message(settings, message);
                actions.push(action);
            },
            None => {
                more = false;
            },
        }
    }
    actions
}

} // verus!
