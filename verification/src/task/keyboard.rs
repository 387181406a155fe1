//! The bridge between the keyboard interrupt and the task that consumes
//! scancodes, and the decoding of scancodes into keys.
//!
//! The interrupt side pushes bytes into a bounded queue and wakes the waiting
//! consumer; the consumer polls the queue and registers itself as the waiter
//! before it suspends. Both sides work on one [`ScancodeBridge`], which its
//! owner shares between them.

use vstd::prelude::*;

verus! {

/// Number of scancodes that the queue holds before it drops input.
pub const SCANCODE_QUEUE_CAPACITY: usize = 100;

#[verifier::external_type_specification]
#[verifier::external_body]
#[verifier::reject_recursive_types(T)]
pub struct ExArrayQueue<T>(crossbeam_queue::ArrayQueue<T>);

#[verifier::external_type_specification]
#[verifier::external_body]
pub struct ExAtomicWaker(futures_util::task::AtomicWaker);

#[verifier::external_type_specification]
#[verifier::external_body]
pub struct ExWaker(core::task::Waker);

/// The bytes that a queue holds, the oldest first.
pub uninterp spec fn queue_contents(queue: crossbeam_queue::ArrayQueue<u8>) -> Seq<u8>;

/// The capacity that a queue was made with.
pub uninterp spec fn queue_capacity(queue: crossbeam_queue::ArrayQueue<u8>) -> nat;

/// Whether a waker is registered with the cell and has not been woken or
/// taken since.
pub uninterp spec fn waker_registered(cell: futures_util::task::AtomicWaker) -> bool;

/// `crossbeam_queue::ArrayQueue::new`: an empty queue of the given capacity.
/// The crate panics on a capacity of zero; the upper bound keeps the
/// allocation of the slots within what `Vec::with_capacity` accepts.
#[verifier::external_body]
fn queue_new(capacity: usize) -> (queue: crossbeam_queue::ArrayQueue<u8>)
    requires
        0 < capacity <= 0x0400_0000,
    ensures
        queue_contents(queue) == Seq::<u8>::empty(),
        queue_capacity(queue) == capacity,
{
    crossbeam_queue::ArrayQueue::new(capacity)
}

/// `crossbeam_queue::ArrayQueue::push`, with no other party at the queue: the
/// value goes to the back where the queue holds fewer values than its capacity,
/// and is handed back otherwise. Returns whether it was taken.
#[verifier::external_body]
fn queue_push(queue: &mut crossbeam_queue::ArrayQueue<u8>, value: u8) -> (pushed: bool)
    ensures
        queue_capacity(*final(queue)) == queue_capacity(*old(queue)),
        pushed == (queue_contents(*old(queue)).len() < queue_capacity(*old(queue))),
        pushed ==> queue_contents(*final(queue)) == queue_contents(*old(queue)).push(value),
        !pushed ==> queue_contents(*final(queue)) == queue_contents(*old(queue)),
{
    match queue.push(value) {
        Ok(()) => true,
        Err(_) => false,
    }
}

/// `crossbeam_queue::ArrayQueue::pop`, with no other party at the queue: the
/// value at the front leaves the queue, or nothing does where it is empty.
#[verifier::external_body]
fn queue_pop(queue: &mut crossbeam_queue::ArrayQueue<u8>) -> (popped: Option<u8>)
    ensures
        queue_capacity(*final(queue)) == queue_capacity(*old(queue)),
        queue_contents(*old(queue)).len() == 0 ==> popped is None && queue_contents(*final(queue))
            == queue_contents(*old(queue)),
        queue_contents(*old(queue)).len() > 0 ==> popped == Some(queue_contents(*old(queue))[0])
            && queue_contents(*final(queue)) == queue_contents(*old(queue)).drop_first(),
{
    match queue.pop() {
        Ok(value) => Some(value),
        Err(_) => None,
    }
}

/// `futures_util::task::AtomicWaker::new`: a cell with no waker registered.
#[verifier::external_body]
fn waker_cell_new() -> (cell: futures_util::task::AtomicWaker)
    ensures
        !waker_registered(cell),
{
    futures_util::task::AtomicWaker::new()
}

/// `futures_util::task::AtomicWaker::register`, with no other party at the
/// cell: the cell holds the given waker afterwards, in place of any earlier one.
#[verifier::external_body]
fn waker_cell_register(cell: &mut futures_util::task::AtomicWaker, waker: &core::task::Waker)
    ensures
        waker_registered(*final(cell)),
{
    cell.register(waker)
}

/// `futures_util::task::AtomicWaker::wake`: takes the registered waker out of
/// the cell, if there is one, and wakes it.
#[verifier::external_body]
fn waker_cell_wake(cell: &mut futures_util::task::AtomicWaker)
    ensures
        !waker_registered(*final(cell)),
{
    cell.wake()
}

/// `futures_util::task::AtomicWaker::take`: takes the registered waker out of
/// the cell, if there is one, without waking it. The waker is dropped here.
#[verifier::external_body]
fn waker_cell_take(cell: &mut futures_util::task::AtomicWaker)
    ensures
        !waker_registered(*final(cell)),
{
    let _ = cell.take();
}

/// What an observer can tell of a bridge.
pub struct BridgeState {
    /// Whether the queue has been constructed.
    pub initialized: bool,
    /// The scancodes waiting in the queue, the oldest first.
    pub pending: Seq<u8>,
    /// Whether the consumer has registered itself to be woken.
    pub waiting: bool,
}

/// What became of a scancode handed to the bridge.
#[derive(Clone, Copy, Debug, PartialEq, Eq, Structural)]
pub enum ScancodeOutcome {
    /// The scancode is in the queue, and the waiting consumer was woken.
    Queued,
    /// The queue was full; the scancode was dropped.
    QueueFull,
    /// The queue does not exist yet; the scancode was dropped.
    Uninitialized,
}

/// One step of the consumer.
#[derive(Clone, Copy, Debug, PartialEq, Eq, Structural)]
pub enum Polled {
    /// The next scancode.
    Ready(u8),
    /// No scancode yet: the consumer is registered and will be woken.
    Pending,
}

/// The bridge after the interrupt side hands it `scancode`, and the outcome.
pub open spec fn after_add(state: BridgeState, scancode: u8) -> (BridgeState, ScancodeOutcome) {
    if !state.initialized {
        (state, ScancodeOutcome::Uninitialized)
    } else if state.pending.len() >= SCANCODE_QUEUE_CAPACITY {
        (state, ScancodeOutcome::QueueFull)
    } else {
        (
            BridgeState { pending: state.pending.push(scancode), waiting: false, ..state },
            ScancodeOutcome::Queued,
        )
    }
}

/// The bridge after the consumer looks for a scancode without registering,
/// and what it found.
pub open spec fn after_take(state: BridgeState) -> (BridgeState, Option<u8>) {
    if state.pending.len() > 0 {
        (BridgeState { pending: state.pending.drop_first(), ..state }, Some(state.pending[0]))
    } else {
        (state, None)
    }
}

/// The bridge after the consumer registers itself and looks once more, and
/// the result: a scancode that arrived in the meantime ends the registration.
pub open spec fn after_suspend(state: BridgeState) -> (BridgeState, Polled) {
    if state.pending.len() > 0 {
        (
            BridgeState { pending: state.pending.drop_first(), waiting: false, ..state },
            Polled::Ready(state.pending[0]),
        )
    } else {
        (BridgeState { waiting: true, ..state }, Polled::Pending)
    }
}

/// The bridge after one poll of the consumer, and the result.
pub open spec fn after_poll(state: BridgeState) -> (BridgeState, Polled) {
    match after_take(state).1 {
        Some(scancode) => (after_take(state).0, Polled::Ready(scancode)),
        None => after_suspend(after_take(state).0),
    }
}

/// The bridge after the interrupt side hands it each of `scancodes` in turn.
pub open spec fn after_add_all(state: BridgeState, scancodes: Seq<u8>) -> BridgeState
    decreases scancodes.len(),
{
    if scancodes.len() == 0 {
        state
    } else {
        after_add(after_add_all(state, scancodes.drop_last()), scancodes.last()).0
    }
}

/// The bridge after `count` polls of the consumer.
pub open spec fn after_polls(state: BridgeState, count: nat) -> BridgeState
    decreases count,
{
    if count == 0 {
        state
    } else {
        after_poll(after_polls(state, (count - 1) as nat)).0
    }
}

/// Of the scancodes handed to an empty queue before any poll, the first
/// hundred are queued in their order and every later one is dropped.
pub proof fn lemma_overflow_drops_later_scancodes(state: BridgeState, scancodes: Seq<u8>)
    requires
        state.initialized,
        state.pending.len() == 0,
    ensures
        scancodes.len() <= SCANCODE_QUEUE_CAPACITY ==> after_add_all(state, scancodes).pending
            == scancodes,
        scancodes.len() > SCANCODE_QUEUE_CAPACITY ==> after_add_all(state, scancodes).pending
            == scancodes.take(SCANCODE_QUEUE_CAPACITY as int),
        after_add_all(state, scancodes).initialized,
        forall|i: int|
            0 <= i < scancodes.len() ==> (#[trigger] after_add(
                after_add_all(state, scancodes.take(i)),
                scancodes[i],
            )).1 == if i < SCANCODE_QUEUE_CAPACITY {
                ScancodeOutcome::Queued
            } else {
                ScancodeOutcome::QueueFull
            },
    decreases scancodes.len(),
{
    if scancodes.len() == 0 {
        assert(after_add_all(state, scancodes).pending =~= scancodes);
    } else {
        let earlier = scancodes.drop_last();
        lemma_overflow_drops_later_scancodes(state, earlier);
        let limit = SCANCODE_QUEUE_CAPACITY as int;
        if scancodes.len() <= limit {
            assert(earlier.push(scancodes.last()) =~= scancodes);
        } else if earlier.len() == limit {
            assert(scancodes.take(limit) =~= earlier);
        } else {
            assert(scancodes.take(limit) =~= earlier.take(limit));
        }
        assert forall|i: int| 0 <= i < scancodes.len() implies (#[trigger] after_add(
            after_add_all(state, scancodes.take(i)),
            scancodes[i],
        )).1 == if i < SCANCODE_QUEUE_CAPACITY {
            ScancodeOutcome::Queued
        } else {
            ScancodeOutcome::QueueFull
        } by {
            if i < earlier.len() {
                assert(scancodes.take(i) =~= earlier.take(i));
                assert(scancodes[i] == earlier[i]);
            } else {
                assert(scancodes.take(i) =~= earlier);
            }
        }
    }
}

/// The scancodes in the queue come out in the order in which they went in:
/// poll number `count`, counted from zero, returns the scancode at that
/// position.
pub proof fn lemma_polls_deliver_in_order(state: BridgeState, count: nat)
    requires
        state.initialized,
        count < state.pending.len(),
    ensures
        after_polls(state, count).pending == state.pending.skip(count as int),
        after_polls(state, count).initialized,
        after_poll(after_polls(state, count)).1 == Polled::Ready(state.pending[count as int]),
    decreases count,
{
    if count == 0 {
        assert(state.pending.skip(0) =~= state.pending);
    } else {
        lemma_polls_deliver_in_order(state, (count - 1) as nat);
        assert(state.pending.skip(count - 1).drop_first() =~= state.pending.skip(count as int));
    }
}

/// A scancode queued before the consumer polls is delivered by the first
/// poll, and by no later one.
pub proof fn lemma_push_before_poll(state: BridgeState, scancode: u8)
    requires
        state.initialized,
        state.pending.len() == 0,
    ensures
        ({
            let pushed = after_add(state, scancode);
            let first = after_poll(pushed.0);
            let second = after_poll(first.0);
            &&& pushed.1 == ScancodeOutcome::Queued
            &&& first.1 == Polled::Ready(scancode)
            &&& second.1 == Polled::Pending
        }),
{
    let pushed = after_add(state, scancode);
    assert(pushed.0.pending =~= seq![scancode]);
    assert(pushed.0.pending.drop_first() =~= Seq::<u8>::empty());
}

/// A poll that finds the queue empty suspends with the consumer registered;
/// the scancode queued next wakes the consumer, whose registration it uses
/// up, and the poll after that delivers the scancode, once.
pub proof fn lemma_poll_before_push(state: BridgeState, scancode: u8)
    requires
        state.initialized,
        state.pending.len() == 0,
    ensures
        ({
            let suspended = after_poll(state);
            let pushed = after_add(suspended.0, scancode);
            let resumed = after_poll(pushed.0);
            let again = after_poll(resumed.0);
            &&& suspended.1 == Polled::Pending
            &&& suspended.0.waiting
            &&& pushed.1 == ScancodeOutcome::Queued
            &&& !pushed.0.waiting
            &&& resumed.1 == Polled::Ready(scancode)
            &&& again.1 == Polled::Pending
        }),
{
    let suspended = after_poll(state);
    let pushed = after_add(suspended.0, scancode);
    assert(pushed.0.pending =~= seq![scancode]);
    assert(pushed.0.pending.drop_first() =~= Seq::<u8>::empty());
}

/// A scancode queued between the two looks of one poll, when no waiter is
/// registered yet, is found by the second look: the poll delivers it and
/// leaves no registration behind.
pub proof fn lemma_push_between_looks(state: BridgeState, scancode: u8)
    requires
        state.initialized,
        state.pending.len() == 0,
    ensures
        ({
            let looked = after_take(state);
            let pushed = after_add(looked.0, scancode);
            let suspended = after_suspend(pushed.0);
            &&& looked.1 is None
            &&& pushed.1 == ScancodeOutcome::Queued
            &&& suspended.1 == Polled::Ready(scancode)
            &&& !suspended.0.waiting
            &&& suspended.0.pending.len() == 0
        }),
{
    let pushed = after_add(after_take(state).0, scancode);
    assert(pushed.0.pending =~= seq![scancode]);
}

/// The queue of scancodes and the cell of the waiting consumer.
pub struct ScancodeBridge {
    queue: Option<crossbeam_queue::ArrayQueue<u8>>,
    waker: futures_util::task::AtomicWaker,
}

impl View for ScancodeBridge {
    type V = BridgeState;

    closed spec fn view(&self) -> BridgeState {
        BridgeState {
            initialized: self.queue is Some,
            pending: match self.queue {
                Some(queue) => queue_contents(queue),
                None => Seq::empty(),
            },
            waiting: waker_registered(self.waker),
        }
    }
}

impl ScancodeBridge {
    /// The invariant of a bridge: its queue, once constructed, has the
    /// capacity [`SCANCODE_QUEUE_CAPACITY`] and holds no more than that.
    pub closed spec fn wf(&self) -> bool {
        match self.queue {
            Some(queue) => queue_capacity(queue) == SCANCODE_QUEUE_CAPACITY && queue_contents(
                queue,
            ).len() <= SCANCODE_QUEUE_CAPACITY,
            None => true,
        }
    }

    /// A bridge whose queue is not constructed yet and that has no waiter.
    pub fn new() -> (bridge: ScancodeBridge)
        ensures
            bridge.wf(),
            bridge@ == (BridgeState { initialized: false, pending: Seq::empty(), waiting: false }),
    {
        ScancodeBridge { queue: None, waker: waker_cell_new() }
    }

    /// Whether the queue has been constructed.
    pub fn is_initialized(&self) -> (initialized: bool)
        ensures
            initialized == self@.initialized,
    {
        self.queue.is_some()
    }

    /// Looks for a scancode without registering a waiter.
    pub fn take_scancode(&mut self) -> (taken: Option<u8>)
        requires
            old(self).wf(),
            old(self)@.initialized,
        ensures
            final(self).wf(),
            (final(self)@, taken) == after_take(old(self)@),
    {
        match &mut self.queue {
            Some(queue) => queue_pop(queue),
            None => None,
        }
    }

    /// Registers `waker` as the waiter and looks for a scancode once more. A
    /// scancode that arrived since the last look is returned, and the
    /// registration is dropped; otherwise the consumer is to suspend.
    pub fn suspend(&mut self, waker: &core::task::Waker) -> (polled: Polled)
        requires
            old(self).wf(),
            old(self)@.initialized,
        ensures
            final(self).wf(),
            (final(self)@, polled) == after_suspend(old(self)@),
    {
        waker_cell_register(&mut self.waker, waker);
        match self.take_scancode() {
            Some(scancode) => {
                waker_cell_take(&mut self.waker);
                Polled::Ready(scancode)
            },
            None => Polled::Pending,
        }
    }
}

/// Hands a scancode from the keyboard interrupt to the consumer.
///
/// Never blocks: a scancode that finds the queue full, or not constructed yet,
/// is dropped, and the outcome says so. A scancode that was queued wakes the
/// waiting consumer.
pub fn add_scancode(bridge: &mut ScancodeBridge, scancode: u8) -> (outcome: ScancodeOutcome)
    requires
        old(bridge).wf(),
    ensures
        final(bridge).wf(),
        (final(bridge)@, outcome) == after_add(old(bridge)@, scancode),
{
    match &mut bridge.queue {
        Some(queue) => {
            if queue_push(queue, scancode) {
                waker_cell_wake(&mut bridge.waker);
                ScancodeOutcome::Queued
            } else {
                ScancodeOutcome::QueueFull
            }
        },
        None => ScancodeOutcome::Uninitialized,
    }
}

/// The consumer's end of the bridge: the scancodes in the order in which the
/// interrupt side handed them over, each once.
#[derive(Debug)]
pub struct ScancodeStream {
    _private: (),
}

impl ScancodeStream {
    /// Constructs the queue of `bridge` and returns the stream that reads it.
    ///
    /// A bridge has one stream: the queue must not exist yet.
    pub fn new(bridge: &mut ScancodeBridge) -> (stream: ScancodeStream)
        requires
            old(bridge).wf(),
            !old(bridge)@.initialized,
        ensures
            final(bridge).wf(),
            final(bridge)@ == (BridgeState {
                initialized: true,
                pending: Seq::empty(),
                waiting: old(bridge)@.waiting,
            }),
    {
        bridge.queue = Some(queue_new(SCANCODE_QUEUE_CAPACITY));
        ScancodeStream { _private: () }
    }

    /// Constructs the queue of `bridge` and returns the stream that reads it,
    /// or returns `None` and leaves the bridge as it is where the queue exists
    /// already.
    pub fn try_new(bridge: &mut ScancodeBridge) -> (made: Option<ScancodeStream>)
        requires
            old(bridge).wf(),
        ensures
            final(bridge).wf(),
            made is Some == !old(bridge)@.initialized,
            made is Some ==> final(bridge)@ == (BridgeState {
                initialized: true,
                pending: Seq::empty(),
                waiting: old(bridge)@.waiting,
            }),
            made is None ==> final(bridge)@ == old(bridge)@,
    {
        if bridge.is_initialized() {
            None
        } else {
            Some(Self::new(bridge))
        }
    }

    /// One poll of the stream: the next scancode, or `Pending` after `waker`
    /// has been registered to be woken by the next scancode that is queued.
    ///
    /// The queue is looked at twice, before the registration and after it, so
    /// that a scancode that arrives between the two is not left waiting.
    pub fn poll_next(&mut self, bridge: &mut ScancodeBridge, waker: &core::task::Waker) -> (polled:
        Polled)
        requires
            old(bridge).wf(),
            old(bridge)@.initialized,
        ensures
            final(bridge).wf(),
            (final(bridge)@, polled) == after_poll(old(bridge)@),
    {
        // Fast path: a scancode is there already.
        if let Some(scancode) = bridge.take_scancode() {
            return Polled::Ready(scancode);
        }
        bridge.suspend(waker)
    }
}

/// `String::push` appends the character to the end of the string.
pub assume_specification[ String::push ](text: &mut String, character: char)
    ensures
        final(text)@ == old(text)@.push(character),
;

#[verifier::external_type_specification]
#[verifier::external_body]
pub struct ExKeyEvent(pc_keyboard::KeyEvent);

/// A key as the layout decodes it.
#[derive(Debug, PartialEq, Eq)]
pub enum DecodedKey {
    /// A key that stands for a character.
    Unicode(char),
    /// A key without a character, by the name of its key code.
    RawKey(String),
}

/// A decoded key in contracts: a raw key by the characters of its name.
pub enum KeyView {
    Unicode(char),
    RawKey(Seq<char>),
}

impl View for DecodedKey {
    type V = KeyView;

    open spec fn view(&self) -> KeyView {
        match *self {
            DecodedKey::Unicode(character) => KeyView::Unicode(character),
            DecodedKey::RawKey(name) => KeyView::RawKey(name@),
        }
    }
}

/// The view of an optional key.
pub open spec fn key_view_of(key: Option<DecodedKey>) -> Option<KeyView> {
    match key {
        Some(key) => Some(key@),
        None => None,
    }
}

/// Decoder of the scancodes of set 1 under the US 104-key layout.
///
/// It holds a `pc_keyboard::Keyboard`, which keeps what the decoding of a
/// scancode depends on: the scancodes that have gone before and the modifier
/// keys that are held. The bounds on the type parameters of `Keyboard` keep
/// that type out of verified signatures, so it is held behind this struct.
#[verifier::external_body]
pub struct KeyDecoder {
    keyboard: pc_keyboard::Keyboard<pc_keyboard::layouts::Us104Key, pc_keyboard::ScancodeSet1>,
}

/// The scancodes that a decoder's keyboard has been handed through `add_byte`
/// since it was made, the first one first.
pub uninterp spec fn decoder_scancodes(decoder: KeyDecoder) -> Seq<u8>;

/// The key events that a decoder's keyboard has been handed through
/// `process_keyevent` since it was made, the first one first.
pub uninterp spec fn decoder_events(decoder: KeyDecoder) -> Seq<pc_keyboard::KeyEvent>;

/// The key event that `Keyboard::add_byte` completes with `scancode`, on a
/// keyboard for scancode set 1 that was handed the scancodes `earlier` before,
/// if it completes one.
pub uninterp spec fn completed_event(earlier: Seq<u8>, scancode: u8) -> Option<
    pc_keyboard::KeyEvent,
>;

/// The key that `Keyboard::process_keyevent` decodes `event` to, on a keyboard
/// with the US 104-key layout that was handed the events `earlier` before, if
/// the event stands for a key.
pub uninterp spec fn decoded_key(
    earlier: Seq<pc_keyboard::KeyEvent>,
    event: pc_keyboard::KeyEvent,
) -> Option<KeyView>;

/// `pc_keyboard::Keyboard::new` for scancode set 1 and the US 104-key
/// layout, with `HandleControl::Ignore`: a keyboard that has been handed
/// nothing yet.
#[verifier::external_body]
fn keyboard_new() -> (decoder: KeyDecoder)
    ensures
        decoder_scancodes(decoder) == Seq::<u8>::empty(),
        decoder_events(decoder) == Seq::<pc_keyboard::KeyEvent>::empty(),
{
    KeyDecoder {
        keyboard: pc_keyboard::Keyboard::new(
            pc_keyboard::ScancodeSet1::new(),
            pc_keyboard::layouts::Us104Key,
            pc_keyboard::HandleControl::Ignore,
        ),
    }
}

/// `pc_keyboard::Keyboard::add_byte`: the key event that the byte completes,
/// if it completes one. An error of the decoder counts as no event.
///
/// The call advances the state machine of the scancode set and nothing else,
/// so what it returns depends on the scancodes handed over so far and on the
/// byte, and not on the events that were processed.
#[verifier::external_body]
fn keyboard_add_byte(decoder: &mut KeyDecoder, byte: u8) -> (event: Option<pc_keyboard::KeyEvent>)
    ensures
        decoder_scancodes(*final(decoder)) == decoder_scancodes(*old(decoder)).push(byte),
        decoder_events(*final(decoder)) == decoder_events(*old(decoder)),
        event == completed_event(decoder_scancodes(*old(decoder)), byte),
{
    match decoder.keyboard.add_byte(byte) {
        Ok(event) => event,
        Err(_) => None,
    }
}

/// `pc_keyboard::Keyboard::process_keyevent`: the key that the event stands
/// for under the layout and the modifiers held, if it stands for one. A raw
/// key is given by the `Debug` name of its `KeyCode`.
///
/// The call reads and changes the modifiers and nothing else, so what it
/// returns depends on the events processed so far and on the event, and not
/// on the scancodes that were handed over.
#[verifier::external_body]
fn keyboard_process_keyevent(decoder: &mut KeyDecoder, event: pc_keyboard::KeyEvent) -> (key:
    Option<DecodedKey>)
    ensures
        decoder_scancodes(*final(decoder)) == decoder_scancodes(*old(decoder)),
        decoder_events(*final(decoder)) == decoder_events(*old(decoder)).push(event),
        key_view_of(key) == decoded_key(decoder_events(*old(decoder)), event),
{
    match decoder.keyboard.process_keyevent(event) {
        Some(pc_keyboard::DecodedKey::Unicode(character)) => Some(DecodedKey::Unicode(character)),
        Some(pc_keyboard::DecodedKey::RawKey(code)) => {
            Some(DecodedKey::RawKey(format!("{:?}", code)))
        },
        None => None,
    }
}

/// The events that a keyboard has processed once it has been handed what a
/// scancode completed: `event` behind the `earlier` ones, where there is one.
pub open spec fn events_with(
    earlier: Seq<pc_keyboard::KeyEvent>,
    event: Option<pc_keyboard::KeyEvent>,
) -> Seq<pc_keyboard::KeyEvent> {
    match event {
        Some(event) => earlier.push(event),
        None => earlier,
    }
}

/// The key for what a scancode completed: the one that `event` is decoded to
/// after the `earlier` events, and none where no event was completed.
pub open spec fn key_for(
    earlier: Seq<pc_keyboard::KeyEvent>,
    event: Option<pc_keyboard::KeyEvent>,
) -> Option<KeyView> {
    match event {
        Some(event) => decoded_key(earlier, event),
        None => None,
    }
}

/// The events that the scancodes complete, in their order.
pub open spec fn events_of(scancodes: Seq<u8>) -> Seq<pc_keyboard::KeyEvent>
    decreases scancodes.len(),
{
    if scancodes.len() == 0 {
        Seq::empty()
    } else {
        events_with(
            events_of(scancodes.drop_last()),
            completed_event(scancodes.drop_last(), scancodes.last()),
        )
    }
}

/// The key that `scancode` gives after the scancodes `earlier`, where every
/// event that those completed has been processed.
pub open spec fn key_after(earlier: Seq<u8>, scancode: u8) -> Option<KeyView> {
    key_for(events_of(earlier), completed_event(earlier, scancode))
}

/// The events of a sequence of scancodes that ends in `scancode` are those of
/// the scancodes before it, and behind them what `scancode` completes.
pub proof fn lemma_events_of_push(earlier: Seq<u8>, scancode: u8)
    ensures
        events_of(earlier.push(scancode)) == events_with(
            events_of(earlier),
            completed_event(earlier, scancode),
        ),
{
    assert(earlier.push(scancode).drop_last() =~= earlier);
}

impl KeyDecoder {
    /// The scancodes that the decoder has been fed, the first one first.
    pub open spec fn scancodes(self) -> Seq<u8> {
        decoder_scancodes(self)
    }

    /// The key events that the decoder has processed, the first one first.
    pub open spec fn events(self) -> Seq<pc_keyboard::KeyEvent> {
        decoder_events(self)
    }

    /// Whether the decoder has processed every event that its scancodes
    /// completed, and no other. What it decodes a scancode to is then decided
    /// by the scancodes alone.
    pub open spec fn in_step(self) -> bool {
        self.events() == events_of(self.scancodes())
    }

    /// A decoder that has seen no scancode.
    pub fn new() -> (decoder: KeyDecoder)
        ensures
            decoder.scancodes() == Seq::<u8>::empty(),
            decoder.events() == Seq::<pc_keyboard::KeyEvent>::empty(),
            decoder.in_step(),
    {
        keyboard_new()
    }

    /// Processes what a scancode completed: decodes `event` to a key under
    /// the modifiers that are held, and returns `None` where there is no
    /// event or the event stands for no key.
    pub fn process(&mut self, event: Option<pc_keyboard::KeyEvent>) -> (key: Option<DecodedKey>)
        ensures
            final(self).scancodes() == old(self).scancodes(),
            final(self).events() == events_with(old(self).events(), event),
            key_view_of(key) == key_for(old(self).events(), event),
    {
        match event {
            Some(event) => keyboard_process_keyevent(self, event),
            None => None,
        }
    }

    /// Feeds one scancode to the decoder. Returns the key that the scancode
    /// completes, or `None` where it completes none: as part of a longer
    /// sequence, or as the release of a key.
    pub fn decode(&mut self, scancode: u8) -> (key: Option<DecodedKey>)
        ensures
            final(self).scancodes() == old(self).scancodes().push(scancode),
            final(self).events() == events_with(
                old(self).events(),
                completed_event(old(self).scancodes(), scancode),
            ),
            key_view_of(key) == key_for(
                old(self).events(),
                completed_event(old(self).scancodes(), scancode),
            ),
            old(self).in_step() ==> final(self).in_step() && key_view_of(key) == key_after(
                old(self).scancodes(),
                scancode,
            ),
    {
        proof {
            lemma_events_of_push(self.scancodes(), scancode);
        }
        let event = keyboard_add_byte(self, scancode);
        self.process(event)
    }
}

impl KeyView {
    /// The characters that the key is shown as.
    pub open spec fn text_of(self) -> Seq<char> {
        match self {
            KeyView::Unicode(character) => seq![character],
            KeyView::RawKey(name) => name,
        }
    }
}

impl DecodedKey {
    /// The text that the key is printed as: its character, or the name of its
    /// key code.
    pub fn text(&self) -> (text: String)
        ensures
            text@ == self@.text_of(),
    {
        match self {
            DecodedKey::Unicode(character) => {
                let mut text = String::new();
                text.push(*character);
                text
            },
            DecodedKey::RawKey(name) => name.clone(),
        }
    }
}

} // verus!
