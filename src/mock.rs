//! A deterministic simulated transport, and a connected pair of them, for
//! exercising the link without a radio.

use vstd::prelude::*;

use crate::fixed::{
    frame_as_slice, frame_bytes, frame_new, frame_push, queue_clear, queue_get, queue_len,
    queue_new, queue_pop, queue_push, queued_frames, FRAME_CAPACITY, QUEUE_CAPACITY,
};
use crate::transport::{WirelessError, WirelessTransport};

verus! {

/// The bytes of each frame in a queue, oldest first.
pub open spec fn frames_view(q: heapless::Vec<heapless::Vec<u8, 64>, 16>) -> Seq<Seq<u8>> {
    queued_frames(q).map_values(|f: heapless::Vec<u8, 64>| frame_bytes(f))
}

/// A queue read from the back: the order in which frames are received.
pub open spec fn newest_first(q: Seq<Seq<u8>>) -> Seq<Seq<u8>> {
    Seq::new(q.len(), |i: int| q[q.len() - 1 - i])
}

/// A receive queue after the frames of a send queue are moved onto it,
/// taken from the back of the send queue one by one.
pub open spec fn transferred(recv: Seq<Seq<u8>>, send: Seq<Seq<u8>>) -> Seq<Seq<u8>> {
    recv + newest_first(send)
}

/// `n + 1`, held at `usize::MAX`.
pub open spec fn bumped(n: usize) -> usize {
    if n < usize::MAX {
        (n + 1) as usize
    } else {
        n
    }
}

/// Whether a send is dropped at a loss rate of `percent` after `sent`
/// successful sends: never at 0%, always at 100%, and otherwise whenever
/// `sent` is a multiple of `100 / percent`.
pub open spec fn drops_at(percent: u8, sent: usize) -> bool {
    if percent == 0 {
        false
    } else if percent >= 100 {
        true
    } else {
        sent as int % (100int / percent as int) == 0
    }
}

/// Copy bytes into a frame buffer; more than a frame's capacity is
/// `FrameTooLarge`.
fn copy_frame(bytes: &[u8]) -> (r: Result<heapless::Vec<u8, 64>, WirelessError>)
    ensures
        bytes@.len() <= FRAME_CAPACITY ==> r is Ok && frame_bytes(r->Ok_0) == bytes@,
        bytes@.len() > FRAME_CAPACITY ==> r == Err::<heapless::Vec<u8, 64>, WirelessError>(
            WirelessError::FrameTooLarge,
        ),
{
    let mut v = frame_new();
    let mut i: usize = 0;
    while i < bytes.len()
        invariant
            i <= bytes@.len(),
            i <= FRAME_CAPACITY,
            frame_bytes(v) == bytes@.subrange(0, i as int),
        decreases bytes@.len() - i,
    {
        if frame_push(&mut v, bytes[i]).is_err() {
            return Err(WirelessError::FrameTooLarge);
        }
        assert(bytes@.subrange(0, i + 1) =~= bytes@.subrange(0, i as int).push(bytes@[i as int]));
        i += 1;
    }
    assert(bytes@.subrange(0, i as int) =~= bytes@);
    Ok(v)
}

/// A simulated transport: sent frames wait in `send_queue`, frames to be
/// received wait in `recv_queue`, and a packet-loss rate drops sends
/// deterministically.
pub struct MockTransport {
    /// Frames sent, oldest first.
    pub send_queue: heapless::Vec<heapless::Vec<u8, 64>, 16>,
    /// Frames waiting to be received; the last one is received first.
    pub recv_queue: heapless::Vec<heapless::Vec<u8, 64>, 16>,
    /// Packet-loss rate in percent; 100 or more loses every frame.
    pub packet_loss_percent: u8,
    /// Frames sent successfully.
    pub frames_sent: usize,
    /// Frames received.
    pub frames_received: usize,
    /// Frames dropped by simulated packet loss.
    pub frames_dropped: usize,
    /// Whether the transport accepts calls.
    pub initialized: bool,
    /// Largest frame accepted, in bytes.
    pub max_size: usize,
}

impl MockTransport {
    /// The packet-loss rate in percent.
    pub open spec fn loss_percent(&self) -> u8 {
        self.packet_loss_percent
    }

    /// Create a transport with empty queues, no loss, and 64-byte frames.
    pub fn new() -> (r: Self)
        ensures
            frames_view(r.send_queue).len() == 0,
            frames_view(r.recv_queue).len() == 0,
            r.loss_percent() == 0,
            r.frames_sent == 0 && r.frames_received == 0 && r.frames_dropped == 0,
            r.initialized(),
            r.frame_limit() == FRAME_CAPACITY,
    {
        MockTransport {
            send_queue: queue_new(),
            recv_queue: queue_new(),
            packet_loss_percent: 0,
            frames_sent: 0,
            frames_received: 0,
            frames_dropped: 0,
            initialized: true,
            max_size: FRAME_CAPACITY,
        }
    }

    /// Set the packet-loss rate in percent: 0 loses nothing, 100 or more
    /// loses every frame.
    pub fn set_packet_loss_rate(&mut self, percent: u8)
        ensures
            final(self).loss_percent() == if percent > 100 {
                100
            } else {
                percent
            },
            final(self).send_queue == old(self).send_queue,
            final(self).recv_queue == old(self).recv_queue,
            final(self).frames_sent == old(self).frames_sent,
            final(self).frames_received == old(self).frames_received,
            final(self).frames_dropped == old(self).frames_dropped,
            final(self).initialized() == old(self).initialized(),
            final(self).frame_limit() == old(self).frame_limit(),
    {
        self.packet_loss_percent = if percent > 100 {
            100
        } else {
            percent
        };
    }

    /// Set the maximum frame size.
    pub fn set_max_size(&mut self, size: usize)
        ensures
            final(self).frame_limit() == size,
            final(self).loss_percent() == old(self).loss_percent(),
            final(self).send_queue == old(self).send_queue,
            final(self).recv_queue == old(self).recv_queue,
            final(self).frames_sent == old(self).frames_sent,
            final(self).frames_received == old(self).frames_received,
            final(self).frames_dropped == old(self).frames_dropped,
            final(self).initialized() == old(self).initialized(),
    {
        self.max_size = size;
    }

    /// Queue a frame as if it had arrived from the peer. A frame beyond the
    /// buffer capacity is `FrameTooLarge`, a full queue is `Busy`; both leave
    /// the transport as it was.
    pub fn simulate_receive(&mut self, frame: &[u8]) -> (r: Result<(), WirelessError>)
        ensures
            frame@.len() > FRAME_CAPACITY ==> r == Err::<(), WirelessError>(
                WirelessError::FrameTooLarge,
            ),
            frame@.len() <= FRAME_CAPACITY && frames_view(old(self).recv_queue).len()
                >= QUEUE_CAPACITY ==> r == Err::<(), WirelessError>(WirelessError::Busy),
            r is Ok <==> frame@.len() <= FRAME_CAPACITY && frames_view(old(self).recv_queue).len()
                < QUEUE_CAPACITY,
            r is Ok ==> frames_view(final(self).recv_queue) == frames_view(
                old(self).recv_queue,
            ).push(frame@),
            r is Err ==> final(self).recv_queue == old(self).recv_queue,
            final(self).send_queue == old(self).send_queue,
            final(self).loss_percent() == old(self).loss_percent(),
            final(self).frames_sent == old(self).frames_sent,
            final(self).frames_received == old(self).frames_received,
            final(self).frames_dropped == old(self).frames_dropped,
            final(self).initialized() == old(self).initialized(),
            final(self).frame_limit() == old(self).frame_limit(),
    {
        let v = match copy_frame(frame) {
            Ok(v) => v,
            Err(e) => {
                return Err(e);
            },
        };
        match queue_push(&mut self.recv_queue, v) {
            Ok(()) => {
                assert(frames_view(self.recv_queue) =~= frames_view(old(self).recv_queue).push(
                    frame@,
                ));
                Ok(())
            },
            Err(_) => Err(WirelessError::Busy),
        }
    }

    /// The sent frame at `index`, oldest first.
    pub fn get_sent_frame(&self, index: usize) -> (r: Option<&heapless::Vec<u8, 64>>)
        ensures
            index < frames_view(self.send_queue).len() ==> r is Some && frame_bytes(*r->Some_0)
                == frames_view(self.send_queue)[index as int],
            index >= frames_view(self.send_queue).len() ==> r is None,
    {
        queue_get(&self.send_queue, index)
    }

    /// Empty both queues.
    pub fn clear(&mut self)
        ensures
            frames_view(final(self).send_queue).len() == 0,
            frames_view(final(self).recv_queue).len() == 0,
            final(self).loss_percent() == old(self).loss_percent(),
            final(self).frames_sent == old(self).frames_sent,
            final(self).frames_received == old(self).frames_received,
            final(self).frames_dropped == old(self).frames_dropped,
            final(self).initialized() == old(self).initialized(),
            final(self).frame_limit() == old(self).frame_limit(),
    {
        queue_clear(&mut self.send_queue);
        queue_clear(&mut self.recv_queue);
    }

    /// Reset the statistics.
    pub fn reset_stats(&mut self)
        ensures
            final(self).frames_sent == 0,
            final(self).frames_received == 0,
            final(self).frames_dropped == 0,
            final(self).send_queue == old(self).send_queue,
            final(self).recv_queue == old(self).recv_queue,
            final(self).loss_percent() == old(self).loss_percent(),
            final(self).initialized() == old(self).initialized(),
            final(self).frame_limit() == old(self).frame_limit(),
    {
        self.frames_sent = 0;
        self.frames_received = 0;
        self.frames_dropped = 0;
    }

    /// Whether simulated loss drops the next send.
    fn should_drop_packet(&self) -> (r: bool)
        ensures
            r == drops_at(self.loss_percent(), self.frames_sent),
    {
        if self.packet_loss_percent == 0 {
            return false;
        }
        if self.packet_loss_percent >= 100 {
            return true;
        }
        let p = self.packet_loss_percent as usize;
        let n = 100 / p;
        assert(n >= 1) by (nonlinear_arith)
            requires
                0 < p < 100,
                n == 100usize / p,
        ;
        self.frames_sent % n == 0
    }
}

impl Default for MockTransport {
    fn default() -> (r: Self)
        ensures
            frames_view(r.send_queue).len() == 0,
            frames_view(r.recv_queue).len() == 0,
            r.loss_percent() == 0,
            r.frames_sent == 0 && r.frames_received == 0 && r.frames_dropped == 0,
            r.initialized(),
            r.frame_limit() == FRAME_CAPACITY,
    {
        Self::new()
    }
}

impl WirelessTransport for MockTransport {
    open spec fn initialized(&self) -> bool {
        self.initialized
    }

    open spec fn frame_limit(&self) -> nat {
        self.max_size as nat
    }

    fn send_frame(&mut self, frame: &[u8]) -> (r: Result<(), WirelessError>)
        ensures
            old(self).initialized() && frame@.len() <= old(self).frame_limit()
                && drops_at(old(self).loss_percent(), old(self).frames_sent) ==> r == Err::<(), WirelessError>(
                WirelessError::SendFailed,
            ) && final(self).frames_dropped == bumped(old(self).frames_dropped),
            old(self).initialized() && frame@.len() <= old(self).frame_limit()
                && !drops_at(old(self).loss_percent(), old(self).frames_sent) && frame@.len() > FRAME_CAPACITY ==> r == Err::<
                (),
                WirelessError,
            >(WirelessError::FrameTooLarge),
            old(self).initialized() && frame@.len() <= old(self).frame_limit()
                && !drops_at(old(self).loss_percent(), old(self).frames_sent) && frame@.len() <= FRAME_CAPACITY && frames_view(
                old(self).send_queue,
            ).len() >= QUEUE_CAPACITY ==> r == Err::<(), WirelessError>(WirelessError::Busy),
            r is Ok <==> old(self).initialized() && frame@.len() <= old(self).frame_limit()
                && !drops_at(old(self).loss_percent(), old(self).frames_sent) && frame@.len() <= FRAME_CAPACITY && frames_view(
                old(self).send_queue,
            ).len() < QUEUE_CAPACITY,
            r is Ok ==> frames_view(final(self).send_queue) == frames_view(
                old(self).send_queue,
            ).push(frame@) && final(self).frames_sent == bumped(old(self).frames_sent),
            r is Err ==> final(self).send_queue == old(self).send_queue && final(self).frames_sent
                == old(self).frames_sent,
            r != Err::<(), WirelessError>(WirelessError::SendFailed) ==> final(self).frames_dropped
                == old(self).frames_dropped,
            final(self).recv_queue == old(self).recv_queue,
            final(self).loss_percent() == old(self).loss_percent(),
            final(self).frames_received == old(self).frames_received,
    {
        if !self.initialized {
            return Err(WirelessError::NotInitialized);
        }
        if frame.len() > self.max_size {
            return Err(WirelessError::FrameTooLarge);
        }
        if self.should_drop_packet() {
            self.frames_dropped = self.frames_dropped.saturating_add(1);
            return Err(WirelessError::SendFailed);
        }
        let v = match copy_frame(frame) {
            Ok(v) => v,
            Err(e) => {
                return Err(e);
            },
        };
        match queue_push(&mut self.send_queue, v) {
            Ok(()) => {
                assert(frames_view(self.send_queue) =~= frames_view(old(self).send_queue).push(
                    frame@,
                ));
            },
            Err(_) => {
                return Err(WirelessError::Busy);
            },
        }
        self.frames_sent = self.frames_sent.saturating_add(1);
        Ok(())
    }

    fn recv_frame(&mut self) -> (r: Result<Option<heapless::Vec<u8, 64>>, WirelessError>)
        ensures
            old(self).initialized() && frames_view(old(self).recv_queue).len() == 0 ==> r
                == Ok::<Option<heapless::Vec<u8, 64>>, WirelessError>(None) && *final(self)
                == *old(self),
            old(self).initialized() && frames_view(old(self).recv_queue).len() > 0 ==> r is Ok
                && r->Ok_0 is Some && frame_bytes(r->Ok_0->Some_0) == frames_view(
                old(self).recv_queue,
            ).last() && frames_view(final(self).recv_queue) == frames_view(
                old(self).recv_queue,
            ).drop_last() && final(self).frames_received == bumped(old(self).frames_received),
            final(self).send_queue == old(self).send_queue,
            final(self).loss_percent() == old(self).loss_percent(),
            final(self).frames_sent == old(self).frames_sent,
            final(self).frames_dropped == old(self).frames_dropped,
    {
        if !self.initialized {
            return Err(WirelessError::NotInitialized);
        }
        match queue_pop(&mut self.recv_queue) {
            Some(frame) => {
                assert(frames_view(self.recv_queue) =~= frames_view(old(self).recv_queue).drop_last());
                self.frames_received = self.frames_received.saturating_add(1);
                Ok(Some(frame))
            },
            None => Ok(None),
        }
    }

    fn is_ready(&self) -> (r: bool)
        ensures
            r == self.initialized(),
    {
        self.initialized
    }

    fn max_frame_size(&self) -> (r: usize)
        ensures
            r == self.frame_limit(),
    {
        self.max_size
    }

    fn flush(&mut self) -> (r: Result<(), WirelessError>)
        ensures
            r is Ok,
            frames_view(final(self).send_queue).len() == 0,
            final(self).recv_queue == old(self).recv_queue,
            final(self).loss_percent() == old(self).loss_percent(),
            final(self).frames_sent == old(self).frames_sent,
            final(self).frames_received == old(self).frames_received,
            final(self).frames_dropped == old(self).frames_dropped,
    {
        queue_clear(&mut self.send_queue);
        Ok(())
    }
}

/// Move every frame of `from`'s send queue onto `to`'s receive queue, taking
/// them from the back. Stops with `Busy` when `to`'s queue fills up.
fn transfer(from: &mut MockTransport, to: &mut MockTransport) -> (r: Result<usize, WirelessError>)
    ensures
        r is Ok <==> frames_view(old(to).recv_queue).len() + frames_view(old(from).send_queue).len()
            <= QUEUE_CAPACITY,
        r is Ok ==> r->Ok_0 == frames_view(old(from).send_queue).len() && frames_view(
            final(to).recv_queue,
        ) == transferred(frames_view(old(to).recv_queue), frames_view(old(from).send_queue))
            && frames_view(final(from).send_queue).len() == 0,
        r is Err ==> r == Err::<usize, WirelessError>(WirelessError::Busy),
        final(from).recv_queue == old(from).recv_queue,
        final(to).send_queue == old(to).send_queue,
        final(from).loss_percent() == old(from).loss_percent(),
        final(to).loss_percent() == old(to).loss_percent(),
        final(from).frames_sent == old(from).frames_sent,
        final(to).frames_sent == old(to).frames_sent,
        final(from).frames_received == old(from).frames_received,
        final(to).frames_received == old(to).frames_received,
        final(from).frames_dropped == old(from).frames_dropped,
        final(to).frames_dropped == old(to).frames_dropped,
        final(from).initialized() == old(from).initialized(),
        final(to).initialized() == old(to).initialized(),
        final(from).frame_limit() == old(from).frame_limit(),
        final(to).frame_limit() == old(to).frame_limit(),
{
    let ghost send = frames_view(from.send_queue);
    let ghost recv = frames_view(to.recv_queue);
    // Frames already waiting on the far side, never more than a queue holds.
    let waiting = queue_len(&to.recv_queue);
    let mut count: usize = 0;
    loop
        invariant
            send == frames_view(old(from).send_queue),
            recv == frames_view(old(to).recv_queue),
            waiting == recv.len(),
            count <= send.len(),
            recv.len() + count <= QUEUE_CAPACITY,
            frames_view(from.send_queue) == send.subrange(0, send.len() - count),
            frames_view(to.recv_queue) == transferred(
                recv,
                send.subrange(send.len() - count, send.len() as int),
            ),
            from.recv_queue == old(from).recv_queue,
            to.send_queue == old(to).send_queue,
            from.loss_percent() == old(from).loss_percent(),
            to.loss_percent() == old(to).loss_percent(),
            from.frames_sent == old(from).frames_sent,
            to.frames_sent == old(to).frames_sent,
            from.frames_received == old(from).frames_received,
            to.frames_received == old(to).frames_received,
            from.frames_dropped == old(from).frames_dropped,
            to.frames_dropped == old(to).frames_dropped,
            from.initialized() == old(from).initialized(),
            to.initialized() == old(to).initialized(),
            from.frame_limit() == old(from).frame_limit(),
            to.frame_limit() == old(to).frame_limit(),
        decreases send.len() - count,
    {
        let ghost moved = send.subrange(send.len() - count, send.len() as int);
        let ghost before = queued_frames(from.send_queue);
        let ghost before_view = frames_view(from.send_queue);
        assert(before_view.len() == before.len());
        match queue_pop(&mut from.send_queue) {
            Some(frame) => {
                let bytes = frame_as_slice(&frame);
                proof {
                    assert(frames_view(old(from).send_queue).len() == send.len());
                    assert(frame == before[before.len() - 1]);
                    assert(frame_bytes(frame) == before_view[before.len() - 1]);
                    assert(frame_bytes(frame) == send[send.len() - count - 1]);
                }
                match to.simulate_receive(bytes) {
                    Ok(()) => {},
                    Err(e) => {
                        return Err(e);
                    },
                }
                proof {
                    let more = send.subrange(send.len() - count - 1, send.len() as int);
                    assert(newest_first(more) =~= newest_first(moved).push(send[send.len() - count - 1]));
                    assert(frames_view(from.send_queue) =~= send.subrange(0, send.len() - count - 1));
                }
                count += 1;
            },
            None => {
                assert(send.subrange(send.len() - count, send.len() as int) =~= send);
                return Ok(count);
            },
        }
    }
}

/// A keyboard transport and a dongle transport joined by a simulated link.
pub struct MockTransportPair {
    /// The keyboard's end.
    pub keyboard: MockTransport,
    /// The dongle's end.
    pub dongle: MockTransport,
}

impl MockTransportPair {
    /// Create a pair with empty queues and no loss.
    pub fn new() -> (r: Self)
        ensures
            frames_view(r.keyboard.send_queue).len() == 0,
            frames_view(r.keyboard.recv_queue).len() == 0,
            frames_view(r.dongle.send_queue).len() == 0,
            frames_view(r.dongle.recv_queue).len() == 0,
            r.keyboard.loss_percent() == 0 && r.dongle.loss_percent() == 0,
            r.keyboard.initialized() && r.dongle.initialized(),
            r.keyboard.frame_limit() == FRAME_CAPACITY && r.dongle.frame_limit() == FRAME_CAPACITY,
            r.keyboard.frames_sent == 0 && r.dongle.frames_sent == 0,
    {
        MockTransportPair { keyboard: MockTransport::new(), dongle: MockTransport::new() }
    }

    /// Set the packet-loss rate of both ends, in percent.
    pub fn set_packet_loss_rate(&mut self, percent: u8)
        ensures
            final(self).keyboard.loss_percent() == if percent > 100 {
                100
            } else {
                percent
            },
            final(self).dongle.loss_percent() == final(self).keyboard.loss_percent(),
    {
        self.keyboard.set_packet_loss_rate(percent);
        self.dongle.set_packet_loss_rate(percent);
    }

    /// Move the keyboard's sent frames to the dongle's receive queue, and
    /// return how many were moved.
    pub fn transfer_keyboard_to_dongle(&mut self) -> (r: Result<usize, WirelessError>)
        ensures
            r is Ok <==> frames_view(old(self).dongle.recv_queue).len() + frames_view(
                old(self).keyboard.send_queue,
            ).len() <= QUEUE_CAPACITY,
            r is Ok ==> r->Ok_0 == frames_view(old(self).keyboard.send_queue).len() && frames_view(
                final(self).dongle.recv_queue,
            ) == transferred(
                frames_view(old(self).dongle.recv_queue),
                frames_view(old(self).keyboard.send_queue),
            ) && frames_view(final(self).keyboard.send_queue).len() == 0,
            r is Err ==> r == Err::<usize, WirelessError>(WirelessError::Busy),
            final(self).keyboard.recv_queue == old(self).keyboard.recv_queue,
            final(self).dongle.send_queue == old(self).dongle.send_queue,
    {
        transfer(&mut self.keyboard, &mut self.dongle)
    }

    /// Move the dongle's sent frames to the keyboard's receive queue, and
    /// return how many were moved.
    pub fn transfer_dongle_to_keyboard(&mut self) -> (r: Result<usize, WirelessError>)
        ensures
            r is Ok <==> frames_view(old(self).keyboard.recv_queue).len() + frames_view(
                old(self).dongle.send_queue,
            ).len() <= QUEUE_CAPACITY,
            r is Ok ==> r->Ok_0 == frames_view(old(self).dongle.send_queue).len() && frames_view(
                final(self).keyboard.recv_queue,
            ) == transferred(
                frames_view(old(self).keyboard.recv_queue),
                frames_view(old(self).dongle.send_queue),
            ) && frames_view(final(self).dongle.send_queue).len() == 0,
            r is Err ==> r == Err::<usize, WirelessError>(WirelessError::Busy),
            final(self).dongle.recv_queue == old(self).dongle.recv_queue,
            final(self).keyboard.send_queue == old(self).keyboard.send_queue,
    {
        transfer(&mut self.dongle, &mut self.keyboard)
    }

    /// Transfer in both directions, keyboard to dongle first.
    pub fn transfer_both(&mut self) -> (r: Result<(usize, usize), WirelessError>)
        ensures
            r is Ok <==> frames_view(old(self).dongle.recv_queue).len() + frames_view(
                old(self).keyboard.send_queue,
            ).len() <= QUEUE_CAPACITY && frames_view(old(self).keyboard.recv_queue).len()
                + frames_view(old(self).dongle.send_queue).len() <= QUEUE_CAPACITY,
            r is Ok ==> r->Ok_0.0 == frames_view(old(self).keyboard.send_queue).len() && r->Ok_0.1
                == frames_view(old(self).dongle.send_queue).len() && frames_view(
                final(self).dongle.recv_queue,
            ) == transferred(
                frames_view(old(self).dongle.recv_queue),
                frames_view(old(self).keyboard.send_queue),
            ) && frames_view(final(self).keyboard.recv_queue) == transferred(
                frames_view(old(self).keyboard.recv_queue),
                frames_view(old(self).dongle.send_queue),
            ),
            r is Err ==> r == Err::<(usize, usize), WirelessError>(WirelessError::Busy),
    {
        let k_to_d = match self.transfer_keyboard_to_dongle() {
            Ok(n) => n,
            Err(e) => {
                return Err(e);
            },
        };
        let d_to_k = match self.transfer_dongle_to_keyboard() {
            Ok(n) => n,
            Err(e) => {
                return Err(e);
            },
        };
        Ok((k_to_d, d_to_k))
    }
}

impl Default for MockTransportPair {
    fn default() -> (r: Self)
        ensures
            frames_view(r.keyboard.send_queue).len() == 0,
            frames_view(r.keyboard.recv_queue).len() == 0,
            frames_view(r.dongle.send_queue).len() == 0,
            frames_view(r.dongle.recv_queue).len() == 0,
            r.keyboard.loss_percent() == 0 && r.dongle.loss_percent() == 0,
    {
        Self::new()
    }
}

/// Frames sent in turn and then moved across the link reach the peer in the
/// order in which they were sent, ahead of any frames already waiting there.
pub proof fn lemma_transfer_keeps_order(waiting: Seq<Seq<u8>>, sent: Seq<Seq<u8>>)
    ensures
        newest_first(transferred(waiting, sent)) == sent + newest_first(waiting),
{
    assert(newest_first(transferred(waiting, sent)) =~= sent + newest_first(waiting));
}

/// Each receive takes the first frame in receiving order, and leaves the
/// rest of that order as it was.
pub proof fn lemma_receive_takes_next(q: Seq<Seq<u8>>)
    requires
        q.len() > 0,
    ensures
        newest_first(q)[0] == q.last(),
        newest_first(q.drop_last()) == newest_first(q).drop_first(),
{
    assert(newest_first(q.drop_last()) =~= newest_first(q).drop_first());
}

} // verus!
