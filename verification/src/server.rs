//! The device server: an advisory single-owner session lock over all
//! device operations, and the per-transaction bitstream loader state that
//! feeds chunks — decompressing them inline when asked — into the engine.

use crate::device::Ecp5;
use crate::device::spec_be32;
use crate::driver::Ecp5Impl;
use crate::driver::Event;
use crate::driver::Pin;
use crate::driver::delta_within;
use crate::driver::lemma_written_bytes_push;
use crate::device::start_load_event;
use crate::driver::written_bytes;
use crate::command::Command;
use crate::errors::FpgaError;
use crate::rle::Decompressor;
use crate::status::Status;
use crate::rle::decompress;
use crate::rle::spec_decompress;
use vstd::prelude::*;

verus! {

/// An opaque caller identity: a task index together with the monotonic
/// generation (epoch) of that task's current incarnation. A restarted
/// caller comes back under the same index with a new generation.
#[derive(Copy, Clone, Debug, PartialEq, Eq, Structural)]
pub struct TaskId {
    pub index: u16,
    pub generation: u8,
}

/// What `lock` leaves as holder: the caller, whoever held it before.
pub open spec fn spec_session_lock(holder: Option<TaskId>, caller: TaskId) -> Option<TaskId> {
    Some(caller)
}

/// What `release` returns and leaves as holder: with no holder it fails
/// `NotLocked`; otherwise the lock is cleared.
pub open spec fn spec_session_release(holder: Option<TaskId>) -> (Result<(), FpgaError>, Option<
    TaskId,
>) {
    match holder {
        None => (Err(FpgaError::NotLocked), None),
        Some(t) => (Ok(()), None),
    }
}

/// Advisory single-owner lock serializing which external caller may drive
/// device operations. It does not own the channel: the channel's own lock
/// is taken and given back per protocol operation underneath it.
pub struct SessionLock {
    holder: Option<TaskId>,
}

impl SessionLock {
    /// The current owner, if any.
    pub closed spec fn spec_holder(&self) -> Option<TaskId> {
        self.holder
    }

    /// A fresh lock is free.
    pub fn new() -> (r: SessionLock)
        ensures
            r.spec_holder() is None,
    {
        SessionLock { holder: None }
    }

    /// The current owner, if any.
    pub fn holder(&self) -> (r: Option<TaskId>)
        ensures
            r == self.spec_holder(),
    {
        self.holder
    }

    /// Take the session for `caller`. Taking it again while already the
    /// holder is idempotent. A lock request from anyone else cannot arrive
    /// while the session is held — the transport delivers messages only
    /// from the holder then — so that case is excluded rather than handled.
    pub fn lock(&mut self, caller: TaskId) -> (r: Result<(), FpgaError>)
        requires
            old(self).spec_holder() is None || old(self).spec_holder() == Some(caller),
        ensures
            r is Ok,
            final(self).spec_holder() == spec_session_lock(old(self).spec_holder(), caller),
    {
        self.holder = Some(caller);
        Ok(())
    }

    /// Give the session back. Fails with `NotLocked` when nobody holds it.
    /// As for `lock`, a release from a non-holder cannot arrive while the
    /// session is held.
    pub fn release(&mut self, caller: TaskId) -> (r: Result<(), FpgaError>)
        requires
            old(self).spec_holder() matches Some(t) ==> t == caller,
        ensures
            r == spec_session_release(old(self).spec_holder()).0,
            final(self).spec_holder() == spec_session_release(old(self).spec_holder()).1,
    {
        match self.holder {
            None => Err(FpgaError::NotLocked),
            Some(_) => {
                self.holder = None;
                Ok(())
            },
        }
    }

    /// Liveness recovery: the transport reported that the holder no longer
    /// exists, so the lock is cleared without an explicit `release`. This
    /// keeps a crashed caller from starving the device forever.
    pub fn force_clear(&mut self)
        ensures
            final(self).spec_holder() is None,
    {
        self.holder = None;
    }
}

/// Law: a release with no holder fails `NotLocked`, and a lock taken by one
/// caller, then force-cleared when that caller's termination is detected,
/// can be taken by another caller without any release in between.
pub proof fn lemma_session_lock_liveness(a: TaskId, b: TaskId)
    ensures
        spec_session_release(None).0 == Err::<(), FpgaError>(FpgaError::NotLocked),
        spec_session_lock(None, b) == Some(b),
        spec_session_lock(spec_session_lock(None, a), a) == Some(a),
{
}

/// The state of one bitstream-load transaction. Exactly one variant is
/// live at a time; leaving `Idle` requires that no load is in progress.
#[derive(Copy, Clone, Debug, PartialEq, Eq, Structural)]
pub enum BitstreamLoader {
    /// No load is open.
    Idle,
    /// A raw load is open; the payload counts bytes streamed so far.
    UncompressedInProgress(u64),
    /// A compressed load is open: the decompressor context that must
    /// survive chunk boundaries, and the decompressed bytes streamed so
    /// far.
    CompressedInProgress(Decompressor, u64),
}

/// How a caller announces the encoding of the image it is about to load.
#[derive(Copy, Clone, Debug, PartialEq, Eq, Structural)]
pub enum BitstreamType {
    Uncompressed,
    Compressed,
}

/// `a + b` clipped to the counter's width.
pub open spec fn spec_sat_add(a: u64, b: u64) -> u64 {
    if a + b <= u64::MAX {
        (a + b) as u64
    } else {
        u64::MAX
    }
}

fn sat_add(a: u64, b: u64) -> (r: u64)
    ensures
        r == spec_sat_add(a, b),
{
    if b <= u64::MAX - a {
        a + b
    } else {
        u64::MAX
    }
}

/// The device server: the session lock, the engine, and the state of the
/// bitstream load in progress, if any.
pub struct FpgaServer<D: Ecp5Impl> {
    pub device: Ecp5<D>,
    pub session: SessionLock,
    pub loader: BitstreamLoader,
}

impl<D: Ecp5Impl> FpgaServer<D> {
    /// The load transaction currently open, if any.
    pub closed spec fn loader(&self) -> BitstreamLoader {
        self.loader
    }

    /// The current session owner, if any.
    pub closed spec fn holder(&self) -> Option<TaskId> {
        self.session.spec_holder()
    }

    /// The log of operations performed against the device.
    pub open spec fn events(&self) -> Seq<Event> {
        self.device.events()
    }

    /// The channel lock is held exactly while a load transaction is open:
    /// the whole load is one atomic bus transaction.
    pub open spec fn wf(&self) -> bool {
        (self.loader() is Idle) <==> !self.device.locked()
    }

    /// Wrap an engine whose channel is free into a fresh server: no session
    /// holder, no load in progress.
    pub fn new(device: Ecp5<D>) -> (r: FpgaServer<D>)
        requires
            !device.locked(),
        ensures
            r.wf(),
            r.loader() is Idle,
            r.holder() is None,
            r.events() == device.events(),
    {
        FpgaServer { device, session: SessionLock::new(), loader: BitstreamLoader::Idle }
    }

    /// Take the session for `caller`; see `SessionLock::lock`.
    pub fn lock(&mut self, caller: TaskId) -> (r: Result<(), FpgaError>)
        requires
            old(self).holder() is None || old(self).holder() == Some(caller),
        ensures
            r is Ok,
            final(self).holder() == Some(caller),
            final(self).loader() == old(self).loader(),
            final(self).device == old(self).device,
    {
        self.session.lock(caller)
    }

    /// Give the session back; see `SessionLock::release`.
    pub fn release(&mut self, caller: TaskId) -> (r: Result<(), FpgaError>)
        requires
            old(self).holder() matches Some(t) ==> t == caller,
        ensures
            r == spec_session_release(old(self).holder()).0,
            final(self).holder() is None,
            final(self).loader() == old(self).loader(),
            final(self).device == old(self).device,
    {
        self.session.release(caller)
    }

    /// The transport reported that the session holder terminated: clear
    /// the lock so new callers can acquire it.
    pub fn closed_recv_fail(&mut self)
        ensures
            final(self).holder() is None,
            final(self).loader() == old(self).loader(),
            final(self).device == old(self).device,
    {
        self.session.force_clear();
    }

    /// Open a bitstream load of the given kind. Starting a second load
    /// while one is already in progress is a caller programming error: it
    /// is rejected as `InvalidState` and corrupts nothing.
    pub fn start_bitstream_load(&mut self, bitstream_type: BitstreamType) -> (r: Result<
        (),
        FpgaError,
    >)
        requires
            old(self).wf(),
        ensures
            final(self).wf(),
            final(self).holder() == old(self).holder(),
            !(old(self).loader() is Idle) ==> r == Err::<(), FpgaError>(FpgaError::InvalidState)
                && *final(self) == *old(self),
            old(self).loader() is Idle ==> delta_within(
                old(self).events(),
                final(self).events(),
                |e: Event| start_load_event(e),
            ),
            old(self).loader() is Idle && r is Ok ==> final(self).loader() == (match bitstream_type {
                BitstreamType::Uncompressed => BitstreamLoader::UncompressedInProgress(0),
                BitstreamType::Compressed => BitstreamLoader::CompressedInProgress(
                    Decompressor::Ready,
                    0,
                ),
            }) && final(self).events().last() == Event::CommandWrite(Command::BitstreamBurst)
                && written_bytes(final(self).events()) == written_bytes(old(self).events()),
            old(self).loader() is Idle && r is Err ==> final(self).loader() is Idle && (forall|
                i: int,
            |
                old(self).events().len() <= i < final(self).events().len() ==> #[trigger] final(self).events()[i] != Event::CommandWrite(Command::BitstreamBurst)),
            r matches Err(e) ==> e == FpgaError::PortDisabled || e == FpgaError::InvalidState || (
            e matches FpgaError::ImplError(_)),
    {
        match self.loader {
            BitstreamLoader::Idle => {},
            _ => {
                return Err(FpgaError::InvalidState);
            },
        }
        let ghost pre = self.events();
        match self.device.start_bitstream_load() {
            Ok(()) => {},
            Err(e) => {
                return Err(e);
            },
        }
        self.loader = match bitstream_type {
            BitstreamType::Uncompressed => BitstreamLoader::UncompressedInProgress(0),
            BitstreamType::Compressed => BitstreamLoader::CompressedInProgress(
                Decompressor::Ready,
                0,
            ),
        };
        proof {
            lemma_written_bytes_delta_within(
                pre,
                self.events(),
                (|e: Event| start_load_event(e)),
            );
        }
        Ok(())
    }

    /// Feed one chunk (at most 128 bytes) of the incoming image into the
    /// open load. Raw chunks are forwarded as they are; compressed chunks
    /// run through the decompressor first, whose context persists across
    /// chunk boundaries, and the running byte count advances by the bytes
    /// actually produced — a chunk ending inside a run may legitimately
    /// produce none. Calling this with no load open is a caller programming
    /// error: rejected as `InvalidState`, nothing is touched.
    pub fn continue_bitstream_load(&mut self, data: &[u8]) -> (r: Result<(), FpgaError>)
        requires
            old(self).wf(),
            data@.len() <= 128,
        ensures
            final(self).wf(),
            final(self).holder() == old(self).holder(),
            old(self).loader() is Idle ==> r == Err::<(), FpgaError>(FpgaError::InvalidState)
                && *final(self) == *old(self),
            r is Err ==> final(self).loader() == old(self).loader() && final(self).events() == old(self).events(),
            old(self).loader() matches BitstreamLoader::UncompressedInProgress(n) ==> (r is Ok
                ==> final(self).loader() == BitstreamLoader::UncompressedInProgress(
                spec_sat_add(n, data@.len() as u64),
            ) && written_bytes(final(self).events()) == written_bytes(old(self).events()) + data@
                && final(self).events() == old(self).events().push(Event::DataWrite(data@))),
            old(self).loader() matches BitstreamLoader::CompressedInProgress(d, n) ==> (r is Ok
                ==> final(self).loader() == BitstreamLoader::CompressedInProgress(
                spec_decompress(d, data@).0,
                spec_sat_add(n, spec_decompress(d, data@).1.len() as u64),
            ) && written_bytes(final(self).events()) == written_bytes(old(self).events())
                + spec_decompress(d, data@).1 && (spec_decompress(d, data@).1.len() == 0
                ==> final(self).events() == old(self).events()) && (spec_decompress(
                d,
                data@,
            ).1.len() > 0 ==> final(self).events() == old(self).events().push(
                Event::DataWrite(spec_decompress(d, data@).1),
            ))),
            !(old(self).loader() is Idle) ==> (r is Ok || (r matches Err(FpgaError::ImplError(
                _,
            )))),
    {
        let loader = self.loader;
        match loader {
            BitstreamLoader::Idle => Err(FpgaError::InvalidState),
            BitstreamLoader::UncompressedInProgress(n) => {
                let ghost pre = self.events();
                match self.device.continue_bitstream_load(data) {
                    Ok(()) => {},
                    Err(e) => {
                        return Err(e);
                    },
                }
                proof {
                    lemma_written_bytes_push(pre, Event::DataWrite(data@));
                }
                self.loader = BitstreamLoader::UncompressedInProgress(
                    sat_add(n, data.len() as u64),
                );
                Ok(())
            },
            BitstreamLoader::CompressedInProgress(d0, n) => {
                let mut d = d0;
                let out = decompress(&mut d, data);
                let ghost pre = self.events();
                if out.len() > 0 {
                    match self.device.continue_bitstream_load(out.as_slice()) {
                        Ok(()) => {},
                        Err(e) => {
                            return Err(e);
                        },
                    }
                    proof {
                        lemma_written_bytes_push(pre, Event::DataWrite(out@));
                    }
                } else {
                    proof {
                        assert(written_bytes(self.events()) + out@ =~= written_bytes(
                            self.events(),
                        ));
                    }
                }
                self.loader = BitstreamLoader::CompressedInProgress(
                    d,
                    sat_add(n, out.len() as u64),
                );
                Ok(())
            },
        }
    }

    /// Close the open load and decide acceptance, as the engine's
    /// `finish_bitstream_load` does. Whatever the outcome, the transaction
    /// is over: the loader returns to `Idle` and the channel lock is given
    /// back. A rejected image surfaces as `BitstreamError(code)` with the
    /// device left in configuration mode — no `DisableConfigurationMode`
    /// issued, design still in reset — so the caller may retry. Calling
    /// this with no load open is a caller programming error: rejected as
    /// `InvalidState`, nothing is touched.
    pub fn finish_bitstream_load(&mut self, application_reset_ticks: u64, max_polls: u64) -> (r:
        Result<(), FpgaError>)
        requires
            old(self).wf(),
            max_polls >= 1,
        ensures
            final(self).wf(),
            final(self).holder() == old(self).holder(),
            old(self).loader() is Idle ==> r == Err::<(), FpgaError>(FpgaError::InvalidState)
                && *final(self) == *old(self),
            final(self).loader() is Idle,
            !(old(self).loader() is Idle) ==> !final(self).device.locked() && final(self).events().len() > old(self).events().len() && final(self).events()[old(self).events().len() as int] == Event::Release,
            r matches Err(FpgaError::BitstreamError(code)) ==> 1 <= code < 8 && (forall|i: int|
                old(self).events().len() <= i < final(self).events().len() ==> #[trigger] final(self).events()[i] != Event::CommandWrite(Command::DisableConfigurationMode) && final(self).events()[i] != Event::PinSet(Pin::DesignResetN, true)),
            r matches Err(FpgaError::BitstreamError(code)) ==> exists|j: int|
                old(self).events().len() <= j < final(self).events().len() && (#[trigger] final(self).events()[j] matches Event::DataRead(b) && b.len() == 4
                    && Status::spec_bse_error_code(spec_be32(b))
                    == code) && (forall|k: int|
                    j < k < final(self).events().len() ==> !(#[trigger] final(self).events()[k] is DataRead)),
            r is Ok ==> exists|j: int|
                old(self).events().len() <= j < final(self).events().len() && (#[trigger] final(self).events()[j] matches Event::DataRead(b) && b.len() == 4
                    && Status::spec_bse_error_code(spec_be32(b))
                    == 0) && (forall|k: int|
                    j < k < final(self).events().len() ==> !(#[trigger] final(self).events()[k] is DataRead)),
            !(old(self).loader() is Idle) && r is Ok ==> final(self).events().last()
                == Event::PinSet(Pin::DesignResetN, true) && final(self).events()[final(self).events().len() - 2] == Event::Sleep(application_reset_ticks),
    {
        match self.loader {
            BitstreamLoader::Idle => {
                return Err(FpgaError::InvalidState);
            },
            _ => {},
        }
        self.loader = BitstreamLoader::Idle;
        self.device.finish_bitstream_load(application_reset_ticks, max_polls)
    }
}

/// Within a protocol phase that writes no data, the streamed bytes do not
/// change.
proof fn lemma_written_bytes_delta_within(
    pre: Seq<Event>,
    post: Seq<Event>,
    allowed: spec_fn(Event) -> bool,
)
    requires
        delta_within(pre, post, allowed),
        forall|e: Event| #[trigger] allowed(e) ==> !(e is DataWrite),
    ensures
        written_bytes(post) == written_bytes(pre),
    decreases post.len() - pre.len(),
{
    if post.len() == pre.len() {
        assert(pre =~= post);
    } else {
        let shorter = post.drop_last();
        assert(delta_within(pre, shorter, allowed)) by {
            assert(pre =~= shorter.subrange(0, pre.len() as int));
            assert(forall|i: int|
                pre.len() <= i < shorter.len() ==> allowed(#[trigger] shorter[i]) && shorter[i]
                    == post[i]);
        }
        lemma_written_bytes_delta_within(pre, shorter, allowed);
        assert(allowed(post.last()));
        assert(written_bytes(post) =~= written_bytes(shorter));
    }
}

/// The refreshed peer identity a failed notification dictates: a response
/// code in the dead-peer band carries the peer's new generation in its low
/// byte, and the notification should be retried against that incarnation;
/// any other response leaves the recorded identity alone.
pub open spec fn spec_refresh_stale_peer(client: TaskId, rc: u32) -> Option<TaskId> {
    if rc & 0xffffff00 == 0xffffff00 {
        Some(TaskId { index: client.index, generation: (rc & 0xff) as u8 })
    } else {
        None
    }
}

/// Decide from a notification response whether the peer restarted, and
/// under which refreshed identity to retry; see `spec_refresh_stale_peer`.
pub fn refresh_stale_peer(client: TaskId, rc: u32) -> (r: Option<TaskId>)
    ensures
        r == spec_refresh_stale_peer(client, rc),
{
    if rc & 0xffffff00 == 0xffffff00 {
        Some(TaskId { index: client.index, generation: (rc & 0xff) as u8 })
    } else {
        None
    }
}

/// A bounded list of peers to notify when the device reaches user mode,
/// each with the notification bits it asked for.
pub struct NotificationSubscriptions {
    subs: Vec<(TaskId, u32)>,
}

impl NotificationSubscriptions {
    /// The recorded subscriptions.
    pub closed spec fn view(&self) -> Seq<(TaskId, u32)> {
        self.subs@
    }

    /// Record the given subscriptions.
    pub fn new(subs: Vec<(TaskId, u32)>) -> (r: NotificationSubscriptions)
        ensures
            r.view() == subs@,
    {
        NotificationSubscriptions { subs }
    }

    /// How many subscriptions are recorded.
    pub fn len(&self) -> (r: usize)
        ensures
            r == self.view().len(),
    {
        self.subs.len()
    }

    /// The subscription at `i`.
    pub fn get(&self, i: usize) -> (r: (TaskId, u32))
        requires
            i < self.view().len(),
        ensures
            r == self.view()[i as int],
    {
        self.subs[i]
    }

    /// Fold the response to a notification of subscriber `i` back into the
    /// list: if it shows the peer restarted, record the refreshed identity
    /// and ask the caller to retry once. This is done only once per
    /// notification so a crash-looping peer cannot stall the server.
    pub fn handle_response(&mut self, i: usize, rc: u32) -> (retry: bool)
        requires
            i < old(self).view().len(),
        ensures
            match spec_refresh_stale_peer(old(self).view()[i as int].0, rc) {
                Some(fresh) => retry && final(self).view() == old(self).view().update(
                    i as int,
                    (fresh, old(self).view()[i as int].1),
                ),
                None => !retry && final(self).view() == old(self).view(),
            },
    {
        let (client, mask) = self.subs[i];
        match refresh_stale_peer(client, rc) {
            Some(fresh) => {
                self.subs.set(i, (fresh, mask));
                true
            },
            None => {
                proof {
                    assert(final(self).view() =~= old(self).view());
                }
                false
            },
        }
    }
}


/// Write operations of the application register channel.
#[derive(Copy, Clone, Debug, PartialEq, Eq, Structural)]
pub enum WriteOp {
    /// Replace the register's value.
    Write,
    /// Set the given bits.
    BitSet,
    /// Clear the given bits.
    BitClear,
}

impl WriteOp {
    /// The wire opcode of this operation.
    pub open spec fn spec_code(self) -> u8 {
        match self {
            WriteOp::Write => 0,
            WriteOp::BitSet => 2,
            WriteOp::BitClear => 3,
        }
    }

    /// The wire opcode of this operation.
    pub fn code(self) -> (r: u8)
        ensures
            r == self.spec_code(),
    {
        match self {
            WriteOp::Write => 0,
            WriteOp::BitSet => 2,
            WriteOp::BitClear => 3,
        }
    }
}

/// The opcode announcing a read on the application register channel.
pub const APPLICATION_READ_OP: u8 = 0x01;

/// The header preceding every application-channel payload: the operation
/// opcode followed by the register address in big-endian order, under the
/// same lock discipline as any other channel traffic.
pub fn application_request_header(op: u8, addr: u16) -> (r: Vec<u8>)
    ensures
        r@ == seq![op, (addr >> 8) as u8, (addr & 0xff) as u8],
{
    let mut r: Vec<u8> = Vec::new();
    r.push(op);
    r.push((addr >> 8) as u8);
    r.push((addr & 0xff) as u8);
    proof {
        assert(r@ =~= seq![op, (addr >> 8) as u8, (addr & 0xff) as u8]);
    }
    r
}

} // verus!
