//! The hardware capability interface of the radio module and the event
//! model that the rest of the crate is specified against.
//!
//! The driver owns five control lines (chip-select, reset, busy-sense and
//! the two antenna-direction enables) and a full-duplex SPI byte exchange.
//! [`RadioBus`] abstracts them; every implementation carries a ghost
//! history of [`BusEvent`]s, one per physical action, and each method
//! appends exactly one event.  All transport- and protocol-layer contracts
//! are stated over this history.

use vstd::prelude::*;

verus! {

/// How many times the busy line is polled before a transaction proceeds
/// regardless.  The ceiling is a safety valve, not a correctness
/// mechanism: the driver verifies outcomes independently.
pub const BUSY_WAIT_CEILING: u32 = 10_000;

/// An error surfaced by the byte-exchange primitive.
#[derive(Clone, Copy, Debug, PartialEq, Eq, Structural)]
pub enum ControlError {
    /// The SPI shift failed.
    SpiError,
}

/// One observable action on the radio's control lines or SPI bus.
#[derive(Clone, Copy, Debug, PartialEq, Eq, Structural)]
pub enum BusEvent {
    /// The chip-select line was driven high or low.
    NssSet { high: bool },
    /// The reset line was driven high or low.
    NrstSet { high: bool },
    /// The transmit antenna-direction enable was driven high or low.
    TxenSet { high: bool },
    /// The receive antenna-direction enable was driven high or low.
    RxenSet { high: bool },
    /// One full-duplex byte exchange: `mosi` shifted out, `miso` returned.
    Xfer { mosi: u8, miso: u8 },
    /// A byte exchange that failed; nothing is known to have shifted.
    XferFail { mosi: u8 },
    /// The busy line was sampled and read high or low.
    BusyRead { high: bool },
    /// A blocking delay of the given number of milliseconds.
    DelayMs { ms: u32 },
}

/// One framed SPI transaction: the bytes shifted out and the bytes
/// returned on the same clock edges, between one chip-select assertion and
/// the following release.
pub struct Frame {
    /// Bytes shifted to the chip.
    pub mosi: Seq<u8>,
    /// Bytes returned by the chip, one per shifted byte.
    pub miso: Seq<u8>,
}

impl Frame {
    /// Every shifted byte was answered: the transaction ran to completion.
    pub open spec fn complete(self) -> bool {
        self.miso.len() == self.mosi.len()
    }
}

/// The events a byte sequence produces when shifted against the returned
/// `miso` bytes.
pub open spec fn xfer_events(mosi: Seq<u8>, miso: Seq<u8>) -> Seq<BusEvent> {
    Seq::new(mosi.len(), |i: int| BusEvent::Xfer { mosi: mosi[i], miso: miso[i] })
}

/// True of an event that drives an antenna-direction enable.
pub open spec fn is_antenna_event(e: BusEvent) -> bool {
    match e {
        BusEvent::TxenSet { .. } => true,
        BusEvent::RxenSet { .. } => true,
        _ => false,
    }
}

/// True when no event in the sequence touches an antenna-direction enable.
pub open spec fn no_antenna_events(evs: Seq<BusEvent>) -> bool {
    forall|i: int| 0 <= i < evs.len() ==> !is_antenna_event(#[trigger] evs[i])
}

/// The level of the transmit antenna enable after the given history; the
/// line starts low.
pub open spec fn txen_after(evs: Seq<BusEvent>) -> bool
    decreases evs.len(),
{
    if evs.len() == 0 {
        false
    } else {
        match evs.last() {
            BusEvent::TxenSet { high } => high,
            _ => txen_after(evs.drop_last()),
        }
    }
}

/// The level of the receive antenna enable after the given history; the
/// line starts low.
pub open spec fn rxen_after(evs: Seq<BusEvent>) -> bool
    decreases evs.len(),
{
    if evs.len() == 0 {
        false
    } else {
        match evs.last() {
            BusEvent::RxenSet { high } => high,
            _ => rxen_after(evs.drop_last()),
        }
    }
}

/// The two antenna-direction enables were never high at the same time, at
/// any point of the history.
pub open spec fn antennas_exclusive(evs: Seq<BusEvent>) -> bool {
    forall|i: int|
        0 <= i <= evs.len() ==> !(txen_after(#[trigger] evs.take(i)) && rxen_after(evs.take(i)))
}

/// True of a sample of the busy line.
pub open spec fn is_busy_read(e: BusEvent) -> bool {
    match e {
        BusEvent::BusyRead { .. } => true,
        _ => false,
    }
}

/// A run of busy-line polls as produced by the bounded busy wait: nothing
/// but polls, at most [`BUSY_WAIT_CEILING`] of them, and every poll but
/// the last read the line high (the wait stops at the first low reading).
pub open spec fn busy_wait_trace(evs: Seq<BusEvent>) -> bool {
    &&& forall|i: int| 0 <= i < evs.len() ==> is_busy_read(#[trigger] evs[i])
    &&& evs.len() <= BUSY_WAIT_CEILING
    &&& forall|i: int|
        0 <= i < evs.len() - 1 ==> (#[trigger] evs[i]) == (BusEvent::BusyRead { high: true })
}

/// The events appended to `pre` when it grew into `post`.
pub open spec fn appended(pre: Seq<BusEvent>, post: Seq<BusEvent>) -> Seq<BusEvent> {
    post.skip(pre.len() as int)
}

/// `post` extends `pre`: the old history is untouched at the front.
pub open spec fn extends(pre: Seq<BusEvent>, post: Seq<BusEvent>) -> bool {
    pre.is_prefix_of(post)
}

/// An extended history is the old one plus what was appended.
pub proof fn lemma_extends_split(pre: Seq<BusEvent>, post: Seq<BusEvent>)
    requires
        extends(pre, post),
    ensures
        post == pre + appended(pre, post),
{
    assert(post =~= pre + post.skip(pre.len() as int));
}

/// Extension is transitive, and the appended parts concatenate.
pub proof fn lemma_extends_trans(a: Seq<BusEvent>, b: Seq<BusEvent>, c: Seq<BusEvent>)
    requires
        extends(a, b),
        extends(b, c),
    ensures
        extends(a, c),
        appended(a, c) == appended(a, b) + appended(b, c),
{
    assert(a.is_prefix_of(c)) by {
        assert(c.subrange(0, a.len() as int) =~= b.subrange(0, a.len() as int));
    }
    assert(c.skip(a.len() as int) =~= b.skip(a.len() as int) + c.skip(b.len() as int));
}

/// Pushing an event that leaves the antenna enables alone keeps the
/// exclusion invariant and both line levels.
pub proof fn lemma_exclusive_push_neutral(evs: Seq<BusEvent>, e: BusEvent)
    requires
        antennas_exclusive(evs),
        !is_antenna_event(e),
    ensures
        antennas_exclusive(evs.push(e)),
        txen_after(evs.push(e)) == txen_after(evs),
        rxen_after(evs.push(e)) == rxen_after(evs),
{
    let post = evs.push(e);
    assert(post.drop_last() =~= evs);
    assert(evs.take(evs.len() as int) =~= evs);
    assert(!(txen_after(evs) && rxen_after(evs)));
    assert(txen_after(post) == txen_after(evs));
    assert(rxen_after(post) == rxen_after(evs));
    assert forall|i: int| 0 <= i <= post.len() implies !(txen_after(#[trigger] post.take(i))
        && rxen_after(post.take(i))) by {
        if i <= evs.len() {
            assert(post.take(i) =~= evs.take(i));
            assert(!(txen_after(evs.take(i)) && rxen_after(evs.take(i))));
        } else {
            assert(post.take(i) =~= post);
        }
    }
}

/// Appending any run of antenna-neutral events keeps the exclusion
/// invariant and both line levels.
pub proof fn lemma_exclusive_append_neutral(evs: Seq<BusEvent>, tail: Seq<BusEvent>)
    requires
        antennas_exclusive(evs),
        no_antenna_events(tail),
    ensures
        antennas_exclusive(evs + tail),
        txen_after(evs + tail) == txen_after(evs),
        rxen_after(evs + tail) == rxen_after(evs),
    decreases tail.len(),
{
    if tail.len() == 0 {
        assert(evs + tail =~= evs);
    } else {
        let head = tail.drop_last();
        assert(no_antenna_events(head)) by {
            assert(forall|i: int| 0 <= i < head.len() ==> head[i] == tail[i]);
        }
        lemma_exclusive_append_neutral(evs, head);
        assert(is_antenna_event(tail.last()) == false);
        lemma_exclusive_push_neutral(evs + head, tail.last());
        assert(evs + tail =~= (evs + head).push(tail.last()));
    }
}

/// Driving an antenna enable low never violates the exclusion invariant.
pub proof fn lemma_exclusive_push_low(evs: Seq<BusEvent>, e: BusEvent)
    requires
        antennas_exclusive(evs),
        e == (BusEvent::TxenSet { high: false }) || e == (BusEvent::RxenSet { high: false }),
    ensures
        antennas_exclusive(evs.push(e)),
        e == (BusEvent::TxenSet { high: false }) ==> txen_after(evs.push(e)) == false
            && rxen_after(evs.push(e)) == rxen_after(evs),
        e == (BusEvent::RxenSet { high: false }) ==> rxen_after(evs.push(e)) == false
            && txen_after(evs.push(e)) == txen_after(evs),
{
    let post = evs.push(e);
    assert(post.drop_last() =~= evs);
    assert(evs.take(evs.len() as int) =~= evs);
    assert(!(txen_after(evs) && rxen_after(evs)));
    assert forall|i: int| 0 <= i <= post.len() implies !(txen_after(#[trigger] post.take(i))
        && rxen_after(post.take(i))) by {
        if i <= evs.len() {
            assert(post.take(i) =~= evs.take(i));
            assert(!(txen_after(evs.take(i)) && rxen_after(evs.take(i))));
        } else {
            assert(post.take(i) =~= post);
        }
    }
}

/// Driving one antenna enable high is allowed once the other is known low.
pub proof fn lemma_exclusive_push_high(evs: Seq<BusEvent>, e: BusEvent)
    requires
        antennas_exclusive(evs),
        e == (BusEvent::TxenSet { high: true }) ==> rxen_after(evs) == false,
        e == (BusEvent::RxenSet { high: true }) ==> txen_after(evs) == false,
        e == (BusEvent::TxenSet { high: true }) || e == (BusEvent::RxenSet { high: true }),
    ensures
        antennas_exclusive(evs.push(e)),
        e == (BusEvent::TxenSet { high: true }) ==> txen_after(evs.push(e)) == true
            && rxen_after(evs.push(e)) == false,
        e == (BusEvent::RxenSet { high: true }) ==> rxen_after(evs.push(e)) == true
            && txen_after(evs.push(e)) == false,
{
    let post = evs.push(e);
    assert(post.drop_last() =~= evs);
    assert(evs.take(evs.len() as int) =~= evs);
    assert(!(txen_after(evs) && rxen_after(evs)));
    assert forall|i: int| 0 <= i <= post.len() implies !(txen_after(#[trigger] post.take(i))
        && rxen_after(post.take(i))) by {
        if i <= evs.len() {
            assert(post.take(i) =~= evs.take(i));
            assert(!(txen_after(evs.take(i)) && rxen_after(evs.take(i))));
        } else {
            assert(post.take(i) =~= post);
        }
    }
}

/// A sequence of `n` filler bytes as shifted while reading a response.
pub open spec fn zero_bytes(n: nat) -> Seq<u8> {
    Seq::new(n, |i: int| 0u8)
}

/// The bytes a read transaction shifts out: the command, then one filler
/// byte for every response byte after the first (the first response byte
/// arrives while the last command byte is shifted).
pub open spec fn read_mosi(command: Seq<u8>, resp_len: nat) -> Seq<u8> {
    command + zero_bytes((resp_len - 1) as nat)
}

/// The event trace of one complete SPI transaction: busy polls, select,
/// the byte exchanges, release.
pub open spec fn txn_events(polls: Seq<BusEvent>, mosi: Seq<u8>, miso: Seq<u8>) -> Seq<BusEvent> {
    polls + seq![BusEvent::NssSet { high: false }] + xfer_events(mosi, miso) + seq![
        BusEvent::NssSet { high: true },
    ]
}

/// The event trace of a transaction aborted by a failed byte exchange:
/// the bytes that did shift, the failure, and the select released.
pub open spec fn failed_txn_events(
    polls: Seq<BusEvent>,
    mosi: Seq<u8>,
    miso: Seq<u8>,
    failed_byte: u8,
) -> Seq<BusEvent> {
    polls + seq![BusEvent::NssSet { high: false }] + xfer_events(mosi, miso) + seq![
        BusEvent::XferFail { mosi: failed_byte },
        BusEvent::NssSet { high: true },
    ]
}

/// `tail` is one complete SPI transaction shifting `mosi` against `miso`.
pub open spec fn txn_tail(tail: Seq<BusEvent>, mosi: Seq<u8>, miso: Seq<u8>) -> bool {
    exists|polls: Seq<BusEvent>|
        #[trigger] busy_wait_trace(polls) && tail == txn_events(polls, mosi, miso)
}

/// `tail` is one SPI transaction that shifted `mosi` against `miso` and
/// then aborted on `failed_byte`.
pub open spec fn failed_txn_tail(
    tail: Seq<BusEvent>,
    mosi: Seq<u8>,
    miso: Seq<u8>,
    failed_byte: u8,
) -> bool {
    exists|polls: Seq<BusEvent>|
        #[trigger] busy_wait_trace(polls) && tail == failed_txn_events(polls, mosi, miso, failed_byte)
}


/// Extension is reflexive with nothing appended.
pub proof fn lemma_extends_refl(evs: Seq<BusEvent>)
    ensures
        extends(evs, evs),
        appended(evs, evs) == Seq::<BusEvent>::empty(),
{
    assert(evs.subrange(0, evs.len() as int) =~= evs);
    assert(evs.skip(evs.len() as int) =~= Seq::<BusEvent>::empty());
}

/// Pushing one event onto an extended history appends it to the tail.
pub proof fn lemma_appended_push(pre: Seq<BusEvent>, post: Seq<BusEvent>, e: BusEvent)
    requires
        extends(pre, post),
    ensures
        extends(pre, post.push(e)),
        appended(pre, post.push(e)) == appended(pre, post).push(e),
{
    assert(post.push(e).subrange(0, pre.len() as int) =~= post.subrange(0, pre.len() as int));
    assert(post.push(e).skip(pre.len() as int) =~= post.skip(pre.len() as int).push(e));
}


/// A complete transaction trace touches no antenna enable.
pub proof fn lemma_txn_events_neutral(polls: Seq<BusEvent>, mosi: Seq<u8>, miso: Seq<u8>)
    requires
        busy_wait_trace(polls),
    ensures
        no_antenna_events(txn_events(polls, mosi, miso)),
{
    let t = txn_events(polls, mosi, miso);
    let pl = polls.len() as int;
    let xl = mosi.len() as int;
    assert forall|i: int| 0 <= i < t.len() implies !is_antenna_event(#[trigger] t[i]) by {
        if i < pl {
            assert(t[i] == polls[i]);
            assert(is_busy_read(polls[i]));
        } else if i == pl {
            assert(t[i] == (BusEvent::NssSet { high: false }));
        } else if i < pl + 1 + xl {
            assert(t[i] == xfer_events(mosi, miso)[i - pl - 1]);
        } else {
            assert(t[i] == (BusEvent::NssSet { high: true }));
        }
    }
}

/// An aborted transaction trace touches no antenna enable either.
pub proof fn lemma_failed_txn_events_neutral(
    polls: Seq<BusEvent>,
    mosi: Seq<u8>,
    miso: Seq<u8>,
    failed_byte: u8,
)
    requires
        busy_wait_trace(polls),
    ensures
        no_antenna_events(failed_txn_events(polls, mosi, miso, failed_byte)),
{
    let t = failed_txn_events(polls, mosi, miso, failed_byte);
    let pl = polls.len() as int;
    let xl = mosi.len() as int;
    assert forall|i: int| 0 <= i < t.len() implies !is_antenna_event(#[trigger] t[i]) by {
        if i < pl {
            assert(t[i] == polls[i]);
            assert(is_busy_read(polls[i]));
        } else if i == pl {
            assert(t[i] == (BusEvent::NssSet { high: false }));
        } else if i < pl + 1 + xl {
            assert(t[i] == xfer_events(mosi, miso)[i - pl - 1]);
        } else if i == pl + 1 + xl {
            assert(t[i] == (BusEvent::XferFail { mosi: failed_byte }));
        } else {
            assert(t[i] == (BusEvent::NssSet { high: true }));
        }
    }
}

/// Antenna-neutral traces concatenate to an antenna-neutral trace.
pub proof fn lemma_no_ant_concat(a: Seq<BusEvent>, b: Seq<BusEvent>)
    requires
        no_antenna_events(a),
        no_antenna_events(b),
    ensures
        no_antenna_events(a + b),
{
    assert forall|i: int| 0 <= i < (a + b).len() implies !is_antenna_event(#[trigger] (a + b)[i]) by {
        if i < a.len() {
            assert((a + b)[i] == a[i]);
        } else {
            assert((a + b)[i] == b[i - a.len()]);
        }
    }
}

/// Two antenna-neutral extensions compose.
pub proof fn lemma_no_ant_step(base: Seq<BusEvent>, pre: Seq<BusEvent>, post: Seq<BusEvent>)
    requires
        extends(base, pre),
        extends(pre, post),
        no_antenna_events(appended(base, pre)),
        no_antenna_events(appended(pre, post)),
    ensures
        extends(base, post),
        no_antenna_events(appended(base, post)),
{
    lemma_extends_trans(base, pre, post);
    lemma_no_ant_concat(appended(base, pre), appended(pre, post));
}

/// One antenna-neutral operation on a bus at rest: the history extends,
/// the exclusion invariant holds on, and both enables stay low.
pub proof fn lemma_step_events(base: Seq<BusEvent>, pre: Seq<BusEvent>, post: Seq<BusEvent>)
    requires
        extends(base, pre),
        extends(pre, post),
        no_antenna_events(appended(pre, post)),
        antennas_exclusive(pre),
        txen_after(pre) == false,
        rxen_after(pre) == false,
    ensures
        extends(base, post),
        antennas_exclusive(post),
        txen_after(post) == false,
        rxen_after(post) == false,
{
    lemma_extends_trans(base, pre, post);
    lemma_extends_split(pre, post);
    lemma_exclusive_append_neutral(pre, appended(pre, post));
}

/// Shifting one more byte extends the exchange trace by one event.
pub proof fn lemma_xfer_events_push(mosi: Seq<u8>, miso: Seq<u8>, a: u8, b: u8)
    requires
        mosi.len() == miso.len(),
    ensures
        xfer_events(mosi.push(a), miso.push(b)) == xfer_events(mosi, miso).push(
            BusEvent::Xfer { mosi: a, miso: b },
        ),
{
    assert(xfer_events(mosi.push(a), miso.push(b)) =~= xfer_events(mosi, miso).push(
        BusEvent::Xfer { mosi: a, miso: b },
    ));
}

/// The physical capability the radio driver runs on: the five control
/// lines and the SPI byte exchange, plus the blocking delay primitive the
/// firmware injects.  Each method performs exactly one physical action and
/// records it in the ghost event history.
pub trait RadioBus: Sized {
    /// The history of every physical action taken on this bus.
    spec fn events(&self) -> Seq<BusEvent>;

    /// Drive the chip-select line.
    fn set_nss(&mut self, high: bool)
        ensures
            final(self).events() == old(self).events().push(BusEvent::NssSet { high }),
    ;

    /// Drive the reset line.
    fn set_nrst(&mut self, high: bool)
        ensures
            final(self).events() == old(self).events().push(BusEvent::NrstSet { high }),
    ;

    /// Drive the transmit antenna-direction enable.
    fn set_txen(&mut self, high: bool)
        ensures
            final(self).events() == old(self).events().push(BusEvent::TxenSet { high }),
    ;

    /// Drive the receive antenna-direction enable.
    fn set_rxen(&mut self, high: bool)
        ensures
            final(self).events() == old(self).events().push(BusEvent::RxenSet { high }),
    ;

    /// Sample the busy line; high means the chip is processing a prior
    /// command and must not be talked to.
    fn busy_is_high(&mut self) -> (high: bool)
        ensures
            final(self).events() == old(self).events().push(BusEvent::BusyRead { high }),
    ;

    /// Exchange one byte on the SPI bus, full duplex.
    fn transfer_byte(&mut self, mosi: u8) -> (r: Result<u8, ControlError>)
        ensures
            match r {
                Ok(miso) => final(self).events() == old(self).events().push(
                    BusEvent::Xfer { mosi, miso },
                ),
                Err(e) => final(self).events() == old(self).events().push(
                    BusEvent::XferFail { mosi },
                ) && e == ControlError::SpiError,
            },
    ;

    /// Block for the given number of milliseconds.
    fn delay_ms(&mut self, ms: u32)
        ensures
            final(self).events() == old(self).events().push(BusEvent::DelayMs { ms }),
    ;
}

} // verus!
