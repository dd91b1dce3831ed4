//! The transport layer: physical framing and timing for every bus
//! transaction with the radio chip.
//!
//! A [`Sx1268Context`] owns the bus capability for its whole lifetime.  It
//! frames commands as "wait while busy, assert chip select, shift the
//! bytes, release chip select", pulses the reset line, toggles chip
//! select to wake the chip, and routes the antenna front end.  The ghost
//! field [`Sx1268Context::hist`] records every framed transaction; the
//! protocol layer's contracts are stated over it.

use vstd::prelude::*;

use crate::bus::{
    appended, antennas_exclusive, busy_wait_trace, extends, failed_txn_events, failed_txn_tail,
    lemma_appended_push, lemma_exclusive_push_high, lemma_exclusive_push_low, lemma_extends_refl,
    lemma_extends_split, lemma_failed_txn_events_neutral, lemma_txn_events_neutral,
    lemma_xfer_events_push, no_antenna_events, read_mosi, rxen_after, txen_after, txn_events,
    txn_tail, xfer_events, BusEvent, Frame, RadioBus, BUSY_WAIT_CEILING,
};

verus! {

/// Outcome of one transport operation.
#[derive(Clone, Copy, Debug, PartialEq, Eq, Structural)]
pub enum Sx1268HalStatus {
    /// The operation completed.
    Success,
    /// A byte exchange failed; chip select was released again.
    Error,
}

/// How long the reset line is held on each edge, in milliseconds.
pub const RESET_HOLD_MS: u32 = 10;

/// How long chip select is held on each edge of a wakeup toggle, in
/// milliseconds.
pub const WAKEUP_HOLD_MS: u32 = 1;

/// The transport handle: exclusive owner of the SPI bus and the control
/// lines.
pub struct Sx1268Context<B: RadioBus> {
    /// The physical capability.
    pub bus: B,
    /// Every framed SPI transaction issued through this handle.
    pub hist: Ghost<Seq<Frame>>,
}

impl<B: RadioBus> Sx1268Context<B> {
    /// The history of physical actions on the underlying bus.
    pub open spec fn events(&self) -> Seq<BusEvent> {
        self.bus.events()
    }

    /// The framed transactions issued so far.
    pub open spec fn cmds(&self) -> Seq<Frame> {
        self.hist@
    }

    /// Take ownership of the bus.
    pub fn new(bus: B) -> (r: Self)
        ensures
            r.events() == bus.events(),
            r.cmds() == Seq::<Frame>::empty(),
    {
        Sx1268Context { bus, hist: Ghost(Seq::empty()) }
    }

    /// Poll the busy line until it reads low, bounded by
    /// [`BUSY_WAIT_CEILING`] polls.  Returns whether the line was seen
    /// low; exhausting the ceiling is not fatal, the following
    /// transaction is attempted anyway and fails on its own if the chip
    /// was truly wedged.
    pub fn wait_on_busy(&mut self) -> (free: bool)
        ensures
            final(self).cmds() == old(self).cmds(),
            extends(old(self).events(), final(self).events()),
            busy_wait_trace(appended(old(self).events(), final(self).events())),
            free ==> appended(old(self).events(), final(self).events()).last() == (
            BusEvent::BusyRead { high: false }),
            !free ==> appended(old(self).events(), final(self).events()).len()
                == BUSY_WAIT_CEILING,
    {
        let ghost start = self.bus.events();
        proof {
            lemma_extends_refl(start);
        }
        let mut n: u32 = 0;
        while n < BUSY_WAIT_CEILING
            invariant
                n <= BUSY_WAIT_CEILING,
                self.hist == old(self).hist,
                extends(start, self.bus.events()),
                appended(start, self.bus.events()).len() == n,
                forall|i: int|
                    0 <= i < n ==> appended(start, self.bus.events())[i] == (BusEvent::BusyRead {
                        high: true,
                    }),
                start == old(self).bus.events(),
            decreases BUSY_WAIT_CEILING - n,
        {
            let ghost pre = self.bus.events();
            let high = self.bus.busy_is_high();
            proof {
                lemma_appended_push(start, pre, BusEvent::BusyRead { high });
            }
            if !high {
                return true;
            }
            n = n + 1;
        }
        false
    }

    /// Pulse the reset line low, hold, release, hold again.
    pub fn reset(&mut self) -> (r: Sx1268HalStatus)
        ensures
            r == Sx1268HalStatus::Success,
            final(self).cmds() == old(self).cmds(),
            extends(old(self).events(), final(self).events()),
            appended(old(self).events(), final(self).events()) == seq![
                BusEvent::NrstSet { high: false },
                BusEvent::DelayMs { ms: RESET_HOLD_MS },
                BusEvent::NrstSet { high: true },
                BusEvent::DelayMs { ms: RESET_HOLD_MS },
            ],
            no_antenna_events(appended(old(self).events(), final(self).events())),
    {
        let ghost start = self.bus.events();
        proof {
            lemma_extends_refl(start);
        }
        self.bus.set_nrst(false);
        proof {
            lemma_appended_push(start, start, BusEvent::NrstSet { high: false });
        }
        let ghost e1 = self.bus.events();
        self.bus.delay_ms(RESET_HOLD_MS);
        proof {
            lemma_appended_push(start, e1, BusEvent::DelayMs { ms: RESET_HOLD_MS });
        }
        let ghost e2 = self.bus.events();
        self.bus.set_nrst(true);
        proof {
            lemma_appended_push(start, e2, BusEvent::NrstSet { high: true });
        }
        let ghost e3 = self.bus.events();
        self.bus.delay_ms(RESET_HOLD_MS);
        proof {
            lemma_appended_push(start, e3, BusEvent::DelayMs { ms: RESET_HOLD_MS });
            assert(appended(start, self.bus.events()) =~= seq![
                BusEvent::NrstSet { high: false },
                BusEvent::DelayMs { ms: RESET_HOLD_MS },
                BusEvent::NrstSet { high: true },
                BusEvent::DelayMs { ms: RESET_HOLD_MS },
            ]);
        }
        Sx1268HalStatus::Success
    }

    /// Toggle chip select to bring the chip out of sleep without a full
    /// reset.
    pub fn wakeup(&mut self) -> (r: Sx1268HalStatus)
        ensures
            r == Sx1268HalStatus::Success,
            final(self).cmds() == old(self).cmds(),
            extends(old(self).events(), final(self).events()),
            appended(old(self).events(), final(self).events()) == seq![
                BusEvent::NssSet { high: false },
                BusEvent::DelayMs { ms: WAKEUP_HOLD_MS },
                BusEvent::NssSet { high: true },
                BusEvent::DelayMs { ms: WAKEUP_HOLD_MS },
            ],
            no_antenna_events(appended(old(self).events(), final(self).events())),
    {
        let ghost start = self.bus.events();
        proof {
            lemma_extends_refl(start);
        }
        self.bus.set_nss(false);
        proof {
            lemma_appended_push(start, start, BusEvent::NssSet { high: false });
        }
        let ghost e1 = self.bus.events();
        self.bus.delay_ms(WAKEUP_HOLD_MS);
        proof {
            lemma_appended_push(start, e1, BusEvent::DelayMs { ms: WAKEUP_HOLD_MS });
        }
        let ghost e2 = self.bus.events();
        self.bus.set_nss(true);
        proof {
            lemma_appended_push(start, e2, BusEvent::NssSet { high: true });
        }
        let ghost e3 = self.bus.events();
        self.bus.delay_ms(WAKEUP_HOLD_MS);
        proof {
            lemma_appended_push(start, e3, BusEvent::DelayMs { ms: WAKEUP_HOLD_MS });
            assert(appended(start, self.bus.events()) =~= seq![
                BusEvent::NssSet { high: false },
                BusEvent::DelayMs { ms: WAKEUP_HOLD_MS },
                BusEvent::NssSet { high: true },
                BusEvent::DelayMs { ms: WAKEUP_HOLD_MS },
            ]);
        }
        Sx1268HalStatus::Success
    }

    /// Issue one write transaction: wait while busy, select, shift the
    /// command bytes then the payload bytes, release.
    pub fn write(&mut self, command: &[u8], data: &[u8]) -> (r: Sx1268HalStatus)
        ensures
            extends(old(self).events(), final(self).events()),
            no_antenna_events(appended(old(self).events(), final(self).events())),
            final(self).cmds().len() == old(self).cmds().len() + 1,
            final(self).cmds().drop_last() == old(self).cmds(),
            final(self).cmds().last().complete(),
            ({
                let f = final(self).cmds().last();
                let tail = appended(old(self).events(), final(self).events());
                match r {
                    Sx1268HalStatus::Success => {
                        &&& f.mosi == command@ + data@
                        &&& txn_tail(tail, f.mosi, f.miso)
                    },
                    Sx1268HalStatus::Error => {
                        &&& f.mosi.len() < command@.len() + data@.len()
                        &&& f.mosi == (command@ + data@).take(f.mosi.len() as int)
                        &&& failed_txn_tail(
                            tail,
                            f.mosi,
                            f.miso,
                            (command@ + data@)[f.mosi.len() as int],
                        )
                    },
                }
            }),
    {
        let ghost start = self.bus.events();
        let ghost full: Seq<u8> = command@ + data@;
        proof {
            lemma_extends_refl(start);
        }
        let _free = self.wait_on_busy();
        let ghost polls = appended(start, self.bus.events());
        proof {
            lemma_extends_split(start, self.bus.events());
        }
        let ghost e1 = self.bus.events();
        self.bus.set_nss(false);
        proof {
            assert(self.bus.events() =~= start + polls + seq![BusEvent::NssSet { high: false }]
                + xfer_events(Seq::empty(), Seq::empty()));
        }
        let ghost mut mosis: Seq<u8> = Seq::empty();
        let ghost mut misos: Seq<u8> = Seq::empty();
        let mut k: usize = 0;
        while k < command.len()
            invariant
                k <= command@.len(),
                mosis == command@.take(k as int),
                misos.len() == mosis.len(),
                self.hist == old(self).hist,
                busy_wait_trace(polls),
                full == command@ + data@,
                start == old(self).bus.events(),
                self.bus.events() == start + polls + seq![BusEvent::NssSet { high: false }]
                    + xfer_events(mosis, misos),
            decreases command@.len() - k,
        {
            let b = command[k];
            let ghost pre = self.bus.events();
            match self.bus.transfer_byte(b) {
                Ok(m) => {
                    proof {
                        lemma_xfer_events_push(mosis, misos, b, m);
                        mosis = mosis.push(b);
                        misos = misos.push(m);
                        assert(mosis =~= command@.take(k + 1 as int));
                        assert(self.bus.events() =~= start + polls + seq![
                            BusEvent::NssSet { high: false },
                        ] + xfer_events(mosis, misos));
                    }
                    k = k + 1;
                },
                Err(_) => {
                    self.bus.set_nss(true);
                    self.hist = Ghost(self.hist@.push(Frame { mosi: mosis, miso: misos }));
                    proof {
                        assert(self.hist@.drop_last() =~= old(self).hist@);
                        assert(mosis =~= full.take(k as int));
                        assert(full[k as int] == b);
                        let tail = appended(start, self.bus.events());
                        assert(tail =~= failed_txn_events(polls, mosis, misos, b));
                        lemma_failed_txn_events_neutral(polls, mosis, misos, b);
                        assert(self.bus.events().subrange(0, start.len() as int) =~= start);
                    }
                    return Sx1268HalStatus::Error;
                },
            }
        }
        let mut j: usize = 0;
        while j < data.len()
            invariant
                j <= data@.len(),
                mosis == full.take((command@.len() + j) as int),
                misos.len() == mosis.len(),
                self.hist == old(self).hist,
                busy_wait_trace(polls),
                full == command@ + data@,
                start == old(self).bus.events(),
                self.bus.events() == start + polls + seq![BusEvent::NssSet { high: false }]
                    + xfer_events(mosis, misos),
            decreases data@.len() - j,
        {
            let b = data[j];
            match self.bus.transfer_byte(b) {
                Ok(m) => {
                    proof {
                        lemma_xfer_events_push(mosis, misos, b, m);
                        mosis = mosis.push(b);
                        misos = misos.push(m);
                        assert(mosis =~= full.take((command@.len() + j + 1) as int));
                        assert(self.bus.events() =~= start + polls + seq![
                            BusEvent::NssSet { high: false },
                        ] + xfer_events(mosis, misos));
                    }
                    j = j + 1;
                },
                Err(_) => {
                    self.bus.set_nss(true);
                    self.hist = Ghost(self.hist@.push(Frame { mosi: mosis, miso: misos }));
                    proof {
                        assert(self.hist@.drop_last() =~= old(self).hist@);
                        assert(full[(command@.len() + j) as int] == b);
                        let tail = appended(start, self.bus.events());
                        assert(tail =~= failed_txn_events(polls, mosis, misos, b));
                        lemma_failed_txn_events_neutral(polls, mosis, misos, b);
                        assert(self.bus.events().subrange(0, start.len() as int) =~= start);
                    }
                    return Sx1268HalStatus::Error;
                },
            }
        }
        self.bus.set_nss(true);
        self.hist = Ghost(self.hist@.push(Frame { mosi: mosis, miso: misos }));
        proof {
            assert(self.hist@.drop_last() =~= old(self).hist@);
            assert(mosis =~= full);
            let tail = appended(start, self.bus.events());
            assert(tail =~= txn_events(polls, mosis, misos));
            lemma_txn_events_neutral(polls, mosis, misos);
            assert(self.bus.events().subrange(0, start.len() as int) =~= start);
        }
        Sx1268HalStatus::Success
    }

    /// Issue one read transaction: shift the command while capturing what
    /// the chip returns on the same exchanges; the first response byte
    /// arrives with the last command byte, further response bytes are
    /// clocked out with filler bytes.  On success `response` holds the
    /// captured bytes; on failure it is left untouched.
    pub fn read(&mut self, command: &[u8], response: &mut Vec<u8>) -> (r: Sx1268HalStatus)
        requires
            command@.len() >= 1,
            old(response)@.len() >= 1,
        ensures
            extends(old(self).events(), final(self).events()),
            no_antenna_events(appended(old(self).events(), final(self).events())),
            final(self).cmds().len() == old(self).cmds().len() + 1,
            final(self).cmds().drop_last() == old(self).cmds(),
            final(self).cmds().last().complete(),
            final(response)@.len() == old(response)@.len(),
            ({
                let f = final(self).cmds().last();
                let tail = appended(old(self).events(), final(self).events());
                let expect = read_mosi(command@, old(response)@.len());
                match r {
                    Sx1268HalStatus::Success => {
                        &&& f.mosi == expect
                        &&& final(response)@ == f.miso.skip(command@.len() - 1)
                        &&& txn_tail(tail, f.mosi, f.miso)
                    },
                    Sx1268HalStatus::Error => {
                        &&& f.mosi.len() < expect.len()
                        &&& f.mosi == expect.take(f.mosi.len() as int)
                        &&& final(response)@ == old(response)@
                        &&& failed_txn_tail(tail, f.mosi, f.miso, expect[f.mosi.len() as int])
                    },
                }
            }),
    {
        let n = response.len();
        let ghost expect: Seq<u8> = read_mosi(command@, n as nat);
        let ghost start = self.bus.events();
        proof {
            lemma_extends_refl(start);
            assert(expect.len() == command@.len() + (n - 1));
        }
        let _free = self.wait_on_busy();
        let ghost polls = appended(start, self.bus.events());
        proof {
            lemma_extends_split(start, self.bus.events());
        }
        self.bus.set_nss(false);
        proof {
            assert(self.bus.events() =~= start + polls + seq![BusEvent::NssSet { high: false }]
                + xfer_events(Seq::empty(), Seq::empty()));
        }
        let ghost mut mosis: Seq<u8> = Seq::empty();
        let ghost mut misos: Seq<u8> = Seq::empty();
        let mut first: u8 = 0;
        let mut k: usize = 0;
        while k < command.len()
            invariant
                k <= command@.len(),
                command@.len() >= 1,
                n >= 1,
                n == old(response)@.len(),
                response@ == old(response)@,
                expect == read_mosi(command@, n as nat),
                mosis == command@.take(k as int),
                misos.len() == mosis.len(),
                k >= 1 ==> first == misos.last(),
                self.hist == old(self).hist,
                busy_wait_trace(polls),
                start == old(self).bus.events(),
                self.bus.events() == start + polls + seq![BusEvent::NssSet { high: false }]
                    + xfer_events(mosis, misos),
            decreases command@.len() - k,
        {
            let b = command[k];
            match self.bus.transfer_byte(b) {
                Ok(m) => {
                    first = m;
                    proof {
                        lemma_xfer_events_push(mosis, misos, b, m);
                        mosis = mosis.push(b);
                        misos = misos.push(m);
                        assert(mosis =~= command@.take(k + 1 as int));
                        assert(self.bus.events() =~= start + polls + seq![
                            BusEvent::NssSet { high: false },
                        ] + xfer_events(mosis, misos));
                    }
                    k = k + 1;
                },
                Err(_) => {
                    self.bus.set_nss(true);
                    self.hist = Ghost(self.hist@.push(Frame { mosi: mosis, miso: misos }));
                    proof {
                        assert(self.hist@.drop_last() =~= old(self).hist@);
                        assert(mosis =~= expect.take(k as int));
                        assert(expect[k as int] == b);
                        let tail = appended(start, self.bus.events());
                        assert(tail =~= failed_txn_events(polls, mosis, misos, b));
                        lemma_failed_txn_events_neutral(polls, mosis, misos, b);
                        assert(self.bus.events().subrange(0, start.len() as int) =~= start);
                    }
                    return Sx1268HalStatus::Error;
                },
            }
        }
        let mut out: Vec<u8> = Vec::new();
        out.push(first);
        let mut j: usize = 1;
        while j < n
            invariant
                1 <= j <= n,
                n == old(response)@.len(),
                response@ == old(response)@,
                command@.len() >= 1,
                expect == read_mosi(command@, n as nat),
                mosis == expect.take((command@.len() + j - 1) as int),
                misos.len() == mosis.len(),
                misos.len() >= command@.len(),
                out@ == misos.skip(command@.len() - 1),
                self.hist == old(self).hist,
                busy_wait_trace(polls),
                start == old(self).bus.events(),
                self.bus.events() == start + polls + seq![BusEvent::NssSet { high: false }]
                    + xfer_events(mosis, misos),
            decreases n - j,
        {
            match self.bus.transfer_byte(0x00) {
                Ok(m) => {
                    out.push(m);
                    proof {
                        lemma_xfer_events_push(mosis, misos, 0u8, m);
                        mosis = mosis.push(0u8);
                        misos = misos.push(m);
                        assert(mosis =~= expect.take((command@.len() + j) as int));
                        assert(out@ =~= misos.skip(command@.len() - 1));
                        assert(self.bus.events() =~= start + polls + seq![
                            BusEvent::NssSet { high: false },
                        ] + xfer_events(mosis, misos));
                    }
                    j = j + 1;
                },
                Err(_) => {
                    self.bus.set_nss(true);
                    self.hist = Ghost(self.hist@.push(Frame { mosi: mosis, miso: misos }));
                    proof {
                        assert(self.hist@.drop_last() =~= old(self).hist@);
                        assert(expect[(command@.len() + j - 1) as int] == 0u8);
                        let tail = appended(start, self.bus.events());
                        assert(tail =~= failed_txn_events(polls, mosis, misos, 0u8));
                        lemma_failed_txn_events_neutral(polls, mosis, misos, 0u8);
                        assert(self.bus.events().subrange(0, start.len() as int) =~= start);
                    }
                    return Sx1268HalStatus::Error;
                },
            }
        }
        self.bus.set_nss(true);
        self.hist = Ghost(self.hist@.push(Frame { mosi: mosis, miso: misos }));
        *response = out;
        proof {
            assert(self.hist@.drop_last() =~= old(self).hist@);
            assert(mosis =~= expect);
            let tail = appended(start, self.bus.events());
            assert(tail =~= txn_events(polls, mosis, misos));
            lemma_txn_events_neutral(polls, mosis, misos);
            assert(self.bus.events().subrange(0, start.len() as int) =~= start);
        }
        Sx1268HalStatus::Success
    }

    /// Block for the given number of milliseconds through the injected
    /// delay primitive.
    pub fn delay(&mut self, ms: u32)
        ensures
            final(self).cmds() == old(self).cmds(),
            extends(old(self).events(), final(self).events()),
            appended(old(self).events(), final(self).events()) == seq![BusEvent::DelayMs { ms }],
            no_antenna_events(appended(old(self).events(), final(self).events())),
    {
        let ghost start = self.bus.events();
        proof {
            lemma_extends_refl(start);
        }
        self.bus.delay_ms(ms);
        proof {
            lemma_appended_push(start, start, BusEvent::DelayMs { ms });
            assert(appended(start, self.bus.events()) =~= seq![BusEvent::DelayMs { ms }]);
        }
    }

    /// Route the antenna front end for transmit: receive enable low
    /// first, then transmit enable high.
    pub fn rf_switch_tx(&mut self) -> (r: Sx1268HalStatus)
        requires
            antennas_exclusive(old(self).events()),
        ensures
            r == Sx1268HalStatus::Success,
            final(self).cmds() == old(self).cmds(),
            extends(old(self).events(), final(self).events()),
            appended(old(self).events(), final(self).events()) == seq![
                BusEvent::RxenSet { high: false },
                BusEvent::TxenSet { high: true },
            ],
            antennas_exclusive(final(self).events()),
            txen_after(final(self).events()) == true,
            rxen_after(final(self).events()) == false,
    {
        let ghost start = self.bus.events();
        proof {
            lemma_extends_refl(start);
        }
        self.bus.set_rxen(false);
        proof {
            lemma_appended_push(start, start, BusEvent::RxenSet { high: false });
            lemma_exclusive_push_low(start, BusEvent::RxenSet { high: false });
        }
        let ghost e1 = self.bus.events();
        self.bus.set_txen(true);
        proof {
            lemma_appended_push(start, e1, BusEvent::TxenSet { high: true });
            lemma_exclusive_push_high(e1, BusEvent::TxenSet { high: true });
            assert(appended(start, self.bus.events()) =~= seq![
                BusEvent::RxenSet { high: false },
                BusEvent::TxenSet { high: true },
            ]);
        }
        Sx1268HalStatus::Success
    }

    /// Route the antenna front end for receive: transmit enable low
    /// first, then receive enable high.
    pub fn rf_switch_rx(&mut self) -> (r: Sx1268HalStatus)
        requires
            antennas_exclusive(old(self).events()),
        ensures
            r == Sx1268HalStatus::Success,
            final(self).cmds() == old(self).cmds(),
            extends(old(self).events(), final(self).events()),
            appended(old(self).events(), final(self).events()) == seq![
                BusEvent::TxenSet { high: false },
                BusEvent::RxenSet { high: true },
            ],
            antennas_exclusive(final(self).events()),
            txen_after(final(self).events()) == false,
            rxen_after(final(self).events()) == true,
    {
        let ghost start = self.bus.events();
        proof {
            lemma_extends_refl(start);
        }
        self.bus.set_txen(false);
        proof {
            lemma_appended_push(start, start, BusEvent::TxenSet { high: false });
            lemma_exclusive_push_low(start, BusEvent::TxenSet { high: false });
        }
        let ghost e1 = self.bus.events();
        self.bus.set_rxen(true);
        proof {
            lemma_appended_push(start, e1, BusEvent::RxenSet { high: true });
            lemma_exclusive_push_high(e1, BusEvent::RxenSet { high: true });
            assert(appended(start, self.bus.events()) =~= seq![
                BusEvent::TxenSet { high: false },
                BusEvent::RxenSet { high: true },
            ]);
        }
        Sx1268HalStatus::Success
    }

    /// Route the antenna front end to neither direction: both enables low.
    pub fn rf_switch_off(&mut self) -> (r: Sx1268HalStatus)
        requires
            antennas_exclusive(old(self).events()),
        ensures
            r == Sx1268HalStatus::Success,
            final(self).cmds() == old(self).cmds(),
            extends(old(self).events(), final(self).events()),
            appended(old(self).events(), final(self).events()) == seq![
                BusEvent::TxenSet { high: false },
                BusEvent::RxenSet { high: false },
            ],
            antennas_exclusive(final(self).events()),
            txen_after(final(self).events()) == false,
            rxen_after(final(self).events()) == false,
    {
        let ghost start = self.bus.events();
        proof {
            lemma_extends_refl(start);
        }
        self.bus.set_txen(false);
        proof {
            lemma_appended_push(start, start, BusEvent::TxenSet { high: false });
            lemma_exclusive_push_low(start, BusEvent::TxenSet { high: false });
        }
        let ghost e1 = self.bus.events();
        self.bus.set_rxen(false);
        proof {
            lemma_appended_push(start, e1, BusEvent::RxenSet { high: false });
            lemma_exclusive_push_low(e1, BusEvent::RxenSet { high: false });
            assert(appended(start, self.bus.events()) =~= seq![
                BusEvent::TxenSet { high: false },
                BusEvent::RxenSet { high: false },
            ]);
        }
        Sx1268HalStatus::Success
    }
}

} // verus!
