//! The console UART driver: which register operations, in which order, put
//! a byte out or check for one coming in, on either hardware variant. The
//! operations are carried out one by one, unmerged and unreordered, by the
//! code that owns the device mapping and the console lock.
use vstd::prelude::*;

verus! {

/// Which UART the platform has.
#[derive(Clone, Copy, Debug, PartialEq, Eq, Structural)]
pub enum UartType {
    Ns16550a,
    SiFive,
}

/// The variant in use; a 16550 remembers whether its registers were set up.
#[derive(Clone, Copy, Debug, PartialEq, Eq, Structural)]
pub enum UartWriterInner {
    Ns16550a { initialized: bool },
    SiFive,
}

/// The console UART at physical address `pa`.
#[derive(Clone, Copy, Debug, PartialEq, Eq, Structural)]
pub struct UartWriter {
    pub pa: u64,
    pub inner: UartWriterInner,
}

/// One ordered access to a device register at physical address `addr`.
#[derive(Clone, Copy, Debug, PartialEq, Eq, Structural)]
pub enum MmioOp {
    Write8 { addr: u64, value: u8 },
    Write32 { addr: u64, word: u32 },
    /// Read the byte register until it has a bit of `mask` set.
    WaitSet8 { addr: u64, mask: u8 },
    /// Read the word register until it has every bit of `mask` clear.
    WaitClear32 { addr: u64, bits: u32 },
}

/// Where to look for a received byte, once the set-up operations are done.
#[derive(Clone, Copy, Debug, PartialEq, Eq, Structural)]
pub enum RxProbe {
    /// Read the line status byte; when `rx_ready` holds of it, the data
    /// register holds the byte.
    Ns16550a { status: u64, data: u64 },
    /// Read the receive word; `rx_word` tells what it holds.
    SiFive { data: u64 },
}

pub const NS16550A_LSR: u64 = 5;
pub const LSR_TX_IDLE: u8 = 0x20;
pub const LSR_RX_READY: u8 = 0x01;
pub const SIFIVE_FIFO_FLAG: u32 = 0x8000_0000;
pub const QEMU_VENDOR_ID: u64 = 0x0000_0000;
pub const QEMU_UART_PA: u64 = 0x1000_0000;

/// The 16550 set-up: interrupts off, divisor latch, 8N1, FIFOs on.
pub open spec fn ns16550a_setup(base: u64) -> Seq<MmioOp> {
    seq![
        MmioOp::Write8 { addr: (base + 1) as u64, value: 0x00 },
        MmioOp::Write8 { addr: (base + 3) as u64, value: 0x80 },
        MmioOp::Write8 { addr: base, value: 0x03 },
        MmioOp::Write8 { addr: (base + 1) as u64, value: 0x00 },
        MmioOp::Write8 { addr: (base + 3) as u64, value: 0x03 },
        MmioOp::Write8 { addr: (base + 2) as u64, value: 0xc7 },
    ]
}

impl UartWriter {
    pub open spec fn wf(self) -> bool {
        self.pa <= u64::MAX - 8
    }

    /// Set-up still owed before the next register access.
    pub open spec fn pending_setup(self) -> Seq<MmioOp> {
        match self.inner {
            UartWriterInner::Ns16550a { initialized } => if initialized {
                Seq::empty()
            } else {
                ns16550a_setup(self.pa)
            },
            UartWriterInner::SiFive => Seq::empty(),
        }
    }

    /// The writer once its set-up is done.
    pub open spec fn used(self) -> UartWriter {
        match self.inner {
            UartWriterInner::Ns16550a { .. } => UartWriter {
                pa: self.pa,
                inner: UartWriterInner::Ns16550a { initialized: true },
            },
            UartWriterInner::SiFive => self,
        }
    }

    /// Operations that send `ch`: set-up if owed, wait for room, write.
    pub open spec fn tx_ops(self, ch: u8) -> Seq<MmioOp> {
        match self.inner {
            UartWriterInner::Ns16550a { .. } => self.pending_setup() + seq![
                MmioOp::WaitSet8 { addr: (self.pa + NS16550A_LSR) as u64, mask: LSR_TX_IDLE },
                MmioOp::Write8 { addr: self.pa, value: ch },
            ],
            UartWriterInner::SiFive => seq![
                MmioOp::WaitClear32 { addr: self.pa, bits: SIFIVE_FIFO_FLAG },
                MmioOp::Write32 { addr: self.pa, word: ch as u32 },
            ],
        }
    }

    /// Operations that send `bytes` one after another.
    pub open spec fn tx_bytes(self, bytes: Seq<u8>) -> Seq<MmioOp>
        decreases bytes.len(),
    {
        if bytes.len() == 0 {
            Seq::empty()
        } else {
            self.tx_bytes(bytes.drop_last()) + (if bytes.len() > 1 {
                self.used()
            } else {
                self
            }).tx_ops(bytes.last())
        }
    }

    fn setup(&mut self, ops: &mut Vec<MmioOp>)
        requires
            old(self).wf(),
        ensures
            final(ops)@ == old(ops)@ + old(self).pending_setup(),
            *final(self) == old(self).used(),
    {
        if let UartWriterInner::Ns16550a { initialized } = self.inner {
            if !initialized {
                let base = self.pa;
                ops.push(MmioOp::Write8 { addr: base + 1, value: 0x00 });
                ops.push(MmioOp::Write8 { addr: base + 3, value: 0x80 });
                ops.push(MmioOp::Write8 { addr: base, value: 0x03 });
                ops.push(MmioOp::Write8 { addr: base + 1, value: 0x00 });
                ops.push(MmioOp::Write8 { addr: base + 3, value: 0x03 });
                ops.push(MmioOp::Write8 { addr: base + 2, value: 0xc7 });
                self.inner = UartWriterInner::Ns16550a { initialized: true };
            }
        }
        assert(final(ops)@ == old(ops)@ + old(self).pending_setup());
    }

    /// Appends to `ops` what sends `ch`, blocking until the UART has room.
    pub fn putchar(&mut self, ch: u8, ops: &mut Vec<MmioOp>)
        requires
            old(self).wf(),
        ensures
            final(ops)@ == old(ops)@ + old(self).tx_ops(ch),
            *final(self) == old(self).used(),
            final(self).wf(),
    {
        match self.inner {
            UartWriterInner::Ns16550a { .. } => {
                self.setup(ops);
                ops.push(MmioOp::WaitSet8 { addr: self.pa + NS16550A_LSR, mask: LSR_TX_IDLE });
                ops.push(MmioOp::Write8 { addr: self.pa, value: ch });
            },
            UartWriterInner::SiFive => {
                ops.push(MmioOp::WaitClear32 { addr: self.pa, bits: SIFIVE_FIFO_FLAG });
                ops.push(MmioOp::Write32 { addr: self.pa, word: ch as u32 });
            },
        }
    }

    /// Appends to `ops` what sends every byte of `bytes`, in order.
    pub fn write_bytes(&mut self, bytes: &[u8], ops: &mut Vec<MmioOp>)
        requires
            old(self).wf(),
        ensures
            final(ops)@ == old(ops)@ + old(self).tx_bytes(bytes@),
            *final(self) == if bytes@.len() == 0 {
                *old(self)
            } else {
                old(self).used()
            },
            final(self).wf(),
    {
        let ghost start = *self;
        let ghost before = ops@;
        let mut i: usize = 0;
        while i < bytes.len()
            invariant
                i <= bytes@.len(),
                start.wf(),
                ops@ == before + start.tx_bytes(bytes@.take(i as int)),
                *self == if i == 0 {
                    start
                } else {
                    start.used()
                },
            decreases bytes@.len() - i,
        {
            proof {
                assert(bytes@.take(i + 1).drop_last() == bytes@.take(i as int));
                assert(bytes@.take(i + 1).last() == bytes@[i as int]);
            }
            self.putchar(bytes[i], ops);
            i = i + 1;
        }
        assert(bytes@.take(bytes@.len() as int) == bytes@);
    }

    /// Appends to `ops` any set-up owed and says where to look for a
    /// received byte; the receive side never blocks.
    pub fn getchar(&mut self, ops: &mut Vec<MmioOp>) -> (probe: RxProbe)
        requires
            old(self).wf(),
        ensures
            final(ops)@ == old(ops)@ + old(self).pending_setup(),
            *final(self) == old(self).used(),
            probe == match old(self).inner {
                UartWriterInner::Ns16550a { .. } => RxProbe::Ns16550a {
                    status: (old(self).pa + NS16550A_LSR) as u64,
                    data: old(self).pa,
                },
                UartWriterInner::SiFive => RxProbe::SiFive { data: old(self).pa },
            },
    {
        self.setup(ops);
        match self.inner {
            UartWriterInner::Ns16550a { .. } => RxProbe::Ns16550a {
                status: self.pa + NS16550A_LSR,
                data: self.pa,
            },
            UartWriterInner::SiFive => RxProbe::SiFive { data: self.pa },
        }
    }

    /// Configures the console for the UART at `address`. A 16550 already set
    /// up stays as it is; it must be the one described.
    pub fn init(&mut self, address: u64, ty: UartType)
        requires
            address <= u64::MAX - 8,
            old(self).inner == (UartWriterInner::Ns16550a { initialized: true }) ==> address
                == old(self).pa && ty == UartType::Ns16550a,
        ensures
            final(self).wf() || *final(self) == *old(self),
            *final(self) == if old(self).inner == (UartWriterInner::Ns16550a { initialized: true }) {
                *old(self)
            } else {
                UartWriter {
                    pa: address,
                    inner: match ty {
                        UartType::Ns16550a => UartWriterInner::Ns16550a { initialized: false },
                        UartType::SiFive => UartWriterInner::SiFive,
                    },
                }
            },
    {
        if let UartWriterInner::Ns16550a { initialized: true } = self.inner {
        } else {
            self.inner = match ty {
                UartType::Ns16550a => UartWriterInner::Ns16550a { initialized: false },
                UartType::SiFive => UartWriterInner::SiFive,
            };
            self.pa = address;
        }
    }
}

/// Whether the 16550 line status byte says a byte has arrived.
pub fn rx_ready(status: u8) -> (r: bool)
    ensures
        r == (status & LSR_RX_READY != 0),
{
    status & LSR_RX_READY != 0
}

/// The byte a SiFive receive word holds, if its valid flag is set.
pub fn rx_word(word: u32) -> (r: Option<u8>)
    ensures
        r == if word & SIFIVE_FIFO_FLAG != 0 {
            Some(word as u8)
        } else {
            None::<u8>
        },
{
    if word & SIFIVE_FIFO_FLAG != 0 {
        Some(word as u8)
    } else {
        None
    }
}

/// Early in boot, before the platform is described: on a machine whose
/// vendor id is QEMU's, the console is taken to be a fresh 16550 at QEMU's
/// address; otherwise it stays as configured.
pub fn early_guess_uart(writer: &mut UartWriter, mvendorid: u64)
    ensures
        *final(writer) == if mvendorid == QEMU_VENDOR_ID {
            UartWriter { pa: QEMU_UART_PA, inner: UartWriterInner::Ns16550a { initialized: false } }
        } else {
            *old(writer)
        },
{
    if mvendorid == QEMU_VENDOR_ID {
        *writer = UartWriter {
            pa: QEMU_UART_PA,
            inner: UartWriterInner::Ns16550a { initialized: false },
        };
    }
}

/// The decimal digits of `n`, most significant first.
pub open spec fn decimal(n: nat) -> Seq<u8>
    decreases n,
{
    if n < 10 {
        seq![(0x30 + n) as u8]
    } else {
        decimal(n / 10).push((0x30 + n % 10) as u8)
    }
}

/// The colour a guest's console lines are shown in: green for guest 1,
/// blue for guest 2, yellow for any other.
pub open spec fn guest_color(guestid: u64) -> Seq<u8> {
    if guestid == 1 {
        seq![0x1bu8, 0x5b, 0x33, 0x32, 0x6d]
    } else if guestid == 2 {
        seq![0x1bu8, 0x5b, 0x33, 0x34, 0x6d]
    } else {
        seq![0x1bu8, 0x5b, 0x33, 0x33, 0x6d]
    }
}

/// A guest console line as shown: coloured bold `[id] `, reset, the line
/// itself, and a newline.
pub open spec fn guest_line(guestid: u64, line: Seq<u8>) -> Seq<u8> {
    guest_color(guestid) + seq![0x1bu8, 0x5b, 0x31, 0x6d, 0x5b] + decimal(guestid as nat) + seq![
        0x5du8,
        0x20,
        0x1b,
        0x5b,
        0x30,
        0x6d,
    ] + line + seq![0x0au8]
}

fn push_decimal(n: u64, out: &mut Vec<u8>)
    ensures
        final(out)@ == old(out)@ + decimal(n as nat),
    decreases n,
{
    if n >= 10 {
        push_decimal(n / 10, out);
    }
    out.push(0x30 + (n % 10) as u8);
    assert(final(out)@ == old(out)@ + decimal(n as nat));
}

fn push_all(out: &mut Vec<u8>, bytes: &[u8])
    ensures
        final(out)@ == old(out)@ + bytes@,
{
    let ghost before = out@;
    let mut i: usize = 0;
    while i < bytes.len()
        invariant
            i <= bytes@.len(),
            out@ == before + bytes@.take(i as int),
        decreases bytes@.len() - i,
    {
        proof {
            assert(bytes@.take(i + 1) == bytes@.take(i as int).push(bytes@[i as int]));
        }
        out.push(bytes[i]);
        i = i + 1;
    }
    assert(bytes@.take(bytes@.len() as int) == bytes@);
}

/// The bytes of a guest console line, as `guest_line` states them.
pub fn guest_line_bytes(guestid: u64, line: &[u8]) -> (r: Vec<u8>)
    ensures
        r@ == guest_line(guestid, line@),
{
    let mut out: Vec<u8> = Vec::new();
    let digit: u8 = if guestid == 1 {
        0x32
    } else if guestid == 2 {
        0x34
    } else {
        0x33
    };
    out.push(0x1b);
    out.push(0x5b);
    out.push(0x33);
    out.push(digit);
    out.push(0x6d);
    out.push(0x1b);
    out.push(0x5b);
    out.push(0x31);
    out.push(0x6d);
    out.push(0x5b);
    let ghost head = out@;
    assert(head == guest_color(guestid) + seq![0x1bu8, 0x5b, 0x31, 0x6d, 0x5b]);
    push_decimal(guestid, &mut out);
    out.push(0x5d);
    out.push(0x20);
    out.push(0x1b);
    out.push(0x5b);
    out.push(0x30);
    out.push(0x6d);
    let ghost mid = out@;
    assert(mid == head + decimal(guestid as nat) + seq![0x5du8, 0x20, 0x1b, 0x5b, 0x30, 0x6d]);
    push_all(&mut out, line);
    out.push(0x0a);
    out
}

/// Appends to `ops` what shows one guest console line. The caller holds
/// the console for the whole call, so the line comes out whole.
pub fn guest_println(writer: &mut UartWriter, guestid: u64, line: &[u8], ops: &mut Vec<MmioOp>)
    requires
        old(writer).wf(),
    ensures
        final(ops)@ == old(ops)@ + old(writer).tx_bytes(guest_line(guestid, line@)),
        *final(writer) == old(writer).used(),
{
    let bytes = guest_line_bytes(guestid, line);
    writer.write_bytes(bytes.as_slice(), ops);
}

} // verus!
