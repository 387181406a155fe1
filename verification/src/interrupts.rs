//! Interrupt vectors, the descriptor-table layout, the handler registry for
//! the sixteen hardware lines, and the mask arithmetic of the controller pair.

use vstd::prelude::*;

verus! {

/// Vector at which the first controller of the pair delivers line 0.
pub const PIC_1_OFFSET: u8 = 32;

/// Vector at which the second controller of the pair delivers line 8.
pub const PIC_2_OFFSET: u8 = 40;

/// Number of hardware interrupt lines of the chained controller pair.
pub const IRQ_LINES: u8 = 16;

/// The vector of a hardware line: the first controller's offset plus the line.
pub open spec fn vector_of(irq: u8) -> int {
    PIC_1_OFFSET + irq
}

/// Translates an interrupt-request line into the CPU vector it is delivered at.
#[must_use]
pub fn irq_to_ir(irq: u8) -> (vector: u8)
    requires
        vector_of(irq) <= u8::MAX,
    ensures
        vector == vector_of(irq),
{
    PIC_1_OFFSET + irq
}

/// The two hardware interrupts that the kernel names.
#[derive(Debug, Clone, Copy, PartialEq, Eq, Structural)]
pub enum InterruptIndex {
    Timer,
    Keyboard,
}

impl InterruptIndex {
    /// The line of the controller pair that raises this interrupt.
    pub open spec fn line(self) -> u8 {
        match self {
            InterruptIndex::Timer => 0,
            InterruptIndex::Keyboard => 1,
        }
    }

    /// The vector as a `u8`.
    pub fn as_u8(self) -> (vector: u8)
        ensures
            vector == vector_of(self.line()),
    {
        match self {
            InterruptIndex::Timer => PIC_1_OFFSET,
            InterruptIndex::Keyboard => PIC_1_OFFSET + 1,
        }
    }

    /// The vector as a `usize`, the form in which it indexes the descriptor table.
    pub fn as_usize(self) -> (vector: usize)
        ensures
            vector == vector_of(self.line()),
    {
        usize::from(self.as_u8())
    }
}

/// Port of the first controller's mask register (lines 0 to 7).
pub const PIC_1_DATA_PORT: u16 = 0x21;

/// Port of the second controller's mask register (lines 8 to 15).
pub const PIC_2_DATA_PORT: u16 = 0xA1;

/// Port from which one scancode is read per keyboard interrupt.
pub const KEYBOARD_DATA_PORT: u16 = 0x60;

/// Port that takes the power-off command.
pub const SHUTDOWN_PORT: u16 = 0x604;

/// The value that, written to [`SHUTDOWN_PORT`], powers the machine off.
pub const SHUTDOWN_COMMAND: u16 = 0x2000;

/// Vector of the breakpoint exception.
pub const BREAKPOINT_VECTOR: u8 = 3;

/// Vector of the double-fault exception.
pub const DOUBLE_FAULT_VECTOR: u8 = 8;

/// Vector of the page-fault exception.
pub const PAGE_FAULT_VECTOR: u8 = 14;

/// Number of entries of the interrupt stack table.
pub const INTERRUPT_STACKS: u16 = 7;

/// The routines that the descriptor table dispatches to.
#[derive(Clone, Copy, Debug, PartialEq, Eq, Structural)]
pub enum Handler {
    /// Reports the trapped state and returns.
    Breakpoint,
    /// Reports the fault and halts. Runs on a stack of its own.
    DoubleFault,
    /// Reports the faulting address and halts.
    PageFault,
    /// Serves the hardware line with this number.
    InterruptRequest(u8),
}

impl Handler {
    /// Whether the interrupted code goes on after the handler has run.
    pub open spec fn resumes_spec(self) -> bool {
        match self {
            Handler::Breakpoint => true,
            Handler::DoubleFault => false,
            Handler::PageFault => false,
            Handler::InterruptRequest(_) => true,
        }
    }

    /// Whether the interrupted code goes on after the handler has run. A
    /// handler for a condition with no safe continuation halts the core
    /// instead.
    #[verifier::when_used_as_spec(resumes_spec)]
    pub fn resumes(self) -> (resumes: bool)
        ensures
            resumes == self.resumes_spec(),
    {
        match self {
            Handler::Breakpoint => true,
            Handler::DoubleFault => false,
            Handler::PageFault => false,
            Handler::InterruptRequest(_) => true,
        }
    }
}

/// An entry of the descriptor table that is bound to a handler.
#[derive(Clone, Copy, Debug, PartialEq, Eq, Structural)]
pub struct Entry {
    /// The routine that the vector dispatches to.
    pub handler: Handler,
    /// The entry of the interrupt stack table that the handler runs on, where
    /// it does not run on the interrupted stack.
    pub stack_index: Option<u16>,
}

/// The entry that the kernel binds to `vector`, if it binds one, where the
/// double-fault handler runs on the stack with index `double_fault_stack`.
pub open spec fn entry_of(vector: int, double_fault_stack: u16) -> Option<Entry> {
    if vector == BREAKPOINT_VECTOR {
        Some(Entry { handler: Handler::Breakpoint, stack_index: None })
    } else if vector == DOUBLE_FAULT_VECTOR {
        Some(Entry { handler: Handler::DoubleFault, stack_index: Some(double_fault_stack) })
    } else if vector == PAGE_FAULT_VECTOR {
        Some(Entry { handler: Handler::PageFault, stack_index: None })
    } else if PIC_1_OFFSET <= vector < PIC_1_OFFSET + IRQ_LINES {
        Some(
            Entry {
                handler: Handler::InterruptRequest((vector - PIC_1_OFFSET) as u8),
                stack_index: None,
            },
        )
    } else {
        None
    }
}

/// The interrupt descriptor table: for each of the 256 vectors the entry that
/// is bound to it, if one is.
#[derive(Debug)]
pub struct InterruptDescriptorTable {
    entries: [Option<Entry>; 256],
}

impl View for InterruptDescriptorTable {
    type V = Seq<Option<Entry>>;

    closed spec fn view(&self) -> Seq<Option<Entry>> {
        self.entries@
    }
}

impl InterruptDescriptorTable {
    /// The entry bound to `vector`, if one is.
    pub fn entry(&self, vector: u8) -> (entry: Option<Entry>)
        ensures
            self@.len() == 256,
            entry == self@[vector as int],
    {
        self.entries[vector as usize]
    }
}

/// Builds the interrupt descriptor table: the breakpoint, double-fault and
/// page-fault handlers at their vectors, and behind them the handlers of the
/// sixteen hardware lines, line `irq` at vector `PIC_1_OFFSET + irq`. Every
/// other vector stays unbound.
///
/// The double-fault handler gets the stack with index
/// `double_fault_stack_index`, so that it can run when the fault comes from
/// an overflow of the interrupted stack.
pub fn init_idt(double_fault_stack_index: u16) -> (table: InterruptDescriptorTable)
    requires
        double_fault_stack_index < INTERRUPT_STACKS,
    ensures
        table@ == Seq::new(256, |vector: int| entry_of(vector, double_fault_stack_index)),
{
    let mut entries: [Option<Entry>; 256] = [None;256];
    entries[BREAKPOINT_VECTOR as usize] = Some(
        Entry { handler: Handler::Breakpoint, stack_index: None },
    );
    entries[DOUBLE_FAULT_VECTOR as usize] = Some(
        Entry { handler: Handler::DoubleFault, stack_index: Some(double_fault_stack_index) },
    );
    entries[PAGE_FAULT_VECTOR as usize] = Some(
        Entry { handler: Handler::PageFault, stack_index: None },
    );
    let mut irq: u8 = 0;
    while irq < IRQ_LINES
        invariant
            irq <= IRQ_LINES,
            forall|vector: int|
                0 <= vector < 256 ==> #[trigger] entries@[vector] == if vector < PIC_1_OFFSET
                    + irq {
                    entry_of(vector, double_fault_stack_index)
                } else {
                    None
                },
        decreases IRQ_LINES - irq,
    {
        entries[irq_to_ir(irq) as usize] = Some(
            Entry { handler: Handler::InterruptRequest(irq), stack_index: None },
        );
        irq += 1;
    }
    let table = InterruptDescriptorTable { entries };
    assert(table@ =~= Seq::new(256, |vector: int| entry_of(vector, double_fault_stack_index)));
    table
}

/// A byte to write to an I/O port.
#[derive(Clone, Copy, Debug, PartialEq, Eq, Structural)]
pub struct PortWrite {
    pub port: u16,
    pub value: u8,
}

/// The port of the mask register that holds the bit of line `irq`.
pub open spec fn mask_port_of(irq: u8) -> u16 {
    if irq < 8 {
        PIC_1_DATA_PORT
    } else {
        PIC_2_DATA_PORT
    }
}

/// The position of the bit of line `irq` in its mask register.
pub open spec fn mask_bit_of(irq: u8) -> u8 {
    (irq % 8) as u8
}

/// The mask `mask` with the bit at position `bit` cleared.
pub open spec fn unmasked(mask: u8, bit: u8) -> u8 {
    mask & !(1u8 << bit)
}

/// Clearing a bit of a mask leaves that bit zero and every other bit as it was.
pub proof fn lemma_unmasked_bits(mask: u8, bit: u8, other: u8)
    requires
        bit < 8,
        other < 8,
    ensures
        (unmasked(mask, bit) >> other) & 1 == if other == bit {
            0
        } else {
            (mask >> other) & 1
        },
{
    assert(((mask & !(1u8 << bit)) >> other) & 1 == if other == bit {
        0
    } else {
        (mask >> other) & 1
    }) by (bit_vector)
        requires
            bit < 8,
            other < 8,
    ;
}

/// The port from which the mask register of line `interrupt_request` is read
/// and to which it is written.
pub fn interrupt_mask_port(interrupt_request: u8) -> (port: u16)
    requires
        interrupt_request < IRQ_LINES,
    ensures
        port == mask_port_of(interrupt_request),
{
    if interrupt_request < 8 {
        PIC_1_DATA_PORT
    } else {
        PIC_2_DATA_PORT
    }
}

/// Enables line `interrupt_request`: given the value `mask` read from the
/// line's mask register, returns the write that clears the line's bit and
/// keeps every other.
pub fn clear_interrupt_mask(interrupt_request: u8, mask: u8) -> (write: PortWrite)
    requires
        interrupt_request < IRQ_LINES,
    ensures
        write.port == mask_port_of(interrupt_request),
        write.value == unmasked(mask, mask_bit_of(interrupt_request)),
{
    let (port, ir_value) = if interrupt_request < 8 {
        (PIC_1_DATA_PORT, interrupt_request)
    } else {
        (PIC_2_DATA_PORT, interrupt_request - 8)
    };
    let value = mask & !(1u8 << ir_value);
    PortWrite { port, value }
}

/// The handlers of the sixteen hardware lines, one per line.
pub struct InterruptRequestHandlers<H> {
    handlers: [H; 16],
}

impl<H> View for InterruptRequestHandlers<H> {
    type V = Seq<H>;

    closed spec fn view(&self) -> Seq<H> {
        self.handlers@
    }
}

/// The registry after `handler` is registered for line `irq`.
pub open spec fn registered<H>(handlers: Seq<H>, irq: u8, handler: H) -> Seq<H> {
    handlers.update(irq as int, handler)
}

/// What an interrupt on line `irq` leads to: the handler to run and the
/// vector to acknowledge afterwards.
pub open spec fn dispatched<H>(handlers: Seq<H>, irq: u8) -> (H, int) {
    (handlers[irq as int], vector_of(irq))
}

/// After a handler is registered for a line, an interrupt on that line runs
/// that handler and acknowledges that line's vector; interrupts on the other
/// lines go where they went before.
pub proof fn lemma_registered_handler_is_dispatched<H>(
    handlers: Seq<H>,
    irq: u8,
    handler: H,
    other: u8,
)
    requires
        handlers.len() == IRQ_LINES,
        irq < IRQ_LINES,
        other < IRQ_LINES,
    ensures
        dispatched(registered(handlers, irq, handler), irq) == (handler, PIC_1_OFFSET + irq),
        other != irq ==> dispatched(registered(handlers, irq, handler), other) == dispatched(
            handlers,
            other,
        ),
{
}

impl<H: Copy> InterruptRequestHandlers<H> {
    /// A registry in which every line has the handler `default`.
    pub fn new(default: H) -> (handlers: Self)
        ensures
            handlers@ == Seq::new(IRQ_LINES as nat, |irq: int| default),
    {
        let handlers = InterruptRequestHandlers { handlers: [default;16] };
        assert(handlers@ =~= Seq::new(IRQ_LINES as nat, |irq: int| default));
        handlers
    }

    /// The handler of line `irq`.
    pub fn handler(&self, irq: u8) -> (handler: H)
        requires
            irq < IRQ_LINES,
        ensures
            self@.len() == IRQ_LINES,
            handler == self@[irq as int],
    {
        self.handlers[irq as usize]
    }
}

/// Registers `handler` for line `index` and enables the line: given the value
/// `mask` read from the line's mask register, returns the write that clears
/// the line's bit.
///
/// The handler is in its slot before the caller can perform the write, so the
/// line is never enabled on a slot that still holds its previous handler.
/// Interrupts must be off from the read of the mask to the write.
pub fn set_interrupt_request_handler<H: Copy>(
    handlers: &mut InterruptRequestHandlers<H>,
    index: u8,
    handler: H,
    mask: u8,
) -> (write: PortWrite)
    requires
        index < IRQ_LINES,
    ensures
        final(handlers)@ == registered(old(handlers)@, index, handler),
        write.port == mask_port_of(index),
        write.value == unmasked(mask, mask_bit_of(index)),
{
    handlers.handlers[index as usize] = handler;
    clear_interrupt_mask(index, mask)
}

/// Serves an interrupt on line `irq`: runs the line's handler, then returns
/// the vector for which the caller sends the one end-of-interrupt.
pub fn interrupt_request_handler<H: Fn()>(
    handlers: &InterruptRequestHandlers<H>,
    irq: u8,
) -> (vector: u8)
    requires
        irq < IRQ_LINES,
        call_requires(dispatched(handlers@, irq).0, ()),
    ensures
        vector == dispatched(handlers@, irq).1,
        call_ensures(dispatched(handlers@, irq).0, (), ()),
{
    let handler = &handlers.handlers[irq as usize];
    handler();
    irq_to_ir(irq)
}

} // verus!
