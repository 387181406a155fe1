use kernel::interrupts::{
    clear_interrupt_mask, init_idt, interrupt_mask_port, interrupt_request_handler, irq_to_ir,
    set_interrupt_request_handler, Entry, Handler, InterruptIndex, InterruptRequestHandlers,
    PortWrite, PIC_1_OFFSET, PIC_2_OFFSET,
};
use std::sync::atomic::{AtomicUsize, Ordering};

#[test]
fn irq_to_ir_adds_first_offset() {
    assert_eq!(irq_to_ir(0), 32);
    assert_eq!(irq_to_ir(1), 33);
    assert_eq!(irq_to_ir(8), PIC_2_OFFSET);
    assert_eq!(irq_to_ir(15), 47);
    assert_eq!(irq_to_ir(223), 255);
}

#[test]
fn interrupt_index_vectors() {
    assert_eq!(InterruptIndex::Timer.as_u8(), PIC_1_OFFSET);
    assert_eq!(InterruptIndex::Keyboard.as_u8(), 33);
    assert_eq!(InterruptIndex::Timer.as_usize(), 32);
    assert_eq!(InterruptIndex::Keyboard.as_usize(), 33);
}

#[test]
fn mask_port_by_controller() {
    for irq in 0..8 {
        assert_eq!(interrupt_mask_port(irq), 0x21);
    }
    for irq in 8..16 {
        assert_eq!(interrupt_mask_port(irq), 0xA1);
    }
}

#[test]
fn clear_mask_clears_only_the_line_bit() {
    assert_eq!(clear_interrupt_mask(0, 0xff), PortWrite { port: 0x21, value: 0xfe });
    assert_eq!(clear_interrupt_mask(1, 0xff), PortWrite { port: 0x21, value: 0xfd });
    assert_eq!(clear_interrupt_mask(7, 0xff), PortWrite { port: 0x21, value: 0x7f });
    assert_eq!(clear_interrupt_mask(8, 0xff), PortWrite { port: 0xA1, value: 0xfe });
    assert_eq!(clear_interrupt_mask(12, 0xff), PortWrite { port: 0xA1, value: 0xef });
    assert_eq!(clear_interrupt_mask(15, 0xff), PortWrite { port: 0xA1, value: 0x7f });
}

#[test]
fn clear_mask_keeps_a_clear_bit_and_the_others() {
    assert_eq!(clear_interrupt_mask(1, 0b1011_1000).value, 0b1011_1000);
    assert_eq!(clear_interrupt_mask(3, 0b1011_1000).value, 0b1011_0000);
    assert_eq!(clear_interrupt_mask(9, 0).value, 0);
}

static DEFAULT_RUNS: AtomicUsize = AtomicUsize::new(0);
static KEYBOARD_RUNS: AtomicUsize = AtomicUsize::new(0);
static REPLACED_RUNS: AtomicUsize = AtomicUsize::new(0);
static REPLACEMENT_RUNS: AtomicUsize = AtomicUsize::new(0);

fn count_default() {
    DEFAULT_RUNS.fetch_add(1, Ordering::SeqCst);
}

fn count_keyboard() {
    KEYBOARD_RUNS.fetch_add(1, Ordering::SeqCst);
}

fn count_replaced() {
    REPLACED_RUNS.fetch_add(1, Ordering::SeqCst);
}

fn count_replacement() {
    REPLACEMENT_RUNS.fetch_add(1, Ordering::SeqCst);
}

fn nothing() {}

#[test]
fn registered_handler_runs_and_line_is_acknowledged() {
    let mut handlers = InterruptRequestHandlers::<fn()>::new(count_default);
    let write = set_interrupt_request_handler(&mut handlers, 1, count_keyboard, 0xff);
    assert_eq!(write, PortWrite { port: 0x21, value: 0xfd });

    let vector = interrupt_request_handler(&handlers, 1);
    assert_eq!(vector, 33);
    assert_eq!(KEYBOARD_RUNS.load(Ordering::SeqCst), 1);
    assert_eq!(DEFAULT_RUNS.load(Ordering::SeqCst), 0);

    let vector = interrupt_request_handler(&handlers, 4);
    assert_eq!(vector, 36);
    assert_eq!(KEYBOARD_RUNS.load(Ordering::SeqCst), 1);
    assert_eq!(DEFAULT_RUNS.load(Ordering::SeqCst), 1);
}

#[test]
fn registering_again_replaces_the_handler() {
    let mut handlers = InterruptRequestHandlers::<fn()>::new(nothing);
    set_interrupt_request_handler(&mut handlers, 12, count_replaced, 0xff);
    let write = set_interrupt_request_handler(&mut handlers, 12, count_replacement, 0xef);
    assert_eq!(write, PortWrite { port: 0xA1, value: 0xef });
    assert_eq!(interrupt_request_handler(&handlers, 12), 44);
    assert_eq!(REPLACED_RUNS.load(Ordering::SeqCst), 0);
    assert_eq!(REPLACEMENT_RUNS.load(Ordering::SeqCst), 1);
}

#[test]
fn handler_lookup_returns_the_slot() {
    let mut handlers = InterruptRequestHandlers::<u32>::new(0);
    set_interrupt_request_handler(&mut handlers, 0, 10, 0);
    set_interrupt_request_handler(&mut handlers, 15, 25, 0);
    assert_eq!(handlers.handler(0), 10);
    assert_eq!(handlers.handler(15), 25);
    for irq in 1..15 {
        assert_eq!(handlers.handler(irq), 0);
    }
}

#[test]
fn descriptor_table_layout() {
    let table = init_idt(0);
    for vector in 0..=255u8 {
        let expected = match vector {
            3 => Some(Entry { handler: Handler::Breakpoint, stack_index: None }),
            8 => Some(Entry { handler: Handler::DoubleFault, stack_index: Some(0) }),
            14 => Some(Entry { handler: Handler::PageFault, stack_index: None }),
            32..=47 => {
                Some(Entry { handler: Handler::InterruptRequest(vector - 32), stack_index: None })
            }
            _ => None,
        };
        assert_eq!(table.entry(vector), expected);
    }
}

#[test]
fn double_fault_runs_on_the_given_stack() {
    let table = init_idt(6);
    let entry = table.entry(8).expect("double fault is bound");
    assert_eq!(entry.stack_index, Some(6));
    assert_eq!(table.entry(3).expect("breakpoint is bound").stack_index, None);
}

#[test]
fn hardware_lines_are_bound_at_their_vectors() {
    let table = init_idt(0);
    for irq in 0..16 {
        let entry = table.entry(irq_to_ir(irq)).expect("line is bound");
        assert_eq!(entry.handler, Handler::InterruptRequest(irq));
    }
    assert_eq!(
        table.entry(InterruptIndex::Keyboard.as_u8()).map(|entry| entry.handler),
        Some(Handler::InterruptRequest(1))
    );
}

#[test]
fn breakpoint_resumes_and_faults_halt() {
    assert!(Handler::Breakpoint.resumes());
    assert!(Handler::InterruptRequest(1).resumes());
    assert!(!Handler::DoubleFault.resumes());
    assert!(!Handler::PageFault.resumes());
}
