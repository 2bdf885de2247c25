use ferrios::console::{init, Console, ConsoleMode, LINE_STATUS_PORT};
use ferrios::interrupts::{
    init_idt, Handler, IdtEntry, InterruptIndex, KEYBOARD_DATA_PORT, PIC_1_OFFSET, PIC_2_OFFSET,
    SERIAL_DATA_PORT,
};

#[test]
fn check_interrupt_indexes() {
    assert!(InterruptIndex::Timer.as_usize() == 32);
    assert!(InterruptIndex::Keyboard.as_usize() == 33);
}

#[test]
fn serial_interrupt_is_line_four() {
    assert_eq!(InterruptIndex::Serial.as_u8(), 36);
    assert_eq!(InterruptIndex::Serial.as_usize(), 36);
    assert_eq!(InterruptIndex::Timer.as_u8(), 32);
    assert_eq!(InterruptIndex::Keyboard.as_u8(), 33);
}

#[test]
fn controller_offsets() {
    assert_eq!(PIC_1_OFFSET, 32);
    assert_eq!(PIC_2_OFFSET, 40);
    assert_eq!(KEYBOARD_DATA_PORT, 0x60);
    assert_eq!(SERIAL_DATA_PORT, 0x3f8);
    assert_eq!(LINE_STATUS_PORT, 0x3fd);
}

#[test]
fn descriptor_table_layout() {
    assert_eq!(
        init_idt(0),
        vec![
            IdtEntry {
                vector: 3,
                handler: Handler::Breakpoint,
                stack_index: None
            },
            IdtEntry {
                vector: 8,
                handler: Handler::DoubleFault,
                stack_index: Some(0)
            },
            IdtEntry {
                vector: 32,
                handler: Handler::Timer,
                stack_index: None
            },
            IdtEntry {
                vector: 33,
                handler: Handler::Keyboard,
                stack_index: None
            },
            IdtEntry {
                vector: 36,
                handler: Handler::Serial,
                stack_index: None
            },
            IdtEntry {
                vector: 14,
                handler: Handler::PageFault,
                stack_index: None
            },
        ]
    );
    assert_eq!(init_idt(5)[1].stack_index, Some(5));
}

#[test]
fn console_starts_on_both_outputs() {
    let console = Console::new();
    assert_eq!(console.mode(), ConsoleMode::Both);
    assert!(console.writes_serial());
    assert!(console.writes_vga());
    assert_eq!(init().mode(), ConsoleMode::Both);
}

#[test]
fn serial_port_is_detected_by_its_transmitter_bits() {
    assert!(Console::detect_serial(0x60));
    assert!(Console::detect_serial(0x20));
    assert!(Console::detect_serial(0x40));
    assert!(Console::detect_serial(0xff));
    assert!(!Console::detect_serial(0x00));
    assert!(!Console::detect_serial(0x9f));
}

#[test]
fn update_mode_follows_the_line_status() {
    let console = Console::new();
    assert_eq!(console.update_mode(0x60), ConsoleMode::Both);
    assert_eq!(console.update_mode(0x21), ConsoleMode::Both);
    assert_eq!(console.update_mode(0x00), ConsoleMode::Vga);
    assert_eq!(console.update_mode(0x1f), ConsoleMode::Vga);
    // The console itself keeps its mode.
    assert_eq!(console.mode(), ConsoleMode::Both);
}
