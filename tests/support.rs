use rustation::memory::interrupts::{Interrupt, InterruptState};
use rustation::tracer::{Event, Tracer, Value, Variable};

#[test]
fn interrupt_state_starts_clear() {
    let irq = InterruptState::new();
    assert_eq!(irq.status(), 0);
    assert_eq!(irq.mask(), 0);
    assert!(!irq.active());
}

#[test]
fn interrupt_active_needs_status_and_mask() {
    let mut irq = InterruptState::new();
    irq.set_high(Interrupt::VBlank);
    assert_eq!(irq.status(), 1);
    assert!(!irq.active());
    irq.set_mask(0x1);
    assert_eq!(irq.mask(), 1);
    assert!(irq.active());
    irq.set_mask(0x2);
    assert!(!irq.active());
}

#[test]
fn interrupt_ack_clears_zero_bits() {
    let mut irq = InterruptState::new();
    irq.set_high(Interrupt::VBlank);
    irq.set_mask(0xffff);
    irq.ack(0xfffe);
    assert_eq!(irq.status(), 0);
    assert!(!irq.active());
    irq.set_high(Interrupt::VBlank);
    irq.ack(0xffff);
    assert_eq!(irq.status(), 1);
    assert_eq!(Interrupt::VBlank.bit(), 1);
}

#[test]
fn variable_accessors() {
    let v = Variable::new("gpu.status".to_string(), 32);
    assert_eq!(v.name(), "gpu.status");
    assert_eq!(v.size(), 32);
}

#[test]
fn value_conversions_carry_width() {
    assert_eq!(Value::from(true), Value(1, 1));
    assert_eq!(Value::from(false), Value(0, 1));
    assert_eq!(Value::from(0xbeefu16), Value(0xbeef, 16));
}

#[test]
fn inert_tracer_logs_nothing() {
    let mut t = ();
    t.event(10, "x", true);
    t.event(11, "y", 3u16);
    assert!(t.variables().is_empty());
    assert!(t.log().is_empty());
    t.clear();
    let e = Event(1, 2, 3);
    assert_eq!(e, Event(1, 2, 3));
}
