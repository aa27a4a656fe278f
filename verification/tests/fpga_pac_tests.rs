use makerpnp::fpga_pac::common::{compute_block, plan_fifo_read, Reg, FifoRead, RegisterValue, RW, DUMMY_READ_ADDRESS};
use makerpnp::fpga_pac::buzzer::regs::buzzer_ctrl;
use makerpnp::fpga_pac::encoders::regs::{enc_count_a, enc_ctrl, enc_set_count_z};
use makerpnp::fpga_pac::io::regs::{io_ctrl, io_in_1};
use makerpnp::fpga_pac::led::regs::led_ctrl;
use makerpnp::fpga_pac::system1::regs::{ident, version};
use makerpnp::fpga_pac::system2::regs::marker;
use makerpnp::fpga_pac::{BUZZER, ENCODERS, IO, LED, SYSTEM1, SYSTEM2};

#[test]
fn bool_field_set_then_get() {
    let mut r = buzzer_ctrl(0);
    r.set_buzzer(true);
    assert!(r.buzzer());
    assert_eq!(r.0, 1);
    r.set_buzzer(false);
    assert!(!r.buzzer());
    assert_eq!(r.0, 0);
}

#[test]
fn wide_field_is_truncated_and_leaves_other_bits() {
    let mut r = buzzer_ctrl(1);
    r.set_reserved(0xffff_ffff);
    assert_eq!(r.0, 0xffff_ffff);
    assert_eq!(r.reserved(), 0x7fff_ffff);
    assert!(r.buzzer());
    r.set_reserved(0);
    assert_eq!(r.0, 1);
}

#[test]
fn counter_fields() {
    let mut r = enc_count_a(0);
    r.set_value(0x1234);
    r.set_reserved(0xabcd);
    assert_eq!(r.0, 0xabcd_1234);
    assert_eq!(r.value(), 0x1234);
    assert_eq!(r.reserved(), 0xabcd);
    let mut z = enc_set_count_z(0xffff_ffff);
    z.set_value(0);
    assert_eq!(z.0, 0xffff_0000);
}

#[test]
fn reset_and_reserved_fields_are_separate() {
    let mut c = enc_ctrl(0);
    c.set_reset(true);
    assert_eq!(c.reserved(), 0);
    assert!(c.reset());
    c.set_reserved(0x7fff_ffff);
    assert!(c.reset());
    assert_eq!(c.reserved(), 0x7fff_ffff);
    assert_eq!(c.0, 0xffff_ffff);
    c.set_reset(false);
    assert_eq!(c.reserved(), 0x7fff_ffff);
    assert_eq!(c.0, 0xffff_fffe);
}

#[test]
fn io_and_led_fields() {
    let i = io_in_1(0b110);
    assert!(!i.user0());
    assert!(i.user1());
    assert_eq!(i.reserved(), 1);
    let mut l = led_ctrl(0);
    l.set_mcu_led(true);
    assert_eq!(l.0, 0b10);
    l.set_fpga_led(true);
    assert_eq!(l.0, 0b11);
    l.set_mcu_led(false);
    assert_eq!(l.0, 0b01);
    let mut c = io_ctrl(0);
    c.set_reserved(0xdead_beef);
    assert_eq!(c.reserved(), 0xdead_beef);
}

#[test]
fn version_and_ident_fields() {
    let v = version(0x0102_0304);
    assert_eq!(v.major(), 1);
    assert_eq!(v.minor(), 2);
    assert_eq!(v.patch(), 3);
    assert_eq!(v.build(), 4);
    let mut w = version(0);
    w.set_major(9);
    w.set_build(7);
    assert_eq!(w.0, 0x0900_0007);
    let mut id = ident(0);
    id.set_ident(0xface_b00b);
    assert_eq!(id.ident(), 0xface_b00b);
    let mut m = marker(0);
    m.set_marker(5);
    assert_eq!(m.marker(), 5);
}

#[test]
fn default_and_reset_values_are_zero() {
    assert_eq!(led_ctrl::default().0, 0);
    assert_eq!(<version as RegisterValue>::reset().0, 0);
    assert_eq!(<marker as RegisterValue>::reset().bits(), 0);
}

#[test]
fn block_and_register_addresses() {
    assert_eq!(SYSTEM1().as_ptr(), 0x9000_0000);
    assert_eq!(LED().as_ptr(), 0x9000_0040);
    assert_eq!(IO().as_ptr(), 0x9000_0080);
    assert_eq!(BUZZER().as_ptr(), 0x9000_00c0);
    assert_eq!(ENCODERS().as_ptr(), 0x9000_0100);
    assert_eq!(SYSTEM2().as_ptr(), 0x9000_01c0);
    assert_eq!(SYSTEM1().version().as_ptr(), 0x9000_0004);
    assert_eq!(IO().io_in_1().as_ptr(), 0x9000_0084);
    assert_eq!(ENCODERS().enc_set_count_a().as_ptr(), 0x9000_0104);
    assert_eq!(ENCODERS().enc_count_z().as_ptr(), 0x9000_0134);
    assert_eq!(SYSTEM2().marker().as_ptr(), 0x9000_01fc);
    assert_eq!(BUZZER().buzzer_ctrl().as_ptr(), 0x9000_00c0);
    assert_eq!(LED().led_ctrl().as_ptr(), 0x9000_0040);
}

#[test]
fn fifo_blocks_and_read_plans() {
    assert_eq!(compute_block(0x9000_0084), 0x9000_0080);
    assert_eq!(compute_block(0x9000_009f), 0x9000_0080);
    assert_eq!(compute_block(0x9000_00a0), 0x9000_00a0);
    assert_eq!(
        plan_fifo_read(usize::MAX, 0x9000_0084),
        FifoRead { dummy_read_first: false, new_last_block: 0x9000_0080 }
    );
    assert_eq!(
        plan_fifo_read(0x9000_0080, 0x9000_0084),
        FifoRead { dummy_read_first: true, new_last_block: 0x9000_0080 }
    );
    let plan = IO().io_in_1().read_access(0x9000_0080);
    assert!(plan.dummy_read_first);
    assert_eq!(DUMMY_READ_ADDRESS, 0x9000_0200);
}

#[test]
fn write_and_modify_compute_the_store() {
    let reg: Reg<led_ctrl, RW> = LED().led_ctrl();
    let (addr, value) = reg.write(|mut w| {
        w.set_fpga_led(true);
        w
    });
    assert_eq!(addr, 0x9000_0040);
    assert_eq!(value.0, 1);
    let (addr, value) = reg.modify(led_ctrl(0b110), |mut w| {
        w.set_mcu_led(false);
        w
    });
    assert_eq!(addr, 0x9000_0040);
    assert_eq!(value.0, 0b100);
    let set = ENCODERS().enc_set_count_b().write(|mut w| {
        w.set_value(0x22);
        w
    });
    assert_eq!(set.0, 0x9000_0108);
    assert_eq!(set.1 .0, 0x22);
}
