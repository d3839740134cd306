use mmio_bus::mirror::{mirror_address, RAM_MIRRORING_MASK, PPU_REGISTERS_MIRRORING_MASK};

#[test]
fn masks_have_their_values() {
    assert_eq!(RAM_MIRRORING_MASK, 0b0000_0111_1111_1111);
    assert_eq!(PPU_REGISTERS_MIRRORING_MASK, 0b0010_0000_0000_0111);
}

#[test]
fn ram_window_repeats_every_two_kib() {
    assert_eq!(mirror_address(0x0000), 0x0000);
    assert_eq!(mirror_address(0x0001), 0x0001);
    assert_eq!(mirror_address(0x07FF), 0x07FF);
    assert_eq!(mirror_address(0x0800), 0x0000);
    assert_eq!(mirror_address(0x0801), 0x0001);
    assert_eq!(mirror_address(0x1000), 0x0000);
    assert_eq!(mirror_address(0x1234), 0x0234);
    assert_eq!(mirror_address(0x1FFF), 0x07FF);
}

#[test]
fn register_window_repeats_every_eight_bytes() {
    assert_eq!(mirror_address(0x2000), 0x2000);
    assert_eq!(mirror_address(0x2007), 0x2007);
    assert_eq!(mirror_address(0x2008), 0x2000);
    assert_eq!(mirror_address(0x200F), 0x2007);
    assert_eq!(mirror_address(0x3456), 0x2006);
    assert_eq!(mirror_address(0x3FFF), 0x2007);
}

#[test]
fn other_addresses_pass_through() {
    assert_eq!(mirror_address(0x4000), 0x4000);
    assert_eq!(mirror_address(0x4016), 0x4016);
    assert_eq!(mirror_address(0x4017), 0x4017);
    assert_eq!(mirror_address(0x8000), 0x8000);
    assert_eq!(mirror_address(0xFFFF), 0xFFFF);
}

#[test]
fn mirroring_is_idempotent_on_every_address() {
    for a in 0..=u16::MAX {
        let once = mirror_address(a);
        assert_eq!(mirror_address(once), once, "address {:#06x}", a);
    }
}

#[test]
fn mirroring_agrees_with_the_arithmetic_form() {
    for a in 0..=u16::MAX {
        let expected = if a <= 0x1FFF {
            a % 0x0800
        } else if a <= 0x3FFF {
            0x2000 + a % 8
        } else {
            a
        };
        assert_eq!(mirror_address(a), expected, "address {:#06x}", a);
    }
}

#[test]
fn ram_addresses_mirror_like_their_low_bits() {
    for a in 0..=0x1FFFu16 {
        assert_eq!(mirror_address(a), mirror_address(a & 0x07FF));
    }
}

#[test]
fn register_addresses_mirror_like_their_register() {
    for a in 0x2000..=0x3FFFu16 {
        assert_eq!(mirror_address(a), mirror_address(0x2000 | (a & 0x2007)));
    }
}
