use paintbrush::apic::{
    Access, Apic, DeliveryMode, DestinationShorthand, Error, InterruptCommand, Level, Mode,
    Register, RegisterWrite, TimerDivideConfiguration, writable_registers, DrainStep,
};

fn xapic() -> Apic {
    Apic::new(0xFEE0_0000, 0x100, false, 0x12, 0x34).0
}

fn x2apic() -> Apic {
    Apic::new(0xFEE0_0000, 0, true, 0, 0).0
}

fn init(apic_id: u32) -> InterruptCommand {
    InterruptCommand::default()
        .delivery_mode(DeliveryMode::Init)
        .level(Level::Assert)
        .apic_id(apic_id)
}

#[test]
fn xapic_init_fields() {
    let raw = init(3).raw(&Mode::Apic);
    assert_eq!(raw >> 32, 3 << 24);
    assert_eq!((raw >> 14) & 1, 1);
    assert_eq!((raw >> 8) & 0b111, 0b101);
}

#[test]
fn x2apic_destination_is_whole_id() {
    let raw = init(0x12345).raw(&Mode::X2Apic);
    assert_eq!(raw >> 32, 0x12345);
    assert_eq!((raw >> 8) & 0b111, 0b101);
}

#[test]
fn xapic_init_exact_value() {
    let raw = init(4).raw(&Mode::Apic);
    assert_eq!(raw, (4u64 << 56) | (1u64 << 14) | (0b101u64 << 8));
}

#[test]
fn command_checks() {
    let fixed = InterruptCommand::default();
    assert_eq!(fixed.check(), Err(Error::UnsetVector));
    let incl = InterruptCommand::default()
        .vector(0x40)
        .apic_id(1)
        .destination_shorthand(DestinationShorthand::AllIncludingSelf);
    assert_eq!(incl.check(), Err(Error::ApicIdSetWithIncludingSelf));
    let excl = incl.destination_shorthand(DestinationShorthand::AllExcludingSelf);
    assert_eq!(excl.check(), Err(Error::ApicIdSetWithExcludingSelf));
    assert_eq!(init(1).check(), Ok(()));
    let apic = x2apic();
    let no_target = InterruptCommand::default().vector(0x40);
    assert_eq!(apic.inter_process_interrupt(no_target), Err(Error::IpiWithoutApicId));
    assert_eq!(apic.inter_process_interrupt(excl), Err(Error::ApicIdSetWithExcludingSelf));
}

#[test]
fn apic_new_sets_base_bits() {
    let (apic, base) = Apic::new(0xFEE0_0000, 0x100, true, 1, 2);
    assert_eq!(base, 0xFEE0_0000 | 0x800 | 0x100 | 0x400);
    assert!(apic.is_bsp);
    assert_eq!(apic.mode, Mode::X2Apic);
    assert_eq!(apic.original_state.apic_base, 0x100 | 0x400);
    assert_eq!(apic.original_state.primary_pic_interrupt_mask, 1);
    let (plain, base) = Apic::new(0xFEE0_0000, 0, false, 0, 0);
    assert_eq!(base, 0xFEE0_0800);
    assert!(!plain.is_bsp);
    assert_eq!(plain.mode, Mode::Apic);
}

#[test]
fn register_addressing() {
    let a = xapic();
    let b = x2apic();
    assert_eq!(a.get_register(Register::Id), 0x20);
    assert_eq!(b.get_register(Register::Id), 0x802);
    assert_eq!(a.read(Register::LvtTimer), Access::Mmio(0x320 / 4));
    assert_eq!(b.read(Register::LvtTimer), Access::Msr(0x832));
    assert_eq!(b.current_timer(), Access::Msr(0x839));
    assert_eq!(a.in_service()[7], Access::Mmio(0x170 / 4));
    assert_eq!(b.interrupt_request()[0], Access::Msr(0x820));
    assert_eq!(a.id(0x0300_0000), 3);
    assert_eq!(a.id(0xAB00_0000), 0xAB);
    assert_eq!(b.id(0x12345), 0x12345);
    assert_eq!(b.end_of_interrupt(), RegisterWrite { target: Access::Msr(0x80b), value: 0 });
    assert_eq!(writable_registers()[0], Register::TaskPriority);
    assert_eq!(writable_registers()[10], Register::TimerDivideConfiguration);
}

#[test]
fn command_register_writes() {
    let a = xapic();
    let w = a.write_command_register(init(4));
    assert_eq!(
        w,
        vec![
            RegisterWrite { target: Access::Mmio(0x310 / 4), value: 4 << 24 },
            RegisterWrite { target: Access::Mmio(0x300 / 4), value: (1 << 14) | (0b101 << 8) },
        ]
    );
    let b = x2apic();
    let w = b.init_sipi_sipi_id(7, 0x0008_9000).unwrap();
    assert_eq!(w.len(), 3);
    assert_eq!(w[0].target, Access::Msr(0x830));
    assert_eq!(w[0].value, (7u64 << 32) | (1 << 14) | (0b101 << 8));
    assert_eq!(w[1].value, (7u64 << 32) | (1 << 14) | (0b110 << 8) | 0x89);
    assert_eq!(w[1], w[2]);
    let all = b.init_sipi_sipi_all(0x0008_9000);
    assert_eq!(all.len(), 3);
    assert_eq!(all[0].value, (3 << 18) | (1 << 14) | (0b101 << 8));
    assert_eq!(all[2].value, (3 << 18) | (1 << 14) | (0b110 << 8) | 0x89);
    assert_eq!(b.nmi_id(2)[0].value, (2u64 << 32) | (1 << 14) | (0b100 << 8));
    assert_eq!(b._nmi_all()[0].value, (3 << 18) | (1 << 14) | (0b100 << 8));
    assert_eq!(b.init_all()[0].value, (3 << 18) | (1 << 14) | (0b101 << 8));
}

#[test]
fn timer_programming() {
    let b = x2apic();
    let w = b.enable_timer(0xcd);
    assert_eq!(
        w,
        vec![
            RegisterWrite { target: Access::Msr(0x838), value: 0 },
            RegisterWrite { target: Access::Msr(0x83e), value: 0 },
            RegisterWrite { target: Access::Msr(0x832), value: (1 << 17) | 0xcd },
            RegisterWrite { target: Access::Msr(0x838), value: 10_000_000 },
        ]
    );
    assert_eq!(b.set_timer_divide_config(TimerDivideConfiguration::DivideBy128).value, 0b1010);
    assert_eq!(
        b.enable_spurious_interrupt(0xff),
        RegisterWrite { target: Access::Msr(0x80f), value: 0x1ff }
    );
}

#[test]
fn soft_reboot_writes() {
    let mut b = x2apic();
    b.save_state([1, 2, 3, 4, 5, 6, 7, 8, 9, 10, 11]);
    let w = b.reset();
    assert_eq!(w.len(), 13);
    assert_eq!(w[0], RegisterWrite { target: Access::Msr(0x838), value: 0 });
    assert_eq!(w[1], RegisterWrite { target: Access::Msr(0x808), value: 1 });
    assert_eq!(w[11], RegisterWrite { target: Access::Msr(0x83e), value: 11 });
    assert_eq!(w[12], RegisterWrite { target: Access::Msr(0x80f), value: 0 });
    assert!(b.needs_eoi([0, 0, 0, 0, 0, 0, 0, 1], [0; 8]));
    assert!(b.needs_eoi([0; 8], [4, 0, 0, 0, 0, 0, 0, 0]));
    assert!(!b.needs_eoi([0; 8], [0; 8]));
}

#[test]
fn start_up_and_drain_decisions() {
    let b = x2apic();
    let w = b.start_up();
    assert_eq!(w.len(), 5);
    assert_eq!(w[0], RegisterWrite { target: Access::Msr(0x80f), value: 0x1ff });
    assert_eq!(w[3], RegisterWrite { target: Access::Msr(0x832), value: (1 << 17) | 0xcd });
    assert_eq!(b.drain_step(0, [0; 8], [0; 8]), DrainStep::Done);
    assert_eq!(b.drain_step(3, [1, 0, 0, 0, 0, 0, 0, 0], [0; 8]), DrainStep::Eoi);
    assert_eq!(b.drain_step(100, [0; 8], [0, 2, 0, 0, 0, 0, 0, 0]), DrainStep::GiveUp);
}
