use app_loader::abi::{slot_address, AbiTable, SYS_HELLO, SYS_PRINT, SYS_PUTCHAR, SYS_TERMINATE};
use app_loader::aspace::{activation_for, init_app_page_table, switch_app_aspace, Activation, IsolationMode};
use app_loader::error::LoadError;

#[test]
fn second_registration_wins() {
    let mut t = AbiTable::new();
    assert_eq!(t.register(SYS_PUTCHAR, 0x1000), Ok(()));
    assert_eq!(t.register(SYS_PUTCHAR, 0x2000), Ok(()));
    assert_eq!(t.lookup(SYS_PUTCHAR), Ok(0x2000));
    assert_eq!(t.lookup(SYS_HELLO), Err(LoadError::UnknownService));
}

#[test]
fn out_of_range_services_are_refused() {
    let mut t = AbiTable::new();
    assert_eq!(t.register(0, 0x1000), Err(LoadError::UnknownService));
    assert_eq!(t.register(16, 0x1000), Err(LoadError::UnknownService));
    assert_eq!(t.register(15, 0x1000), Ok(()));
    assert_eq!(t.lookup(0), Err(LoadError::UnknownService));
    assert_eq!(t.lookup(16), Err(LoadError::UnknownService));
    assert_eq!(t.lookup(15), Ok(0x1000));
}

#[test]
fn standard_table_holds_four_services_and_is_sealed() {
    let mut t = AbiTable::with_services(0x10, 0x20, 0x30, 0x40);
    assert_eq!(t.lookup(SYS_HELLO), Ok(0x10));
    assert_eq!(t.lookup(SYS_PUTCHAR), Ok(0x20));
    assert_eq!(t.lookup(SYS_TERMINATE), Ok(0x30));
    assert_eq!(t.lookup(SYS_PRINT), Ok(0x40));
    assert_eq!(t.lookup(5), Err(LoadError::UnknownService));
    assert_eq!(t.register(5, 0x50), Err(LoadError::UnknownService));
    let e = t.entries();
    assert_eq!(e.len(), 16);
    assert_eq!(&e[0..6], &[0, 0x10, 0x20, 0x30, 0x40, 0]);
}

#[test]
fn slot_addresses_are_densely_packed() {
    assert_eq!(slot_address(0x8000, SYS_TERMINATE), Ok(0x8018));
    assert_eq!(slot_address(0x8000, 15), Ok(0x8078));
    assert_eq!(slot_address(0x8000, 0), Err(LoadError::UnknownService));
    assert_eq!(slot_address(0x8000, 16), Err(LoadError::UnknownService));
    assert_eq!(slot_address(usize::MAX - 4, 1), Err(LoadError::UnknownService));
}

#[test]
fn page_table_has_four_gigabyte_blocks() {
    let e = init_app_page_table().entries();
    assert_eq!(e.len(), 512);
    assert_eq!(e[0], 0xef);
    assert_eq!(e[1], 0x2000_00ef);
    assert_eq!(e[2], 0x2000_00ef);
    assert_eq!(e[0x102], 0x2000_00ef);
    let set = e.iter().filter(|&&x| x != 0).count();
    assert_eq!(set, 4);
}

#[test]
fn activation_names_root_page_and_tag() {
    let off = 0xffff_ffc0_0000_0000usize;
    assert_eq!(
        switch_app_aspace(0xffff_ffc0_8020_3000, off, 5),
        Some(Activation { asid: 5, root_ppn: 0x80203 })
    );
    assert_eq!(switch_app_aspace(0x1000, off, 5), None);
    assert_eq!(switch_app_aspace(0xffff_ffc0_8020_3000, off, 0x10000), None);
}

#[test]
fn single_window_mode_never_switches() {
    let off = 0xffff_ffc0_0000_0000usize;
    assert_eq!(activation_for(IsolationMode::SingleWindow, 0xffff_ffc0_8020_3000, off, 1), None);
    assert_eq!(
        activation_for(IsolationMode::PerAppDomain, 0xffff_ffc0_8020_3000, off, 1),
        Some(Activation { asid: 1, root_ppn: 0x80203 })
    );
}
