use just::bytecode::{METHOD_ACC_FINAL, METHOD_ACC_PUBLIC, METHOD_ACC_STATIC};
use just::flags::Flags;

#[test]
fn a_new_set_holds_its_bits() {
    let flags = Flags::new(0x0009u16);
    assert_eq!(flags.flags, 0x0009);
    assert!(flags.is_set(METHOD_ACC_PUBLIC));
    assert!(flags.is_set(METHOD_ACC_STATIC));
    assert!(!flags.is_set(METHOD_ACC_FINAL));
}

#[test]
fn a_mask_of_several_bits_needs_them_all() {
    let flags = Flags::new(0x0001u16);
    assert!(!flags.is_set(0x0003));
    assert!(flags.is_set(0x0000));
}

#[test]
fn set_adds_bits_and_keeps_the_others() {
    let mut flags = Flags::new(0x0001u16);
    flags.set(0x0010);
    assert_eq!(flags.flags, 0x0011);
    assert!(flags.is_set(0x0001));
    assert!(flags.is_set(0x0010));
    flags.set(0x0010);
    assert_eq!(flags.flags, 0x0011);
}

#[test]
fn get_all_flags_keeps_order_and_repeats() {
    let flags = Flags::new(0x0019u16);
    assert_eq!(
        flags.get_all_flags(vec![0x0010, 0x0002, 0x0001, 0x0008, 0x0010, 0x0400]),
        vec![0x0010, 0x0001, 0x0008, 0x0010]
    );
    assert_eq!(flags.get_all_flags(vec![]), Vec::<u16>::new());
    assert_eq!(Flags::new(0u16).get_all_flags(vec![1, 2, 4]), Vec::<u16>::new());
}

#[test]
fn the_default_set_is_empty() {
    let flags: Flags<u16> = Flags::default();
    assert_eq!(flags, Flags::new(0));
}
