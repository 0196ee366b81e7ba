use autocxx_core::reference_wrapper::{AsCppMutRef, AsCppRef, CppLtRef, CppMutLtRef, CppMutRef, CppPin, CppRef};

struct RustThing {
    _a: u32,
}

#[test]
fn cpp_pin() {
    let a = RustThing { _a: 4 };
    let a = CppPin::new(a);
    let _ = a.as_cpp_ref();
    let _ = a.as_cpp_ref();
}

#[test]
fn cpp_ref_keeps_its_address() {
    let r: CppRef<u32> = CppRef::from_ptr(0x1000);
    assert_eq!(r.as_ptr(), 0x1000);
    let m = r.const_cast();
    assert_eq!(m.as_mut_ptr(), 0x1000);
    assert_eq!(m.as_cpp_ref().as_ptr(), 0x1000);
    assert_eq!(CppRef::from(m.clone()).as_ptr(), 0x1000);
}

#[test]
fn null_references_are_allowed() {
    let r: CppRef<u8> = CppRef::from_ptr(0);
    assert_eq!(r.as_ptr(), 0);
    let m: CppMutRef<u8> = CppMutRef::from_ptr(0);
    assert_eq!(m.as_mut_ptr(), 0);
}

#[test]
fn lifetime_casts_keep_the_address() {
    let lt: CppLtRef<'_, u64> = CppLtRef::from_ptr(0x2000);
    assert_eq!(lt.lifetime_cast().as_ptr(), 0x2000);
    assert_eq!((*lt).as_ptr(), 0x2000);
    let mut mlt: CppMutLtRef<'_, u64> = CppMutLtRef::from_ptr(0x3000);
    assert_eq!(mlt.lifetime_cast().as_mut_ptr(), 0x3000);
}

#[test]
fn cpp_pin_hands_out_one_address() {
    let mut pin = CppPin::new(RustThing { _a: 9 });
    let p = pin.as_ptr();
    assert_ne!(p, 0);
    assert_eq!(pin.as_mut_ptr(), p);
    assert_eq!(pin.as_cpp_ref().as_ptr(), p);
    assert_eq!(pin.as_cpp_mut_ref().as_mut_ptr(), p);
    assert_eq!((*pin).as_mut_ptr(), p);
}
