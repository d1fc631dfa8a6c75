use theseus::e1000::{dhcp_request_packet, DHCP_REQUEST_LEN};
use theseus::shim::{dependency_name, generate_function_shim, plan_shims, DependencyTarget, ShimDependency};

#[test]
fn dhcp_request_frame() {
    let p = dhcp_request_packet();
    assert_eq!(p.len(), DHCP_REQUEST_LEN);
    assert_eq!(&p[0..6], &[0xff; 6]);
    assert_eq!(&p[12..14], &[0x08, 0x00]);
    assert_eq!(p[23], 0x11);
    assert_eq!(&p[34..38], &[0x00, 0x44, 0x00, 0x43]);
}

#[test]
fn shim_is_template_name_and_nul() {
    assert_eq!(generate_function_shim(&[0x90, 0xc3], "f"), vec![0x90, 0xc3, b'f', 0]);
    assert_eq!(generate_function_shim(&[], ""), vec![0]);
}

#[test]
fn dependency_names_are_demangled() {
    assert_eq!(dependency_name("_ZN4core3fmt5write17h0123456789abcdefE"), "core::fmt::write::h0123456789abcdef");
    assert_eq!(dependency_name("plain_symbol"), "plain_symbol");
}

#[test]
fn each_missing_symbol_gets_one_shim() {
    let deps = [
        ShimDependency::new(true, false, "local"),
        ShimDependency::new(false, false, "a"),
        ShimDependency::new(false, true, "loaded"),
        ShimDependency::new(false, false, "bb"),
        ShimDependency::new(false, false, "a"),
    ];
    let plan = plan_shims(&[0xAA], &deps);
    assert_eq!(
        plan.targets,
        vec![
            DependencyTarget::InCrate,
            DependencyTarget::Shim(0),
            DependencyTarget::Loaded,
            DependencyTarget::Shim(1),
            DependencyTarget::Shim(0),
        ]
    );
    assert_eq!(plan.names, vec![b"a".to_vec(), b"bb".to_vec()]);
    assert_eq!(plan.offsets, vec![0, 3]);
    assert_eq!(plan.text, vec![0xAA, b'a', 0, 0xAA, b'b', b'b', 0]);
}

#[test]
fn no_missing_symbol_means_no_shims() {
    let deps = [ShimDependency::new(true, true, "x"), ShimDependency::new(false, true, "y")];
    let plan = plan_shims(&[1, 2, 3], &deps);
    assert!(plan.names.is_empty());
    assert!(plan.text.is_empty());
    assert_eq!(plan.targets, vec![DependencyTarget::InCrate, DependencyTarget::Loaded]);
}
