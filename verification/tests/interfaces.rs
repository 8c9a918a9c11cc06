use hostid::interfaces::{find_interface, Interface, LOOPBACK};

fn entry(name: &str, v4: bool, address: &str) -> Interface {
    Interface { name: String::from(name), v4, address: String::from(address) }
}

#[test]
fn the_loopback_interface_is_named_lo() {
    assert_eq!(LOOPBACK, "lo");
}

#[test]
fn the_first_ipv4_entry_of_that_name_is_found() {
    let list = [
        entry("eth0", true, "192.168.1.10"),
        entry("lo", true, "127.0.0.1"),
        entry("lo", true, "127.0.0.2"),
    ];
    assert_eq!(find_interface(&list, "lo"), Some("127.0.0.1"));
    assert_eq!(find_interface(&list, "eth0"), Some("192.168.1.10"));
}

#[test]
fn entries_of_the_other_family_are_passed_over() {
    let list = [entry("lo", false, "::1"), entry("lo", true, "127.0.0.1")];
    assert_eq!(find_interface(&list, "lo"), Some("127.0.0.1"));
    let list = [entry("lo", false, "::1"), entry("eth0", true, "10.0.0.2")];
    assert_eq!(find_interface(&list, "lo"), None);
}

#[test]
fn the_name_has_to_be_equal() {
    let list = [entry("lo0", true, "127.0.0.1"), entry("l", true, "127.0.0.3")];
    assert_eq!(find_interface(&list, "lo"), None);
    assert_eq!(find_interface(&[], "lo"), None);
}
