//! The network interfaces of the machine, as plain values, and the choice of
//! one of them by name.
use vstd::prelude::*;

verus! {

/// `local_ip_address::Error`, the error of the interface query. It is carried
/// through as it is: nothing is read from it.
#[verifier::external_type_specification]
#[verifier::external_body]
pub struct ExQueryError(local_ip_address::Error);

/// One address of one network interface.
#[derive(Clone, Debug, PartialEq, Eq)]
pub struct Interface {
    /// The name of the interface, such as `lo` or `eth0`.
    pub name: String,
    /// Whether the address is an IPv4 address.
    pub v4: bool,
    /// The address as text.
    pub address: String,
}

/// The name of the loopback interface.
pub const LOOPBACK: &'static str = "lo";

/// The address of the first entry of `list` that is named `name` and holds
/// an IPv4 address.
pub open spec fn interface_address(list: Seq<Interface>, name: Seq<char>) -> Option<Seq<char>>
    decreases list.len(),
{
    if list.len() == 0 {
        None
    } else if list[0].name@ == name && list[0].v4 {
        Some(list[0].address@)
    } else {
        interface_address(list.drop_first(), name)
    }
}

/// Asks the system for the addresses of its network interfaces, by a call of
/// `local_ip_address::list_afinet_netifas`. Each entry is handed on with its
/// name, the family of its address and the address as text. What the system
/// answers is not known beforehand, so nothing is claimed of the result.
#[verifier::external_body]
pub(crate) fn list_interfaces() -> (r: Result<Vec<Interface>, local_ip_address::Error>) {
    let found = local_ip_address::list_afinet_netifas()?;
    Ok(
        found.into_iter().map(
            |(name, ip)| Interface { name, v4: ip.is_ipv4(), address: ip.to_string() },
        ).collect(),
    )
}

/// Picks the address of the first entry of `list` that is named `name` and
/// holds an IPv4 address.
pub fn find_interface<'a>(list: &'a [Interface], name: &str) -> (r: Option<&'a str>)
    ensures
        match interface_address(list@, name@) {
            Some(address) => r is Some && r.unwrap()@ == address,
            None => r is None,
        },
{
    let wanted: String = name.to_owned();
    let mut i: usize = 0;
    assert(list@.skip(0) =~= list@);
    while i < list.len()
        invariant
            i <= list.len(),
            wanted@ == name@,
            interface_address(list@, name@) == interface_address(list@.skip(i as int), name@),
        decreases list.len() - i,
    {
        assert(list@.skip(i as int).drop_first() =~= list@.skip(i + 1));
        assert(list@.skip(i as int)[0] == list@[i as int]);
        if list[i].v4 && list[i].name == wanted {
            return Some(list[i].address.as_str());
        }
        i += 1;
    }
    None
}

} // verus!
