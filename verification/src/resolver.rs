//! The resolution of the host identifier: from the identifier file where
//! there is one, else from the address that the hosts table gives for the
//! host name, else from the address of the loopback interface.
use vstd::prelude::*;
use crate::error::HostIdError;
use crate::address::{
    address_identifier, identifier_of_address, lemma_address_identifier, parse_address,
    parse_address_chars,
};
use crate::hex::{
    is_hex_digit, lemma_minimal_hex, lemma_padded_hex, minimal_hex, minimal_hex_of,
    minimal_hex_text,
};
use crate::hosts::{find_host_address, host_address, lemma_last_match_some, lemma_last_match_wins};
use crate::interfaces::{find_interface, interface_address, Interface, LOOPBACK};
use crate::text::{chars_of, contains, first_field, split, text_of, trim, trimmed};

verus! {

/// The file that holds the identifier as four raw bytes.
pub const HOSTIDFILE: &'static str = "/etc/hostid";

/// The hosts table.
pub const HOSTSFILE: &'static str = "/etc/hosts";

/// The first source of the host name.
pub const ETC_HOSTNAME: &'static str = "/etc/hostname";

/// The second source of the host name.
pub const PROC_HOSTNAME: &'static str = "/proc/sys/kernel/hostname";

/// The identifier that the content of the identifier file gives: its first
/// four bytes in reverse order, each written with its minimal digits.
pub open spec fn file_identifier(content: Option<Seq<u8>>) -> Result<Seq<char>, HostIdError> {
    match content {
        None => Err(HostIdError::MissingIdentifierFile),
        Some(bytes) => if bytes.len() < 4 {
            Err(HostIdError::TruncatedIdentifierFile)
        } else {
            Ok(minimal_hex_of(bytes.take(4).reverse()))
        },
    }
}

/// The host name as its sources give it: the content of the first source
/// where there is one, else that of the second.
pub open spec fn located_hostname(
    primary: Option<Seq<char>>,
    secondary: Option<Seq<char>>,
) -> Result<Seq<char>, HostIdError> {
    match primary {
        Some(text) => Ok(text),
        None => match secondary {
            Some(text) => Ok(text),
            None => Err(HostIdError::NoHostnameSource),
        },
    }
}

/// The identifier of the address that `address` writes.
pub open spec fn text_identifier(address: Seq<char>) -> Result<Seq<char>, HostIdError> {
    match parse_address(address) {
        Some(octets) => Ok(address_identifier(octets)),
        None => Err(HostIdError::MalformedAddress),
    }
}

/// The identifier that the loopback interface gives, where `interfaces` is
/// the answer of the system, if it gave one.
pub open spec fn loopback_identifier(interfaces: Option<Seq<Interface>>) -> Result<
    Seq<char>,
    HostIdError,
> {
    match interfaces {
        None => Err(HostIdError::NoLoopbackInterface),
        Some(list) => match interface_address(list, LOOPBACK@) {
            Some(address) => text_identifier(address),
            None => Err(HostIdError::NoLoopbackInterface),
        },
    }
}

/// The address that the hosts table gives for `name`, where there is a table.
pub open spec fn table_address(hosts: Option<Seq<char>>, name: Seq<char>) -> Option<Seq<char>> {
    match hosts {
        Some(table) => host_address(table, name),
        None => None,
    }
}

/// What the resolution reads: the content of each file that is there, and the
/// answer of the system to the interface query, if it gave one.
#[derive(Clone, Debug, PartialEq, Eq)]
pub struct Sources {
    /// The bytes of the identifier file.
    pub identifier: Option<Vec<u8>>,
    /// The text of the first source of the host name.
    pub primary_hostname: Option<String>,
    /// The text of the second source of the host name.
    pub secondary_hostname: Option<String>,
    /// The text of the hosts table.
    pub hosts: Option<String>,
    /// The addresses of the network interfaces.
    pub interfaces: Option<Vec<Interface>>,
}

/// The sources as sequences.
pub struct SourcesView {
    pub identifier: Option<Seq<u8>>,
    pub primary_hostname: Option<Seq<char>>,
    pub secondary_hostname: Option<Seq<char>>,
    pub hosts: Option<Seq<char>>,
    pub interfaces: Option<Seq<Interface>>,
}

impl View for Sources {
    type V = SourcesView;

    open spec fn view(&self) -> SourcesView {
        SourcesView {
            identifier: match self.identifier {
                Some(bytes) => Some(bytes@),
                None => None,
            },
            primary_hostname: match self.primary_hostname {
                Some(text) => Some(text@),
                None => None,
            },
            secondary_hostname: match self.secondary_hostname {
                Some(text) => Some(text@),
                None => None,
            },
            hosts: match self.hosts {
                Some(text) => Some(text@),
                None => None,
            },
            interfaces: match self.interfaces {
                Some(list) => Some(list@),
                None => None,
            },
        }
    }
}

/// The host identifier that the sources give. The identifier file decides
/// where there is one. Else the host name is looked up in the hosts table,
/// and where the table gives no address the loopback interface does.
pub open spec fn host_identifier(s: SourcesView) -> Result<Seq<char>, HostIdError> {
    match file_identifier(s.identifier) {
        Ok(id) => Ok(id),
        Err(HostIdError::MissingIdentifierFile) => match located_hostname(
            s.primary_hostname,
            s.secondary_hostname,
        ) {
            Ok(name) => match table_address(s.hosts, trimmed(name)) {
                Some(address) => text_identifier(address),
                None => loopback_identifier(s.interfaces),
            },
            Err(e) => Err(e),
        },
        Err(e) => Err(e),
    }
}

/// The bytes that an optional slice holds.
pub open spec fn bytes_view(content: Option<&[u8]>) -> Option<Seq<u8>> {
    match content {
        Some(bytes) => Some(bytes@),
        None => None,
    }
}

/// The characters that an optional text holds.
pub open spec fn text_view(content: Option<&str>) -> Option<Seq<char>> {
    match content {
        Some(text) => Some(text@),
        None => None,
    }
}

/// The entries that an optional list of interfaces holds.
pub open spec fn list_view(content: Option<&[Interface]>) -> Option<Seq<Interface>> {
    match content {
        Some(list) => Some(list@),
        None => None,
    }
}

/// Whether `r` holds the text or the error that `expected` names.
pub open spec fn gives(
    r: Result<String, HostIdError>,
    expected: Result<Seq<char>, HostIdError>,
) -> bool {
    match expected {
        Ok(text) => r is Ok && r.unwrap()@ == text,
        Err(e) => r == Err::<String, HostIdError>(e),
    }
}

/// The identifier of a file of exactly four bytes, written out byte by byte.
pub proof fn lemma_file_identifier(bytes: Seq<u8>)
    requires
        bytes.len() == 4,
    ensures
        file_identifier(Some(bytes)) == Ok::<Seq<char>, HostIdError>(
            minimal_hex(bytes[3]) + minimal_hex(bytes[2]) + minimal_hex(bytes[1]) + minimal_hex(
                bytes[0],
            ),
        ),
{
    assert(bytes.take(4) =~= bytes);
    let r = bytes.reverse();
    assert(r[0] == bytes[3] && r[1] == bytes[2] && r[2] == bytes[1] && r[3] == bytes[0]);
    let r3 = r.drop_last();
    let r2 = r3.drop_last();
    let r1 = r2.drop_last();
    let r0 = r1.drop_last();
    assert(minimal_hex_of(r0) =~= Seq::<char>::empty());
    assert(minimal_hex_of(r1) =~= minimal_hex(r[0]));
    assert(minimal_hex_of(r2) =~= minimal_hex(r[0]) + minimal_hex(r[1]));
    assert(minimal_hex_of(r3) =~= minimal_hex(r[0]) + minimal_hex(r[1]) + minimal_hex(r[2]));
    assert(minimal_hex_of(r) =~= minimal_hex(r[0]) + minimal_hex(r[1]) + minimal_hex(r[2])
        + minimal_hex(r[3]));
}

/// Derives the identifier from the content of the identifier file. Only the
/// first four bytes count; with fewer than four there is no identifier.
pub fn identifier_from_file(content: Option<&[u8]>) -> (r: Result<String, HostIdError>)
    ensures
        gives(r, file_identifier(bytes_view(content))),
{
    match content {
        None => Err(HostIdError::MissingIdentifierFile),
        Some(bytes) => {
            if bytes.len() < 4 {
                Err(HostIdError::TruncatedIdentifierFile)
            } else {
                let reversed: [u8; 4] = [bytes[3], bytes[2], bytes[1], bytes[0]];
                assert(reversed@ =~= bytes@.take(4).reverse());
                Ok(minimal_hex_text(reversed.as_slice()))
            }
        },
    }
}

/// Derives the identifier from an address in dotted decimal text.
pub fn identifier_from_address(address: &[char]) -> (r: Result<String, HostIdError>)
    ensures
        gives(r, text_identifier(address@)),
{
    match parse_address_chars(address) {
        Some(octets) => Ok(identifier_of_address(&octets)),
        None => Err(HostIdError::MalformedAddress),
    }
}

/// Derives the identifier from the loopback interface among `interfaces`.
pub fn identifier_from_loopback(interfaces: Option<&[Interface]>) -> (r: Result<
    String,
    HostIdError,
>)
    ensures
        gives(r, loopback_identifier(list_view(interfaces))),
{
    match interfaces {
        None => Err(HostIdError::NoLoopbackInterface),
        Some(list) => match find_interface(list, LOOPBACK) {
            Some(address) => {
                let chars = chars_of(address);
                identifier_from_address(chars.as_slice())
            },
            None => Err(HostIdError::NoLoopbackInterface),
        },
    }
}

/// Locates the host name: the text of the first source where there is one,
/// else that of the second, as it stands.
pub fn gethostname(primary: Option<&str>, secondary: Option<&str>) -> (r: Result<
    String,
    HostIdError,
>)
    ensures
        gives(r, located_hostname(text_view(primary), text_view(secondary))),
{
    match primary {
        Some(text) => Ok(text.to_owned()),
        None => match secondary {
            Some(text) => Ok(text.to_owned()),
            None => Err(HostIdError::NoHostnameSource),
        },
    }
}

/// The text without the white space at its ends.
pub fn trim_text(text: &str) -> (r: String)
    ensures
        r@ == trimmed(text@),
{
    let chars = chars_of(text);
    text_of(trim(chars.as_slice()))
}

/// Looks the host name up in the hosts table, where there is one.
pub fn address_from_table(hosts: Option<&str>, hostname: &str) -> (r: Option<String>)
    ensures
        match table_address(text_view(hosts), hostname@) {
            Some(address) => r is Some && r.unwrap()@ == address,
            None => r is None,
        },
{
    match hosts {
        None => None,
        Some(table) => {
            let table_chars = chars_of(table);
            let name_chars = chars_of(hostname);
            match find_host_address(table_chars.as_slice(), name_chars.as_slice()) {
                Some(address) => Some(text_of(address)),
                None => None,
            }
        },
    }
}

/// Derives the host identifier from the sources: from the identifier file
/// where there is one, else from the address that the hosts table gives for
/// the trimmed host name, else from the address of the loopback interface.
/// Each source is looked at only where the ones before it gave no answer.
pub fn gethostid(sources: &Sources) -> (r: Result<String, HostIdError>)
    ensures
        gives(r, host_identifier(sources@)),
{
    let content: Option<&[u8]> = match &sources.identifier {
        Some(bytes) => Some(bytes.as_slice()),
        None => None,
    };
    match identifier_from_file(content) {
        Ok(id) => Ok(id),
        Err(HostIdError::MissingIdentifierFile) => {
            let primary: Option<&str> = match &sources.primary_hostname {
                Some(text) => Some(text.as_str()),
                None => None,
            };
            let secondary: Option<&str> = match &sources.secondary_hostname {
                Some(text) => Some(text.as_str()),
                None => None,
            };
            let hostname = match gethostname(primary, secondary) {
                Ok(name) => trim_text(name.as_str()),
                Err(e) => { return Err(e); },
            };
            let hosts: Option<&str> = match &sources.hosts {
                Some(text) => Some(text.as_str()),
                None => None,
            };
            match address_from_table(hosts, hostname.as_str()) {
                Some(address) => {
                    let chars = chars_of(address.as_str());
                    identifier_from_address(chars.as_slice())
                },
                None => {
                    let interfaces: Option<&[Interface]> = match &sources.interfaces {
                        Some(list) => Some(list.as_slice()),
                        None => None,
                    };
                    identifier_from_loopback(interfaces)
                },
            }
        },
        Err(e) => Err(e),
    }
}

/// An identifier file of four bytes or more decides alone: the identifier is
/// the minimal digits of its fourth byte, then of the third, the second and
/// the first, whatever the other sources hold.
pub proof fn lemma_identifier_file_decides(s: SourcesView)
    requires
        s.identifier is Some,
        s.identifier.unwrap().len() >= 4,
    ensures
        host_identifier(s) == Ok::<Seq<char>, HostIdError>(
            minimal_hex(s.identifier.unwrap()[3]) + minimal_hex(s.identifier.unwrap()[2])
                + minimal_hex(s.identifier.unwrap()[1]) + minimal_hex(s.identifier.unwrap()[0]),
        ),
{
    let bytes = s.identifier.unwrap();
    let head = bytes.take(4);
    lemma_file_identifier(head);
    assert(head.take(4) =~= head);
}

/// An identifier file of fewer than four bytes gives no identifier: the
/// bytes are neither padded nor is another source tried.
pub proof fn lemma_short_identifier_file_fails(s: SourcesView)
    requires
        s.identifier is Some,
        s.identifier.unwrap().len() < 4,
    ensures
        host_identifier(s) == Err::<Seq<char>, HostIdError>(HostIdError::TruncatedIdentifierFile),
{
}

/// Without an identifier file and without a source of the host name there is
/// no identifier.
pub proof fn lemma_no_hostname_fails(s: SourcesView)
    requires
        s.identifier is None,
        s.primary_hostname is None,
        s.secondary_hostname is None,
    ensures
        host_identifier(s) == Err::<Seq<char>, HostIdError>(HostIdError::NoHostnameSource),
{
}

/// Where there is no hosts table, or no line of it contains the host name,
/// the resolution does not fail on that account: the loopback interface
/// decides.
pub proof fn lemma_unlisted_host_falls_through(s: SourcesView, name: Seq<char>)
    requires
        s.identifier is None,
        located_hostname(s.primary_hostname, s.secondary_hostname) == Ok::<
            Seq<char>,
            HostIdError,
        >(name),
        s.hosts is Some ==> forall|k: int|
            0 <= k < split(s.hosts.unwrap(), '\n').len() ==> !contains(
                #[trigger] split(s.hosts.unwrap(), '\n')[k],
                trimmed(name),
            ),
    ensures
        host_identifier(s) == loopback_identifier(s.interfaces),
{
    if s.hosts is Some {
        lemma_last_match_some(split(s.hosts.unwrap(), '\n'), trimmed(name));
    }
}

/// That the identifier file is missing is never the reason why the
/// resolution fails: the other sources are tried.
pub proof fn lemma_missing_file_is_no_failure(s: SourcesView)
    ensures
        host_identifier(s) != Err::<Seq<char>, HostIdError>(HostIdError::MissingIdentifierFile),
{
}

/// Where several lines of the hosts table contain the host name, the address
/// of the last of them decides.
pub proof fn lemma_last_listed_address_decides(s: SourcesView, name: Seq<char>, j: int)
    requires
        s.identifier is None,
        located_hostname(s.primary_hostname, s.secondary_hostname) == Ok::<
            Seq<char>,
            HostIdError,
        >(name),
        s.hosts is Some,
        0 <= j < split(s.hosts.unwrap(), '\n').len(),
        contains(split(s.hosts.unwrap(), '\n')[j], trimmed(name)),
        forall|k: int|
            j < k < split(s.hosts.unwrap(), '\n').len() ==> !contains(
                #[trigger] split(s.hosts.unwrap(), '\n')[k],
                trimmed(name),
            ),
    ensures
        host_identifier(s) == text_identifier(first_field(split(s.hosts.unwrap(), '\n')[j], '\t')),
{
    lemma_last_match_wins(split(s.hosts.unwrap(), '\n'), trimmed(name), j);
}

/// An identifier is never empty: it is made of four to eight lowercase
/// hexadecimal digits, and of exactly eight where an address gave it.
pub proof fn lemma_identifier_is_well_formed(s: SourcesView)
    requires
        host_identifier(s) is Ok,
    ensures
        4 <= host_identifier(s).unwrap().len() <= 8,
        forall|i: int|
            0 <= i < host_identifier(s).unwrap().len() ==> is_hex_digit(
                #[trigger] host_identifier(s).unwrap()[i],
            ),
        s.identifier is None ==> host_identifier(s).unwrap().len() == 8,
{
    let id = host_identifier(s).unwrap();
    if s.identifier is Some {
        let head = s.identifier.unwrap().take(4);
        lemma_identifier_file_decides(s);
        lemma_minimal_hex(head[0]);
        lemma_minimal_hex(head[1]);
        lemma_minimal_hex(head[2]);
        lemma_minimal_hex(head[3]);
    } else {
        let name = located_hostname(s.primary_hostname, s.secondary_hostname).unwrap();
        let address = match table_address(s.hosts, trimmed(name)) {
            Some(address) => address,
            None => interface_address(s.interfaces.unwrap(), LOOPBACK@).unwrap(),
        };
        let octets = parse_address(address).unwrap();
        assert(id == address_identifier(octets));
        lemma_address_identifier(octets);
        lemma_padded_hex(octets[0]);
        lemma_padded_hex(octets[1]);
        lemma_padded_hex(octets[2]);
        lemma_padded_hex(octets[3]);
    }
}

} // verus!
