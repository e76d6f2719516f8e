//! Link records: one hardware address bound to one interface name, and the
//! link file that holds such a record.

use vstd::prelude::*;
use vstd::string::*;
use crate::address::{hwaddr_from_str, spec_format, AddressParseError, HardwareAddress};
use crate::error::{NamingError, RecordError};
use crate::text::{chars_of, ends_with, starts_with};

verus! {

/// The directory in which link files are kept.
pub const NET_SETUP_LINK_CONF_DIR: &'static str = "/etc/systemd/network/";

/// What the name of every link file of this library begins with.
pub const LINK_FILE_PREFIX: &'static str = "70-net-ifnames-prefix-";

/// What the name of every link file ends with.
pub const LINK_FILE_SUFFIX: &'static str = ".link";

/// What is added to the name of a link file while the file is being written.
pub const TEMPORARY_SUFFIX: &'static str = ".tmp";

/// The mark that may stand before the text of a file to show its byte order.
/// It is no part of the text.
pub const BYTE_ORDER_MARK: char = '\u{feff}';

/// A record as contracts see it.
pub struct NamingRecord {
    pub hardware_address: Seq<u8>,
    pub name: Seq<char>,
}

/// One persisted binding of a hardware address to an interface name.
#[derive(Debug, PartialEq, Eq)]
pub struct LinkConfig {
    pub name: String,
    pub hwaddr: HardwareAddress,
}

impl View for LinkConfig {
    type V = NamingRecord;

    open spec fn view(&self) -> NamingRecord {
        NamingRecord { hardware_address: self.hwaddr@, name: self.name@ }
    }
}

impl DeepView for LinkConfig {
    type V = NamingRecord;

    open spec fn deep_view(&self) -> NamingRecord {
        self@
    }
}

/// What a fallible function that makes a record returns, as contracts see it.
pub open spec fn outcome_view(r: Result<LinkConfig, NamingError>) -> Result<NamingRecord, NamingError> {
    match r {
        Ok(config) => Ok(config@),
        Err(e) => Err(e),
    }
}

impl Clone for LinkConfig {
    fn clone(&self) -> (r: Self)
        ensures
            r@ == self@,
    {
        LinkConfig { name: self.name.clone(), hwaddr: self.hwaddr }
    }
}

/// What reading a hardware address returns, as contracts see it.
pub open spec fn address_view(r: Result<HardwareAddress, AddressParseError>) -> Option<Seq<u8>> {
    match r {
        Ok(address) => Some(address@),
        Err(_) => None,
    }
}

/// What a fallible function that makes a hardware address returns, as
/// contracts see it.
pub open spec fn address_outcome(r: Result<HardwareAddress, NamingError>) -> Result<Seq<u8>, NamingError> {
    match r {
        Ok(address) => Ok(address@),
        Err(e) => Err(e),
    }
}

/// `ini::Ini`, a parsed key-value document. Nothing is known of a value of
/// it but what [`ini_entries`] names.
#[verifier::external_type_specification]
#[verifier::external_body]
pub struct ExIni(ini::Ini);

/// `ini::ParseError`, the error of `ini::Ini::load_from_str`. Nothing is known
/// of a value of it.
#[verifier::external_type_specification]
#[verifier::external_body]
pub struct ExIniParseError(ini::ParseError);

/// What a parsed document holds: for each pair of a section name and a key
/// that `ini::Ini::get_from` finds in it, the value it returns.
pub uninterp spec fn ini_entries(document: ini::Ini) -> Map<(Seq<char>, Seq<char>), Seq<char>>;

/// What `ini::Ini::load_from_str` reads from `text`: the entries of the
/// document, or `None` where it reports an error.
pub uninterp spec fn ini_load_from_str(text: Seq<char>) -> Option<Map<(Seq<char>, Seq<char>), Seq<char>>>;

/// Calls `ini::Ini::load_from_str`. The outcome is a function of the text
/// alone, named by [`ini_load_from_str`]; nothing more is claimed of it.
#[verifier::external_body]
fn load_document(text: &str) -> (r: Result<ini::Ini, ini::ParseError>)
    ensures
        ini_load_from_str(text@) == match r {
            Ok(document) => Some(ini_entries(document)),
            Err(_) => None,
        },
{
    ini::Ini::load_from_str(text)
}

/// Calls `ini::Ini::get_from` for a named section: the first value of `key`
/// there, where the section and the key exist.
#[verifier::external_body]
fn get_from(document: &ini::Ini, section: &str, key: &str) -> (r: Option<String>)
    ensures
        r matches Some(value) ==> ini_entries(*document).contains_key((section@, key@))
            && ini_entries(*document)[(section@, key@)] == value@,
        r is None ==> !ini_entries(*document).contains_key((section@, key@)),
{
    document.get_from(Some(section), key).map(String::from)
}

/// The value of `key` in `section`, where the entries hold one.
pub open spec fn spec_lookup(
    entries: Map<(Seq<char>, Seq<char>), Seq<char>>,
    section: Seq<char>,
    key: Seq<char>,
) -> Option<Seq<char>> {
    if entries.contains_key((section, key)) {
        Some(entries[(section, key)])
    } else {
        None
    }
}

/// The record that the two fields of a link file make. `address` is `None`
/// where the file has no address, and holds `None` where it has one that does
/// not read as a hardware address; `name` is `None` where the file has no
/// name. Both fields must be there, and the address must read as one.
pub open spec fn spec_record_from_fields(
    address: Option<Option<Seq<u8>>>,
    name: Option<Seq<char>>,
) -> Result<NamingRecord, NamingError> {
    match (address, name) {
        (None, _) => Err(NamingError::RecordParse(RecordError::MissingAddress)),
        (Some(_), None) => Err(NamingError::RecordParse(RecordError::MissingName)),
        (Some(None), Some(_)) => Err(NamingError::RecordParse(RecordError::BadAddress)),
        (Some(Some(octets)), Some(name)) => Ok(NamingRecord { hardware_address: octets, name }),
    }
}

/// The address field of a link file, read as a hardware address.
pub open spec fn spec_address_field(field: Option<Seq<char>>) -> Option<Option<Seq<u8>>> {
    match field {
        Some(text) => Some(hwaddr_from_str(text)),
        None => None,
    }
}

/// The text of a file without the byte order mark that may stand before it.
pub open spec fn spec_without_byte_order_mark(content: Seq<char>) -> Seq<char> {
    if content.len() > 0 && content[0] == BYTE_ORDER_MARK {
        content.skip(1)
    } else {
        content
    }
}

/// The record that a link file holds, from all that was read from the file:
/// a byte order mark before the text is passed over, and the rest is read as a
/// key-value document.
pub open spec fn spec_from_link_file(content: Seq<char>) -> Result<NamingRecord, NamingError> {
    match ini_load_from_str(spec_without_byte_order_mark(content)) {
        None => Err(NamingError::RecordParse(RecordError::Syntax)),
        Some(entries) => spec_record_from_fields(
            spec_address_field(spec_lookup(entries, "Match"@, "MACAddress"@)),
            spec_lookup(entries, "Link"@, "Name"@),
        ),
    }
}

/// The hardware address of a device from the value of its `address`
/// attribute: there must be one, and it must read as a hardware address.
pub open spec fn spec_hwaddr_from_event_device(address: Option<Seq<char>>) -> Result<Seq<u8>, NamingError> {
    match address {
        None => Err(NamingError::Enumeration),
        Some(text) => match hwaddr_from_str(text) {
            Some(octets) => Ok(octets),
            None => Err(NamingError::Enumeration),
        },
    }
}

/// The text of the link file for a record.
pub open spec fn spec_link_file_content(record: NamingRecord) -> Seq<char> {
    "[Match]\nMACAddress="@ + spec_format(record.hardware_address) + "\n\n[Link]\nName="@
        + record.name + "\n"@
}

/// The name of the link file for an interface name.
pub open spec fn spec_link_file_name(name: Seq<char>) -> Seq<char> {
    LINK_FILE_PREFIX@ + name + LINK_FILE_SUFFIX@
}

/// The name under which the link file for an interface name is written
/// before it takes its own name.
pub open spec fn spec_temporary_file_name(name: Seq<char>) -> Seq<char> {
    spec_link_file_name(name) + TEMPORARY_SUFFIX@
}

/// Whether a file name is that of a link file of this library.
pub open spec fn spec_is_link_file_name(file_name: Seq<char>) -> bool {
    LINK_FILE_PREFIX@.is_prefix_of(file_name) && LINK_FILE_SUFFIX@.is_suffix_of(file_name)
}

impl LinkConfig {
    /// The record of `link_name` for the address that a device reports as
    /// `address`.
    pub fn new(link_name: &str, address: Option<&str>) -> (r: Result<LinkConfig, NamingError>)
        ensures
            outcome_view(r) == match spec_hwaddr_from_event_device(address.deep_view()) {
                Ok(octets) => Ok(NamingRecord { hardware_address: octets, name: link_name@ }),
                Err(e) => Err(e),
            },
    {
        match LinkConfig::hwaddr_from_event_device(address) {
            Ok(hwaddr) => Ok(LinkConfig { name: String::from_str(link_name), hwaddr }),
            Err(e) => Err(e),
        }
    }

    /// The record of `link_name` for `hwaddr`.
    pub fn new_with_hwaddr(link_name: &str, hwaddr: &HardwareAddress) -> (r: Result<LinkConfig, NamingError>)
        ensures
            outcome_view(r) == Ok::<NamingRecord, NamingError>(
                NamingRecord { hardware_address: hwaddr@, name: link_name@ },
            ),
    {
        Ok(LinkConfig { name: String::from_str(link_name), hwaddr: *hwaddr })
    }

    /// The hardware address of the device that caused this run, from the value
    /// of its `address` attribute; `None` where the device has none.
    pub fn hwaddr_from_event_device(address: Option<&str>) -> (r: Result<HardwareAddress, NamingError>)
        ensures
            address_outcome(r) == spec_hwaddr_from_event_device(address.deep_view()),
    {
        match address {
            None => Err(NamingError::Enumeration),
            Some(text) => match HardwareAddress::parse(text) {
                Ok(hwaddr) => Ok(hwaddr),
                Err(_) => Err(NamingError::Enumeration),
            },
        }
    }

    /// Where the attributes of the device that caused this run are found, from
    /// the device path that the event carries.
    pub fn event_device_syspath(devpath: &str) -> (r: String)
        ensures
            r@ == "/sys"@ + devpath@,
    {
        let mut syspath = String::from_str("/sys");
        syspath.append(devpath);
        syspath
    }

    /// The name of the file that holds this record.
    pub fn link_file_name(&self) -> (r: String)
        ensures
            r@ == spec_link_file_name(self.name@),
    {
        let mut file_name = String::from_str(LINK_FILE_PREFIX);
        file_name.append(self.name.as_str());
        file_name.append(LINK_FILE_SUFFIX);
        file_name
    }

    /// The name under which the file is written before it takes its own name.
    /// It is not the name of a link file: a file that was written in part is
    /// never read as a record.
    pub fn temporary_file_name(&self) -> (r: String)
        ensures
            r@ == spec_temporary_file_name(self.name@),
            !spec_is_link_file_name(r@),
    {
        let mut file_name = self.link_file_name();
        file_name.append(TEMPORARY_SUFFIX);
        proof {
            reveal_strlit(".tmp");
            reveal_strlit(".link");
            let n = file_name@.len() as int;
            assert(file_name@[n - 1] == 'p');
            if LINK_FILE_SUFFIX@.is_suffix_of(file_name@) {
                assert(file_name@.subrange(n - 5, n)[4] == 'k');
            }
        }
        file_name
    }

    /// The path of the file that holds this record.
    pub fn link_file_path(&self) -> (r: String)
        ensures
            r@ == NET_SETUP_LINK_CONF_DIR@ + spec_link_file_name(self.name@),
    {
        let mut path = String::from_str(NET_SETUP_LINK_CONF_DIR);
        let file_name = self.link_file_name();
        path.append(file_name.as_str());
        path
    }

    /// The text of the file that holds this record.
    pub fn link_file_content(&self) -> (r: String)
        ensures
            r@ == spec_link_file_content(self@),
    {
        let mut content = String::from_str("[Match]\nMACAddress=");
        let address = self.hwaddr.format();
        content.append(address.as_str());
        content.append("\n\n[Link]\nName=");
        content.append(self.name.as_str());
        content.append("\n");
        content
    }

    /// Whether `file_name` is the name of a link file of this library.
    pub fn is_link_file_name(file_name: &str) -> (r: bool)
        ensures
            r == spec_is_link_file_name(file_name@),
    {
        let name = chars_of(file_name);
        let prefix = chars_of(LINK_FILE_PREFIX);
        let suffix = chars_of(LINK_FILE_SUFFIX);
        starts_with(&name, &prefix) && ends_with(&name, &suffix)
    }

    /// The record made of the two fields of a link file: the address as it
    /// was read, where the file has one, and the name, where the file has
    /// one.
    pub fn from_fields(
        address: Option<Result<HardwareAddress, AddressParseError>>,
        name: Option<String>,
    ) -> (r: Result<LinkConfig, NamingError>)
        ensures
            outcome_view(r) == spec_record_from_fields(
                match address {
                    Some(read) => Some(address_view(read)),
                    None => None,
                },
                name.deep_view(),
            ),
    {
        match address {
            None => Err(NamingError::RecordParse(RecordError::MissingAddress)),
            Some(read) => match name {
                None => Err(NamingError::RecordParse(RecordError::MissingName)),
                Some(name) => match read {
                    Ok(hwaddr) => Ok(LinkConfig { name, hwaddr }),
                    Err(_) => Err(NamingError::RecordParse(RecordError::BadAddress)),
                },
            },
        }
    }

    /// The text of a file without the byte order mark that may stand before
    /// it.
    pub fn without_byte_order_mark(content: &str) -> (r: &str)
        ensures
            r@ == spec_without_byte_order_mark(content@),
    {
        let len = content.unicode_len();
        if len > 0 && content.get_char(0) == BYTE_ORDER_MARK {
            let rest = content.substring_char(1, len);
            assert(rest@ =~= content@.skip(1));
            rest
        } else {
            content
        }
    }

    /// The record that a link file holds, from all that was read from the
    /// file.
    pub fn from_link_file(content: &str) -> (r: Result<LinkConfig, NamingError>)
        ensures
            outcome_view(r) == spec_from_link_file(content@),
    {
        match load_document(LinkConfig::without_byte_order_mark(content)) {
            Err(_) => Err(NamingError::RecordParse(RecordError::Syntax)),
            Ok(document) => {
                let address = match get_from(&document, "Match", "MACAddress") {
                    Some(text) => Some(HardwareAddress::parse(text.as_str())),
                    None => None,
                };
                let name = get_from(&document, "Link", "Name");
                LinkConfig::from_fields(address, name)
            },
        }
    }
}

} // verus!
