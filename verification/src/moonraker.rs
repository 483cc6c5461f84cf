//! MCU discovery through Moonraker's API.
use vstd::prelude::*;

use crate::by_name;
use crate::by_name::{ByName, Entry};
use crate::text;

verus! {

/// The MCUs that Moonraker reports.
#[derive(Debug, Clone, PartialEq, Eq)]
pub struct McuInventory {
    /// The MCUs, in the order of their names.
    pub mcus: Vec<Mcu>,
}

/// One MCU that Moonraker reports.
#[derive(Debug, Clone, PartialEq, Eq)]
pub struct Mcu {
    /// Moonraker's configured MCU object name.
    pub name: String,
    /// The firmware's own name, if it reports one.
    pub app: Option<String>,
    /// The running firmware's version, if it reports one.
    pub version: Option<String>,
    /// The MCU identifier reported by the running firmware.
    pub mcu: String,
    /// The CAN bus frequency, if the firmware reports one.
    pub canbus_frequency_hz: Option<u64>,
    /// The configured host transport, if Moonraker exposed one for this MCU.
    pub transport: Option<McuTransport>,
    /// The embedded Kconfig; empty where the firmware has none.
    pub kconfig: String,
}

/// An explicitly configured host transport for one MCU.
#[derive(Debug, PartialEq, Eq)]
pub enum McuTransport {
    /// A serial device path from the MCU's `serial` setting.
    Serial {
        /// The configured device path.
        device: String,
    },
    /// A CAN interface and Katapult identity from the MCU's settings.
    Can {
        /// The configured SocketCAN interface.
        interface: String,
        /// The six-byte Katapult CAN UUID.
        uuid: u64,
    },
}

/// A transport by its characters.
pub enum Route {
    Serial { device: Seq<char> },
    Can { interface: Seq<char>, uuid: u64 },
}

impl View for McuTransport {
    type V = Route;

    open spec fn view(&self) -> Route {
        match *self {
            McuTransport::Serial { device } => Route::Serial { device: device@ },
            McuTransport::Can { interface, uuid } => Route::Can { interface: interface@, uuid },
        }
    }
}

impl Clone for McuTransport {
    fn clone(&self) -> (copy: Self)
        ensures
            copy == *self,
    {
        match self {
            McuTransport::Serial { device } => McuTransport::Serial { device: device.clone() },
            McuTransport::Can { interface, uuid } => McuTransport::Can {
                interface: interface.clone(),
                uuid: *uuid,
            },
        }
    }
}

/// A copy of an optional text.
pub fn copy_text(text: &Option<String>) -> (copy: Option<String>)
    ensures
        copy == *text,
{
    match text {
        Some(text) => Some(text.clone()),
        None => None,
    }
}

/// A copy of an optional transport.
pub fn copy_transport(transport: &Option<McuTransport>) -> (copy: Option<McuTransport>)
    ensures
        copy == *transport,
{
    match transport {
        Some(transport) => Some(transport.clone()),
        None => None,
    }
}

/// A failed HTTP request.
#[derive(Clone, Debug, PartialEq, Eq)]
pub enum HttpFailure {
    /// The server answered with an error status.
    StatusCode(u16),
    /// Any other failure, by its wording.
    Other(String),
}

impl HttpFailure {
    /// The wording of this failure.
    pub open spec fn text(self) -> Seq<char> {
        match self {
            HttpFailure::StatusCode(status) => "http status: "@ + text::decimal(status as nat),
            HttpFailure::Other(message) => message@,
        }
    }

    /// The wording of this failure.
    pub fn message(&self) -> (message: String)
        ensures
            message@ == self.text(),
    {
        match self {
            HttpFailure::StatusCode(status) => {
                let mut message: String = "http status: ".to_owned();
                message.append(text::decimal_text(*status as u64).as_str());
                message
            },
            HttpFailure::Other(message) => message.clone(),
        }
    }
}

/// A failed exchange with Moonraker.
#[derive(Clone, Debug, PartialEq, Eq)]
pub enum MoonrakerError {
    /// The request itself failed.
    Http(HttpFailure),
    /// Moonraker answers, but Klipper isn't connected to it.
    KlippyNotConnected,
    /// Klipper is not ready yet; the text is Moonraker's own.
    KlippyStarting(String),
    /// The answer was not the expected JSON.
    Json(String),
    /// The answer was JSON but not a valid description of MCUs.
    InvalidResponse(String),
}

impl MoonrakerError {
    /// The wording of this error.
    pub open spec fn text(self) -> Seq<char> {
        match self {
            MoonrakerError::Http(_) => "Moonraker request failed"@,
            MoonrakerError::KlippyNotConnected =>
            "Moonraker is running but Klipper isn't connected"@,
            MoonrakerError::KlippyStarting(state) => "Klipper is still starting up: "@ + state@,
            MoonrakerError::Json(_) => "Moonraker returned invalid JSON"@,
            MoonrakerError::InvalidResponse(reason) => "Moonraker response is invalid: "@
                + reason@,
        }
    }

    /// The wording of this error and of each of its causes.
    pub open spec fn chain(self) -> Seq<Seq<char>> {
        match self {
            MoonrakerError::Http(failure) => seq![self.text(), failure.text()],
            MoonrakerError::Json(reason) => seq![self.text(), reason@],
            _ => seq![self.text()],
        }
    }

    /// The wording of this error.
    pub fn message(&self) -> (message: String)
        ensures
            message@ == self.text(),
    {
        match self {
            MoonrakerError::Http(_) => "Moonraker request failed".to_owned(),
            MoonrakerError::KlippyNotConnected =>
            "Moonraker is running but Klipper isn't connected".to_owned(),
            MoonrakerError::KlippyStarting(state) => {
                let mut message: String = "Klipper is still starting up: ".to_owned();
                message.append(state.as_str());
                message
            },
            MoonrakerError::Json(_) => "Moonraker returned invalid JSON".to_owned(),
            MoonrakerError::InvalidResponse(reason) => {
                let mut message: String = "Moonraker response is invalid: ".to_owned();
                message.append(reason.as_str());
                message
            },
        }
    }

    /// The wording of this error and of each of its causes.
    pub fn messages(&self) -> (messages: Vec<String>)
        ensures
            text::texts(messages@) == self.chain(),
    {
        let mut messages: Vec<String> = Vec::new();
        messages.push(self.message());
        match self {
            MoonrakerError::Http(failure) => {
                messages.push(failure.message());
            },
            MoonrakerError::Json(reason) => {
                messages.push(reason.clone());
            },
            _ => {},
        }
        assert(text::texts(messages@) =~= self.chain());
        messages
    }
}

/// A source of Klipper MCU inventory from Moonraker.
///
/// Isolates callers that only need to discover MCUs from a concrete HTTP client, so they can be
/// tested against a fake.
pub trait MoonrakerPort: Sized {
    /// Every answer so far, in order.
    /// Nothing is known of it by default: an implementation says what it is.
    open spec fn answers(&self) -> Seq<Result<McuInventory, MoonrakerError>> {
        arbitrary()
    }

    /// Queries Moonraker for the currently configured MCU objects.
    fn discover_mcus(&mut self) -> (answer: Result<McuInventory, MoonrakerError>)
        ensures
            final(self).answers() == old(self).answers().push(answer),
    ;
}

/// What the printer is doing.
#[derive(Clone, Debug, PartialEq, Eq)]
pub enum PrintState {
    /// Nothing has been printed.
    Standby,
    /// A print is running.
    Printing,
    /// A print is paused.
    Paused,
    /// The last print is complete.
    Complete,
    /// The last print was cancelled.
    Cancelled,
    /// The last print failed.
    Error,
    /// A state this updater does not know.
    Unknown(String),
}

impl PrintState {
    /// Whether stopping Klipper interrupts nothing.
    pub open spec fn idle(self) -> bool {
        self is Standby || self is Complete || self is Cancelled || self is Error
    }

    /// Moonraker's word for this state.
    pub open spec fn text(self) -> Seq<char> {
        match self {
            PrintState::Standby => "standby"@,
            PrintState::Printing => "printing"@,
            PrintState::Paused => "paused"@,
            PrintState::Complete => "complete"@,
            PrintState::Cancelled => "cancelled"@,
            PrintState::Error => "error"@,
            PrintState::Unknown(name) => name@,
        }
    }

    /// Whether stopping Klipper interrupts nothing. A state that is not known is not idle.
    pub fn is_idle(&self) -> (idle: bool)
        ensures
            idle == self.idle(),
    {
        match self {
            PrintState::Standby | PrintState::Complete | PrintState::Cancelled
            | PrintState::Error => true,
            PrintState::Printing | PrintState::Paused | PrintState::Unknown(_) => false,
        }
    }

    /// Moonraker's word for this state.
    pub fn label(&self) -> (label: String)
        ensures
            label@ == self.text(),
    {
        match self {
            PrintState::Standby => "standby".to_owned(),
            PrintState::Printing => "printing".to_owned(),
            PrintState::Paused => "paused".to_owned(),
            PrintState::Complete => "complete".to_owned(),
            PrintState::Cancelled => "cancelled".to_owned(),
            PrintState::Error => "error".to_owned(),
            PrintState::Unknown(name) => name.clone(),
        }
    }

    /// Reads Moonraker's word for a state.
    pub fn from_name(name: String) -> (state: Self)
        ensures
            state.text() == name@,
            state is Unknown ==> name@ != "standby"@ && name@ != "printing"@ && name@ != "paused"@
                && name@ != "complete"@ && name@ != "cancelled"@ && name@ != "error"@,
    {
        let word: &str = name.as_str();
        if text::same_text(word, "standby") {
            PrintState::Standby
        } else if text::same_text(word, "printing") {
            PrintState::Printing
        } else if text::same_text(word, "paused") {
            PrintState::Paused
        } else if text::same_text(word, "complete") {
            PrintState::Complete
        } else if text::same_text(word, "cancelled") {
            PrintState::Cancelled
        } else if text::same_text(word, "error") {
            PrintState::Error
        } else {
            PrintState::Unknown(name)
        }
    }
}

/// A source of the printer's current state.
pub trait PrinterStatePort: Sized {
    /// Every answer so far, in order.
    /// Nothing is known of it by default: an implementation says what it is.
    open spec fn answers(&self) -> Seq<Result<PrintState, MoonrakerError>> {
        arbitrary()
    }

    /// Queries what the printer is doing.
    fn print_state(&mut self) -> (answer: Result<PrintState, MoonrakerError>)
        ensures
            final(self).answers() == old(self).answers().push(answer),
    ;
}

/// Where Moonraker's API is.
#[derive(Debug, PartialEq, Eq)]
pub struct MoonrakerUrls {
    base_url: String,
}

/// `url` without trailing slashes.
pub open spec fn without_trailing_slashes(url: Seq<char>) -> Seq<char>
    decreases url.len(),
{
    if url.len() > 0 && url.last() == '/' {
        without_trailing_slashes(url.drop_last())
    } else {
        url
    }
}

impl MoonrakerUrls {
    /// The base URL, without trailing slashes.
    pub closed spec fn base(&self) -> Seq<char> {
        self.base_url@
    }

    /// Takes a base URL with or without trailing slashes.
    pub fn new(url: &str) -> (urls: Self)
        ensures
            urls.base() == without_trailing_slashes(url@),
    {
        let mut end: usize = url.unicode_len();
        assert(url@.subrange(0, end as int) =~= url@);
        while end > 0 && url.get_char(end - 1) == '/'
            invariant
                end <= url@.len(),
                without_trailing_slashes(url@) == without_trailing_slashes(
                    url@.subrange(0, end as int),
                ),
            decreases end,
        {
            assert(url@.subrange(0, end as int).drop_last() =~= url@.subrange(0, end - 1));
            end -= 1;
        }
        MoonrakerUrls { base_url: url.substring_char(0, end).to_owned() }
    }

    /// The URL of one API path.
    pub fn endpoint(&self, path: &str) -> (url: String)
        ensures
            url@ == self.base() + path@,
    {
        let mut url: String = self.base_url.clone();
        url.append(path);
        url
    }
}

/// Maps a transport failure to a `MoonrakerError`, special-casing the status
/// Moonraker returns on its `/printer/*` endpoints when Moonraker itself is
/// reachable but Klippy is not connected.
pub fn map_http_error(failure: HttpFailure) -> (error: MoonrakerError)
    ensures
        error == if failure == HttpFailure::StatusCode(503) {
            MoonrakerError::KlippyNotConnected
        } else {
            MoonrakerError::Http(failure)
        },
{
    match failure {
        HttpFailure::StatusCode(status) => if status == 503 {
            MoonrakerError::KlippyNotConnected
        } else {
            MoonrakerError::Http(HttpFailure::StatusCode(status))
        },
        HttpFailure::Other(message) => MoonrakerError::Http(HttpFailure::Other(message)),
    }
}

/// Rejects a Klippy state other than `ready` before MCU discovery proceeds.
///
/// Moonraker can report the `mcu` object as registered (via
/// `/printer/objects/list`) before Klippy has finished populating that
/// object's `mcu_constants` identify data, which otherwise surfaces as a
/// confusing "does not expose mcu_constants.MCU" parse failure during
/// startup rather than the real cause.
pub fn check_ready(state: &str, state_message: &str) -> (ready: Result<(), MoonrakerError>)
    ensures
        match ready {
            Ok(_) => state@ == "ready"@,
            Err(MoonrakerError::KlippyStarting(message)) => state@ != "ready"@ && message@
                == state_message@,
            Err(_) => false,
        },
{
    if text::same_text(state, "ready") {
        Ok(())
    } else {
        Err(MoonrakerError::KlippyStarting(state_message.to_owned()))
    }
}

/// Whether an object name is that of an MCU.
pub open spec fn names_mcu(name: Seq<char>) -> bool {
    name == "mcu"@ || "mcu "@.is_prefix_of(name)
}

/// The MCU names among the first `count` object names, in order.
pub open spec fn mcu_names(objects: Seq<String>, count: int) -> Seq<Seq<char>>
    decreases count,
{
    if count <= 0 {
        Seq::empty()
    } else {
        let before = mcu_names(objects, count - 1);
        if names_mcu(objects[count - 1]@) {
            before.push(objects[count - 1]@)
        } else {
            before
        }
    }
}

/// The names of the MCU objects among all objects.
pub fn mcu_object_names(objects: &Vec<String>) -> (names: Result<Vec<String>, MoonrakerError>)
    ensures
        match names {
            Ok(names) => names@.len() > 0 && text::texts(names@) == mcu_names(
                objects@,
                objects@.len() as int,
            ),
            Err(MoonrakerError::InvalidResponse(reason)) => mcu_names(
                objects@,
                objects@.len() as int,
            ).len() == 0 && reason@ == "no MCU objects were reported"@,
            Err(_) => false,
        },
{
    let mut names: Vec<String> = Vec::new();
    let mut i: usize = 0;
    assert(text::texts(names@) =~= mcu_names(objects@, 0));
    while i < objects.len()
        invariant
            i <= objects@.len(),
            text::texts(names@) == mcu_names(objects@, i as int),
        decreases objects@.len() - i,
    {
        let name: &String = &objects[i];
        let ghost before = text::texts(names@);
        if text::same_text(name.as_str(), "mcu") || text::starts_with(name.as_str(), "mcu ") {
            names.push(name.clone());
            assert(text::texts(names@) =~= before.push(name@));
        }
        i += 1;
    }
    assert(names@.len() == text::texts(names@).len());
    if names.len() == 0 {
        return Err(
            MoonrakerError::InvalidResponse("no MCU objects were reported".to_owned()),
        );
    }
    Ok(names)
}

/// The connection settings of one configuration section.
#[derive(Clone, Debug, PartialEq, Eq)]
pub struct McuSettings {
    /// The configured serial device.
    pub serial: Option<String>,
    /// The configured CAN UUID, in hexadecimal.
    pub canbus_uuid: Option<String>,
    /// The configured CAN interface.
    pub canbus_interface: Option<String>,
}

/// A constant that the firmware reports, as far as its value matters here.
#[derive(Clone, Debug, PartialEq, Eq)]
pub enum ConstantValue {
    /// A text.
    Text(String),
    /// An unsigned integer.
    Unsigned(u64),
    /// Anything else.
    Other,
}

/// What Moonraker reports of one object.
#[derive(Debug, PartialEq, Eq)]
pub struct ObjectStatus {
    /// The firmware's own name.
    pub app: Option<String>,
    /// The running firmware's version.
    pub mcu_version: Option<String>,
    /// The constants that the firmware reports.
    pub mcu_constants: ByName<ConstantValue>,
    /// The embedded Kconfig.
    pub mcu_kconfig: Option<String>,
    /// The configuration's sections, where the object is the configuration.
    pub settings: Option<ByName<McuSettings>>,
}

/// `s` without all leading occurrences of `0x`.
pub open spec fn without_hex_prefixes(s: Seq<char>) -> Seq<char>
    decreases s.len(),
{
    if s.len() >= 2 && s[0] == '0' && s[1] == 'x' {
        without_hex_prefixes(s.skip(2))
    } else {
        s
    }
}

/// A complaint about one MCU object.
pub open spec fn complaint(name: Seq<char>, fault: Seq<char>) -> Seq<char> {
    "MCU object "@ + text::quoted(name) + fault
}

fn complain(name: &str, fault: &str) -> (error: MoonrakerError)
    ensures
        error is InvalidResponse,
        error->InvalidResponse_0@ == complaint(name@, fault@),
{
    let mut reason: String = "MCU object ".to_owned();
    reason.append(text::quote(name).as_str());
    reason.append(fault);
    MoonrakerError::InvalidResponse(reason)
}

/// The transport that a section configures: CAN where it has a UUID, else its serial device, if
/// any; or what is wrong with it. The interface defaults to `can0`.
pub open spec fn configured_transport(name: Seq<char>, settings: McuSettings) -> Result<
    Option<Route>,
    Seq<char>,
> {
    match settings.canbus_uuid {
        None => Ok(
            match settings.serial {
                Some(device) => Some(Route::Serial { device: device@ }),
                None => None,
            },
        ),
        Some(canbus_uuid) => {
            let interface = match settings.canbus_interface {
                Some(interface) => interface@,
                None => "can0"@,
            };
            match text::parsed_unsigned(
                without_hex_prefixes(canbus_uuid@),
                16,
                u64::MAX as nat,
            ) {
                _ if interface.len() == 0 => Err(
                    complaint(name, " configures an empty canbus_interface"@),
                ),
                None => Err(complaint(name, " configures an invalid canbus_uuid"@)),
                Some(uuid) => if uuid > 0xffff_ffff_ffff {
                    Err(complaint(name, " configures a canbus_uuid larger than six bytes"@))
                } else {
                    Ok(Some(Route::Can { interface, uuid: uuid as u64 }))
                },
            }
        },
    }
}

fn strip_hex_prefixes<'a>(text: &'a str) -> (rest: &'a str)
    ensures
        rest@ == without_hex_prefixes(text@),
{
    let end: usize = text.unicode_len();
    let mut start: usize = 0;
    assert(text@.skip(0) =~= text@);
    while end - start >= 2 && text.get_char(start) == '0' && text.get_char(start + 1) == 'x'
        invariant
            start <= end,
            end == text@.len(),
            without_hex_prefixes(text@) == without_hex_prefixes(text@.skip(start as int)),
        decreases end - start,
    {
        assert(text@.skip(start as int).skip(2) =~= text@.skip(start + 2));
        start += 2;
    }
    let rest: &'a str = text.substring_char(start, end);
    assert(rest@ =~= text@.skip(start as int));
    rest
}

/// Reads the transport that a section configures.
pub fn parse_transport(name: &str, settings: &McuSettings) -> (transport: Result<
    Option<McuTransport>,
    MoonrakerError,
>)
    ensures
        match transport {
            Ok(Some(transport)) => configured_transport(name@, *settings) == Ok::<
                Option<Route>,
                Seq<char>,
            >(Some(transport@)),
            Ok(None) => configured_transport(name@, *settings) == Ok::<Option<Route>, Seq<char>>(
                None,
            ),
            Err(MoonrakerError::InvalidResponse(reason)) => configured_transport(name@, *settings)
                == Err::<Option<Route>, Seq<char>>(reason@),
            Err(_) => false,
        },
{
    let canbus_uuid: &String = match &settings.canbus_uuid {
        Some(canbus_uuid) => canbus_uuid,
        None => {
            return Ok(
                match &settings.serial {
                    Some(device) => Some(McuTransport::Serial { device: device.clone() }),
                    None => None,
                },
            );
        },
    };
    let interface: String = match &settings.canbus_interface {
        Some(interface) => interface.clone(),
        None => "can0".to_owned(),
    };
    if interface.as_str().unicode_len() == 0 {
        return Err(complain(name, " configures an empty canbus_interface"));
    }
    let digits: &str = strip_hex_prefixes(canbus_uuid.as_str());
    let uuid: u64 = match text::parse_unsigned(digits, 16, u64::MAX) {
        Some(uuid) => uuid,
        None => {
            return Err(complain(name, " configures an invalid canbus_uuid"));
        },
    };
    if uuid > 0xffff_ffff_ffff {
        return Err(complain(name, " configures a canbus_uuid larger than six bytes"));
    }
    Ok(Some(McuTransport::Can { interface, uuid }))
}

/// The settings of the first section from index `i` on with the given name, in any case. Klipper
/// lowercases section names, but object names keep the declared case.
pub open spec fn section_from(sections: Seq<Entry<McuSettings>>, name: Seq<char>, i: int) -> Option<
    McuSettings,
>
    decreases sections.len() - i,
{
    if i < 0 || i >= sections.len() {
        None
    } else if text::same_ignoring_case(sections[i].name@, name) {
        Some(sections[i].value)
    } else {
        section_from(sections, name, i + 1)
    }
}

fn find_section<'a>(sections: &'a ByName<McuSettings>, name: &str) -> (settings: Option<
    &'a McuSettings,
>)
    ensures
        match settings {
            Some(settings) => section_from(sections.entries(), name@, 0) == Some(*settings),
            None => section_from(sections.entries(), name@, 0) is None,
        },
{
    let mut i: usize = 0;
    while i < sections.len()
        invariant
            i <= sections.entries().len(),
            section_from(sections.entries(), name@, 0) == section_from(
                sections.entries(),
                name@,
                i as int,
            ),
        decreases sections.entries().len() - i,
    {
        let section: &'a Entry<McuSettings> = sections.at(i);
        if text::eq_ignore_case(section.name.as_str(), name) {
            return Some(&section.value);
        }
        i += 1;
    }
    None
}

/// The configuration's sections, in the order of their names.
pub open spec fn sections_of(statuses: Seq<Entry<ObjectStatus>>) -> Seq<Entry<McuSettings>> {
    match by_name::value_from(statuses, "configfile"@, 0) {
        Some(status) => match status.settings {
            Some(sections) => sections.entries(),
            None => Seq::empty(),
        },
        None => Seq::empty(),
    }
}

/// The transport of one object, by the section that bears its name.
pub open spec fn object_transport(status: Entry<ObjectStatus>, sections: Seq<Entry<McuSettings>>) -> Result<
    Option<Route>,
    Seq<char>,
> {
    match section_from(sections, status.name@, 0) {
        Some(settings) => configured_transport(status.name@, settings),
        None => Ok(None),
    }
}

/// What keeps an object from being read as an MCU.
pub open spec fn object_fault(status: Entry<ObjectStatus>, sections: Seq<Entry<McuSettings>>) -> Option<
    Seq<char>,
> {
    match by_name::value_from(status.value.mcu_constants.entries(), "MCU"@, 0) {
        Some(ConstantValue::Text(_)) => match object_transport(status, sections) {
            Ok(_) => None,
            Err(reason) => Some(reason),
        },
        _ => Some(complaint(status.name@, " does not expose mcu_constants.MCU"@)),
    }
}

/// Whether `mcu` is what an object reports of itself and its section configures.
pub open spec fn describes(
    mcu: Mcu,
    status: Entry<ObjectStatus>,
    sections: Seq<Entry<McuSettings>>,
) -> bool {
    &&& mcu.name == status.name
    &&& mcu.app == status.value.app
    &&& mcu.version == status.value.mcu_version
    &&& by_name::value_from(status.value.mcu_constants.entries(), "MCU"@, 0) == Some(ConstantValue::Text(mcu.mcu))
    &&& mcu.canbus_frequency_hz == match by_name::value_from(
        status.value.mcu_constants.entries(),
        "CANBUS_FREQUENCY"@,
        0,
    ) {
        Some(ConstantValue::Unsigned(frequency)) => Some(frequency),
        _ => None,
    }
    &&& object_transport(status, sections) == Ok::<Option<Route>, Seq<char>>(
        match mcu.transport {
            Some(transport) => Some(transport@),
            None => None,
        },
    )
    &&& mcu.kconfig@ == match status.value.mcu_kconfig {
        Some(kconfig) => kconfig@,
        None => Seq::empty(),
    }
}

/// The fault of the first object that cannot be read, from index `i` on.
pub open spec fn fault_from(
    statuses: Seq<Entry<ObjectStatus>>,
    sections: Seq<Entry<McuSettings>>,
    i: int,
) -> Option<Seq<char>>
    decreases statuses.len() - i,
{
    if i < 0 || i >= statuses.len() {
        None
    } else if statuses[i].name@ != "configfile"@ && object_fault(statuses[i], sections) is Some {
        object_fault(statuses[i], sections)
    } else {
        fault_from(statuses, sections, i + 1)
    }
}

/// The positions of the objects other than the configuration among the first `count`.
pub open spec fn object_positions(statuses: Seq<Entry<ObjectStatus>>, count: int) -> Seq<int>
    decreases count,
{
    if count <= 0 {
        Seq::empty()
    } else {
        let before = object_positions(statuses, count - 1);
        if statuses[count - 1].name@ != "configfile"@ {
            before.push(count - 1)
        } else {
            before
        }
    }
}

fn configured_sections<'a>(statuses: &'a ByName<ObjectStatus>) -> (sections: Option<
    &'a ByName<McuSettings>,
>)
    ensures
        sections_of(statuses.entries()) == match sections {
            Some(sections) => sections.entries(),
            None => Seq::empty(),
        },
{
    match statuses.get("configfile") {
        Some(status) => match &status.settings {
            Some(sections) => Some(sections),
            None => None,
        },
        None => None,
    }
}

fn read_mcu(status: &Entry<ObjectStatus>, sections: Option<&ByName<McuSettings>>) -> (mcu: Result<
    Mcu,
    MoonrakerError,
>)
    ensures
        ({
            let list = match sections {
                Some(sections) => sections.entries(),
                None => Seq::empty(),
            };
            match mcu {
                Ok(mcu) => object_fault(*status, list) is None && describes(mcu, *status, list),
                Err(MoonrakerError::InvalidResponse(reason)) => object_fault(*status, list) == Some(
                    reason@,
                ),
                Err(_) => false,
            }
        }),
{
    let name: &str = status.name.as_str();
    let mcu: String = match status.value.mcu_constants.get("MCU") {
        Some(ConstantValue::Text(mcu)) => mcu.clone(),
        _ => {
            return Err(complain(name, " does not expose mcu_constants.MCU"));
        },
    };
    let section: Option<&McuSettings> = match sections {
        Some(sections) => find_section(sections, name),
        None => None,
    };
    let transport: Option<McuTransport> = match section {
        Some(settings) => match parse_transport(name, settings) {
            Ok(transport) => transport,
            Err(error) => {
                return Err(error);
            },
        },
        None => None,
    };
    let canbus_frequency_hz: Option<u64> = match status.value.mcu_constants.get(
        "CANBUS_FREQUENCY",
    ) {
        Some(ConstantValue::Unsigned(frequency)) => Some(*frequency),
        _ => None,
    };
    let kconfig: String = match &status.value.mcu_kconfig {
        Some(kconfig) => kconfig.clone(),
        None => String::new(),
    };
    assert(status.value.mcu_kconfig is None ==> kconfig@ =~= Seq::<char>::empty());
    Ok(
        Mcu {
            name: status.name.clone(),
            app: copy_text(&status.value.app),
            version: copy_text(&status.value.mcu_version),
            mcu,
            canbus_frequency_hz,
            transport,
            kconfig,
        },
    )
}

/// Whether `inventory` is what Moonraker's objects amount to: every object but the configuration as
/// an MCU, in order, or the fault of the first one that cannot be read, or that there is none.
pub open spec fn reads_inventory(
    statuses: Seq<Entry<ObjectStatus>>,
    inventory: Result<McuInventory, MoonrakerError>,
) -> bool {
    let sections = sections_of(statuses);
    let positions = object_positions(statuses, statuses.len() as int);
    match inventory {
        Ok(inventory) => {
            &&& fault_from(statuses, sections, 0) is None
            &&& positions.len() > 0
            &&& inventory.mcus@.len() == positions.len()
            &&& forall|i: int|
                0 <= i < positions.len() ==> describes(
                    #[trigger] inventory.mcus@[i],
                    statuses[positions[i]],
                    sections,
                )
        },
        Err(MoonrakerError::InvalidResponse(reason)) => match fault_from(statuses, sections, 0) {
            Some(fault) => reason@ == fault,
            None => positions.len() == 0 && reason@ == "query returned no MCU objects"@,
        },
        Err(_) => false,
    }
}

/// Whether the names of `mcus` ascend strictly.
pub open spec fn in_order_of_names(mcus: Seq<Mcu>) -> bool {
    forall|i: int, j: int|
        0 <= i < j < mcus.len() ==> text::precedes(
            (#[trigger] mcus[i]).name@,
            (#[trigger] mcus[j]).name@,
        )
}

proof fn lemma_object_positions(statuses: Seq<Entry<ObjectStatus>>, count: int)
    requires
        0 <= count <= statuses.len(),
    ensures
        forall|i: int|
            0 <= i < object_positions(statuses, count).len() ==> 0 <= #[trigger] object_positions(
                statuses,
                count,
            )[i] < count,
        forall|i: int, j: int|
            0 <= i < j < object_positions(statuses, count).len() ==> (
            #[trigger] object_positions(statuses, count)[i]) < (#[trigger] object_positions(
                statuses,
                count,
            )[j]),
    decreases count,
{
    if count > 0 {
        lemma_object_positions(statuses, count - 1);
        let before = object_positions(statuses, count - 1);
        let after = object_positions(statuses, count);
        assert forall|i: int| 0 <= i < after.len() implies 0 <= #[trigger] after[i] < count by {
            if i < before.len() {
                assert(after[i] == before[i]);
            }
        }
        assert forall|i: int, j: int| 0 <= i < j < after.len() implies (#[trigger] after[i]) < (
        #[trigger] after[j]) by {
            assert(after[i] == before[i]);
            if j < before.len() {
                assert(after[j] == before[j]);
            }
        }
    }
}

/// The MCUs of an inventory stand in the order of their names, each name once, as the objects do
/// that they are read from.
pub proof fn law_inventory_is_in_order_of_names(
    statuses: Seq<Entry<ObjectStatus>>,
    inventory: McuInventory,
)
    requires
        by_name::ascending(statuses),
        reads_inventory(statuses, Ok(inventory)),
    ensures
        in_order_of_names(inventory.mcus@),
{
    lemma_object_positions(statuses, statuses.len() as int);
    let positions = object_positions(statuses, statuses.len() as int);
    let mcus = inventory.mcus@;
    assert forall|i: int, j: int| 0 <= i < j < mcus.len() implies text::precedes(
        (#[trigger] mcus[i]).name@,
        (#[trigger] mcus[j]).name@,
    ) by {
        assert(mcus[i].name == statuses[positions[i]].name);
        assert(mcus[j].name == statuses[positions[j]].name);
        assert(positions[i] < positions[j]);
    }
}

/// Reads the objects that Moonraker reports as an inventory.
///
/// Firmware without a Kconfig to report (e.g. Beacon) is no failure: its Kconfig is empty.
pub fn parse_inventory(statuses: &ByName<ObjectStatus>) -> (inventory: Result<
    McuInventory,
    MoonrakerError,
>)
    ensures
        reads_inventory(statuses.entries(), inventory),
        inventory is Ok ==> in_order_of_names(inventory->Ok_0.mcus@),
{
    let sections: Option<&ByName<McuSettings>> = configured_sections(statuses);
    let ghost objects = statuses.entries();
    let ghost list = sections_of(objects);
    let mut mcus: Vec<Mcu> = Vec::new();
    let mut i: usize = 0;
    while i < statuses.len()
        invariant
            i <= objects.len(),
            objects == statuses.entries(),
            i > 0 ==> by_name::ascending(objects),
            list == sections_of(objects),
            list == match sections {
                Some(sections) => sections.entries(),
                None => Seq::empty(),
            },
            fault_from(objects, list, 0) == fault_from(objects, list, i as int),
            mcus@.len() == object_positions(objects, i as int).len(),
            forall|k: int|
                0 <= k < mcus@.len() ==> describes(
                    #[trigger] mcus@[k],
                    objects[object_positions(objects, i as int)[k]],
                    list,
                ),
        decreases objects.len() - i,
    {
        let status: &Entry<ObjectStatus> = statuses.at(i);
        if !text::same_text(status.name.as_str(), "configfile") {
            match read_mcu(status, sections) {
                Ok(mcu) => {
                    mcus.push(mcu);
                },
                Err(error) => {
                    return Err(error);
                },
            }
        }
        i += 1;
    }
    if mcus.len() == 0 {
        return Err(
            MoonrakerError::InvalidResponse("query returned no MCU objects".to_owned()),
        );
    }
    let inventory: McuInventory = McuInventory { mcus };
    proof {
        law_inventory_is_in_order_of_names(objects, inventory);
    }
    Ok(inventory)
}

/// A configured CAN identity always fits Katapult's six bytes, and its interface has a name.
pub proof fn law_configured_can_route_is_usable(name: Seq<char>, settings: McuSettings)
    requires
        configured_transport(name, settings) is Ok,
        configured_transport(name, settings)->Ok_0 is Some,
        configured_transport(name, settings)->Ok_0->Some_0 is Can,
    ensures
        configured_transport(name, settings)->Ok_0->Some_0->uuid <= 0xffff_ffff_ffff,
        configured_transport(name, settings)->Ok_0->Some_0->interface.len() > 0,
{
}

/// How far a discovery has come; each stage asks for one request.
#[derive(Debug, PartialEq, Eq)]
pub enum DiscoveryRun {
    /// The printer's state is to be asked for.
    Info,
    /// The objects' names are to be asked for.
    List,
    /// These objects and the configuration are to be queried.
    Query {
        /// The names of the MCU objects.
        names: Vec<String>,
    },
    /// Nothing is left to ask.
    Finished(Result<McuInventory, MoonrakerError>),
}

/// The answer to a request.
#[derive(Debug, PartialEq, Eq)]
pub enum DiscoveryEvent {
    /// Klippy's state and Moonraker's description of it.
    Info { state: String, state_message: String },
    /// The names of all objects.
    Objects(Vec<String>),
    /// The queried objects.
    Statuses(ByName<ObjectStatus>),
    /// The request failed.
    Http(HttpFailure),
    /// The answer was not the expected JSON.
    Json(String),
}

/// Whether a discovery goes from `run` to `next` on `event`. MCUs are not asked for before Klippy is
/// ready, and an answer to another request changes nothing.
pub open spec fn discovery_step(
    run: DiscoveryRun,
    event: DiscoveryEvent,
    next: DiscoveryRun,
) -> bool {
    match (run, event) {
        (DiscoveryRun::Finished(_), _) => next == run,
        (_, DiscoveryEvent::Http(failure)) => next == DiscoveryRun::Finished(
            Err(
                if failure == HttpFailure::StatusCode(503) {
                    MoonrakerError::KlippyNotConnected
                } else {
                    MoonrakerError::Http(failure)
                },
            ),
        ),
        (_, DiscoveryEvent::Json(reason)) => next == DiscoveryRun::Finished(
            Err(MoonrakerError::Json(reason)),
        ),
        (DiscoveryRun::Info, DiscoveryEvent::Info { state, state_message }) => if state@
            == "ready"@ {
            next == DiscoveryRun::List
        } else {
            &&& next is Finished
            &&& next->Finished_0 is Err
            &&& next->Finished_0->Err_0 is KlippyStarting
            &&& next->Finished_0->Err_0->KlippyStarting_0@ == state_message@
        },
        (DiscoveryRun::List, DiscoveryEvent::Objects(objects)) => {
            let names = mcu_names(objects@, objects@.len() as int);
            if names.len() > 0 {
                next is Query && text::texts(next->names@) == names
            } else {
                &&& next is Finished
                &&& next->Finished_0 is Err
                &&& next->Finished_0->Err_0 is InvalidResponse
                &&& next->Finished_0->Err_0->InvalidResponse_0@ == "no MCU objects were reported"@
            }
        },
        (DiscoveryRun::Query { .. }, DiscoveryEvent::Statuses(statuses)) => {
            &&& next is Finished
            &&& reads_inventory(statuses.entries(), next->Finished_0)
            &&& next->Finished_0 is Ok ==> in_order_of_names(next->Finished_0->Ok_0.mcus@)
        },
        _ => next == run,
    }
}

impl DiscoveryRun {
    /// Takes the answer to the pending request.
    pub fn step(self, event: DiscoveryEvent) -> (next: Self)
        ensures
            discovery_step(self, event, next),
    {
        match (self, event) {
            (DiscoveryRun::Finished(result), _) => DiscoveryRun::Finished(result),
            (_, DiscoveryEvent::Http(failure)) => DiscoveryRun::Finished(
                Err(map_http_error(failure)),
            ),
            (_, DiscoveryEvent::Json(reason)) => DiscoveryRun::Finished(
                Err(MoonrakerError::Json(reason)),
            ),
            (DiscoveryRun::Info, DiscoveryEvent::Info { state, state_message }) => {
                match check_ready(state.as_str(), state_message.as_str()) {
                    Ok(_) => DiscoveryRun::List,
                    Err(error) => DiscoveryRun::Finished(Err(error)),
                }
            },
            (DiscoveryRun::List, DiscoveryEvent::Objects(objects)) => {
                match mcu_object_names(&objects) {
                    Ok(names) => {
                        assert(names@.len() == text::texts(names@).len());
                        DiscoveryRun::Query { names }
                    },
                    Err(error) => DiscoveryRun::Finished(Err(error)),
                }
            },
            (DiscoveryRun::Query { .. }, DiscoveryEvent::Statuses(statuses)) =>
            DiscoveryRun::Finished(parse_inventory(&statuses)),
            (run, _) => run,
        }
    }
}


proof fn lemma_hexadecimal_has_no_prefix(n: nat)
    ensures
        without_hex_prefixes(text::hexadecimal(n)) == text::hexadecimal(n),
        without_hex_prefixes("0x"@ + text::hexadecimal(n)) == text::hexadecimal(n),
{
    reveal_strlit("0x");
    let digits = text::hexadecimal(n);
    lemma_hexadecimal_is_digits(n);
    assert(digits.len() >= 2 ==> digits[1] != 'x');
    assert(("0x"@ + digits).skip(2) =~= digits);
    reveal_with_fuel(without_hex_prefixes, 2);
}

proof fn lemma_hexadecimal_is_digits(n: nat)
    ensures
        text::hexadecimal(n).len() > 0,
        forall|i: int|
            0 <= i < text::hexadecimal(n).len() ==> #[trigger] text::hexadecimal(n)[i] != 'x',
    decreases n,
{
    if n < 16 {
        text::law_digits_follow_the_alphabet(n);
    } else {
        lemma_hexadecimal_is_digits(n / 16);
        text::law_digits_follow_the_alphabet(n % 16);
        let before = text::hexadecimal(n / 16);
        assert forall|i: int| 0 <= i < text::hexadecimal(n).len() implies #[trigger] text::hexadecimal(
            n,
        )[i] != 'x' by {
            if i < before.len() {
                assert(text::hexadecimal(n)[i] == before[i]);
            }
        }
    }
}

/// A section with a CAN UUID of six bytes, with or without `0x` before it, is reached over CAN: under
/// that UUID, on the interface that the section names, character for character, or on `can0` where
/// it names none, and whatever serial device it names too.
pub proof fn law_can_section_is_reached_on_its_interface(
    name: Seq<char>,
    settings: McuSettings,
    uuid: nat,
)
    requires
        uuid <= 0xffff_ffff_ffff,
        settings.canbus_uuid is Some,
        settings.canbus_uuid->Some_0@ == text::hexadecimal(uuid) || settings.canbus_uuid->Some_0@
            == "0x"@ + text::hexadecimal(uuid),
        settings.canbus_interface is Some ==> settings.canbus_interface->Some_0@.len() > 0,
    ensures
        ({
            let interface = if settings.canbus_interface is Some {
                settings.canbus_interface->Some_0@
            } else {
                "can0"@
            };
            configured_transport(name, settings) == Ok::<Option<Route>, Seq<char>>(
                Some(Route::Can { interface, uuid: uuid as u64 }),
            )
        }),
{
    lemma_hexadecimal_has_no_prefix(uuid);
    text::law_hexadecimal_reads_back(uuid, u64::MAX as nat);
    reveal_strlit("can0");
}

/// A section whose CAN UUID is no hexadecimal number, or has more than six bytes, or whose interface
/// is empty, is refused.
pub proof fn law_unusable_can_section_is_refused(
    name: Seq<char>,
    settings: McuSettings,
    uuid: nat,
    i: int,
)
    requires
        settings.canbus_uuid is Some,
    ensures
        settings.canbus_interface is Some && settings.canbus_interface->Some_0@.len() == 0
            ==> configured_transport(name, settings) is Err,
        settings.canbus_uuid->Some_0@ == text::hexadecimal(uuid) && uuid > 0xffff_ffff_ffff
            ==> configured_transport(name, settings) is Err,
        0 <= i < settings.canbus_uuid->Some_0@.len() && text::digit_value(
            settings.canbus_uuid->Some_0@[i],
            16,
        ) is None && settings.canbus_uuid->Some_0@[i] != 'x' && settings.canbus_uuid->Some_0@[i]
            != '+' ==> configured_transport(
            name,
            settings,
        ) is Err,
{
    let given = settings.canbus_uuid->Some_0@;
    if given == text::hexadecimal(uuid) && uuid > 0xffff_ffff_ffff {
        lemma_hexadecimal_has_no_prefix(uuid);
        text::law_hexadecimal_reads_back(uuid, u64::MAX as nat);
    }
    if 0 <= i < given.len() && text::digit_value(given[i], 16) is None && given[i] != 'x' && given[i]
        != '+' {
        lemma_prefixes_are_zero_and_x(given, i);
    }
}

proof fn lemma_prefixes_are_zero_and_x(s: Seq<char>, i: int)
    requires
        0 <= i < s.len(),
        text::digit_value(s[i], 16) is None,
        s[i] != 'x',
        s[i] != '+',
    ensures
        text::parsed_unsigned(without_hex_prefixes(s), 16, u64::MAX as nat) is None,
    decreases s.len(),
{
    if s.len() >= 2 && s[0] == '0' && s[1] == 'x' {
        assert(text::digit_value('0', 16) is Some);
        assert(s.skip(2)[i - 2] == s[i]);
        lemma_prefixes_are_zero_and_x(s.skip(2), i - 2);
    } else {
        text::law_only_digits_are_a_number(s, 16, u64::MAX as nat, i);
        if i == 0 {
            assert(text::digit_value(s[0], 16) is None);
        }
    }
}

/// A section without a CAN UUID is reached at its serial device, or not at all where it names none.
pub proof fn law_serial_section_is_reached_at_its_device(name: Seq<char>, settings: McuSettings)
    requires
        settings.canbus_uuid is None,
    ensures
        match settings.serial {
            Some(device) => configured_transport(name, settings) == Ok::<Option<Route>, Seq<char>>(
                Some(Route::Serial { device: device@ }),
            ),
            None => configured_transport(name, settings) == Ok::<Option<Route>, Seq<char>>(None),
        },
{
}

/// Moonraker's objects `mcu` and `mcu <name>` are MCUs; an object whose name goes on otherwise, or
/// begins otherwise, is none.
pub proof fn law_mcu_objects_begin_with_mcu(rest: Seq<char>, name: Seq<char>)
    ensures
        names_mcu("mcu"@ + rest) == (rest.len() == 0 || rest[0] == ' '),
        !"mcu"@.is_prefix_of(name) ==> !names_mcu(name),
{
    reveal_strlit("mcu");
    reveal_strlit("mcu ");
    let whole = "mcu"@ + rest;
    if rest.len() == 0 {
        assert(whole =~= "mcu"@);
    } else if rest[0] == ' ' {
        assert(whole.take(4) =~= "mcu "@);
        assert("mcu "@.is_prefix_of(whole));
    } else {
        if "mcu "@.is_prefix_of(whole) {
            assert(whole[3] == "mcu "@[3]);
        }
        assert(whole.len() != 3);
    }
    if names_mcu(name) {
        if name == "mcu"@ {
            assert("mcu"@.is_prefix_of(name));
        } else {
            assert("mcu "@ =~= name.subrange(0, 4));
            assert("mcu"@ =~= name.subrange(0, 3));
            assert("mcu"@.is_prefix_of(name));
        }
    }
}

proof fn lemma_mcu_names(objects: Seq<String>, count: int, name: Seq<char>)
    requires
        0 <= count <= objects.len(),
    ensures
        mcu_names(objects, count).contains(name) == (names_mcu(name) && exists|i: int|
            0 <= i < count && (#[trigger] objects[i])@ == name),
    decreases count,
{
    if count > 0 {
        lemma_mcu_names(objects, count - 1, name);
        let before = mcu_names(objects, count - 1);
        let after = mcu_names(objects, count);
        if before.contains(name) {
            let i = choose|i: int| 0 <= i < before.len() && before[i] == name;
            assert(after[i] == name);
        }
        if names_mcu(name) && objects[count - 1]@ == name {
            assert(after[after.len() - 1] == name);
        }
        if after.contains(name) && !before.contains(name) {
            let i = choose|i: int| 0 <= i < after.len() && after[i] == name;
            if i < before.len() {
                assert(before[i] == name);
            }
        }
    }
}

/// The MCUs that are asked about are exactly the objects whose names say that they are MCUs.
pub proof fn law_every_mcu_object_is_asked_about(objects: Seq<String>, name: Seq<char>)
    ensures
        mcu_names(objects, objects.len() as int).contains(name) == (names_mcu(name) && exists|i: int|
            0 <= i < objects.len() && (#[trigger] objects[i])@ == name),
{
    lemma_mcu_names(objects, objects.len() as int, name);
}

proof fn lemma_section_from(sections: Seq<Entry<McuSettings>>, name: Seq<char>, i: int)
    requires
        0 <= i,
    ensures
        match section_from(sections, name, i) {
            Some(settings) => exists|k: int|
                i <= k < sections.len() && text::same_ignoring_case(
                    (#[trigger] sections[k]).name@,
                    name,
                ) && sections[k].value == settings && forall|l: int|
                    i <= l < k ==> !text::same_ignoring_case((#[trigger] sections[l]).name@, name),
            None => forall|k: int|
                i <= k < sections.len() ==> !text::same_ignoring_case(
                    (#[trigger] sections[k]).name@,
                    name,
                ),
        },
    decreases sections.len() - i,
{
    if i < sections.len() && !text::same_ignoring_case(sections[i].name@, name) {
        lemma_section_from(sections, name, i + 1);
    }
}

/// The section of an MCU is the first that bears its name in any case; an MCU without one is not
/// reached.
pub proof fn law_section_is_found_in_any_case(
    status: Entry<ObjectStatus>,
    sections: Seq<Entry<McuSettings>>,
    at: int,
)
    ensures
        0 <= at < sections.len() && text::same_ignoring_case(sections[at].name@, status.name@) && (
        forall|i: int|
            0 <= i < at ==> !text::same_ignoring_case((#[trigger] sections[i]).name@, status.name@))
            ==> object_transport(status, sections) == configured_transport(
            status.name@,
            sections[at].value,
        ),
        (forall|i: int|
            0 <= i < sections.len() ==> !text::same_ignoring_case(
                (#[trigger] sections[i]).name@,
                status.name@,
            )) ==> object_transport(status, sections) == Ok::<Option<Route>, Seq<char>>(None),
{
    lemma_section_from(sections, status.name@, 0);
    if let Some(settings) = section_from(sections, status.name@, 0) {
        let k = choose|k: int|
            0 <= k < sections.len() && text::same_ignoring_case(
                (#[trigger] sections[k]).name@,
                status.name@,
            ) && sections[k].value == settings && forall|l: int|
                0 <= l < k ==> !text::same_ignoring_case(
                    (#[trigger] sections[l]).name@,
                    status.name@,
                );
        if 0 <= at < k {
            assert(!text::same_ignoring_case(sections[at].name@, status.name@));
        }
        if k < at < sections.len() {
            assert(text::same_ignoring_case(sections[k].name@, status.name@));
        }
    }
}

proof fn lemma_positions_hold_every_object(
    statuses: Seq<Entry<ObjectStatus>>,
    count: int,
    index: int,
)
    requires
        0 <= index < count <= statuses.len(),
    ensures
        object_positions(statuses, count).contains(index) == (statuses[index].name@
            != "configfile"@),
    decreases count,
{
    let before = object_positions(statuses, count - 1);
    let after = object_positions(statuses, count);
    lemma_object_positions(statuses, count - 1);
    if index < count - 1 {
        lemma_positions_hold_every_object(statuses, count - 1, index);
        if before.contains(index) {
            let i = choose|i: int| 0 <= i < before.len() && before[i] == index;
            assert(after[i] == index);
        }
        if after.contains(index) {
            let i = choose|i: int| 0 <= i < after.len() && after[i] == index;
            assert(before[i] == index);
        }
    } else {
        if statuses[index].name@ != "configfile"@ {
            assert(after[after.len() - 1] == index);
        } else if after.contains(index) {
            let i = choose|i: int| 0 <= i < after.len() && after[i] == index;
            assert(before[i] == index);
        }
    }
}

/// Every object but the configuration is in the inventory, under its own name, and reports there
/// what it reports of itself: the firmware's name and version, its model and its Kconfig, which is
/// empty where it has none.
pub proof fn law_inventory_holds_every_object(
    statuses: Seq<Entry<ObjectStatus>>,
    inventory: McuInventory,
    index: int,
)
    requires
        reads_inventory(statuses, Ok(inventory)),
        0 <= index < statuses.len(),
        statuses[index].name@ != "configfile"@,
    ensures
        exists|k: int|
            {
                let mcu = #[trigger] inventory.mcus@[k];
                let status = statuses[index].value;
                &&& 0 <= k < inventory.mcus@.len()
                &&& mcu.name@ == statuses[index].name@
                &&& mcu.app == status.app
                &&& mcu.version == status.mcu_version
                &&& status.mcu_kconfig is Some ==> mcu.kconfig@ == status.mcu_kconfig->Some_0@
                &&& status.mcu_kconfig is None ==> mcu.kconfig@.len() == 0
            },
{
    let count = statuses.len() as int;
    let positions = object_positions(statuses, count);
    lemma_positions_hold_every_object(statuses, count, index);
    let k = choose|k: int| 0 <= k < positions.len() && positions[k] == index;
    assert(describes(inventory.mcus@[k], statuses[positions[k]], sections_of(statuses)));
}

/// Every MCU of an inventory is one of the objects, and none is the configuration; its model and CAN
/// frequency are the constants of these names, and its transport is that of its section.
pub proof fn law_inventory_holds_only_objects(
    statuses: Seq<Entry<ObjectStatus>>,
    inventory: McuInventory,
    k: int,
    constant: int,
)
    requires
        by_name::ascending(statuses),
        reads_inventory(statuses, Ok(inventory)),
        0 <= k < inventory.mcus@.len(),
    ensures
        exists|i: int|
            {
                let status = #[trigger] statuses[i];
                let mcu = inventory.mcus@[k];
                let constants = status.value.mcu_constants.entries();
                let sections = sections_of(statuses);
                &&& 0 <= i < statuses.len()
                &&& status.name@ == mcu.name@
                &&& status.name@ != "configfile"@
                &&& by_name::ascending(constants) && 0 <= constant < constants.len() ==> {
                    &&& constants[constant].name@ == "MCU"@ ==> constants[constant].value
                        == ConstantValue::Text(mcu.mcu)
                    &&& constants[constant].name@ == "CANBUS_FREQUENCY"@ ==> match constants[constant].value {
                        ConstantValue::Unsigned(frequency) => mcu.canbus_frequency_hz == Some(
                            frequency,
                        ),
                        _ => mcu.canbus_frequency_hz is None,
                    }
                }
                &&& object_transport(status, sections) is Ok
                &&& match object_transport(status, sections)->Ok_0 {
                    Some(route) => mcu.transport is Some && mcu.transport->Some_0@ == route,
                    None => mcu.transport is None,
                }
            },
{
    let count = statuses.len() as int;
    let positions = object_positions(statuses, count);
    lemma_object_positions(statuses, count);
    let i = positions[k];
    let status = statuses[i];
    assert(describes(inventory.mcus@[k], status, sections_of(statuses)));
    assert(positions.contains(i));
    lemma_positions_hold_every_object(statuses, count, i);
    let constants = status.value.mcu_constants.entries();
    if by_name::ascending(constants) && 0 <= constant < constants.len() {
        by_name::law_names_are_unique(constants, constant);
    }
}

proof fn lemma_fault_from(
    statuses: Seq<Entry<ObjectStatus>>,
    sections: Seq<Entry<McuSettings>>,
    i: int,
    index: int,
)
    requires
        0 <= i <= index < statuses.len(),
        statuses[index].name@ != "configfile"@,
        object_fault(statuses[index], sections) is Some,
    ensures
        fault_from(statuses, sections, i) is Some,
    decreases index - i,
{
    if i < index {
        lemma_fault_from(statuses, sections, i + 1, index);
    }
}

/// No inventory comes of an object that does not name its model as text, or of no MCU at all.
pub proof fn law_no_inventory_without_models(
    statuses: Seq<Entry<ObjectStatus>>,
    inventory: McuInventory,
    index: int,
)
    requires
        reads_inventory(statuses, Ok(inventory)),
        0 <= index < statuses.len(),
        statuses[index].name@ != "configfile"@,
    ensures
        inventory.mcus@.len() > 0,
        exists|c: int|
            0 <= c < statuses[index].value.mcu_constants.entries().len() && (
            #[trigger] statuses[index].value.mcu_constants.entries()[c]).name@ == "MCU"@
                && statuses[index].value.mcu_constants.entries()[c].value is Text,
{
    let sections = sections_of(statuses);
    if object_fault(statuses[index], sections) is Some {
        lemma_fault_from(statuses, sections, 0, index);
    }
    lemma_value_from(statuses[index].value.mcu_constants.entries(), "MCU"@, 0);
}

proof fn lemma_value_from(entries: Seq<Entry<ConstantValue>>, name: Seq<char>, i: int)
    requires
        0 <= i,
    ensures
        by_name::value_from(entries, name, i) is Some ==> exists|c: int|
            i <= c < entries.len() && (#[trigger] entries[c]).name@ == name && entries[c].value
                == by_name::value_from(entries, name, i)->Some_0,
    decreases entries.len() - i,
{
    if i < entries.len() && entries[i].name@ != name {
        lemma_value_from(entries, name, i + 1);
    }
}

/// A discovery asks for the objects only once Klippy says that it is ready, and a server that answers
/// 503 is one without Klippy.
pub proof fn law_discovery_waits_for_klippy(
    run: DiscoveryRun,
    event: DiscoveryEvent,
    next: DiscoveryRun,
)
    requires
        discovery_step(run, event, next),
        !(run is Finished),
    ensures
        next is List && !(run is List) ==> run is Info && event is Info && event->state@
            == "ready"@,
        next is Query && !(run is Query) ==> run is List && event is Objects,
        next is Finished && next->Finished_0 is Ok ==> run is Query && event is Statuses,
        run is Info && event is Info && event->state@ == "ready"@ ==> next is List,
        event is Http && event->Http_0 == HttpFailure::StatusCode(503) ==> next
            == DiscoveryRun::Finished(Err(MoonrakerError::KlippyNotConnected)),
        event is Http && event->Http_0 != HttpFailure::StatusCode(503) ==> next
            == DiscoveryRun::Finished(Err(MoonrakerError::Http(event->Http_0))),
{
}

/// A printer that prints or is paused is not idle, and neither is one whose state is not known.
pub proof fn law_busy_printer_is_not_idle(state: PrintState)
    ensures
        state.text() == "printing"@ || state.text() == "paused"@ ==> !state.idle(),
        state is Unknown ==> !state.idle(),
        !(state is Unknown) && (state.text() == "standby"@ || state.text() == "complete"@
            || state.text() == "cancelled"@ || state.text() == "error"@) ==> state.idle(),
{
    reveal_strlit("standby");
    reveal_strlit("printing");
    reveal_strlit("paused");
    reveal_strlit("complete");
    reveal_strlit("cancelled");
    reveal_strlit("error");
    assert("printing"@[0] == 'p');
    assert("paused"@[0] == 'p');
    assert("standby"@[0] == 's');
    assert("complete"@[1] == 'o');
    assert("cancelled"@[1] == 'a');
    assert("error"@[0] == 'e');
}

/// However many slashes a URL ends with, the API's paths follow it without any of them.
pub proof fn law_url_loses_its_trailing_slashes(url: Seq<char>, count: nat)
    requires
        url.len() == 0 || url.last() != '/',
    ensures
        without_trailing_slashes(url + Seq::new(count, |i: int| '/')) == url,
    decreases count,
{
    let slashes = Seq::new(count, |i: int| '/');
    if count == 0 {
        assert(url + slashes =~= url);
    } else {
        let fewer = Seq::new((count - 1) as nat, |i: int| '/');
        law_url_loses_its_trailing_slashes(url, (count - 1) as nat);
        assert((url + slashes).drop_last() =~= url + fewer);
        assert((url + slashes).last() == '/');
    }
}

/// Once Klippy is ready, every MCU object that is listed is queried, in the order of the list; a
/// list without any, and an answer that is not understood, ends the discovery with an error. What
/// the queried objects tell is the inventory.
pub proof fn law_listed_mcus_are_queried(run: DiscoveryRun, event: DiscoveryEvent, next: DiscoveryRun)
    requires
        discovery_step(run, event, next),
    ensures
        run is Finished ==> next == run,
        run is List && event is Objects ==> {
            let objects = event->Objects_0@;
            let names = mcu_names(objects, objects.len() as int);
            &&& names.len() > 0 ==> next is Query && text::texts(next->names@) == names
            &&& names.len() == 0 ==> next is Finished && next->Finished_0 is Err
                && next->Finished_0->Err_0 is InvalidResponse
        },
        run is Query && event is Statuses ==> next is Finished && reads_inventory(
            event->Statuses_0.entries(),
            next->Finished_0,
        ) && (next->Finished_0 is Ok ==> in_order_of_names(next->Finished_0->Ok_0.mcus@)),
        run is Info && event is Info && event->state@ != "ready"@ ==> next is Finished
            && next->Finished_0 is Err && next->Finished_0->Err_0 is KlippyStarting
            && next->Finished_0->Err_0->KlippyStarting_0@ == event->state_message@,
        event is Json && !(run is Finished) ==> next == DiscoveryRun::Finished(
            Err(MoonrakerError::Json(event->Json_0)),
        ),
        event is Info && !(run is Info) ==> next == run,
        event is Objects && !(run is List) ==> next == run,
        event is Statuses && !(run is Query) ==> next == run,
{
}

proof fn lemma_only_the_configuration(
    statuses: Seq<Entry<ObjectStatus>>,
    sections: Seq<Entry<McuSettings>>,
    count: int,
    i: int,
)
    requires
        0 <= count <= statuses.len(),
        0 <= i <= statuses.len(),
        forall|k: int| 0 <= k < statuses.len() ==> (#[trigger] statuses[k]).name@ == "configfile"@,
    ensures
        object_positions(statuses, count).len() == 0,
        fault_from(statuses, sections, i) is None,
    decreases count + statuses.len() - i,
{
    if count > 0 {
        assert(statuses[count - 1].name@ == "configfile"@);
        lemma_only_the_configuration(statuses, sections, count - 1, i);
    }
    if i < statuses.len() {
        assert(statuses[i].name@ == "configfile"@);
        lemma_only_the_configuration(statuses, sections, count, i + 1);
    }
}

/// An answer that holds nothing but the configuration gives no inventory, and the refusal says that
/// no MCU was there.
pub proof fn law_no_inventory_without_mcus(
    statuses: Seq<Entry<ObjectStatus>>,
    inventory: Result<McuInventory, MoonrakerError>,
)
    requires
        reads_inventory(statuses, inventory),
        forall|k: int| 0 <= k < statuses.len() ==> (#[trigger] statuses[k]).name@ == "configfile"@,
    ensures
        inventory is Err && inventory->Err_0 is InvalidResponse,
        inventory->Err_0->InvalidResponse_0@ == "query returned no MCU objects"@,
{
    lemma_only_the_configuration(statuses, sections_of(statuses), statuses.len() as int, 0);
}

} // verus!
