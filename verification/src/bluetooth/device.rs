//! Bluetooth devices known to the system.

use super::error::Error;
use super::time::CivilTime;
use super::time::RawTime;
use super::time::Time;
use super::util::trim_nul;
use super::util::u16_slice_to_string;
use super::util::utf16_lossy;
use vstd::prelude::*;

verus! {

/// The classes of Bluetooth device that are told apart. The assigned numbers
/// list hundreds of classes; only the few of interest have a variant, and
/// every other class is `Other`.
#[non_exhaustive]
#[derive(Debug, Clone, Copy, PartialEq, Eq, Structural)]
pub enum DeviceClass {
    Headset,
    Microphone,
    Speaker,
    Headphones,
    Other,
}

/// Class of device of a loudspeaker: audio and rendering services, major class
/// audio/video, minor class loudspeaker.
pub const CLASS_LOUDSPEAKER: u32 = 2_360_340;

/// Class of device of headphones: audio and rendering services, major class
/// audio/video, minor class headphones.
pub const CLASS_HEADPHONES: u32 = 2_360_344;

/// The device class that a class-of-device identifier stands for.
pub open spec fn class_of(identifier: u32) -> DeviceClass {
    if identifier == CLASS_LOUDSPEAKER {
        DeviceClass::Speaker
    } else if identifier == CLASS_HEADPHONES {
        DeviceClass::Headphones
    } else {
        DeviceClass::Other
    }
}

/// Maps a 32-bit class-of-device identifier to its device class.
pub fn from_class_identifier(identifier: u32) -> (class: DeviceClass)
    ensures
        class == class_of(identifier),
{
    if identifier == CLASS_LOUDSPEAKER {
        DeviceClass::Speaker
    } else if identifier == CLASS_HEADPHONES {
        DeviceClass::Headphones
    } else {
        DeviceClass::Other
    }
}

/// The lower-case hexadecimal digit of a value below 16.
pub open spec fn hex_digit(nibble: int) -> char {
    if nibble < 10 {
        ('0' as int + nibble) as char
    } else {
        ('a' as int + nibble - 10) as char
    }
}

/// The sixteen digits are `0` to `9` and then `a` to `f`.
pub proof fn lemma_hex_digits()
    ensures
        forall|nibble: int|
            0 <= nibble < 16 ==> #[trigger] hex_digit(nibble) == "0123456789abcdef"@[nibble],
{
    reveal_strlit("0123456789abcdef");
}

/// The two hexadecimal digits of a byte, the high one first.
pub open spec fn hex_pair(byte: u8) -> Seq<char> {
    seq![hex_digit(byte as int / 16), hex_digit(byte as int % 16)]
}

/// The bytes in hexadecimal, two digits each, with a colon between one byte
/// and the next: `11:22:33:44:55:66`.
pub open spec fn address_text(bytes: Seq<u8>) -> Seq<char>
    decreases bytes.len(),
{
    if bytes.len() == 0 {
        Seq::empty()
    } else if bytes.len() == 1 {
        hex_pair(bytes[0])
    } else {
        address_text(bytes.drop_last()) + seq![':'] + hex_pair(bytes.last())
    }
}

/// The text of an address of `n` bytes has two digits for each byte and a
/// colon for each but the first.
pub proof fn lemma_address_text_len(bytes: Seq<u8>)
    ensures
        address_text(bytes).len() == if bytes.len() == 0 {
            0
        } else {
            3 * bytes.len() - 1
        },
    decreases bytes.len(),
{
    if bytes.len() > 1 {
        lemma_address_text_len(bytes.drop_last());
    }
}

fn hex_digit_char(nibble: u8) -> (c: char)
    requires
        nibble < 16,
    ensures
        c == hex_digit(nibble as int),
{
    if nibble < 10 {
        ('0' as u8 + nibble) as char
    } else {
        ('a' as u8 + (nibble - 10)) as char
    }
}

/// The address of a Bluetooth device: six bytes, the most significant first.
pub struct Address {
    address: Vec<u8>,
}

impl View for Address {
    type V = Seq<u8>;

    closed spec fn view(&self) -> Seq<u8> {
        self.address@
    }
}

impl Address {
    #[verifier::type_invariant]
    spec fn has_six_bytes(self) -> bool {
        self.address@.len() == 6
    }

    /// The address that the operating system gives as `bytes`. It gives the
    /// least significant byte first, so the bytes are reversed.
    pub fn from(bytes: [u8; 6]) -> (address: Address)
        ensures
            address@ == bytes@.reverse(),
    {
        let mut reversed: Vec<u8> = Vec::new();
        let mut i: usize = 6;
        while i > 0
            invariant
                i <= 6,
                reversed@.len() == 6 - i,
                forall|k: int| 0 <= k < reversed@.len() ==> reversed@[k] == bytes@[5 - k],
            decreases i,
        {
            i = i - 1;
            reversed.push(bytes[i]);
        }
        assert(reversed@ =~= bytes@.reverse());
        Address { address: reversed }
    }

    /// The address in the common form `11:22:33:44:55:66`.
    pub fn to_string(&self) -> (text: String)
        ensures
            text@ == address_text(self@),
            self@.len() == 6,
            text@.len() == 17,
    {
        proof {
            use_type_invariant(self);
            lemma_address_text_len(self@);
        }
        let mut text = String::new();
        let mut i: usize = 0;
        assert(self.address@.take(0) =~= Seq::<u8>::empty());
        while i < self.address.len()
            invariant
                i <= self.address.len(),
                text@ == address_text(self.address@.take(i as int)),
            decreases self.address.len() - i,
        {
            let ghost before = self.address@.take(i as int);
            let ghost after = self.address@.take(i + 1);
            let byte: u8 = self.address[i];
            if i > 0 {
                text.push(':');
            }
            text.push(hex_digit_char(byte / 16));
            text.push(hex_digit_char(byte % 16));
            proof {
                assert(after.drop_last() =~= before);
                assert(after.last() == byte);
                assert(text@ =~= address_text(after));
            }
            i = i + 1;
        }
        assert(self.address@.take(i as int) =~= self.address@);
        text
    }
}

/// The record that the operating system keeps of a Bluetooth device.
#[derive(Debug, Clone, Copy)]
pub struct RawDeviceInfo {
    /// The address, the least significant byte first.
    pub address: [u8; 6],
    /// The class-of-device identifier.
    pub class_of_device: u32,
    pub connected: bool,
    pub remembered: bool,
    pub authenticated: bool,
    pub last_seen: RawTime,
    pub last_used: RawTime,
    /// The name in UTF-16, padded with NUL.
    pub name: [u16; 248],
}

/// A Bluetooth device as the contracts see it.
pub ghost struct DeviceView {
    pub class: DeviceClass,
    pub address: Seq<u8>,
    pub connected: bool,
    pub remembered: bool,
    pub authenticated: bool,
    pub name: Seq<char>,
    pub last_seen: CivilTime,
    pub last_connected: CivilTime,
    pub record: RawDeviceInfo,
}

impl RawDeviceInfo {
    /// Whether both points in time of the record exist.
    pub open spec fn valid_times(&self) -> bool {
        self.last_seen.is_valid() && self.last_used.is_valid()
    }

    /// The device that the record describes.
    pub open spec fn device(&self) -> DeviceView {
        DeviceView {
            class: class_of(self.class_of_device),
            address: self.address@.reverse(),
            connected: self.connected,
            remembered: self.remembered,
            authenticated: self.authenticated,
            name: trim_nul(utf16_lossy(self.name@)),
            last_seen: self.last_seen.civil(),
            last_connected: self.last_used.civil(),
            record: *self,
        }
    }

    /// Whether both points in time of the record exist.
    pub fn has_valid_times(&self) -> (valid: bool)
        ensures
            valid == self.valid_times(),
    {
        self.last_seen.to_time().is_some() && self.last_used.to_time().is_some()
    }

    /// The device that the record describes. Both points in time of the
    /// record must exist.
    pub fn to_device(&self) -> (device: Device)
        requires
            self.valid_times(),
        ensures
            device@ == self.device(),
    {
        Device {
            class: from_class_identifier(self.class_of_device),
            address: Address::from(self.address),
            connected: self.connected,
            remembered: self.remembered,
            authenticated: self.authenticated,
            name: u16_slice_to_string(self.name.as_slice()),
            last_seen: self.last_seen.to_time().unwrap(),
            last_connected: self.last_used.to_time().unwrap(),
            device_info: *self,
        }
    }
}

/// A Bluetooth device that the system knows.
pub struct Device {
    pub class: DeviceClass,
    pub address: Address,
    pub connected: bool,
    pub remembered: bool,
    pub authenticated: bool,
    pub name: String,
    pub last_seen: Time,
    pub last_connected: Time,
    /// The record of the operating system that the device was made from,
    /// for later calls to the operating system.
    pub device_info: RawDeviceInfo,
}

/// Whether a service of a device is to be switched on or off.
#[derive(Debug, Clone, Copy, PartialEq, Eq, Structural)]
pub enum Mode {
    Enable,
    Disable,
}

impl View for Device {
    type V = DeviceView;

    open spec fn view(&self) -> DeviceView {
        DeviceView {
            class: self.class,
            address: self.address@,
            connected: self.connected,
            remembered: self.remembered,
            authenticated: self.authenticated,
            name: self.name@,
            last_seen: self.last_seen@,
            last_connected: self.last_connected@,
            record: self.device_info,
        }
    }
}

impl Device {
    /// Switches a service of the device, named by its GUID, on or off.
    /// Nothing is switched yet: the call has no effect.
    #[allow(unused_variables)]
    pub fn set_service_state(&self, service_guid: &str, mode: Mode) {
    }
}

/// The devices of a sequence as the contracts see them.
pub open spec fn device_views(devices: Seq<Device>) -> Seq<DeviceView> {
    devices.map_values(|device: Device| device@)
}

/// The devices that a sequence of records describes, in the same order.
pub open spec fn devices_of(records: Seq<RawDeviceInfo>) -> Seq<DeviceView> {
    records.map_values(|record: RawDeviceInfo| record.device())
}

/// Which devices a search asks the operating system for, and how long it may
/// look for them.
#[derive(Debug, Clone, Copy, PartialEq, Eq, Structural)]
pub struct SearchParams {
    /// Devices that are paired.
    pub return_authenticated: bool,
    /// Devices that the system remembers.
    pub return_remembered: bool,
    /// Devices that the system has not met before.
    pub return_unknown: bool,
    /// Devices that are connected now.
    pub return_connected: bool,
    /// Whether to look for devices in range anew.
    pub issue_inquiry: bool,
    /// The time that the inquiry may take, in units of 1.28 seconds.
    pub timeout_multiplier: u8,
}

/// What the operating system answered when it was asked for the first or
/// for the next device of a search.
pub enum SearchEvent {
    /// It filled in the record of a device.
    Found(RawDeviceInfo),
    /// It has no device, or no further device.
    NotFound,
}

/// What is to be done next in a search for devices.
pub enum SearchStep {
    /// Ask the operating system for the next device, and hand its answer to
    /// the search.
    FindNext(DeviceSearch),
    /// Close the cursor of the search. These are the devices found.
    Close(Vec<Device>),
    /// The search has failed, and it holds no cursor to close.
    Fail(Error),
}

/// A search for the devices that the system knows, between two answers of
/// the operating system. The search begins by asking for the first device;
/// that opens its cursor if there is one.
pub struct DeviceSearch {
    devices: Vec<Device>,
}

impl View for DeviceSearch {
    type V = Seq<DeviceView>;

    /// The devices found so far, in the order in which they were found.
    closed spec fn view(&self) -> Seq<DeviceView> {
        device_views(self.devices@)
    }
}

impl DeviceSearch {
    /// A search that has found nothing yet.
    pub fn new() -> (search: DeviceSearch)
        ensures
            search@ == Seq::<DeviceView>::empty(),
    {
        let search = DeviceSearch { devices: Vec::new() };
        assert(search@ =~= Seq::<DeviceView>::empty());
        search
    }

    /// What a search asks for: every kind of device, after a new inquiry of
    /// the shortest duration.
    pub fn params() -> (params: SearchParams)
        ensures
            params == (SearchParams {
                return_authenticated: true,
                return_remembered: true,
                return_unknown: true,
                return_connected: true,
                issue_inquiry: true,
                timeout_multiplier: 1,
            }),
    {
        SearchParams {
            return_authenticated: true,
            return_remembered: true,
            return_unknown: true,
            return_connected: true,
            issue_inquiry: true,
            timeout_multiplier: 1,
        }
    }

    /// Whether the cursor of the search is open: it is from the first device
    /// found until the search is over.
    pub open spec fn cursor_open(&self) -> bool {
        self@.len() > 0
    }

    /// Keeps the device that a record describes.
    fn keep(self, record: &RawDeviceInfo) -> (next: DeviceSearch)
        requires
            record.valid_times(),
        ensures
            next@ == self@.push(record.device()),
    {
        let mut devices = self.devices;
        let ghost before = devices@;
        devices.push(record.to_device());
        assert(device_views(devices@) =~= device_views(before).push(record.device()));
        DeviceSearch { devices }
    }

    /// Ends the search: the devices found, or `NoDevicesFound` where there
    /// were none.
    fn finish(self) -> (result: Result<Vec<Device>, Error>)
        ensures
            match result {
                Ok(devices) => self.cursor_open() && device_views(devices@) == self@,
                Err(error) => !self.cursor_open() && error == Error::NoDevicesFound,
            },
    {
        if self.devices.len() == 0 {
            Err(Error::NoDevicesFound)
        } else {
            Ok(self.devices)
        }
    }

    /// Takes an answer of the operating system and says what to do next. A
    /// device found is kept, and the next one is asked for. When there is
    /// no further device the cursor is to be closed and the devices are
    /// handed out; when there was none at all the search fails with
    /// `NoDevicesFound`, and there is no cursor to close. Both points in time
    /// of a record found must exist.
    pub fn step(self, event: SearchEvent) -> (step: SearchStep)
        requires
            event matches SearchEvent::Found(record) ==> record.valid_times(),
        ensures
            match event {
                SearchEvent::Found(record) => step matches SearchStep::FindNext(next) && next@
                    == self@.push(record.device()),
                SearchEvent::NotFound => if self.cursor_open() {
                    step matches SearchStep::Close(devices) && device_views(devices@) == self@
                } else {
                    step == SearchStep::Fail(Error::NoDevicesFound)
                },
            },
    {
        match event {
            SearchEvent::Found(record) => SearchStep::FindNext(self.keep(&record)),
            SearchEvent::NotFound => match self.finish() {
                Ok(devices) => SearchStep::Close(devices),
                Err(error) => SearchStep::Fail(error),
            },
        }
    }
}

/// The devices that a search has found, from the records that the operating
/// system filled in, in the order in which it gave them. Without any record
/// the search fails with `NoDevicesFound`. Both points in time of every
/// record must exist.
pub fn get_bluetooth_devices(records: &[RawDeviceInfo]) -> (result: Result<Vec<Device>, Error>)
    requires
        forall|i: int| 0 <= i < records@.len() ==> (#[trigger] records@[i]).valid_times(),
    ensures
        match result {
            Ok(devices) => records@.len() > 0 && device_views(devices@) == devices_of(records@),
            Err(error) => records@.len() == 0 && error == Error::NoDevicesFound,
        },
{
    let mut search = DeviceSearch::new();
    let mut i: usize = 0;
    while i < records.len()
        invariant
            i <= records.len(),
            search@ == devices_of(records@.take(i as int)),
            forall|k: int| 0 <= k < records@.len() ==> (#[trigger] records@[k]).valid_times(),
        decreases records.len() - i,
    {
        let ghost found = search@;
        search = search.keep(&records[i]);
        assert(devices_of(records@.take(i + 1)) =~= found.push(records@[i as int].device()));
        i = i + 1;
    }
    assert(records@.take(i as int) =~= records@);
    search.finish()
}

} // verus!
