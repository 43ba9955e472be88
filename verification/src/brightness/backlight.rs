//! Backlight devices of the kernel.

use crate::text::chars::same;
use crate::text::decimal::{parse, read_number};
use crate::text::path::{
    components, components_of, file_name, file_name_of, joined, joined_name_is_found,
};
use crate::text::space::{trim, trimmed, views};
use vstd::prelude::*;

verus! {

/// How long a step of a transition takes, in milliseconds.
pub const TRANSITION_STEP_MS: u64 = 16;

/// Into how many steps the range of brightness is divided.
pub const BRIGHTNESS_STEPS: u64 = 1000;

/// The name of the directory that a path lies in.
pub open spec fn directory_name(path: Seq<char>) -> Option<Seq<char>> {
    let parts = components_of(path);
    if parts.len() >= 2 {
        let name = parts[parts.len() - 2];
        if name == "/"@ || name == "."@ || name == ".."@ {
            None
        } else {
            Some(name)
        }
    } else {
        None
    }
}

/// The name of the directory that a path lies in.
fn directory(path: &str) -> (r: Option<String>)
    ensures
        r is Some <==> directory_name(path@) is Some,
        r matches Some(name) ==> directory_name(path@) == Some(name@),
{
    let mut parts = components(path);
    assert(views(parts@).len() == parts@.len());
    let n = parts.len();
    if n < 2 {
        return None;
    }
    assert(views(parts@)[n - 2] == parts@[n - 2]@);
    if same(parts[n - 2].as_str(), "/") || same(parts[n - 2].as_str(), ".") || same(
        parts[n - 2].as_str(),
        "..",
    ) {
        None
    } else {
        Some(parts.swap_remove(n - 2))
    }
}

/// Whether changes of the device at `path` have to be looked for: lights do not
/// tell of them.
pub fn requires_polling(path: &str) -> (r: bool)
    ensures
        r == (directory_name(path@) == Some("leds"@)),
{
    match directory(path) {
        Some(name) => same(name.as_str(), "leds"),
        None => false,
    }
}

/// Why a device cannot be addressed through the session manager.
#[derive(Clone, Copy, Debug, PartialEq, Eq, Structural)]
pub enum AddressError {
    NoName,
    UnknownSubsystem,
}

impl AddressError {
    /// What the error says of the device at `path`.
    pub open spec fn spec_message(self, path: Seq<char>) -> Seq<char> {
        match self {
            AddressError::NoName => "Unable to identify backlight ID"@,
            AddressError::UnknownSubsystem => "Unable to identify backlight subsystem out of "@ + path
                + ", please open an issue on GitHub"@,
        }
    }

    /// What the error says of the device at `path`.
    pub fn message(&self, path: &str) -> (r: String)
        ensures
            r@ == self.spec_message(path@),
            self is NoName ==> r@ == "Unable to identify backlight ID"@,
            self is UnknownSubsystem ==> r@ == "Unable to identify backlight subsystem out of "@
                + path@ + ", please open an issue on GitHub"@,
    {
        match self {
            AddressError::NoName => "Unable to identify backlight ID".to_string(),
            AddressError::UnknownSubsystem => {
                let mut r = "Unable to identify backlight subsystem out of ".to_string();
                r.append(path);
                r.append(", please open an issue on GitHub");
                r
            },
        }
    }
}

/// How the session manager calls a device.
#[derive(Debug)]
pub struct Address {
    pub subsystem: String,
    pub id: String,
}

/// How the session manager calls the device at `path`: by the directory that it
/// lies in, which has to be that of backlights or of lights, and by its name.
pub open spec fn address_of(path: Seq<char>) -> Result<(Seq<char>, Seq<char>), AddressError> {
    match file_name_of(path) {
        None => Err(AddressError::NoName),
        Some(id) => match directory_name(path) {
            Some(name) => if name == "backlight"@ || name == "leds"@ {
                Ok((name, id))
            } else {
                Err(AddressError::UnknownSubsystem)
            },
            None => Err(AddressError::UnknownSubsystem),
        },
    }
}

/// How the session manager calls the device at `path`.
pub fn address(path: &str) -> (r: Result<Address, AddressError>)
    ensures
        r is Ok <==> address_of(path@) is Ok,
        r matches Ok(a) ==> address_of(path@) == Ok::<(Seq<char>, Seq<char>), AddressError>(
            (a.subsystem@, a.id@),
        ),
        r matches Err(error) ==> address_of(path@) == Err::<(Seq<char>, Seq<char>), AddressError>(
            error,
        ),
{
    let id = match file_name(path) {
        Some(id) => id,
        None => {
            return Err(AddressError::NoName);
        },
    };
    match directory(path) {
        Some(subsystem) => {
            if same(subsystem.as_str(), "backlight") || same(subsystem.as_str(), "leds") {
                Ok(Address { subsystem, id })
            } else {
                Err(AddressError::UnknownSubsystem)
            }
        },
        None => Err(AddressError::UnknownSubsystem),
    }
}

/// The number in a file of the device.
pub fn read_max_brightness(text: &str) -> (r: Option<u64>)
    ensures
        r is Some <==> read_number(trimmed(text@), u64::MAX as nat) is Some,
        r matches Some(n) ==> read_number(trimmed(text@), u64::MAX as nat) == Some(n as nat),
{
    parse(trim(text).as_str(), u64::MAX)
}

/// How the brightness of a device can be set.
#[derive(Clone, Copy, Debug, PartialEq, Eq, Structural)]
pub enum Access {
    /// By writing its file.
    File,
    /// By asking the session manager.
    Message,
    /// Not at all.
    Denied,
}

/// How the brightness of a device can be set.
pub fn access(has_write_permission: bool, has_session: bool) -> (r: Access)
    ensures
        r is File <==> has_write_permission,
        r is Message <==> !has_write_permission && has_session,
{
    if has_write_permission {
        Access::File
    } else if has_session {
        Access::Message
    } else {
        Access::Denied
    }
}

/// What a look at the watched files gives.
#[derive(Clone, Copy, Debug, PartialEq, Eq, Structural)]
pub enum Watched {
    Changed,
    Unchanged,
    /// There is nothing to read.
    WouldBlock,
    Failed,
}

/// How the brightness is to be learned.
#[derive(Clone, Copy, Debug, PartialEq, Eq, Structural)]
pub enum Lookup {
    /// It is known.
    Known(u64),
    /// The device has to be asked.
    Read,
    Failed,
}

/// How the brightness is to be set.
#[derive(Clone, Copy, Debug, PartialEq, Eq, Structural)]
pub enum Store {
    Write(u64),
    Send(u32),
    Denied,
}

/// What is known of a device.
#[derive(Clone, Copy, Debug, PartialEq, Eq, Structural)]
pub struct Backlight {
    pub min_brightness: u64,
    pub max_brightness: u64,
    pub current: Option<u64>,
    pub access: Access,
    pub poll_brightness: bool,
}

/// `value`, brought into a range.
pub open spec fn clamped(value: u64, min: u64, max: u64) -> u64 {
    if value < min {
        min
    } else if value > max {
        max
    } else {
        value
    }
}

/// `value`, brought into a range.
pub fn clamp(value: u64, min: u64, max: u64) -> (r: u64)
    requires
        min <= max,
    ensures
        r == clamped(value, min, max),
        min <= r <= max,
        min <= value <= max ==> r == value,
        value < min ==> r == min,
        value > max ==> r == max,
{
    if value < min {
        min
    } else if value > max {
        max
    } else {
        value
    }
}

/// How the brightness of a device is to be learned.
pub open spec fn lookup(b: Backlight, watched: Watched) -> Lookup {
    if b.poll_brightness || b.current is None {
        Lookup::Read
    } else {
        match watched {
            Watched::Changed => Lookup::Read,
            Watched::Unchanged => Lookup::Known(b.current->0),
            Watched::WouldBlock => Lookup::Known(b.current->0),
            Watched::Failed => Lookup::Failed,
        }
    }
}

/// A device whose brightness was set.
pub open spec fn after_store(b: Backlight, value: u64) -> Backlight {
    Backlight { current: Some(clamped(value, b.min_brightness, b.max_brightness)), ..b }
}

impl Backlight {
    /// The device has a brightness at all.
    pub open spec fn wf(self) -> bool {
        self.min_brightness <= self.max_brightness
    }

    /// A device of which no brightness is known yet.
    pub fn new(path: &str, min_brightness: u64, max_brightness: u64, access: Access) -> (r: Backlight)
        ensures
            r.wf() <==> min_brightness <= max_brightness,
            r == (Backlight {
                min_brightness,
                max_brightness,
                current: None,
                access,
                poll_brightness: directory_name(path@) == Some("leds"@),
            }),
    {
        Backlight {
            min_brightness,
            max_brightness,
            current: None,
            access,
            poll_brightness: requires_polling(path),
        }
    }

    /// How the brightness is to be learned. What is known is good as long as the
    /// device does not have to be polled and nothing has changed.
    pub fn get(&self, watched: Watched) -> (r: Lookup)
        ensures
            r == lookup(*self, watched),
            r is Read <==> self.poll_brightness || self.current is None || watched is Changed,
            r is Failed <==> !self.poll_brightness && self.current is Some && watched is Failed,
            r matches Lookup::Known(value) ==> self.current == Some(value),
    {
        if self.poll_brightness {
            return Lookup::Read;
        }
        match self.current {
            None => Lookup::Read,
            Some(cached) => match watched {
                Watched::Changed => Lookup::Read,
                Watched::Unchanged => Lookup::Known(cached),
                Watched::WouldBlock => Lookup::Known(cached),
                Watched::Failed => Lookup::Failed,
            },
        }
    }

    /// Keeps what was read, brought into the range, and hands on what was read.
    pub fn learn(&mut self, value: u64) -> (r: u64)
        requires
            old(self).wf(),
        ensures
            final(self).wf(),
            *final(self) == (Backlight {
                current: Some(
                    clamped(value, old(self).min_brightness, old(self).max_brightness),
                ),
                ..*old(self)
            }),
            r == value,
    {
        self.current = Some(clamp(value, self.min_brightness, self.max_brightness));
        value
    }

    pub fn min(&self) -> (r: u64)
        ensures
            r == self.min_brightness,
    {
        self.min_brightness
    }

    pub fn max(&self) -> (r: u64)
        ensures
            r == self.max_brightness,
    {
        self.max_brightness
    }

    pub fn transition_step_ms(&self) -> (r: u64)
        ensures
            r == TRANSITION_STEP_MS,
            r == 16,
    {
        TRANSITION_STEP_MS
    }

    /// By how much the brightness has to change to count as changed: one of the
    /// steps that the range is divided into, rounded up, and at least one.
    pub fn change_threshold(&self) -> (r: u64)
        ensures
            r >= 1,
            ({
                let range = self.max_brightness - self.min_brightness;
                &&& range <= 0 ==> r == 1
                &&& range > 0 ==> (r - 1) * BRIGHTNESS_STEPS < range <= r * BRIGHTNESS_STEPS
                &&& range > 0 ==> (r - 1) * 1000 < range <= r * 1000
            }),
    {
        let range = if self.max_brightness > self.min_brightness {
            self.max_brightness - self.min_brightness
        } else {
            0
        };
        let steps = range / BRIGHTNESS_STEPS;
        let threshold = if range % BRIGHTNESS_STEPS > 0 {
            steps + 1
        } else {
            steps
        };
        if threshold < 1 {
            1
        } else {
            threshold
        }
    }

    /// How the brightness is to be set: in the range, and by what access there is.
    pub fn set(&self, value: u64) -> (r: Store)
        requires
            self.wf(),
        ensures
            ({
                let to = clamped(value, self.min_brightness, self.max_brightness);
                r == match self.access {
                    Access::File => Store::Write(to),
                    Access::Message => Store::Send(to as u32),
                    Access::Denied => Store::Denied,
                }
            }),
            r matches Store::Write(to) ==> self.access is File && self.min_brightness <= to
                <= self.max_brightness && (self.min_brightness <= value <= self.max_brightness ==> to
                == value) && (value < self.min_brightness ==> to == self.min_brightness) && (value
                > self.max_brightness ==> to == self.max_brightness),
            r is Denied <==> self.access is Denied,
            self.min_brightness <= value <= self.max_brightness && self.access is Message ==> r
                == Store::Send(value as u32),
    {
        let value = clamp(value, self.min_brightness, self.max_brightness);
        match self.access {
            Access::File => Store::Write(value),
            Access::Message => Store::Send(#[verifier::truncate] (value as u32)),
            Access::Denied => Store::Denied,
        }
    }

    /// Keeps what was set. The news of it that the watch has is no news, but a
    /// watch that fails is an error all the same.
    pub fn stored(&mut self, value: u64, watched: Watched) -> (r: Option<u64>)
        requires
            old(self).wf(),
        ensures
            final(self).wf(),
            *final(self) == after_store(*old(self), value),
            final(self).min_brightness == old(self).min_brightness,
            final(self).max_brightness == old(self).max_brightness,
            final(self).access == old(self).access,
            final(self).poll_brightness == old(self).poll_brightness,
            final(self).current is Some && final(self).min_brightness <= final(self).current->0
                <= final(self).max_brightness,
            old(self).min_brightness <= value <= old(self).max_brightness ==> final(self).current
                == Some(value),
            r == if watched is Failed {
                None
            } else {
                Some(clamped(value, old(self).min_brightness, old(self).max_brightness))
            },
    {
        let value = clamp(value, self.min_brightness, self.max_brightness);
        self.current = Some(value);
        match watched {
            Watched::Failed => None,
            _ => Some(value),
        }
    }
}

/// What was set is what is known afterwards, brought into the range, as long as
/// nothing changes and the device need not be polled.
pub proof fn stored_brightness_is_known(b: Backlight, value: u64, watched: Watched)
    requires
        b.wf(),
        !b.poll_brightness,
        watched is Unchanged || watched is WouldBlock,
    ensures
        lookup(after_store(b, value), watched) == Lookup::Known(
            clamped(value, b.min_brightness, b.max_brightness),
        ),
        b.min_brightness <= value <= b.max_brightness ==> lookup(after_store(b, value), watched)
            == Lookup::Known(value),
{
}

/// A value stays as it is within the range, and is otherwise the end of the range that is nearest.
pub proof fn nearest_value_in_range(value: u64, min: u64, max: u64)
    requires
        min <= max,
    ensures
        min <= clamped(value, min, max) <= max,
        min <= value <= max ==> clamped(value, min, max) == value,
        value < min ==> clamped(value, min, max) == min,
        value > max ==> clamped(value, min, max) == max,
{
}

/// What is known is good exactly as long as the device need not be polled, something is known, and the
/// watch has neither seen a change nor failed.
pub proof fn known_brightness_is_good_until_a_change(b: Backlight, watched: Watched, value: u64)
    ensures
        lookup(b, watched) == Lookup::Known(value) <==> !b.poll_brightness && b.current == Some(value)
            && (watched is Unchanged || watched is WouldBlock),
        lookup(b, watched) is Failed <==> !b.poll_brightness && b.current is Some && watched is Failed,
        after_store(b, value).min_brightness == b.min_brightness,
        after_store(b, value).max_brightness == b.max_brightness,
        after_store(b, value).access == b.access,
        after_store(b, value).poll_brightness == b.poll_brightness,
{
}

/// A device is called by the name of the directory that it lies in and by its own, as long as that
/// directory is one of backlights or of lights.
pub proof fn device_is_called_by_directory_and_name(
    top: Seq<char>,
    directory: Seq<char>,
    name: Seq<char>,
)
    requires
        !directory.contains('/'),
        directory.len() > 0,
        directory != "."@,
        directory != ".."@,
        !name.contains('/'),
        name.len() > 0,
        name != "."@,
        name != ".."@,
    ensures
        ({
            let path = joined(joined(top, directory), name);
            &&& directory_name(path) == Some(directory)
            &&& directory == "backlight"@ || directory == "leds"@ ==> address_of(path) == Ok::<
                (Seq<char>, Seq<char>),
                AddressError,
            >((directory, name))
            &&& directory != "backlight"@ && directory != "leds"@ ==> address_of(path) == Err::<
                (Seq<char>, Seq<char>),
                AddressError,
            >(AddressError::UnknownSubsystem)
        }),
{
    let dir = joined(top, directory);
    let path = joined(dir, name);
    joined_name_is_found(top, directory);
    joined_name_is_found(dir, name);
    let parts = components_of(path);
    assert(parts == components_of(top).push(directory).push(name));
    assert(parts[parts.len() - 2] == directory);
    reveal_strlit("/");
    assert(directory != "/"@) by {
        if directory == "/"@ {
            assert(directory[0] == '/');
        }
    }
}

/// What has no name has no address.
pub proof fn nameless_device_has_no_address(path: Seq<char>)
    ensures
        address_of(path) == Err::<(Seq<char>, Seq<char>), AddressError>(AddressError::NoName)
            <==> file_name_of(path) is None,
        address_of(path) matches Ok((subsystem, id)) ==> file_name_of(path) == Some(id)
            && directory_name(path) == Some(subsystem) && (subsystem == "backlight"@ || subsystem
            == "leds"@),
        directory_name(path) matches Some(name) ==> components_of(path).len() >= 2
            && components_of(path)[components_of(path).len() - 2] == name,
{
}

} // verus!
