//! An open `/dev/uhid`: which descriptors to take it from, and what a read or a
//! write on it amounts to.

use vstd::prelude::*;
use vstd::string::*;

use crate::error::{invalid, Error, ErrorKind, Failure};
use crate::event::{decode, Buffer, Event, EVENT_SIZE};
use crate::text::{decimal, parse_i32, parse_u32, split, starts_with};

verus! {

/// Default path of the uhid character device.
pub const DEV_UHID: &'static str = "/dev/uhid";

/// `/dev/uhid` is the misc device (major 10) with minor 239 (`UHID_MINOR`).
pub const UHID_MAJOR: u32 = 10;

/// The minor number of `/dev/uhid`.
pub const UHID_MINOR: u32 = 239;

/// First descriptor number passed by the service manager (`sd_listen_fds(3)`).
pub const LISTEN_FDS_START: i32 = 3;

/// The number Linux gives to the device `major:minor`: the low 12 bits of the
/// major number and the low 8 bits of the minor number in the old 16-bit places,
/// the rest above them.
pub open spec fn device_number(major: u32, minor: u32) -> u64 {
    ((major as u64 & 0xffff_f000u64) << 32u64) | ((major as u64 & 0xfffu64) << 8u64) | ((
    minor as u64 & 0xffff_ff00u64) << 12u64) | (minor as u64 & 0xffu64)
}

/// Only the uhid device has its number, so no event is written to any other
/// character device.
pub proof fn law_only_uhid_has_its_number(major: u32, minor: u32)
    ensures
        (device_number(major, minor) == device_number(UHID_MAJOR, UHID_MINOR)) == (major
            == UHID_MAJOR && minor == UHID_MINOR),
{
    assert((device_number(major, minor) == device_number(10, 239)) == (major == 10 && minor
        == 239)) by (bit_vector);
}

/// `rustix::fs::makedev`: the device number of `maj:min`, put together as Linux
/// does.
pub assume_specification[ rustix::fs::makedev ](maj: u32, min: u32) -> (dev: rustix::fs::Dev)
    ensures
        dev == device_number(maj, min),
;

/// Whether an open descriptor is `/dev/uhid`, going by its metadata: whether it
/// is a character device, and the device number.
///
/// An inherited descriptor could be anything, and uhid events must not be
/// written into something else.
pub fn check_device(is_char_device: bool, device: u64) -> (checked: Result<(), Error>)
    ensures
        match checked {
            Ok(()) => is_char_device && device == device_number(UHID_MAJOR, UHID_MINOR),
            Err(error) => {
                &&& !is_char_device || device != device_number(UHID_MAJOR, UHID_MINOR)
                &&& error.is_invalid("the descriptor is not the uhid character device"@)
            },
        },
{
    if !is_char_device || device != rustix::fs::makedev(UHID_MAJOR, UHID_MINOR) {
        return Err(invalid("the descriptor is not the uhid character device"));
    }
    Ok(())
}

/// What to say when the kernel took `written` bytes of an event.
pub open spec fn short_write_message(written: nat) -> Seq<char> {
    "short write to uhid: "@ + crate::text::digits(written) + " of "@ + crate::text::digits(
        EVENT_SIZE as nat,
    ) + " bytes"@
}

/// What writing an event amounts to, given how many bytes the kernel took or
/// why it took none. One event goes into one write; uhid never accepts a
/// partial one.
pub fn written<E>(outcome: Result<usize, E>) -> (result: Result<(), Failure<E>>)
    ensures
        match outcome {
            Ok(written) => match result {
                Ok(()) => written == EVENT_SIZE,
                Err(Failure::Refused(error)) => written != EVENT_SIZE && error.kind
                    == ErrorKind::WriteZero && error.message@ == short_write_message(
                    written as nat,
                ),
                Err(Failure::Kernel(_)) => false,
            },
            Err(error) => result == Result::<(), Failure<E>>::Err(Failure::Kernel(error)),
        },
{
    match outcome {
        Ok(written) => {
            if written == EVENT_SIZE {
                return Ok(());
            }
            let mut message: String = "short write to uhid: ".to_owned();
            message.append(decimal(written).as_str());
            message.append(" of ");
            message.append(decimal(EVENT_SIZE).as_str());
            message.append(" bytes");
            Err(Failure::Refused(Error { kind: ErrorKind::WriteZero, message }))
        },
        Err(error) => Err(Failure::Kernel(error)),
    }
}

/// Why a read returned nothing.
#[derive(Debug)]
pub enum ReadError<E> {
    /// `EAGAIN`: nothing is queued.
    Again,
    /// `EINTR`: a signal came first.
    Interrupted,
    /// Anything else.
    Other(E),
}

/// What a read of the device amounts to: the next pending event, or `None` when
/// the queue is empty. `buf` is what was read into.
pub fn received<E>(outcome: Result<usize, ReadError<E>>, buf: &Buffer) -> (event: Result<
    Option<Event>,
    E,
>)
    ensures
        event == match outcome {
            Ok(0) => Ok(None),
            Ok(_) => Ok(Some(crate::event::event_of(buf@))),
            Err(ReadError::Again) => Ok(None),
            Err(ReadError::Interrupted) => Ok(None),
            Err(ReadError::Other(error)) => Err(error),
        },
{
    match outcome {
        Ok(read) => {
            if read == 0 {
                Ok(None)
            } else {
                Ok(Some(decode(buf)))
            }
        },
        Err(ReadError::Again) => Ok(None),
        Err(ReadError::Interrupted) => Ok(None),
        Err(ReadError::Other(error)) => Err(error),
    }
}

/// Whether to go on discarding what the kernel queued for a device that is
/// gone, given the last read. It must not be mistaken for news about the next
/// device created on the handle.
pub fn more_to_drain<E>(read: &Result<Option<Event>, E>) -> (more: bool)
    ensures
        more == (*read matches Ok(Some(_))),
{
    match read {
        Ok(Some(_)) => true,
        _ => false,
    }
}

/// How many descriptors the service manager passed to this process, if any.
pub open spec fn listen_count(
    listen_pid: Option<Seq<char>>,
    own_pid: u32,
    listen_fds: Option<Seq<char>>,
) -> Option<i32> {
    match (listen_pid, listen_fds) {
        (Some(pid), Some(fds)) => {
            if crate::text::signed_number(pid, false) == Some(own_pid as int) {
                match crate::text::signed_number(fds, true) {
                    Some(count) => if 0 < count <= i32::MAX {
                        Some(count as i32)
                    } else {
                        None
                    },
                    None => None,
                }
            } else {
                None
            }
        },
        _ => None,
    }
}

/// What an optional string says.
pub open spec fn text_of(value: Option<&str>) -> Option<Seq<char>> {
    match value {
        Some(value) => Some(value@),
        None => None,
    }
}

/// How many descriptors the service manager passed to this process, from the
/// variables `LISTEN_PID` and `LISTEN_FDS`. `None` when they are absent or
/// unreadable, or meant for a parent of ours and not ours to touch.
pub fn listen_fds_count(listen_pid: Option<&str>, own_pid: u32, listen_fds: Option<&str>) -> (count:
    Option<i32>)
    ensures
        count == listen_count(text_of(listen_pid), own_pid, text_of(listen_fds)),
{
    let pid: u32 = match listen_pid {
        Some(text) => match parse_u32(text) {
            Some(pid) => pid,
            None => return None,
        },
        None => return None,
    };
    if pid != own_pid {
        return None;
    }
    let count: i32 = match listen_fds {
        Some(text) => match parse_i32(text) {
            Some(count) => count,
            None => return None,
        },
        None => return None,
    };
    if count > 0 {
        Some(count)
    } else {
        None
    }
}

/// The names in the variable `LISTEN_FDNAMES`, which separates them by colons.
pub fn listen_fd_names(listen_fdnames: Option<&str>) -> (names: Vec<String>)
    ensures
        crate::text::texts(names@) == crate::text::split_on(
            match listen_fdnames {
                Some(text) => text@,
                None => Seq::empty(),
            },
            ':',
        ),
{
    match listen_fdnames {
        Some(text) => split(text, ':'),
        None => {
            let empty: String = String::new();
            split(empty.as_str(), ':')
        },
    }
}

/// The variables by which the service manager announces the descriptors it
/// passed.
#[derive(Debug)]
pub struct ListenVars {
    /// `LISTEN_PID`, the process they are meant for.
    pub pid: Option<String>,
    /// `LISTEN_FDS`, how many there are.
    pub fds: Option<String>,
    /// `LISTEN_FDNAMES`, what they are called.
    pub names: Option<String>,
}

/// What the variables say.
pub struct Announced {
    pub pid: Option<Seq<char>>,
    pub fds: Option<Seq<char>>,
    pub names: Option<Seq<char>>,
}

/// What a variable says.
pub open spec fn variable(value: Option<String>) -> Option<Seq<char>> {
    match value {
        Some(value) => Some(value@),
        None => None,
    }
}

impl View for ListenVars {
    type V = Announced;

    open spec fn view(&self) -> Announced {
        Announced {
            pid: variable(self.pid),
            fds: variable(self.fds),
            names: variable(self.names),
        }
    }
}

/// The descriptors that a process may take over.
#[derive(Debug)]
pub struct Claim {
    /// How many there are.
    pub count: i32,
    /// What they are called, as far as they have names.
    pub names: Vec<String>,
}

impl Announced {
    /// The variables once they are removed.
    pub open spec fn removed() -> Announced {
        Announced { pid: None, fds: None, names: None }
    }

    /// How many descriptors process `own_pid` may take over, if any.
    pub open spec fn count_for(self, own_pid: u32) -> Option<i32> {
        listen_count(self.pid, own_pid, self.fds)
    }

    /// The variables after process `own_pid` claimed what they announce.
    pub open spec fn claimed_by(self, own_pid: u32) -> Announced {
        if self.count_for(own_pid) is Some {
            Announced::removed()
        } else {
            self
        }
    }
}

impl ListenVars {
    /// Claims the descriptors that were passed to this process, if any, and
    /// then removes the variables, so neither a second call nor a child process
    /// claims the same descriptors. Variables that are not for this process are
    /// left alone.
    pub fn claim(&mut self, own_pid: u32) -> (claim: Option<Claim>)
        ensures
            final(self)@ == old(self)@.claimed_by(own_pid),
            match claim {
                Some(claim) => {
                    &&& old(self)@.count_for(own_pid) == Some(claim.count)
                    &&& crate::text::texts(claim.names@) == crate::text::split_on(
                        match old(self)@.names {
                            Some(names) => names,
                            None => Seq::empty(),
                        },
                        ':',
                    )
                },
                None => old(self)@.count_for(own_pid) is None,
            },
    {
        let count: i32 = match listen_fds_count(
            borrowed(&self.pid),
            own_pid,
            borrowed(&self.fds),
        ) {
            Some(count) => count,
            None => return None,
        };
        let names: Vec<String> = listen_fd_names(borrowed(&self.names));
        self.pid = None;
        self.fds = None;
        self.names = None;
        Some(Claim { count, names })
    }
}

fn borrowed(value: &Option<String>) -> (text: Option<&str>)
    ensures
        text_of(text) == variable(*value),
{
    match value {
        Some(value) => Some(value.as_str()),
        None => None,
    }
}

/// No descriptor is claimed twice: once a claim succeeded the variables are
/// gone, and no later claim succeeds, of this process or of any other.
pub proof fn law_descriptors_are_claimed_once(
    announced: Announced,
    own_pid: u32,
    later_pid: u32,
)
    requires
        announced.count_for(own_pid) is Some,
    ensures
        announced.claimed_by(own_pid) == Announced::removed(),
        announced.claimed_by(own_pid).count_for(later_pid) is None,
        announced.claimed_by(own_pid).claimed_by(later_pid) == Announced::removed(),
{
}

/// Without `LISTEN_PID` nothing is claimed, whatever the other variables say,
/// and nothing is removed.
pub proof fn law_nothing_is_claimed_without_a_process(
    fds: Option<Seq<char>>,
    names: Option<Seq<char>>,
    own_pid: u32,
)
    ensures
        listen_count(None, own_pid, fds) is None,
        (Announced { pid: None, fds, names }).claimed_by(own_pid) == (Announced {
            pid: None,
            fds,
            names,
        }),
{
}

/// A descriptor passed by the service manager.
#[derive(Debug)]
pub struct Passed {
    /// Its number.
    pub fd: i32,
    /// The name it was passed under, empty when it has none.
    pub name: String,
    /// Whether the name starts with the prefix that was asked for.
    pub wanted: bool,
}

/// The name of the descriptor at `offset`, empty when there are too few names.
pub open spec fn name_at(names: Seq<Seq<char>>, offset: int) -> Seq<char> {
    if 0 <= offset < names.len() {
        names[offset]
    } else {
        Seq::empty()
    }
}

/// The descriptor at `offset` among those the service manager passed under
/// `names`, and whether it was passed under a name starting with `prefix`, for
/// instance `uhid` for a unit that says `OpenFile=/dev/uhid:uhid`.
pub fn passed_fd(names: &Vec<String>, offset: i32, prefix: &str) -> (passed: Passed)
    requires
        0 <= offset,
        LISTEN_FDS_START + offset <= i32::MAX,
    ensures
        passed.fd == LISTEN_FDS_START + offset,
        passed.name@ == name_at(crate::text::texts(names@), offset as int),
        passed.wanted == prefix@.is_prefix_of(passed.name@),
{
    let index: usize = offset as usize;
    let name: String = if index < names.len() {
        names[index].clone()
    } else {
        String::new()
    };
    let wanted: bool = starts_with(name.as_str(), prefix);
    Passed { fd: LISTEN_FDS_START + offset, name, wanted }
}

/// The uhid device is 10:239, and its number is 0xaef.
pub proof fn law_the_number_of_uhid()
    ensures
        device_number(10, 239) == 0xaef,
        UHID_MAJOR == 10,
        UHID_MINOR == 239,
{
    assert(device_number(10, 239) == 0xaef) by (bit_vector);
}

/// What a short write is reported as: how many bytes were taken, of how many.
pub proof fn law_a_short_write_is_counted(written: nat)
    ensures
        short_write_message(written) == "short write to uhid: "@ + crate::text::digits(written)
            + " of "@ + crate::text::digits(4376) + " bytes"@,
{
}

/// Descriptors are ours exactly when `LISTEN_PID` is the number of our process
/// and `LISTEN_FDS` is a number above zero that fits, and there are then as many
/// as it says.
pub proof fn law_descriptors_are_ours_when_announced_to_us(
    pid: Option<Seq<char>>,
    own_pid: u32,
    fds: Option<Seq<char>>,
    count: i32,
)
    ensures
        listen_count(pid, own_pid, fds) == Some(count) <==> {
            &&& pid is Some && crate::text::signed_number(pid->0, false) == Some(own_pid as int)
            &&& fds is Some && crate::text::signed_number(fds->0, true) == Some(count as int)
            &&& count > 0
        },
{
}

/// The descriptor at an offset has the name at that offset, and none when there
/// are too few.
pub proof fn law_names_go_with_their_descriptors(names: Seq<Seq<char>>, offset: int)
    ensures
        0 <= offset < names.len() ==> name_at(names, offset) == names[offset],
        offset >= names.len() ==> name_at(names, offset).len() == 0,
{
}

/// A variable says what its string says, and one that is not set says nothing.
pub proof fn law_variables_say_what_they_hold(
    value: Option<String>,
    text: Option<&str>,
    vars: ListenVars,
)
    ensures
        vars@.pid == variable(vars.pid),
        vars@.fds == variable(vars.fds),
        vars@.names == variable(vars.names),
        value matches Some(string) ==> variable(value) == Some(string@),
        value is None ==> variable(value) is None,
        text matches Some(string) ==> text_of(text) == Some(string@),
        text is None ==> text_of(text) is None,
{
}

/// A claim succeeds exactly when the variables announce descriptors to this
/// process. One that fails changes no variable.
pub proof fn law_a_failed_claim_leaves_the_variables(announced: Announced, own_pid: u32)
    ensures
        announced.count_for(own_pid) == listen_count(announced.pid, own_pid, announced.fds),
        announced.count_for(own_pid) is None ==> announced.claimed_by(own_pid) == announced,
        announced.count_for(own_pid) is Some ==> {
            let after = announced.claimed_by(own_pid);
            after.pid is None && after.fds is None && after.names is None
        },
{
}

/// A write that took the whole event worked, and no other did: one that took
/// less or more is a short write, and an error of the kernel's stays what it is.
pub proof fn law_only_a_whole_write_works<E>(
    outcome: Result<usize, E>,
    result: Result<(), Failure<E>>,
)
    requires
        call_ensures(written::<E>, (outcome,), result),
    ensures
        result is Ok <==> (outcome matches Ok(n) && n == 4376),
        outcome matches Err(error) ==> result == Result::<(), Failure<E>>::Err(
            Failure::Kernel(error),
        ),
        outcome matches Ok(n) ==> n != 4376 ==> (result matches Err(Failure::Refused(error))
            && error.kind == ErrorKind::WriteZero && error.message@ == short_write_message(
            n as nat,
        )),
{
}

/// A read gives the event in the buffer whenever it gave any bytes. Nothing
/// queued, nothing read and a signal are an empty queue, and any other error
/// stays what it is. Only an event means that there may be more to discard.
pub proof fn law_a_read_gives_an_event_or_an_empty_queue<E>(
    outcome: Result<usize, ReadError<E>>,
    buf: Buffer,
    event: Result<Option<Event>, E>,
    more: bool,
)
    requires
        call_ensures(received::<E>, (outcome, &buf), event),
        call_ensures(more_to_drain::<E>, (&event,), more),
    ensures
        outcome matches Ok(n) ==> n > 0 ==> event == Result::<Option<Event>, E>::Ok(
            Some(crate::event::event_of(buf@)),
        ),
        outcome matches Ok(n) ==> n == 0 ==> event == Result::<Option<Event>, E>::Ok(None),
        outcome matches Err(ReadError::Again) ==> event == Result::<Option<Event>, E>::Ok(None),
        outcome matches Err(ReadError::Interrupted) ==> event == Result::<Option<Event>, E>::Ok(
            None,
        ),
        outcome matches Err(ReadError::Other(error)) ==> event == Result::<Option<Event>, E>::Err(
            error,
        ),
        more <==> (outcome matches Ok(n) && n > 0),
{
}

/// A descriptor is adopted exactly when it is the character device 10:239;
/// anything else is refused as invalid, and told why.
pub proof fn law_only_uhid_is_adopted(
    is_char_device: bool,
    major: u32,
    minor: u32,
    checked: Result<(), Error>,
)
    requires
        call_ensures(check_device, (is_char_device, device_number(major, minor)), checked),
    ensures
        checked is Ok <==> is_char_device && major == 10 && minor == 239,
        checked matches Err(error) ==> error.kind == ErrorKind::InvalidInput && error.message@
            == "the descriptor is not the uhid character device"@,
{
    law_only_uhid_has_its_number(major, minor);
}

/// The descriptor at an offset has the number three above it and the name at
/// that offset, and is wanted exactly when that name starts with the prefix; so
/// no two offsets share a descriptor.
pub proof fn law_a_passed_descriptor(
    names: Vec<String>,
    offset: i32,
    prefix: &str,
    passed: Passed,
)
    requires
        call_ensures(passed_fd, (&names, offset, prefix), passed),
        0 <= offset,
    ensures
        passed.fd == 3 + offset,
        offset < names@.len() ==> passed.name@ == names@[offset as int]@,
        offset >= names@.len() ==> passed.name@.len() == 0,
        passed.wanted <==> prefix@.len() <= passed.name@.len() && passed.name@.take(
            prefix@.len() as int,
        ) == prefix@,
{
    crate::text::law_a_list_says_what_its_strings_say(names@);
    if prefix@.len() <= passed.name@.len() {
        assert(passed.name@.subrange(0, prefix@.len() as int) =~= passed.name@.take(
            prefix@.len() as int,
        ));
    }
}

} // verus!
