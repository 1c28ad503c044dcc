//! Decisions for driving the Windows TAP adapter: what each result of an
//! overlapped read or write, of the media-status request and of the registry
//! walk means, and the exact commands and paths that configure the adapter.
//! The calls into Windows are made around these functions; each result is
//! handed back here and the returned step says what to do next.
use crate::text::{all_digits, decimal, lemma_decimal_reads_back, push_decimal, read_decimal};
use vstd::prelude::*;
use vstd::string::{StrSliceExecFns, StringSliceAdditionalSpecFns};
use vstd::utf8::{decode_utf8, valid_utf8};

verus! {

/// Windows error code: the driver does not support the request.
pub const ERROR_INVALID_FUNCTION: u32 = 1;

/// Windows error code: an overlapped operation is still in progress.
pub const ERROR_IO_PENDING: u32 = 997;

/// Windows error code: a registry enumeration has no more entries.
pub const ERROR_NO_MORE_ITEMS: u32 = 259;

/// Registry value type of a NUL-terminated string.
pub const REG_SZ: u32 = 1;

/// The request code that sets the TAP adapter's media status.
pub const TAP_WIN_IOCTL_SET_MEDIA_STATUS: u32 = 0x00220018;

/// A description of the Windows error codes that configuring the TAP adapter
/// commonly meets.
pub open spec fn error_description(code: u32) -> Seq<char> {
    if code == 1 {
        "Invalid function (IOCTL not supported by driver)"@
    } else if code == 2 {
        "File not found"@
    } else if code == 5 {
        "Access denied (administrator privileges may be required)"@
    } else if code == 6 {
        "Invalid handle"@
    } else if code == 32 {
        "The process cannot access the file because it is being used by another process"@
    } else if code == 87 {
        "The parameter is incorrect"@
    } else {
        "Unknown Windows error"@
    }
}

/// A descriptive text for a Windows error code.
pub fn format_error(code: u32) -> (text: &'static str)
    ensures
        text@ == error_description(code),
{
    match code {
        1 => "Invalid function (IOCTL not supported by driver)",
        2 => "File not found",
        5 => "Access denied (administrator privileges may be required)",
        6 => "Invalid handle",
        32 => "The process cannot access the file because it is being used by another process",
        87 => "The parameter is incorrect",
        _ => "Unknown Windows error",
    }
}

// ---------------------------------------------------------------------------
// Overlapped reads and writes on the TAP handle.
// ---------------------------------------------------------------------------

/// What happened in the last step of an overlapped read or write.
#[derive(Debug, PartialEq, Eq)]
pub enum OverlappedEvent {
    /// The event object for the operation was created, or not (then
    /// `last_error` says why).
    EventCreated { created: bool, last_error: u32 },
    /// `ReadFile`/`WriteFile` returned.
    CallReturned { ok: bool, transferred: u32, last_error: u32 },
    /// The operation was waited for and `GetOverlappedResult` returned.
    ResultFetched { ok: bool, transferred: u32, last_error: u32 },
}

/// What to do next in an overlapped read or write.
#[derive(Debug, PartialEq, Eq)]
pub enum OverlappedAction {
    /// Create the event object that signals completion.
    CreateEvent,
    /// Issue the read or write.
    IssueCall,
    /// Wait for the event, then fetch the operation's result.
    WaitForCompletion,
    /// The operation is over: bytes transferred, or the Windows error code.
    /// `close_event` says whether the event object exists and must now be
    /// closed; nothing else closes it.
    Done { result: Result<usize, u32>, close_event: bool },
}

/// How an overlapped read or write of `len` bytes begins: with nothing to
/// transfer it is done at once, having moved no bytes and created nothing.
pub fn overlapped_start(len: usize) -> (action: OverlappedAction)
    ensures
        len == 0 ==> action == (OverlappedAction::Done { result: Ok(0), close_event: false }),
        len != 0 ==> action == OverlappedAction::CreateEvent,
{
    if len == 0 {
        OverlappedAction::Done { result: Ok(0), close_event: false }
    } else {
        OverlappedAction::CreateEvent
    }
}

/// The next step of an overlapped read or write, given what just happened.
pub open spec fn overlapped_next_spec(event: OverlappedEvent) -> OverlappedAction {
    match event {
        OverlappedEvent::EventCreated { created, last_error } => {
            if created {
                OverlappedAction::IssueCall
            } else {
                OverlappedAction::Done { result: Err(last_error), close_event: false }
            }
        },
        OverlappedEvent::CallReturned { ok, transferred, last_error } => {
            if ok {
                OverlappedAction::Done { result: Ok(transferred as usize), close_event: true }
            } else if last_error == ERROR_IO_PENDING {
                OverlappedAction::WaitForCompletion
            } else {
                OverlappedAction::Done { result: Err(last_error), close_event: true }
            }
        },
        OverlappedEvent::ResultFetched { ok, transferred, last_error } => {
            if ok {
                OverlappedAction::Done { result: Ok(transferred as usize), close_event: true }
            } else {
                OverlappedAction::Done { result: Err(last_error), close_event: true }
            }
        },
    }
}

/// The next step of an overlapped read or write: a call that completes at
/// once gives its byte count, one still pending is waited for, any other
/// failure ends the operation with its error code. The operation closes its
/// event object when it ends, if it created one.
pub fn overlapped_next(event: OverlappedEvent) -> (action: OverlappedAction)
    ensures
        action == overlapped_next_spec(event),
{
    match event {
        OverlappedEvent::EventCreated { created, last_error } => {
            if created {
                OverlappedAction::IssueCall
            } else {
                OverlappedAction::Done { result: Err(last_error), close_event: false }
            }
        },
        OverlappedEvent::CallReturned { ok, transferred, last_error } => {
            if ok {
                OverlappedAction::Done { result: Ok(transferred as usize), close_event: true }
            } else if last_error == ERROR_IO_PENDING {
                OverlappedAction::WaitForCompletion
            } else {
                OverlappedAction::Done { result: Err(last_error), close_event: true }
            }
        },
        OverlappedEvent::ResultFetched { ok, transferred, last_error } => {
            if ok {
                OverlappedAction::Done { result: Ok(transferred as usize), close_event: true }
            } else {
                OverlappedAction::Done { result: Err(last_error), close_event: true }
            }
        },
    }
}

/// How many times a run of an overlapped operation closes its event object:
/// the run takes the steps for `events` in order and ends at the first
/// `Done`, which closes the event where its flag says so.
pub open spec fn overlapped_close_count(events: Seq<OverlappedEvent>) -> nat
    decreases events.len(),
{
    if events.len() == 0 {
        0
    } else {
        match overlapped_next_spec(events[0]) {
            OverlappedAction::Done { close_event, .. } => if close_event { 1 } else { 0 },
            _ => overlapped_close_count(events.drop_first()),
        }
    }
}

/// Whether a run of an overlapped operation over `events` reaches its end.
pub open spec fn overlapped_run_ends(events: Seq<OverlappedEvent>) -> bool
    decreases events.len(),
{
    if events.len() == 0 {
        false
    } else {
        match overlapped_next_spec(events[0]) {
            OverlappedAction::Done { .. } => true,
            _ => overlapped_run_ends(events.drop_first()),
        }
    }
}

proof fn lemma_overlapped_after_creation(events: Seq<OverlappedEvent>)
    requires
        forall|i: int| 0 <= i < events.len() ==> !(#[trigger] events[i] is EventCreated),
    ensures
        overlapped_run_ends(events) ==> overlapped_close_count(events) == 1,
    decreases events.len(),
{
    if events.len() > 0 {
        let rest = events.drop_first();
        assert forall|i: int| 0 <= i < rest.len() implies !(#[trigger] rest[i] is EventCreated) by {
            assert(rest[i] == events[i + 1]);
        }
        lemma_overlapped_after_creation(rest);
    }
}

/// An overlapped read or write that ends closes its event object exactly
/// once if it created one, and never if it did not: the run starts with the
/// outcome of creating the event, and no later step creates another.
pub proof fn lemma_overlapped_event_closed_once(events: Seq<OverlappedEvent>)
    requires
        events.len() > 0,
        events[0] is EventCreated,
        forall|i: int| 1 <= i < events.len() ==> !(#[trigger] events[i] is EventCreated),
        overlapped_run_ends(events),
    ensures
        overlapped_close_count(events) == (if events[0]->created { 1nat } else { 0nat }),
{
    let rest = events.drop_first();
    assert forall|i: int| 0 <= i < rest.len() implies !(#[trigger] rest[i] is EventCreated) by {
        assert(rest[i] == events[i + 1]);
    }
    lemma_overlapped_after_creation(rest);
}

// ---------------------------------------------------------------------------
// Polling the background read or write of the async TAP device.
// ---------------------------------------------------------------------------

/// What one poll of the TAP device's reader does first.
#[derive(Debug, PartialEq, Eq)]
pub enum ReadPollStart {
    /// The caller's buffer has no room: the poll is ready at once, reading nothing.
    NoRoom,
    /// No read is running: start one of up to `capacity` bytes, then check it.
    StartThenCheck { capacity: usize },
    /// A read is running: check whether it has replied.
    Check,
}

/// How a poll of the reader begins.
pub open spec fn read_poll_start_spec(remaining: usize, read_in_flight: bool) -> ReadPollStart {
    if remaining == 0 {
        ReadPollStart::NoRoom
    } else if !read_in_flight {
        ReadPollStart::StartThenCheck { capacity: remaining }
    } else {
        ReadPollStart::Check
    }
}

/// How a poll of the reader begins: with no room in the caller's buffer it
/// is ready at once; otherwise a read of up to the room left is started
/// unless one is already running, and the running read is checked.
pub fn read_poll_start(remaining: usize, read_in_flight: bool) -> (r: ReadPollStart)
    ensures
        r == read_poll_start_spec(remaining, read_in_flight),
        remaining == 0 ==> r == ReadPollStart::NoRoom,
        remaining != 0 && !read_in_flight ==> r == (ReadPollStart::StartThenCheck { capacity: remaining }),
        remaining != 0 && read_in_flight ==> r == ReadPollStart::Check,
{
    if remaining == 0 {
        ReadPollStart::NoRoom
    } else if !read_in_flight {
        ReadPollStart::StartThenCheck { capacity: remaining }
    } else {
        ReadPollStart::Check
    }
}

/// A read's reply fits the buffer it is delivered into: the read is started
/// with the room of the poll that starts it as its capacity, a device read
/// hands back at most its capacity, so a reply fits every later poll whose
/// buffer has at least that much room.
pub proof fn lemma_read_reply_fits(start_room: usize, reply_len: nat, later_room: usize)
    requires
        read_poll_start_spec(start_room, false) matches ReadPollStart::StartThenCheck { capacity }
            && reply_len <= capacity,
        start_room <= later_room,
    ensures
        start_room != 0,
        reply_len <= later_room,
{
}

/// What one poll of the TAP device's writer does first.
#[derive(Debug, PartialEq, Eq)]
pub enum WritePollStart {
    /// No write is running: start one with the caller's bytes, then check it.
    StartThenCheck,
    /// A write is running: check whether it has replied.
    Check,
}

/// How a poll of the writer begins: a write is started only when none is
/// running, so at most one write is ever in flight.
pub fn write_poll_start(write_in_flight: bool) -> (r: WritePollStart)
    ensures
        !write_in_flight ==> r == WritePollStart::StartThenCheck,
        write_in_flight ==> r == WritePollStart::Check,
{
    if write_in_flight {
        WritePollStart::Check
    } else {
        WritePollStart::StartThenCheck
    }
}

/// What the reply channel of a background read or write showed when checked.
#[derive(Debug, PartialEq, Eq)]
pub enum WorkerReply {
    /// The operation has not replied yet.
    NotYet,
    /// The operation replied with its result.
    Replied,
    /// The operation went away without replying.
    Vanished,
}

/// What a poll of the reader or writer returns.
#[derive(Debug, PartialEq, Eq)]
pub enum PollOutcome {
    /// Not ready: the same operation stays running and is checked again.
    Pending,
    /// Ready with the operation's result; the device may start another.
    Ready,
    /// Ready with a broken-pipe error; the device may start another.
    Cancelled,
}

/// What a check of the running operation means: it stays in flight only
/// while it has not replied, and one that went away counts as cancelled.
pub fn poll_outcome(reply: WorkerReply) -> (r: PollOutcome)
    ensures
        r == match reply {
            WorkerReply::NotYet => PollOutcome::Pending,
            WorkerReply::Replied => PollOutcome::Ready,
            WorkerReply::Vanished => PollOutcome::Cancelled,
        },
{
    match reply {
        WorkerReply::NotYet => PollOutcome::Pending,
        WorkerReply::Replied => PollOutcome::Ready,
        WorkerReply::Vanished => PollOutcome::Cancelled,
    }
}

impl PollOutcome {
    /// Whether the operation is still in flight after this poll.
    pub fn keeps_operation(&self) -> (b: bool)
        ensures
            b == (*self == PollOutcome::Pending),
    {
        match self {
            PollOutcome::Pending => true,
            _ => false,
        }
    }
}

// ---------------------------------------------------------------------------
// Setting the adapter "media connected".
// ---------------------------------------------------------------------------

/// Why the adapter could not be set "media connected"; each carries the
/// Windows error code.
#[derive(Debug, PartialEq, Eq)]
pub enum MediaStatusError {
    /// The event object for the overlapped request could not be created.
    EventCreation(u32),
    /// The overlapped request completed with an error.
    Overlapped(u32),
    /// The driver does not support the request, and the retry after
    /// enabling the interface failed too.
    Fallback(u32),
    /// The request failed at once.
    Rejected(u32),
}

/// What happened in the last step of setting the media status.
#[derive(Debug, PartialEq, Eq)]
pub enum MediaEvent {
    /// The event object was created, or not (then `last_error` says why).
    EventCreated { created: bool, last_error: u32 },
    /// The overlapped `DeviceIoControl` returned.
    IoctlReturned { ok: bool, last_error: u32 },
    /// The pending request was waited for and `GetOverlappedResult` returned.
    OverlappedFinished { ok: bool, last_error: u32 },
    /// The request, retried after enabling the interface, returned.
    FallbackIoctlReturned { ok: bool, last_error: u32 },
    /// The pending retried request was waited for and `GetOverlappedResult`
    /// returned.
    FallbackOverlappedFinished { ok: bool, last_error: u32 },
}

/// What to do next in setting the media status.
#[derive(Debug, PartialEq, Eq)]
pub enum MediaAction {
    /// Issue the overlapped media-status request.
    IssueIoctl,
    /// Wait for the pending request and fetch its result.
    WaitForCompletion,
    /// Enable the interface with netsh (its outcome does not matter), then
    /// issue the request again, overlapped with the same event.
    EnableThenRetry,
    /// Wait for the pending retried request and fetch its result.
    WaitForRetryCompletion,
    /// Setting the media status is over: the adapter reports "media
    /// connected", or the failure. `close_event` says whether the event
    /// object exists and must now be closed; nothing else closes it.
    Finish { result: Result<(), MediaStatusError>, close_event: bool },
}

/// The next step of setting the media status, given what just happened.
pub open spec fn media_next_spec(event: MediaEvent) -> MediaAction {
    match event {
        MediaEvent::EventCreated { created, last_error } => {
            if created {
                MediaAction::IssueIoctl
            } else {
                MediaAction::Finish {
                    result: Err(MediaStatusError::EventCreation(last_error)),
                    close_event: false,
                }
            }
        },
        MediaEvent::IoctlReturned { ok, last_error } => {
            if ok {
                MediaAction::Finish { result: Ok(()), close_event: true }
            } else if last_error == ERROR_IO_PENDING {
                MediaAction::WaitForCompletion
            } else if last_error == ERROR_INVALID_FUNCTION {
                MediaAction::EnableThenRetry
            } else {
                MediaAction::Finish { result: Err(MediaStatusError::Rejected(last_error)), close_event: true }
            }
        },
        MediaEvent::OverlappedFinished { ok, last_error } => {
            if ok {
                MediaAction::Finish { result: Ok(()), close_event: true }
            } else {
                MediaAction::Finish { result: Err(MediaStatusError::Overlapped(last_error)), close_event: true }
            }
        },
        MediaEvent::FallbackIoctlReturned { ok, last_error } => {
            if ok {
                MediaAction::Finish { result: Ok(()), close_event: true }
            } else if last_error == ERROR_IO_PENDING {
                MediaAction::WaitForRetryCompletion
            } else {
                MediaAction::Finish { result: Err(MediaStatusError::Fallback(last_error)), close_event: true }
            }
        },
        MediaEvent::FallbackOverlappedFinished { ok, last_error } => {
            if ok {
                MediaAction::Finish { result: Ok(()), close_event: true }
            } else {
                MediaAction::Finish { result: Err(MediaStatusError::Fallback(last_error)), close_event: true }
            }
        },
    }
}

/// The next step of setting the media status: a request that completes is
/// done, a pending one is waited for, one the driver does not support is
/// issued again after enabling the interface, and any other failure ends
/// with its error code. Without an event object no request is issued; with
/// one, it is closed when setting the status ends.
pub fn media_next(event: MediaEvent) -> (action: MediaAction)
    ensures
        action == media_next_spec(event),
{
    match event {
        MediaEvent::EventCreated { created, last_error } => {
            if created {
                MediaAction::IssueIoctl
            } else {
                MediaAction::Finish {
                    result: Err(MediaStatusError::EventCreation(last_error)),
                    close_event: false,
                }
            }
        },
        MediaEvent::IoctlReturned { ok, last_error } => {
            if ok {
                MediaAction::Finish { result: Ok(()), close_event: true }
            } else if last_error == ERROR_IO_PENDING {
                MediaAction::WaitForCompletion
            } else if last_error == ERROR_INVALID_FUNCTION {
                MediaAction::EnableThenRetry
            } else {
                MediaAction::Finish { result: Err(MediaStatusError::Rejected(last_error)), close_event: true }
            }
        },
        MediaEvent::OverlappedFinished { ok, last_error } => {
            if ok {
                MediaAction::Finish { result: Ok(()), close_event: true }
            } else {
                MediaAction::Finish { result: Err(MediaStatusError::Overlapped(last_error)), close_event: true }
            }
        },
        MediaEvent::FallbackIoctlReturned { ok, last_error } => {
            if ok {
                MediaAction::Finish { result: Ok(()), close_event: true }
            } else if last_error == ERROR_IO_PENDING {
                MediaAction::WaitForRetryCompletion
            } else {
                MediaAction::Finish { result: Err(MediaStatusError::Fallback(last_error)), close_event: true }
            }
        },
        MediaEvent::FallbackOverlappedFinished { ok, last_error } => {
            if ok {
                MediaAction::Finish { result: Ok(()), close_event: true }
            } else {
                MediaAction::Finish { result: Err(MediaStatusError::Fallback(last_error)), close_event: true }
            }
        },
    }
}

/// How many times a run of setting the media status closes its event
/// object: the run takes the steps for `events` in order and ends at the
/// first `Finish`, which closes the event where its flag says so.
pub open spec fn media_close_count(events: Seq<MediaEvent>) -> nat
    decreases events.len(),
{
    if events.len() == 0 {
        0
    } else {
        match media_next_spec(events[0]) {
            MediaAction::Finish { close_event, .. } => if close_event { 1 } else { 0 },
            _ => media_close_count(events.drop_first()),
        }
    }
}

/// Whether a run of setting the media status over `events` reaches its end.
pub open spec fn media_run_ends(events: Seq<MediaEvent>) -> bool
    decreases events.len(),
{
    if events.len() == 0 {
        false
    } else {
        match media_next_spec(events[0]) {
            MediaAction::Finish { .. } => true,
            _ => media_run_ends(events.drop_first()),
        }
    }
}

proof fn lemma_media_after_creation(events: Seq<MediaEvent>)
    requires
        forall|i: int| 0 <= i < events.len() ==> !(#[trigger] events[i] is EventCreated),
    ensures
        media_run_ends(events) ==> media_close_count(events) == 1,
    decreases events.len(),
{
    if events.len() > 0 {
        let rest = events.drop_first();
        assert forall|i: int| 0 <= i < rest.len() implies !(#[trigger] rest[i] is EventCreated) by {
            assert(rest[i] == events[i + 1]);
        }
        lemma_media_after_creation(rest);
    }
}

/// Setting the media status closes its event object exactly once if it was
/// created and never if it was not, on every path that ends; and without an
/// event object it ends at once, with that failure, before any request.
pub proof fn lemma_media_event_closed_once(events: Seq<MediaEvent>)
    requires
        events.len() > 0,
        events[0] is EventCreated,
        forall|i: int| 1 <= i < events.len() ==> !(#[trigger] events[i] is EventCreated),
        media_run_ends(events),
    ensures
        media_close_count(events) == (if events[0]->created { 1nat } else { 0nat }),
        !events[0]->created ==> media_next_spec(events[0]) == (MediaAction::Finish {
            result: Err(MediaStatusError::EventCreation(events[0]->EventCreated_last_error)),
            close_event: false,
        }),
{
    let rest = events.drop_first();
    assert forall|i: int| 0 <= i < rest.len() implies !(#[trigger] rest[i] is EventCreated) by {
        assert(rest[i] == events[i + 1]);
    }
    lemma_media_after_creation(rest);
}

/// The text that reports a media-status failure.
pub open spec fn media_error_text(e: MediaStatusError) -> Seq<char> {
    match e {
        MediaStatusError::EventCreation(code) => "Failed to create event for overlapped IO (GetLastError="@
            + decimal(code as nat) + ")."@,
        MediaStatusError::Overlapped(code) => "Overlapped DeviceIoControl failed (GetLastError="@
            + decimal(code as nat) + ")."@,
        MediaStatusError::Fallback(code) => "Synchronous DeviceIoControl fallback failed (GetLastError="@
            + decimal(code as nat) + "): "@ + error_description(code),
        MediaStatusError::Rejected(code) => "Failed to set TAP adapter media status (GetLastError="@
            + decimal(code as nat) + "): "@ + error_description(code) + "."@,
    }
}

impl MediaStatusError {
    /// The text that reports this failure.
    pub fn message(&self) -> (text: String)
        ensures
            text@ == media_error_text(*self),
    {
        match self {
            MediaStatusError::EventCreation(code) => {
                let mut s = "Failed to create event for overlapped IO (GetLastError=".to_owned();
                push_decimal(&mut s, *code);
                s.append(").");
                s
            },
            MediaStatusError::Overlapped(code) => {
                let mut s = "Overlapped DeviceIoControl failed (GetLastError=".to_owned();
                push_decimal(&mut s, *code);
                s.append(").");
                s
            },
            MediaStatusError::Fallback(code) => {
                let mut s = "Synchronous DeviceIoControl fallback failed (GetLastError=".to_owned();
                push_decimal(&mut s, *code);
                s.append("): ");
                s.append(format_error(*code));
                s
            },
            MediaStatusError::Rejected(code) => {
                let mut s = "Failed to set TAP adapter media status (GetLastError=".to_owned();
                push_decimal(&mut s, *code);
                s.append("): ");
                s.append(format_error(*code));
                s.append(".");
                s
            },
        }
    }
}


// ---------------------------------------------------------------------------
// netsh commands that configure the adapter.
// ---------------------------------------------------------------------------

/// The text of each string in a list.
pub open spec fn strings_view(v: Seq<String>) -> Seq<Seq<char>> {
    v.map_values(|s: String| s@)
}

/// Arguments of `netsh` that enable the interface named `device_name`.
pub open spec fn enable_args_spec(device_name: Seq<char>) -> Seq<Seq<char>> {
    seq!["interface"@, "set"@, "interface"@, "name="@ + device_name, "admin=ENABLED"@]
}

/// Arguments of `netsh` that give the interface a static address in a /24.
pub open spec fn address_args_spec(device_name: Seq<char>, tap_ip: Seq<char>) -> Seq<Seq<char>> {
    seq![
        "interface"@, "ipv4"@, "set"@, "address"@, "name="@ + device_name, "static"@, tap_ip,
        "255.255.255.0"@,
    ]
}

/// Arguments of `netsh` that set the interface's MTU, kept across restarts.
pub open spec fn mtu_args_spec(device_name: Seq<char>, mtu: u16) -> Seq<Seq<char>> {
    seq![
        "interface"@, "ipv4"@, "set"@, "subinterface"@, device_name, "mtu="@ + decimal(mtu as nat),
        "store=persistent"@,
    ]
}

fn prefixed(prefix: &str, rest: &str) -> (s: String)
    ensures
        s@ == prefix@ + rest@,
{
    let mut s = prefix.to_owned();
    s.append(rest);
    s
}

/// Arguments of `netsh` that enable the interface named `device_name`.
pub fn enable_args(device_name: &str) -> (args: Vec<String>)
    ensures
        strings_view(args@) == enable_args_spec(device_name@),
{
    let args = vec![
        "interface".to_owned(),
        "set".to_owned(),
        "interface".to_owned(),
        prefixed("name=", device_name),
        "admin=ENABLED".to_owned(),
    ];
    assert(strings_view(args@) =~= enable_args_spec(device_name@));
    args
}

/// Arguments of `netsh` that give the interface `tap_ip` with mask
/// 255.255.255.0.
pub fn address_args(device_name: &str, tap_ip: &str) -> (args: Vec<String>)
    ensures
        strings_view(args@) == address_args_spec(device_name@, tap_ip@),
{
    let args = vec![
        "interface".to_owned(),
        "ipv4".to_owned(),
        "set".to_owned(),
        "address".to_owned(),
        prefixed("name=", device_name),
        "static".to_owned(),
        tap_ip.to_owned(),
        "255.255.255.0".to_owned(),
    ];
    assert(strings_view(args@) =~= address_args_spec(device_name@, tap_ip@));
    args
}

/// Arguments of `netsh` that set the interface's MTU persistently.
pub fn mtu_args(device_name: &str, mtu: u16) -> (args: Vec<String>)
    ensures
        strings_view(args@) == mtu_args_spec(device_name@, mtu),
{
    let mut mtu_arg = "mtu=".to_owned();
    push_decimal(&mut mtu_arg, mtu as u32);
    let args = vec![
        "interface".to_owned(),
        "ipv4".to_owned(),
        "set".to_owned(),
        "subinterface".to_owned(),
        device_name.to_owned(),
        mtu_arg,
        "store=persistent".to_owned(),
    ];
    assert(strings_view(args@) =~= mtu_args_spec(device_name@, mtu));
    args
}

/// Which netsh step of configuring the adapter failed.
#[derive(Debug, PartialEq, Eq)]
pub enum ConfigureError {
    /// Setting the static address failed.
    Address,
    /// Setting the MTU failed.
    Mtu,
}

impl ConfigureError {
    /// The text that reports this failure.
    pub fn message(&self) -> (text: &'static str)
        ensures
            text@ == match self {
                ConfigureError::Address => "Failed to set TAP device IP address. Run the program as Administrator."@,
                ConfigureError::Mtu => "Failed to set TAP device MTU."@,
            },
    {
        match self {
            ConfigureError::Address => "Failed to set TAP device IP address. Run the program as Administrator.",
            ConfigureError::Mtu => "Failed to set TAP device MTU.",
        }
    }
}

/// A netsh step of configuring the adapter that has finished.
#[derive(Debug, PartialEq, Eq)]
pub enum ConfigureEvent {
    /// The command that sets the static address exited, successfully or not.
    AddressSet(bool),
    /// The command that sets the MTU exited, successfully or not.
    MtuSet(bool),
}

/// What to do next in configuring the adapter.
#[derive(Debug, PartialEq, Eq)]
pub enum ConfigureAction {
    /// Run the command that sets the MTU.
    SetMtu,
    /// Configuring is over.
    Done(Result<(), ConfigureError>),
}

/// The next step of configuring the adapter: the address is set first, the
/// MTU only after the address was, and the first failing command ends it.
pub fn configure_next(event: ConfigureEvent) -> (action: ConfigureAction)
    ensures
        action == match event {
            ConfigureEvent::AddressSet(true) => ConfigureAction::SetMtu,
            ConfigureEvent::AddressSet(false) => ConfigureAction::Done(Err(ConfigureError::Address)),
            ConfigureEvent::MtuSet(true) => ConfigureAction::Done(Ok(())),
            ConfigureEvent::MtuSet(false) => ConfigureAction::Done(Err(ConfigureError::Mtu)),
        },
{
    match event {
        ConfigureEvent::AddressSet(true) => ConfigureAction::SetMtu,
        ConfigureEvent::AddressSet(false) => ConfigureAction::Done(Err(ConfigureError::Address)),
        ConfigureEvent::MtuSet(true) => ConfigureAction::Done(Ok(())),
        ConfigureEvent::MtuSet(false) => ConfigureAction::Done(Err(ConfigureError::Mtu)),
    }
}


// ---------------------------------------------------------------------------
// Finding the adapter in the registry.
// ---------------------------------------------------------------------------

/// Calls `std::str::from_utf8`. Claimed, as its documentation says: it
/// succeeds exactly on valid UTF-8, and the text it gives is made of those
/// bytes.
#[verifier::external_body]
fn utf8_text(bytes: &[u8]) -> (r: Option<&str>)
    ensures
        r is Some <==> valid_utf8(bytes@),
        r matches Some(text) ==> text.spec_bytes() == bytes@,
{
    std::str::from_utf8(bytes).ok()
}

/// The text that bytes hold when read as UTF-8; none where they are not.
pub open spec fn text_of(bytes: Seq<u8>) -> Seq<char> {
    if valid_utf8(bytes) { decode_utf8(bytes) } else { seq![] }
}

/// `chars` without the NUL characters at its end.
pub open spec fn trim_trailing_nuls(chars: Seq<char>) -> Seq<char>
    decreases chars.len(),
{
    if chars.len() > 0 && chars.last() == '\0' {
        trim_trailing_nuls(chars.drop_last())
    } else {
        chars
    }
}

/// The adapter name that a registry `Name` value holds.
pub open spec fn adapter_name(data: Seq<u8>) -> Seq<char> {
    trim_trailing_nuls(text_of(data))
}

/// The registry key under which Windows lists the network adapters.
pub open spec fn adapters_key_spec() -> Seq<char> {
    "SYSTEM\\CurrentControlSet\\Control\\Network\\{4D36E972-E325-11CE-BFC1-08002BE10318}"@
}

fn utf8_text_is_decoded(bytes: &[u8]) -> (r: Option<&str>)
    ensures
        r is Some <==> valid_utf8(bytes@),
        r matches Some(text) ==> text@ == decode_utf8(bytes@),
{
    let r = utf8_text(bytes);
    proof {
        if let Some(text) = r {
            vstd::utf8::encode_utf8_decode_utf8(text@);
        }
    }
    r
}

/// The text of an adapter's registry subkey name (its GUID), read as UTF-8;
/// empty where the name is not UTF-8.
pub fn guid_text(name: &[u8]) -> (guid: String)
    ensures
        guid@ == text_of(name@),
{
    match utf8_text_is_decoded(name) {
        Some(text) => text.to_owned(),
        None => String::new(),
    }
}

/// The registry key that lists the network adapters, NUL-terminated.
pub fn adapters_key() -> (key: String)
    ensures
        key@ == adapters_key_spec() + "\0"@,
{
    let mut key = "SYSTEM\\CurrentControlSet\\Control\\Network\\{4D36E972-E325-11CE-BFC1-08002BE10318}".to_owned();
    key.append("\0");
    key
}

/// The registry key of the connection settings of the adapter `guid`,
/// NUL-terminated.
pub fn connection_key(guid: &str) -> (key: String)
    ensures
        key@ == adapters_key_spec() + "\\"@ + guid@ + "\\Connection\0"@,
{
    let mut key = "SYSTEM\\CurrentControlSet\\Control\\Network\\{4D36E972-E325-11CE-BFC1-08002BE10318}".to_owned();
    key.append("\\");
    key.append(guid);
    key.append("\\Connection\0");
    key
}

/// The device path through which the TAP adapter `guid` is opened.
pub fn tap_device_path(guid: &str) -> (path: String)
    ensures
        path@ == "\\\\.\\Global\\"@ + guid@ + ".tap"@,
{
    let mut path = "\\\\.\\Global\\".to_owned();
    path.append(guid);
    path.append(".tap");
    path
}

/// What a registry enumeration step returned.
#[derive(Debug, PartialEq, Eq)]
pub enum EnumOutcome {
    /// There is an adapter entry at this index.
    Entry,
    /// There are no more adapter entries.
    Exhausted,
    /// The enumeration failed with this error code; the walk ends.
    Failed(u32),
}

/// What a registry enumeration result code means.
pub fn classify_enum_result(code: u32) -> (r: EnumOutcome)
    ensures
        code == 0 ==> r == EnumOutcome::Entry,
        code == ERROR_NO_MORE_ITEMS ==> r == EnumOutcome::Exhausted,
        code != 0 && code != ERROR_NO_MORE_ITEMS ==> r == EnumOutcome::Failed(code),
{
    if code == 0 {
        EnumOutcome::Entry
    } else if code == ERROR_NO_MORE_ITEMS {
        EnumOutcome::Exhausted
    } else {
        EnumOutcome::Failed(code)
    }
}

/// Whether an adapter's connection settings name the adapter `device_name`.
/// `name_value` is the type and data of its `Name` value, or `None` where the
/// connection key or the value could not be read. Only a string value counts;
/// its name is read as UTF-8 (empty where it is not) without trailing NULs.
pub fn connection_names_adapter(name_value: Option<(u32, &[u8])>, device_name: &str) -> (found: bool)
    ensures
        found == match name_value {
            Some((value_type, data)) => value_type == REG_SZ && adapter_name(data@) == device_name@,
            None => false,
        },
{
    match name_value {
        None => false,
        Some((value_type, data)) => {
            if value_type != REG_SZ {
                return false;
            }
            let text = utf8_text_is_decoded(data);
            let name: &str = match text {
                Some(t) => t,
                None => {
                    proof { reveal_strlit(""); }
                    ""
                },
            };
            let ghost chars = name@;
            assert(chars == text_of(data@));
            let mut end = name.unicode_len();
            assert(chars.subrange(0, end as int) =~= chars);
            while end > 0 && name.get_char(end - 1) == '\0'
                invariant
                    end <= chars.len(),
                    chars == name@,
                    trim_trailing_nuls(chars) == trim_trailing_nuls(chars.subrange(0, end as int)),
                decreases end,
            {
                assert(chars.subrange(0, end as int).drop_last() =~= chars.subrange(0, end - 1));
                end = end - 1;
            }
            let ghost trimmed = chars.subrange(0, end as int);
            assert(trim_trailing_nuls(chars) == trimmed);
            assert(adapter_name(data@) == trimmed);
            if device_name.unicode_len() != end {
                return false;
            }
            let mut i: usize = 0;
            while i < end
                invariant
                    i <= end,
                    end == device_name@.len(),
                    end <= chars.len(),
                    chars == name@,
                    trimmed == chars.subrange(0, end as int),
                    adapter_name(data@) == trimmed,
                    name_value == Some((value_type, data)),
                    forall|j: int| 0 <= j < i ==> chars[j] == device_name@[j],
                decreases end - i,
            {
                if name.get_char(i) != device_name.get_char(i) {
                    assert(trimmed[i as int] != device_name@[i as int]);
                    return false;
                }
                i = i + 1;
            }
            assert(trimmed =~= device_name@);
            true
        },
    }
}

/// What the walk over the registry's adapters does after one entry.
#[derive(Debug, PartialEq, Eq)]
pub enum ScanAction {
    /// This entry is the adapter: the walk ends with its GUID.
    Found,
    /// Go on with the next index.
    Next,
    /// The walk ends without the adapter.
    NotFound,
}

/// The walk's step for one index, from the enumeration result code and,
/// for an entry, whether its connection settings name the adapter.
pub open spec fn scan_next_spec(code: u32, names_adapter: bool) -> ScanAction {
    if code != 0 {
        ScanAction::NotFound
    } else if names_adapter {
        ScanAction::Found
    } else {
        ScanAction::Next
    }
}

/// The walk's step for one index: an enumeration that has no more entries
/// or fails ends the walk without the adapter; an entry that names the
/// adapter ends it with that entry; any other entry moves on.
pub fn scan_next(code: u32, names_adapter: bool) -> (r: ScanAction)
    ensures
        r == scan_next_spec(code, names_adapter),
{
    match classify_enum_result(code) {
        EnumOutcome::Entry => {
            if names_adapter {
                ScanAction::Found
            } else {
                ScanAction::Next
            }
        },
        _ => ScanAction::NotFound,
    }
}

/// The index at which a walk over `entries` (per index, the enumeration
/// result code and whether the entry names the adapter) finds the adapter.
pub open spec fn walk_found(entries: Seq<(u32, bool)>) -> Option<nat>
    decreases entries.len(),
{
    if entries.len() == 0 {
        None
    } else {
        match scan_next_spec(entries[0].0, entries[0].1) {
            ScanAction::Found => Some(0),
            ScanAction::Next => match walk_found(entries.drop_first()) {
                Some(k) => Some(k + 1),
                None => None,
            },
            ScanAction::NotFound => None,
        }
    }
}

/// The first matching adapter wins: the walk finds index `i` exactly when
/// `i` is an entry that names the adapter and every index before it is an
/// entry that does not.
pub proof fn lemma_walk_finds_first_match(entries: Seq<(u32, bool)>, i: nat)
    ensures
        walk_found(entries) == Some(i) <==> {
            &&& i < entries.len()
            &&& entries[i as int].0 == 0
            &&& entries[i as int].1
            &&& forall|j: int| 0 <= j < i ==> #[trigger] entries[j].0 == 0 && !entries[j].1
        },
    decreases entries.len(),
{
    if entries.len() > 0 {
        let rest = entries.drop_first();
        if i > 0 {
            lemma_walk_finds_first_match(rest, (i - 1) as nat);
            if walk_found(entries) == Some(i) {
                assert(scan_next_spec(entries[0].0, entries[0].1) == ScanAction::Next);
                assert(walk_found(rest) == Some((i - 1) as nat));
                assert forall|j: int| 0 <= j < i implies #[trigger] entries[j].0 == 0 && !entries[j].1 by {
                    if j > 0 {
                        assert(rest[j - 1] == entries[j]);
                    }
                }
                assert(rest[i - 1] == entries[i as int]);
            }
            if i < entries.len() && entries[i as int].0 == 0 && entries[i as int].1
                && forall|j: int| 0 <= j < i ==> #[trigger] entries[j].0 == 0 && !entries[j].1 {
                assert(entries[0].0 == 0 && !entries[0].1);
                assert forall|j: int| 0 <= j < i - 1 implies #[trigger] rest[j].0 == 0 && !rest[j].1 by {
                    assert(rest[j] == entries[j + 1]);
                }
                assert(rest[i - 1] == entries[i as int]);
            }
        }
    }
}

/// The text that reports that no adapter has the name `device_name`.
pub fn adapter_not_found_message(device_name: &str) -> (text: String)
    ensures
        text@ == "TAP device with name '"@ + device_name@ + "' not found in Windows."@,
{
    let mut text = "TAP device with name '".to_owned();
    text.append(device_name);
    text.append("' not found in Windows.");
    text
}


// ---------------------------------------------------------------------------
// Bringing the adapter up.
// ---------------------------------------------------------------------------

/// A stage of opening and configuring the TAP adapter.
#[derive(Debug, PartialEq, Eq, Clone, Copy)]
pub enum SetupStage {
    /// Find the adapter's GUID in the registry.
    FindAdapter,
    /// Open the adapter's device for overlapped IO.
    OpenDevice,
    /// Set the adapter "media connected".
    SetMediaConnected,
    /// Give the adapter its address and MTU.
    Configure,
}

/// What to do after a stage of bringing the adapter up.
#[derive(Debug, PartialEq, Eq)]
pub enum SetupAction {
    /// Run this stage next.
    Run(SetupStage),
    /// The adapter is up: hand its device handle over.
    Ready,
    /// The stage failed and bringing the adapter up ends with its error;
    /// `close_handle` says whether the device was opened and its handle must
    /// now be closed.
    Fail { close_handle: bool },
}

/// The step after a stage of bringing the adapter up.
pub open spec fn setup_next_spec(stage: SetupStage, ok: bool) -> SetupAction {
    if !ok {
        SetupAction::Fail {
            close_handle: stage == SetupStage::SetMediaConnected || stage == SetupStage::Configure,
        }
    } else {
        match stage {
            SetupStage::FindAdapter => SetupAction::Run(SetupStage::OpenDevice),
            SetupStage::OpenDevice => SetupAction::Run(SetupStage::SetMediaConnected),
            SetupStage::SetMediaConnected => SetupAction::Run(SetupStage::Configure),
            SetupStage::Configure => SetupAction::Ready,
        }
    }
}

/// The step after a stage of bringing the adapter up: the adapter is found,
/// its device opened, set "media connected" before it gets its address and
/// MTU, and the first failing stage ends it, closing the device handle
/// exactly when the device had been opened.
pub fn setup_next(stage: SetupStage, ok: bool) -> (action: SetupAction)
    ensures
        action == setup_next_spec(stage, ok),
{
    if !ok {
        let close_handle = match stage {
            SetupStage::SetMediaConnected | SetupStage::Configure => true,
            _ => false,
        };
        SetupAction::Fail { close_handle }
    } else {
        match stage {
            SetupStage::FindAdapter => SetupAction::Run(SetupStage::OpenDevice),
            SetupStage::OpenDevice => SetupAction::Run(SetupStage::SetMediaConnected),
            SetupStage::SetMediaConnected => SetupAction::Run(SetupStage::Configure),
            SetupStage::Configure => SetupAction::Ready,
        }
    }
}

/// Whether the device is open once `stage` has succeeded.
pub open spec fn device_open_after(stage: SetupStage) -> bool {
    stage != SetupStage::FindAdapter
}

/// The `i`-th stage of bringing the adapter up.
pub open spec fn stage_at(i: int) -> SetupStage {
    if i == 0 {
        SetupStage::FindAdapter
    } else if i == 1 {
        SetupStage::OpenDevice
    } else if i == 2 {
        SetupStage::SetMediaConnected
    } else {
        SetupStage::Configure
    }
}

/// The stages of bringing the adapter up, in order, starting with finding
/// the adapter: each next one is the stage that `setup_next` runs after the
/// one before succeeded.
pub open spec fn setup_run_in_order(stages: Seq<SetupStage>) -> bool {
    &&& stages.len() > 0
    &&& stages[0] == SetupStage::FindAdapter
    &&& forall|i: int| 0 <= i < stages.len() - 1 ==>
        setup_next_spec(#[trigger] stages[i], true) == SetupAction::Run(stages[i + 1])
}

/// Bringing the adapter up runs its stages in order and at most once each,
/// so the device is set "media connected" before it is configured; a run
/// that fails at its last stage closes the device handle exactly when an
/// earlier stage had opened it.
pub proof fn lemma_setup_order(stages: Seq<SetupStage>)
    requires
        setup_run_in_order(stages),
    ensures
        stages.len() <= 4,
        forall|i: int| 0 <= i < stages.len() ==> #[trigger] stages[i] == stage_at(i),
        setup_next_spec(stages.last(), false) == (SetupAction::Fail {
            close_handle: stages.len() >= 3,
        }),
        stages.len() >= 3 ==> device_open_after(stages[1]),
{
    assert forall|i: int| 0 <= i < stages.len() implies #[trigger] stages[i] == stage_at(i) by {
        lemma_stage_index(stages, i);
    }
    lemma_stage_index(stages, stages.len() - 1);
    if stages.len() >= 2 {
        lemma_stage_index(stages, 1);
    }
}

proof fn lemma_stage_index(stages: Seq<SetupStage>, k: int)
    requires
        setup_run_in_order(stages),
        0 <= k < stages.len(),
    ensures
        stages[k] == stage_at(k),
        k <= 3,
    decreases k,
{
    if k > 0 {
        lemma_stage_index(stages, k - 1);
        assert(setup_next_spec(stages[k - 1], true) == SetupAction::Run(stages[k]));
    }
}


// ---------------------------------------------------------------------------
// What the decisions above are for.
// ---------------------------------------------------------------------------

/// An overlapped read or write reports exactly the bytes the call moved: it
/// ends with `Ok(n)` only after a call or a completed wait that succeeded
/// with `n` bytes transferred, and every such success ends it with exactly
/// that count; every failure ends it with the Windows error code it reported,
/// except a call still in progress, which is waited for.
pub proof fn lemma_overlapped_reports_bytes_moved(event: OverlappedEvent)
    ensures
        overlapped_next_spec(event) matches OverlappedAction::Done { result: Ok(n), .. } ==> match event {
            OverlappedEvent::CallReturned { ok, transferred, .. } => ok && n == transferred,
            OverlappedEvent::ResultFetched { ok, transferred, .. } => ok && n == transferred,
            OverlappedEvent::EventCreated { .. } => false,
        },
        event matches OverlappedEvent::CallReturned { ok: true, transferred, .. } ==> overlapped_next_spec(event)
            == (OverlappedAction::Done { result: Ok(transferred as usize), close_event: true }),
        event matches OverlappedEvent::ResultFetched { ok: true, transferred, .. } ==> overlapped_next_spec(event)
            == (OverlappedAction::Done { result: Ok(transferred as usize), close_event: true }),
        event matches OverlappedEvent::CallReturned { ok: false, last_error, .. } ==> (last_error != ERROR_IO_PENDING
            ==> overlapped_next_spec(event) == (OverlappedAction::Done { result: Err(last_error), close_event: true })),
        event matches OverlappedEvent::ResultFetched { ok: false, last_error, .. }
            ==> overlapped_next_spec(event) == (OverlappedAction::Done { result: Err(last_error), close_event: true }),
{
}

/// The adapter is reported "media connected" only when a media-status
/// request succeeded: every run that ends with `Ok` ends on an event whose
/// request returned ok. A request the driver rejects at once, with any code
/// other than "pending" or "invalid function", ends setting the status with
/// that code; the codes of every other failure are kept too.
pub proof fn lemma_media_connected_only_on_success(event: MediaEvent)
    ensures
        media_ok_needs_success(event),
        event matches MediaEvent::IoctlReturned { ok: false, last_error: c } ==> (
            c != ERROR_IO_PENDING && c != ERROR_INVALID_FUNCTION ==> media_next_spec(event)
            == (MediaAction::Finish { result: Err(MediaStatusError::Rejected(c)), close_event: true })),
        event matches MediaEvent::OverlappedFinished { ok: false, last_error: c } ==> media_next_spec(event)
            == (MediaAction::Finish { result: Err(MediaStatusError::Overlapped(c)), close_event: true }),
        event matches MediaEvent::FallbackIoctlReturned { ok: false, last_error: c } ==> (c != ERROR_IO_PENDING
            ==> media_next_spec(event)
            == (MediaAction::Finish { result: Err(MediaStatusError::Fallback(c)), close_event: true })),
        event matches MediaEvent::FallbackOverlappedFinished { ok: false, last_error: c } ==> media_next_spec(event)
            == (MediaAction::Finish { result: Err(MediaStatusError::Fallback(c)), close_event: true }),
        event matches MediaEvent::EventCreated { created: false, last_error: c } ==> media_next_spec(event)
            == (MediaAction::Finish { result: Err(MediaStatusError::EventCreation(c)), close_event: false }),
{
}

/// `Ok` comes only from a request that returned ok.
pub open spec fn media_ok_needs_success(event: MediaEvent) -> bool {
    media_next_spec(event) matches MediaAction::Finish { result: Ok(_), .. } ==> match event {
        MediaEvent::EventCreated { .. } => false,
        MediaEvent::IoctlReturned { ok, .. } => ok,
        MediaEvent::OverlappedFinished { ok, .. } => ok,
        MediaEvent::FallbackIoctlReturned { ok, .. } => ok,
        MediaEvent::FallbackOverlappedFinished { ok, .. } => ok,
    }
}

/// The MTU command names the MTU asked for, whatever it is: its sixth
/// argument is `mtu=` followed by digits that read back as that MTU; the
/// other arguments do not depend on the MTU.
pub proof fn lemma_mtu_argument_names_mtu(device_name: Seq<char>, mtu: u16, other: u16)
    ensures
        mtu_args_spec(device_name, mtu).len() == 7,
        mtu_args_spec(device_name, mtu)[5].take(4) == "mtu="@,
        all_digits(mtu_args_spec(device_name, mtu)[5].skip(4)),
        mtu_args_spec(device_name, mtu)[5].len() > 4,
        read_decimal(mtu_args_spec(device_name, mtu)[5].skip(4)) == mtu,
        mtu_args_spec(device_name, mtu)[4] == device_name,
        forall|i: int| 0 <= i < 7 && i != 5 ==>
            #[trigger] mtu_args_spec(device_name, mtu)[i] == mtu_args_spec(device_name, other)[i],
{
    reveal_strlit("mtu=");
    let arg = mtu_args_spec(device_name, mtu)[5];
    assert(arg == "mtu="@ + decimal(mtu as nat));
    assert(arg.take(4) =~= "mtu="@);
    assert(arg.skip(4) =~= decimal(mtu as nat));
    lemma_decimal_reads_back(mtu as nat);
}

/// The address command gives the adapter exactly the address asked for,
/// with mask 255.255.255.0 and nothing more (no gateway): eight arguments,
/// the address seventh and the mask last, the others the same for every
/// address.
pub proof fn lemma_address_arguments(device_name: Seq<char>, tap_ip: Seq<char>, other_ip: Seq<char>)
    ensures
        address_args_spec(device_name, tap_ip).len() == 8,
        address_args_spec(device_name, tap_ip)[6] == tap_ip,
        address_args_spec(device_name, tap_ip)[7] == "255.255.255.0"@,
        address_args_spec(device_name, tap_ip)[4] == "name="@ + device_name,
        forall|i: int| 0 <= i < 8 && i != 6 ==>
            #[trigger] address_args_spec(device_name, tap_ip)[i] == address_args_spec(device_name, other_ip)[i],
{
}

/// The command that enables the interface names it and nothing else
/// depends on the name.
pub proof fn lemma_enable_arguments(device_name: Seq<char>, other_name: Seq<char>)
    ensures
        enable_args_spec(device_name).len() == 5,
        enable_args_spec(device_name)[3] == "name="@ + device_name,
        forall|i: int| 0 <= i < 5 && i != 3 ==>
            #[trigger] enable_args_spec(device_name)[i] == enable_args_spec(other_name)[i],
{
}

/// `k` NUL characters.
pub open spec fn nuls(k: nat) -> Seq<char> {
    Seq::new(k, |i: int| '\0')
}

/// A registry name value loses no character of the name it holds: the
/// UTF-8 bytes of any name that does not end in NUL, followed by any number
/// of NULs, read back as exactly that name, however long.
pub proof fn lemma_adapter_name_keeps_name(name: Seq<char>, k: nat)
    requires
        name.len() == 0 || name.last() != '\0',
    ensures
        adapter_name(vstd::utf8::encode_utf8(name + nuls(k))) == name,
    decreases k,
{
    let chars = name + nuls(k);
    vstd::utf8::encode_utf8_valid_utf8(chars);
    vstd::utf8::encode_utf8_decode_utf8(chars);
    assert(text_of(vstd::utf8::encode_utf8(chars)) == chars);
    lemma_trim_nuls(name, k);
}

proof fn lemma_trim_nuls(name: Seq<char>, k: nat)
    requires
        name.len() == 0 || name.last() != '\0',
    ensures
        trim_trailing_nuls(name + nuls(k)) == name,
    decreases k,
{
    if k == 0 {
        assert(name + nuls(0) =~= name);
    } else {
        let chars = name + nuls(k);
        assert(chars.last() == '\0');
        assert(chars.drop_last() =~= name + nuls((k - 1) as nat));
        lemma_trim_nuls(name, (k - 1) as nat);
    }
}

/// Every media-status message carries its Windows error code: right after
/// `GetLastError=` come digits that read back as the code.
pub proof fn lemma_media_message_carries_code(e: MediaStatusError)
    ensures
        ({
            let (prefix, code) = match e {
                MediaStatusError::EventCreation(c) => ("Failed to create event for overlapped IO (GetLastError="@, c),
                MediaStatusError::Overlapped(c) => ("Overlapped DeviceIoControl failed (GetLastError="@, c),
                MediaStatusError::Fallback(c) => ("Synchronous DeviceIoControl fallback failed (GetLastError="@, c),
                MediaStatusError::Rejected(c) => ("Failed to set TAP adapter media status (GetLastError="@, c),
            };
            let text = media_error_text(e);
            let digits = decimal(code as nat);
            &&& text.take(prefix.len() as int) == prefix
            &&& text.subrange(prefix.len() as int, (prefix.len() + digits.len()) as int) == digits
            &&& all_digits(digits)
            &&& read_decimal(digits) == code
            &&& (prefix.len() + digits.len() == text.len() || !('0' <= text[(prefix.len() + digits.len()) as int] <= '9'))
        }),
{
    let (prefix, code) = match e {
        MediaStatusError::EventCreation(c) => ("Failed to create event for overlapped IO (GetLastError="@, c),
        MediaStatusError::Overlapped(c) => ("Overlapped DeviceIoControl failed (GetLastError="@, c),
        MediaStatusError::Fallback(c) => ("Synchronous DeviceIoControl fallback failed (GetLastError="@, c),
        MediaStatusError::Rejected(c) => ("Failed to set TAP adapter media status (GetLastError="@, c),
    };
    let digits = decimal(code as nat);
    lemma_decimal_reads_back(code as nat);
    reveal_strlit(").");
    reveal_strlit("): ");
    let rest: Seq<char> = match e {
        MediaStatusError::EventCreation(_) => ")."@,
        MediaStatusError::Overlapped(_) => ")."@,
        MediaStatusError::Fallback(c) => "): "@ + error_description(c),
        MediaStatusError::Rejected(c) => "): "@ + error_description(c) + "."@,
    };
    let text = media_error_text(e);
    assert(text =~= prefix + digits + rest);
    assert(text.take(prefix.len() as int) =~= prefix);
    assert(text.subrange(prefix.len() as int, (prefix.len() + digits.len()) as int) =~= digits);
    assert(rest.len() > 0 && rest[0] == ')');
    if prefix.len() + digits.len() < text.len() {
        assert(text[(prefix.len() + digits.len()) as int] == rest[0]);
    }
}

} // verus!
