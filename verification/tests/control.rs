use fakevpn::tap_control::{setup_next, SetupAction, SetupStage};
use fakevpn::tap_control::{
    adapter_not_found_message, adapters_key, address_args, classify_enum_result, configure_next,
    connection_key, connection_names_adapter, enable_args, format_error, guid_text, media_next,
    mtu_args, overlapped_next, overlapped_start, tap_device_path, ConfigureAction, ConfigureError,
    ConfigureEvent, EnumOutcome, MediaAction, MediaEvent, MediaStatusError, OverlappedAction,
    OverlappedEvent, REG_SZ, poll_outcome, read_poll_start, PollOutcome, ReadPollStart, WorkerReply,
    write_poll_start, WritePollStart, scan_next, ScanAction,
};
use fakevpn::text::decimal_text;

#[test]
fn known_error_codes_are_described() {
    assert_eq!(format_error(1), "Invalid function (IOCTL not supported by driver)");
    assert_eq!(format_error(2), "File not found");
    assert_eq!(format_error(5), "Access denied (administrator privileges may be required)");
    assert_eq!(format_error(6), "Invalid handle");
    assert_eq!(
        format_error(32),
        "The process cannot access the file because it is being used by another process"
    );
    assert_eq!(format_error(87), "The parameter is incorrect");
    assert_eq!(format_error(3), "Unknown Windows error");
    assert_eq!(format_error(u32::MAX), "Unknown Windows error");
}

#[test]
fn decimal_text_of_numbers() {
    assert_eq!(decimal_text(0), "0");
    assert_eq!(decimal_text(7), "7");
    assert_eq!(decimal_text(1400), "1400");
    assert_eq!(decimal_text(u32::MAX), "4294967295");
}

#[test]
fn overlapped_io_steps() {
    assert_eq!(overlapped_start(0), OverlappedAction::Done { result: Ok(0), close_event: false });
    assert_eq!(overlapped_start(1514), OverlappedAction::CreateEvent);
    assert_eq!(
        overlapped_next(OverlappedEvent::EventCreated { created: false, last_error: 8 }),
        OverlappedAction::Done { result: Err(8), close_event: false }
    );
    assert_eq!(
        overlapped_next(OverlappedEvent::EventCreated { created: true, last_error: 0 }),
        OverlappedAction::IssueCall
    );
    assert_eq!(
        overlapped_next(OverlappedEvent::CallReturned { ok: true, transferred: 60, last_error: 0 }),
        OverlappedAction::Done { result: Ok(60), close_event: true }
    );
    assert_eq!(
        overlapped_next(OverlappedEvent::CallReturned { ok: false, transferred: 0, last_error: 997 }),
        OverlappedAction::WaitForCompletion
    );
    assert_eq!(
        overlapped_next(OverlappedEvent::CallReturned { ok: false, transferred: 0, last_error: 6 }),
        OverlappedAction::Done { result: Err(6), close_event: true }
    );
    assert_eq!(
        overlapped_next(OverlappedEvent::ResultFetched { ok: true, transferred: 1514, last_error: 0 }),
        OverlappedAction::Done { result: Ok(1514), close_event: true }
    );
    assert_eq!(
        overlapped_next(OverlappedEvent::ResultFetched { ok: false, transferred: 0, last_error: 995 }),
        OverlappedAction::Done { result: Err(995), close_event: true }
    );
}

#[test]
fn media_status_steps() {
    assert_eq!(
        media_next(MediaEvent::EventCreated { created: true, last_error: 0 }),
        MediaAction::IssueIoctl
    );
    assert_eq!(
        media_next(MediaEvent::EventCreated { created: false, last_error: 8 }),
        MediaAction::Finish { result: Err(MediaStatusError::EventCreation(8)), close_event: false }
    );
    assert_eq!(media_next(MediaEvent::IoctlReturned { ok: true, last_error: 0 }), MediaAction::Finish { result: Ok(()), close_event: true });
    assert_eq!(
        media_next(MediaEvent::IoctlReturned { ok: false, last_error: 997 }),
        MediaAction::WaitForCompletion
    );
    assert_eq!(
        media_next(MediaEvent::IoctlReturned { ok: false, last_error: 1 }),
        MediaAction::EnableThenRetry
    );
    assert_eq!(
        media_next(MediaEvent::IoctlReturned { ok: false, last_error: 5 }),
        MediaAction::Finish { result: Err(MediaStatusError::Rejected(5)), close_event: true }
    );
    assert_eq!(
        media_next(MediaEvent::OverlappedFinished { ok: true, last_error: 0 }),
        MediaAction::Finish { result: Ok(()), close_event: true }
    );
    assert_eq!(
        media_next(MediaEvent::OverlappedFinished { ok: false, last_error: 31 }),
        MediaAction::Finish { result: Err(MediaStatusError::Overlapped(31)), close_event: true }
    );
    assert_eq!(
        media_next(MediaEvent::FallbackIoctlReturned { ok: true, last_error: 0 }),
        MediaAction::Finish { result: Ok(()), close_event: true }
    );
    assert_eq!(
        media_next(MediaEvent::FallbackIoctlReturned { ok: false, last_error: 1 }),
        MediaAction::Finish { result: Err(MediaStatusError::Fallback(1)), close_event: true }
    );
}

#[test]
fn media_status_messages() {
    assert_eq!(
        MediaStatusError::EventCreation(8).message(),
        "Failed to create event for overlapped IO (GetLastError=8)."
    );
    assert_eq!(
        MediaStatusError::Overlapped(31).message(),
        "Overlapped DeviceIoControl failed (GetLastError=31)."
    );
    assert_eq!(
        MediaStatusError::Fallback(1).message(),
        "Synchronous DeviceIoControl fallback failed (GetLastError=1): Invalid function (IOCTL not supported by driver)"
    );
    assert_eq!(
        MediaStatusError::Rejected(5).message(),
        "Failed to set TAP adapter media status (GetLastError=5): Access denied (administrator privileges may be required)."
    );
}

#[test]
fn netsh_arguments() {
    assert_eq!(
        enable_args("FC-TAP"),
        vec!["interface", "set", "interface", "name=FC-TAP", "admin=ENABLED"]
    );
    assert_eq!(
        address_args("FC-TAP", "10.0.0.1"),
        vec!["interface", "ipv4", "set", "address", "name=FC-TAP", "static", "10.0.0.1", "255.255.255.0"]
    );
    assert_eq!(
        mtu_args("FC-TAP", 1400),
        vec!["interface", "ipv4", "set", "subinterface", "FC-TAP", "mtu=1400", "store=persistent"]
    );
    assert_eq!(mtu_args("x", 1380)[5], "mtu=1380");
}

#[test]
fn configure_steps() {
    assert_eq!(configure_next(ConfigureEvent::AddressSet(true)), ConfigureAction::SetMtu);
    assert_eq!(
        configure_next(ConfigureEvent::AddressSet(false)),
        ConfigureAction::Done(Err(ConfigureError::Address))
    );
    assert_eq!(configure_next(ConfigureEvent::MtuSet(true)), ConfigureAction::Done(Ok(())));
    assert_eq!(
        configure_next(ConfigureEvent::MtuSet(false)),
        ConfigureAction::Done(Err(ConfigureError::Mtu))
    );
    assert_eq!(
        ConfigureError::Address.message(),
        "Failed to set TAP device IP address. Run the program as Administrator."
    );
    assert_eq!(ConfigureError::Mtu.message(), "Failed to set TAP device MTU.");
}

#[test]
fn registry_enumeration_results() {
    assert_eq!(classify_enum_result(0), EnumOutcome::Entry);
    assert_eq!(classify_enum_result(259), EnumOutcome::Exhausted);
    assert_eq!(classify_enum_result(5), EnumOutcome::Failed(5));
}

#[test]
fn registry_names_are_matched_without_trailing_nuls() {
    assert!(connection_names_adapter(Some((REG_SZ, b"FC-TAP\0")), "FC-TAP"));
    assert!(connection_names_adapter(Some((REG_SZ, b"FC-TAP\0\0\0")), "FC-TAP"));
    assert!(connection_names_adapter(Some((REG_SZ, b"FC-TAP")), "FC-TAP"));
    assert!(!connection_names_adapter(Some((REG_SZ, b"FC-TAP2\0")), "FC-TAP"));
    assert!(!connection_names_adapter(Some((REG_SZ, b"FC-TA\0")), "FC-TAP"));
    assert!(!connection_names_adapter(Some((2, b"FC-TAP\0")), "FC-TAP"));
    assert!(!connection_names_adapter(None, "FC-TAP"));
    assert!(connection_names_adapter(Some((REG_SZ, "Netzwerk ü\0".as_bytes())), "Netzwerk ü"));
    // A name that is not UTF-8 reads as empty.
    assert!(connection_names_adapter(Some((REG_SZ, &[0xff, 0xfe, 0])), ""));
    assert!(!connection_names_adapter(Some((REG_SZ, &[0xff, 0xfe, 0])), "FC-TAP"));
    assert!(connection_names_adapter(Some((REG_SZ, &[])), ""));
}

#[test]
fn registry_paths_and_device_path() {
    assert_eq!(guid_text(b"{ABC-123}"), "{ABC-123}");
    assert_eq!(guid_text(&[0xc3, 0x28]), "");
    assert_eq!(
        adapters_key(),
        "SYSTEM\\CurrentControlSet\\Control\\Network\\{4D36E972-E325-11CE-BFC1-08002BE10318}\0"
    );
    assert_eq!(
        connection_key("{G}"),
        "SYSTEM\\CurrentControlSet\\Control\\Network\\{4D36E972-E325-11CE-BFC1-08002BE10318}\\{G}\\Connection\0"
    );
    assert_eq!(tap_device_path("{G}"), "\\\\.\\Global\\{G}.tap");
    assert_eq!(
        adapter_not_found_message("FC-TAP"),
        "TAP device with name 'FC-TAP' not found in Windows."
    );
}

#[test]
fn reader_polls() {
    assert_eq!(read_poll_start(0, false), ReadPollStart::NoRoom);
    assert_eq!(read_poll_start(0, true), ReadPollStart::NoRoom);
    assert_eq!(read_poll_start(1500, false), ReadPollStart::StartThenCheck { capacity: 1500 });
    assert_eq!(read_poll_start(1500, true), ReadPollStart::Check);
}

#[test]
fn background_operation_replies() {
    assert_eq!(poll_outcome(WorkerReply::NotYet), PollOutcome::Pending);
    assert_eq!(poll_outcome(WorkerReply::Replied), PollOutcome::Ready);
    assert_eq!(poll_outcome(WorkerReply::Vanished), PollOutcome::Cancelled);
    assert!(PollOutcome::Pending.keeps_operation());
    assert!(!PollOutcome::Ready.keeps_operation());
    assert!(!PollOutcome::Cancelled.keeps_operation());
}

#[test]
fn media_status_retry_is_waited_for() {
    assert_eq!(
        media_next(MediaEvent::FallbackIoctlReturned { ok: false, last_error: 997 }),
        MediaAction::WaitForRetryCompletion
    );
    assert_eq!(
        media_next(MediaEvent::FallbackOverlappedFinished { ok: true, last_error: 0 }),
        MediaAction::Finish { result: Ok(()), close_event: true }
    );
    assert_eq!(
        media_next(MediaEvent::FallbackOverlappedFinished { ok: false, last_error: 87 }),
        MediaAction::Finish { result: Err(MediaStatusError::Fallback(87)), close_event: true }
    );
}

#[test]
fn writer_polls() {
    assert_eq!(write_poll_start(false), WritePollStart::StartThenCheck);
    assert_eq!(write_poll_start(true), WritePollStart::Check);
}

#[test]
fn registry_walk_steps() {
    assert_eq!(scan_next(0, true), ScanAction::Found);
    assert_eq!(scan_next(0, false), ScanAction::Next);
    assert_eq!(scan_next(259, false), ScanAction::NotFound);
    assert_eq!(scan_next(5, true), ScanAction::NotFound);
}

#[test]
fn registry_walk_stops_at_first_match() {
    let entries = [(0u32, false), (0, true), (0, true), (259, false)];
    let mut found = None;
    for (i, (code, names)) in entries.iter().enumerate() {
        match scan_next(*code, *names) {
            ScanAction::Found => {
                found = Some(i);
                break;
            }
            ScanAction::NotFound => break,
            ScanAction::Next => {}
        }
    }
    assert_eq!(found, Some(1));
}

fn media_run(events: &[MediaEvent]) -> (usize, Option<Result<(), MediaStatusError>>) {
    let mut closes = 0;
    for e in events {
        if let MediaAction::Finish { result, close_event } = media_next(e.clone_event()) {
            if close_event {
                closes += 1;
            }
            return (closes, Some(result));
        }
    }
    (closes, None)
}

trait CloneEvent {
    fn clone_event(&self) -> MediaEvent;
}

impl CloneEvent for MediaEvent {
    fn clone_event(&self) -> MediaEvent {
        match self {
            MediaEvent::EventCreated { created, last_error } => {
                MediaEvent::EventCreated { created: *created, last_error: *last_error }
            }
            MediaEvent::IoctlReturned { ok, last_error } => {
                MediaEvent::IoctlReturned { ok: *ok, last_error: *last_error }
            }
            MediaEvent::OverlappedFinished { ok, last_error } => {
                MediaEvent::OverlappedFinished { ok: *ok, last_error: *last_error }
            }
            MediaEvent::FallbackIoctlReturned { ok, last_error } => {
                MediaEvent::FallbackIoctlReturned { ok: *ok, last_error: *last_error }
            }
            MediaEvent::FallbackOverlappedFinished { ok, last_error } => {
                MediaEvent::FallbackOverlappedFinished { ok: *ok, last_error: *last_error }
            }
        }
    }
}

#[test]
fn media_status_closes_its_event_once() {
    let fallback = [
        MediaEvent::EventCreated { created: true, last_error: 0 },
        MediaEvent::IoctlReturned { ok: false, last_error: 1 },
        MediaEvent::FallbackIoctlReturned { ok: false, last_error: 997 },
        MediaEvent::FallbackOverlappedFinished { ok: true, last_error: 0 },
    ];
    assert_eq!(media_run(&fallback), (1, Some(Ok(()))));
    let no_event = [MediaEvent::EventCreated { created: false, last_error: 8 }];
    assert_eq!(media_run(&no_event), (0, Some(Err(MediaStatusError::EventCreation(8)))));
}

#[test]
fn adapter_setup_runs_its_stages_in_order() {
    assert_eq!(setup_next(SetupStage::FindAdapter, true), SetupAction::Run(SetupStage::OpenDevice));
    assert_eq!(setup_next(SetupStage::OpenDevice, true), SetupAction::Run(SetupStage::SetMediaConnected));
    assert_eq!(setup_next(SetupStage::SetMediaConnected, true), SetupAction::Run(SetupStage::Configure));
    assert_eq!(setup_next(SetupStage::Configure, true), SetupAction::Ready);
    assert_eq!(setup_next(SetupStage::FindAdapter, false), SetupAction::Fail { close_handle: false });
    assert_eq!(setup_next(SetupStage::OpenDevice, false), SetupAction::Fail { close_handle: false });
    assert_eq!(setup_next(SetupStage::SetMediaConnected, false), SetupAction::Fail { close_handle: true });
    assert_eq!(setup_next(SetupStage::Configure, false), SetupAction::Fail { close_handle: true });
}
