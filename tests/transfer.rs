use usb_host::comms::{NativeCall, NativeReply, Phase, BULK_ENDPOINT, ERROR_NOT_SUPPORTED};
use usb_host::comms::TransferChannel;
use usb_host::device::DeviceDescriptor;
use usb_host::error::UsbError;
use usb_host::registry::{Probe, USBInterface};

fn channel() -> TransferChannel {
    let mut reg = USBInterface::new(0, 1).unwrap();
    let d = DeviceDescriptor {
        vendor_id: 1,
        product_id: 2,
        i_manufacturer: 0,
        i_product: 0,
        i_serial_number: 0,
        num_configurations: 1,
    };
    reg.open_all_devices(&vec![Probe::Opened(d, 9)]);
    reg.device(0).unwrap().read().unwrap()
}

#[test]
fn read_proceeds_when_detach_is_not_supported() {
    let mut ch = channel();
    assert!(matches!(ch.next_call(), NativeCall::KernelDriverActive { handle: 9, interface: 0 }));
    ch.advance(NativeReply::Code(ERROR_NOT_SUPPORTED));
    assert!(matches!(ch.next_call(), NativeCall::ClaimInterface { handle: 9, interface: 0 }));
    ch.advance(NativeReply::Code(0));
    match ch.next_call() {
        NativeCall::BulkTransfer { handle, endpoint, buffer, timeout_ms } => {
            assert_eq!(handle, 9);
            assert_eq!(endpoint, BULK_ENDPOINT);
            assert_eq!(buffer, vec![0x06]);
            assert_eq!(timeout_ms, 1000);
        }
        other => panic!("unexpected call {:?}", other),
    }
    ch.advance(NativeReply::Transfer { code: 0, buffer: vec![0x41], transferred: 1 });
    assert_eq!(ch.phase(), Phase::Succeeded);
    assert_eq!(ch.outcome(), Some(Ok(vec![0x41])));
    assert!(ch.diagnostics().is_empty());
    assert!(matches!(ch.next_call(), NativeCall::Nothing));
}

#[test]
fn active_driver_is_detached_before_claim() {
    let mut ch = channel();
    ch.advance(NativeReply::Code(1));
    assert!(matches!(ch.next_call(), NativeCall::DetachKernelDriver { handle: 9, interface: 0 }));
    ch.advance(NativeReply::Code(0));
    assert_eq!(ch.phase(), Phase::ReadyToClaim);
    assert!(ch.diagnostics().is_empty());
}

#[test]
fn failed_detach_and_claim_are_diagnostics_only() {
    let mut ch = channel();
    ch.advance(NativeReply::Code(1));
    ch.advance(NativeReply::Code(-6));
    ch.advance(NativeReply::Code(-6));
    assert_eq!(ch.phase(), Phase::Claimed);
    assert_eq!(ch.diagnostics(), vec![UsbError::DetachFailed(-6), UsbError::ClaimFailed(-6)]);
    ch.advance(NativeReply::Transfer { code: 0, buffer: vec![7], transferred: 1 });
    assert_eq!(ch.outcome(), Some(Ok(vec![7])));
}

#[test]
fn query_error_is_reported_and_detach_still_attempted() {
    let mut ch = channel();
    ch.advance(NativeReply::Code(-4));
    assert_eq!(ch.phase(), Phase::DriverActive);
    assert_eq!(ch.diagnostics(), vec![UsbError::DetachFailed(-4)]);
}

#[test]
fn transfer_failure_carries_code_and_handle() {
    let mut ch = channel();
    ch.advance(NativeReply::Code(0));
    ch.advance(NativeReply::Code(0));
    ch.advance(NativeReply::Transfer { code: -7, buffer: vec![6], transferred: 0 });
    assert_eq!(ch.phase(), Phase::Failed);
    assert_eq!(ch.outcome(), Some(Err(UsbError::TransferFailed(-7, 9))));
    ch.advance(NativeReply::Transfer { code: 0, buffer: vec![1], transferred: 1 });
    assert_eq!(ch.outcome(), Some(Err(UsbError::TransferFailed(-7, 9))));
}

#[test]
fn transferred_count_is_clamped() {
    let mut ch = channel();
    ch.advance(NativeReply::Code(0));
    ch.advance(NativeReply::Code(0));
    ch.advance(NativeReply::Transfer { code: 0, buffer: vec![1, 2], transferred: 9 });
    assert_eq!(ch.outcome(), Some(Ok(vec![1, 2])));
    let mut ch2 = channel();
    ch2.advance(NativeReply::Code(0));
    ch2.advance(NativeReply::Code(0));
    ch2.advance(NativeReply::Transfer { code: 0, buffer: vec![1, 2], transferred: -1 });
    assert_eq!(ch2.outcome(), Some(Ok(vec![])));
}

#[test]
fn mismatched_reply_changes_nothing() {
    let mut ch = channel();
    ch.advance(NativeReply::Transfer { code: 0, buffer: vec![1], transferred: 1 });
    assert_eq!(ch.phase(), Phase::Start);
    assert_eq!(ch.outcome(), None);
}
