use usb_host::device::DeviceDescriptor;
use usb_host::error::UsbError;
use usb_host::registry::{Probe, Release, USBInterface};

fn desc(product_id: u16, vendor_id: u16) -> DeviceDescriptor {
    DeviceDescriptor {
        vendor_id,
        product_id,
        i_manufacturer: 1,
        i_product: 2,
        i_serial_number: 3,
        num_configurations: 1,
    }
}

fn registry(count: isize) -> USBInterface {
    USBInterface::new(0, count).unwrap()
}

fn identity(reg: &USBInterface, position: usize) -> Result<(u16, u16), UsbError> {
    reg.device(position).unwrap().identity()
}

#[test]
fn new_reports_initialization_failure() {
    let r = USBInterface::new(-1, 4);
    assert!(matches!(r, Err(UsbError::InitializationFailed(-1))));
}

#[test]
fn new_reports_enumeration_failure() {
    let r = USBInterface::new(0, -99);
    assert!(matches!(r, Err(UsbError::EnumerationFailed(-99))));
}

#[test]
fn new_starts_with_no_devices() {
    let reg = registry(5);
    assert_eq!(reg.device_count(), 5);
    assert_eq!(reg.len(), 0);
    assert!(reg.device(0).is_none());
}

#[test]
fn open_all_keeps_openable_devices_in_order() {
    let mut reg = registry(3);
    let probes = vec![
        Probe::Opened(desc(1, 10), 100),
        Probe::NotOpened(desc(2, 20), -3),
        Probe::Opened(desc(3, 30), 300),
    ];
    let positions = reg.open_all_devices(&probes);
    assert_eq!(positions, vec![0, 1]);
    assert_eq!(identity(&reg, 0), Ok((10, 1)));
    assert_eq!(identity(&reg, 1), Ok((30, 3)));
    assert_eq!(reg.device(0).unwrap().raw_index(), Ok(0));
    assert_eq!(reg.device(1).unwrap().raw_index(), Ok(2));
    assert_eq!(reg.len(), 2);
}

#[test]
fn open_all_skips_unreadable_descriptors() {
    let mut reg = registry(2);
    let probes = vec![Probe::NoDescriptor(-1), Probe::Opened(desc(7, 8), 5)];
    assert_eq!(reg.open_all_devices(&probes), vec![0]);
    assert_eq!(reg.device(0).unwrap().raw_index(), Ok(1));
}

#[test]
fn open_all_with_nothing_openable_is_empty() {
    let mut reg = registry(2);
    let probes = vec![Probe::NoDescriptor(-1), Probe::NotOpened(desc(7, 8), -3)];
    assert!(reg.open_all_devices(&probes).is_empty());
    assert_eq!(reg.len(), 0);
}

#[test]
fn open_all_returns_the_whole_set_and_keeps_one_per_device() {
    let mut reg = registry(2);
    let first = vec![Probe::Opened(desc(1, 10), 100), Probe::NotOpened(desc(2, 20), -3)];
    assert_eq!(reg.open_all_devices(&first), vec![0]);
    let second = vec![Probe::Skipped, Probe::Opened(desc(2, 20), 200)];
    assert_eq!(reg.open_all_devices(&second), vec![0, 1]);
    let again = vec![Probe::Opened(desc(1, 10), 101), Probe::Opened(desc(2, 20), 201)];
    assert_eq!(reg.open_all_devices(&again), vec![0, 1]);
    assert_eq!(reg.len(), 2);
    assert_eq!(
        reg.teardown(),
        vec![Release::CloseHandle(100), Release::CloseHandle(200), Release::FreeDeviceList]
    );
}

#[test]
fn open_all_refuses_a_handle_already_held() {
    let mut reg = registry(2);
    let probes = vec![Probe::Opened(desc(1, 10), 100), Probe::Opened(desc(2, 20), 100)];
    assert_eq!(reg.open_all_devices(&probes), vec![0]);
    assert_eq!(reg.held_position(1), None);
}

fn five_descriptors() -> Vec<Result<DeviceDescriptor, i32>> {
    vec![
        Ok(desc(0x0001, 0x1111)),
        Ok(desc(0x0002, 0x2222)),
        Ok(desc(0xEA60, 0x10C4)),
        Ok(desc(0x0004, 0x4444)),
        Ok(desc(0xEA60, 0x10C4)),
    ]
}

#[test]
fn open_device_finds_identity_at_index_two() {
    let mut reg = registry(5);
    let descriptors = five_descriptors();
    assert_eq!(reg.find_device(0xEA60, 0x10C4, &descriptors), Ok(2));
    let position = reg.open_device(0xEA60, 0x10C4, &descriptors, Ok(77)).unwrap();
    assert_eq!(identity(&reg, position), Ok((0x10C4, 0xEA60)));
    assert_eq!(reg.device(position).unwrap().raw_index(), Ok(2));
    assert_eq!(reg.len(), 1);
}

#[test]
fn open_device_needs_only_the_scanned_prefix() {
    let mut reg = registry(5);
    let all = five_descriptors();
    let mut read = Vec::new();
    for d in all {
        let stop = USBInterface::scan_stops(0xEA60, 0x10C4, &d);
        read.push(d);
        if stop {
            break;
        }
    }
    assert_eq!(read.len(), 3);
    let position = reg.open_device(0xEA60, 0x10C4, &read, Ok(77)).unwrap();
    assert_eq!(reg.device(position).unwrap().raw_index(), Ok(2));
}

#[test]
fn open_device_twice_returns_the_held_device() {
    let mut reg = registry(5);
    let descriptors = five_descriptors();
    let p = reg.open_device(0xEA60, 0x10C4, &descriptors, Ok(77)).unwrap();
    assert_eq!(reg.held_position(2), Some(p));
    let q = reg.open_device(0xEA60, 0x10C4, &descriptors, Ok(78)).unwrap();
    assert_eq!(p, q);
    assert_eq!(reg.len(), 1);
}

#[test]
fn open_device_refuses_a_handle_already_held() {
    let mut reg = registry(5);
    let descriptors = five_descriptors();
    reg.open_device(0x0001, 0x1111, &descriptors, Ok(77)).unwrap();
    let r = reg.open_device(0xEA60, 0x10C4, &descriptors, Ok(77));
    assert_eq!(r, Err(UsbError::HandleInUse(77)));
    assert_eq!(reg.len(), 1);
}

#[test]
fn open_device_of_closed_device_is_refused() {
    let mut reg = registry(5);
    let descriptors = five_descriptors();
    let p = reg.open_device(0xEA60, 0x10C4, &descriptors, Ok(77)).unwrap();
    assert_eq!(reg.close(p), Ok(()));
    assert_eq!(reg.open_device(0xEA60, 0x10C4, &descriptors, Ok(78)), Err(UsbError::DeviceClosed));
}

#[test]
fn open_device_unknown_identity_is_not_found() {
    let mut reg = registry(5);
    let descriptors = five_descriptors();
    let r = reg.open_device(0xBEEF, 0xCAFE, &descriptors, Ok(77));
    assert_eq!(r, Err(UsbError::DeviceNotFound));
    assert_eq!(reg.len(), 0);
}

#[test]
fn open_device_on_empty_list_is_not_found() {
    let mut reg = registry(0);
    let r = reg.open_device(1, 2, &vec![], Ok(1));
    assert_eq!(r, Err(UsbError::DeviceNotFound));
}

#[test]
fn open_device_descriptor_failure_stops_scan() {
    let mut reg = registry(3);
    let descriptors = vec![Ok(desc(1, 1)), Err(-7), Ok(desc(0xEA60, 0x10C4))];
    assert!(USBInterface::scan_stops(0xEA60, 0x10C4, &descriptors[1]));
    let r = reg.open_device(0xEA60, 0x10C4, &descriptors, Ok(9));
    assert_eq!(r, Err(UsbError::DescriptorReadFailed(-7)));
}

#[test]
fn open_device_ignores_failure_after_match() {
    let mut reg = registry(2);
    let descriptors = vec![Ok(desc(0xEA60, 0x10C4)), Err(-7)];
    assert_eq!(reg.find_device(0xEA60, 0x10C4, &descriptors), Ok(0));
    let position = reg.open_device(0xEA60, 0x10C4, &descriptors, Ok(5)).unwrap();
    assert_eq!(reg.device(position).unwrap().raw_index(), Ok(0));
}

#[test]
fn open_device_reports_open_failure() {
    let mut reg = registry(5);
    let r = reg.open_device(0xEA60, 0x10C4, &five_descriptors(), Err(-3));
    assert_eq!(r, Err(UsbError::OpenFailed(-3)));
    assert_eq!(reg.len(), 0);
}

#[test]
fn close_through_registry_is_idempotent() {
    let mut reg = registry(1);
    reg.open_all_devices(&vec![Probe::Opened(desc(1, 10), 100)]);
    assert_eq!(reg.close(0), Ok(()));
    assert_eq!(reg.close(0), Ok(()));
    assert!(!reg.device(0).unwrap().can_use());
    assert_eq!(identity(&reg, 0), Err(UsbError::DeviceClosed));
    assert_eq!(reg.close(3), Err(UsbError::DeviceNotFound));
    assert_eq!(reg.teardown(), vec![Release::CloseHandle(100), Release::FreeDeviceList]);
}

#[test]
fn teardown_releases_each_handle_then_the_list() {
    let mut reg = registry(3);
    let probes = vec![
        Probe::Opened(desc(1, 10), 100),
        Probe::NotOpened(desc(2, 20), -3),
        Probe::Opened(desc(3, 30), 300),
    ];
    reg.open_all_devices(&probes);
    reg.close(1).unwrap();
    let plan = reg.teardown();
    assert_eq!(
        plan,
        vec![Release::CloseHandle(100), Release::CloseHandle(300), Release::FreeDeviceList]
    );
}

#[test]
fn teardown_of_empty_registry_frees_only_the_list() {
    let reg = registry(0);
    assert_eq!(reg.teardown(), vec![Release::FreeDeviceList]);
}

#[test]
fn teardown_includes_devices_opened_on_demand() {
    let mut reg = registry(5);
    reg.open_device(0xEA60, 0x10C4, &five_descriptors(), Ok(42)).unwrap();
    assert_eq!(reg.teardown(), vec![Release::CloseHandle(42), Release::FreeDeviceList]);
}

#[test]
fn version_string_is_formatted() {
    assert_eq!(USBInterface::libusb_version_string(1, 0, 27, 11882), "libusb v1.0.27.11882");
    assert_eq!(USBInterface::libusb_version_string(0, 0, 0, 0), "libusb v0.0.0.0");
    assert_eq!(USBInterface::libusb_version_string(65535, 10, 9, 100), "libusb v65535.10.9.100");
}
