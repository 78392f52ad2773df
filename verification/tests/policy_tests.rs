use audio_hub::device::DeviceDirection;
use audio_hub::policy::{device_id_of_path, format_device_id, persisted_endpoint};

#[test]
fn render_endpoint_gets_the_render_interface_path() {
    assert_eq!(
        format_device_id("{0.0.0.00000000}.{abc}", DeviceDirection::Output),
        r"\\?\SWD#MMDEVAPI#{0.0.0.00000000}.{abc}#{e6327cad-dcec-4949-ae8a-991e976a79d2}"
    );
}

#[test]
fn capture_endpoint_gets_the_capture_interface_path() {
    assert_eq!(
        format_device_id("{0.0.1.00000000}.{def}", DeviceDirection::Input),
        r"\\?\SWD#MMDEVAPI#{0.0.1.00000000}.{def}#{2eef81be-33fa-4800-9670-1cd474972c3f}"
    );
}

#[test]
fn empty_identifier_clears_the_persisted_endpoint() {
    assert_eq!(persisted_endpoint("", DeviceDirection::Output), None);
    assert_eq!(
        persisted_endpoint("x", DeviceDirection::Output),
        Some(r"\\?\SWD#MMDEVAPI#x#{e6327cad-dcec-4949-ae8a-991e976a79d2}".to_string())
    );
}

#[test]
fn interface_paths_read_back_to_their_endpoint() {
    let id = "{0.0.0.00000000}.{abc}";
    assert_eq!(device_id_of_path(&format_device_id(id, DeviceDirection::Output)), Some(id.to_string()));
    assert_eq!(device_id_of_path(&format_device_id(id, DeviceDirection::Input)), Some(id.to_string()));
    assert_eq!(device_id_of_path("speakers"), None);
    assert_eq!(device_id_of_path(""), None);
}
