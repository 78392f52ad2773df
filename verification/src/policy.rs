//! The endpoint names handed to the audio policy service when a default
//! endpoint, or the output of one application, is set.
use vstd::prelude::*;

use crate::device::DeviceDirection;
use crate::text::{append_str, chars_of, ends_with, ends_with_chars, matches_at, occurs_at, string_from_range};

verus! {

/// Prefix of a software-device interface path of an endpoint.
pub open spec fn mmdevapi_token() -> Seq<char> {
    "\\\\?\\SWD#MMDEVAPI#"@
}

/// Interface-class suffix of a render or capture endpoint.
pub open spec fn interface_suffix(direction: DeviceDirection) -> Seq<char> {
    match direction {
        DeviceDirection::Output => "#{e6327cad-dcec-4949-ae8a-991e976a79d2}"@,
        DeviceDirection::Input => "#{2eef81be-33fa-4800-9670-1cd474972c3f}"@,
    }
}

/// The interface path of an endpoint: token, endpoint identifier, suffix.
pub open spec fn interface_path(device_id: Seq<char>, direction: DeviceDirection) -> Seq<char> {
    mmdevapi_token() + device_id + interface_suffix(direction)
}

/// The interface path of an endpoint, as the policy service expects it.
pub fn format_device_id(device_id: &str, direction: DeviceDirection) -> (res: String)
    ensures
        res@ == interface_path(device_id@, direction),
{
    let mut path = String::from_str("\\\\?\\SWD#MMDEVAPI#");
    append_str(&mut path, device_id);
    match direction {
        DeviceDirection::Output => append_str(&mut path, "#{e6327cad-dcec-4949-ae8a-991e976a79d2}"),
        DeviceDirection::Input => append_str(&mut path, "#{2eef81be-33fa-4800-9670-1cd474972c3f}"),
    }
    path
}

/// What is handed to the policy service for an endpoint identifier: nothing
/// for the empty identifier (the setting is cleared), else the interface path.
pub open spec fn persisted_endpoint_value(device_id: Seq<char>, direction: DeviceDirection) -> Option<
    Seq<char>,
> {
    if device_id.len() == 0 {
        None
    } else {
        Some(interface_path(device_id, direction))
    }
}

/// The value stored as persisted default for an endpoint identifier; `None`
/// clears the stored default.
pub fn persisted_endpoint(device_id: &str, direction: DeviceDirection) -> (res: Option<String>)
    ensures
        match res {
            Some(p) => persisted_endpoint_value(device_id@, direction) == Some(p@),
            None => persisted_endpoint_value(device_id@, direction) is None,
        },
{
    let chars = chars_of(device_id);
    if chars.len() == 0 {
        None
    } else {
        Some(format_device_id(device_id, direction))
    }
}

/// The endpoint identifier inside an interface path, for a path made of
/// the token, an identifier and the render or capture suffix.
pub open spec fn path_device_id(path: Seq<char>) -> Option<Seq<char>> {
    let token = mmdevapi_token();
    let render = interface_suffix(DeviceDirection::Output);
    let capture = interface_suffix(DeviceDirection::Input);
    if occurs_at(path, token, 0) && path.len() >= token.len() + render.len() && ends_with(path, render) {
        Some(path.subrange(token.len() as int, path.len() - render.len()))
    } else if occurs_at(path, token, 0) && path.len() >= token.len() + capture.len() && ends_with(
        path,
        capture,
    ) {
        Some(path.subrange(token.len() as int, path.len() - capture.len()))
    } else {
        None
    }
}

/// Reads the endpoint identifier back out of an interface path that the
/// policy service reports; `None` for any other text.
pub fn device_id_of_path(path: &str) -> (res: Option<String>)
    ensures
        match res {
            Some(id) => path_device_id(path@) == Some(id@),
            None => path_device_id(path@) is None,
        },
{
    let chars = chars_of(path);
    let token = chars_of("\\\\?\\SWD#MMDEVAPI#");
    let render = chars_of("#{e6327cad-dcec-4949-ae8a-991e976a79d2}");
    let capture = chars_of("#{2eef81be-33fa-4800-9670-1cd474972c3f}");
    if !matches_at(chars.as_slice(), token.as_slice(), 0) {
        return None;
    }
    let n = chars.len();
    if n - token.len() >= render.len() && ends_with_chars(chars.as_slice(), render.as_slice()) {
        return Some(string_from_range(chars.as_slice(), token.len(), n - render.len()));
    }
    if n - token.len() >= capture.len() && ends_with_chars(chars.as_slice(), capture.as_slice()) {
        return Some(string_from_range(chars.as_slice(), token.len(), n - capture.len()));
    }
    None
}

/// Reading an interface path back gives the endpoint identifier it was made
/// from, for either direction.
pub proof fn law_interface_path_reads_back(device_id: Seq<char>, direction: DeviceDirection)
    ensures
        path_device_id(interface_path(device_id, direction)) == Some(device_id),
{
    reveal_strlit("\\\\?\\SWD#MMDEVAPI#");
    reveal_strlit("#{e6327cad-dcec-4949-ae8a-991e976a79d2}");
    reveal_strlit("#{2eef81be-33fa-4800-9670-1cd474972c3f}");
    let p = interface_path(device_id, direction);
    let token = mmdevapi_token();
    let suffix = interface_suffix(direction);
    assert(p.subrange(0, token.len() as int) =~= token);
    assert(p.subrange(p.len() - suffix.len(), p.len() as int) =~= suffix);
    assert(p.subrange(token.len() as int, p.len() - suffix.len()) =~= device_id);
    let render = interface_suffix(DeviceDirection::Output);
    if direction == DeviceDirection::Input {
        assert(p.subrange(p.len() - render.len(), p.len() as int)[2] != render[2]);
    }
}

} // verus!
