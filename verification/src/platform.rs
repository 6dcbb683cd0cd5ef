//! The constants and comparisons of the `windows` crate that the decisions rest on.
use crate::context::ContextId;
use vstd::prelude::*;

verus! {

/// `EVENT_SYSTEM_FOREGROUND`: the event number that announces a new foreground window,
/// which the `windows` crate defines as 3.
#[verifier::external_body]
pub(crate) fn event_system_foreground() -> (event: u32)
    ensures
        event == 3,
{
    windows::Win32::UI::WindowsAndMessaging::EVENT_SYSTEM_FOREGROUND
}

/// `WAIT_OBJECT_0`: what a wait returns when its first handle is signalled, which the
/// `windows` crate defines as 0.
#[verifier::external_body]
pub(crate) fn wait_object_0() -> (signal: u32)
    ensures
        signal == 0,
{
    windows::Win32::Foundation::WAIT_OBJECT_0.0
}

/// `WAIT_FAILED`: what a wait returns when it fails, which the `windows` crate defines as
/// 0xFFFFFFFF.
#[verifier::external_body]
pub(crate) fn wait_failed() -> (signal: u32)
    ensures
        signal == 0xFFFF_FFFF,
{
    windows::Win32::Foundation::WAIT_FAILED.0
}

/// `AUDCLNT_E_DEVICE_IN_USE`: the error of an audio device that another program holds for
/// itself, which the `windows` crate defines as 0x8889000A; as a signed number that is
/// -0x7776FFF6.
#[verifier::external_body]
pub(crate) fn device_in_use() -> (code: i32)
    ensures
        code == -0x7776_FFF6,
{
    windows::Win32::Media::Audio::AUDCLNT_E_DEVICE_IN_USE.0
}

/// `AUDCLNT_SHAREMODE_SHARED`: the mode of a stream that shares the device with other
/// programs, which the `windows` crate defines as 0.
#[verifier::external_body]
pub(crate) fn sharemode_shared() -> (mode: i32)
    ensures
        mode == 0,
{
    windows::Win32::Media::Audio::AUDCLNT_SHAREMODE_SHARED.0
}

/// `AUDCLNT_STREAMFLAGS_EVENTCALLBACK`: the flag of a stream that signals an event when it
/// wants data, which the `windows` crate defines as 262144, or 0x40000.
#[verifier::external_body]
pub(crate) fn streamflags_eventcallback() -> (flags: u32)
    ensures
        flags == 0x40000,
{
    windows::Win32::Media::Audio::AUDCLNT_STREAMFLAGS_EVENTCALLBACK
}

/// `INFINITE`: the timeout of a wait that never times out, which the `windows` crate
/// defines as 0xFFFFFFFF.
#[verifier::external_body]
pub(crate) fn infinite() -> (timeout: u32)
    ensures
        timeout == 0xFFFF_FFFF,
{
    windows::Win32::System::Threading::INFINITE
}

/// `QS_ALLINPUT`: the mask of all kinds of window messages, which the `windows` crate
/// defines as 1279, or 0x4FF.
#[verifier::external_body]
pub(crate) fn all_input() -> (input: u32)
    ensures
        input == 0x4FF,
{
    windows::Win32::UI::WindowsAndMessaging::QS_ALLINPUT.0
}

/// `eRender`: the direction of an endpoint that plays sound, which the `windows` crate
/// defines as 0.
#[verifier::external_body]
pub(crate) fn render_flow() -> (flow: i32)
    ensures
        flow == 0,
{
    windows::Win32::Media::Audio::eRender.0
}

/// `eConsole`: the role of the endpoint for ordinary sounds, which the `windows` crate
/// defines as 0.
#[verifier::external_body]
pub(crate) fn console_role() -> (role: i32)
    ensures
        role == 0,
{
    windows::Win32::Media::Audio::eConsole.0
}

/// `CLSCTX_ALL`: the mask of all places where an object may run, which the `windows` crate
/// defines as 23.
#[verifier::external_body]
pub(crate) fn clsctx_all() -> (context: u32)
    ensures
        context == 23,
{
    windows::Win32::System::Com::CLSCTX_ALL.0
}

/// `PM_REMOVE`: asks that a message is taken off the queue, which the `windows` crate
/// defines as 1.
#[verifier::external_body]
pub(crate) fn pm_remove() -> (removal: u32)
    ensures
        removal == 1,
{
    windows::Win32::UI::WindowsAndMessaging::PM_REMOVE.0
}

/// `WINEVENT_OUTOFCONTEXT`: the flag of a hook that is called in its own process, which the
/// `windows` crate defines as 0.
#[verifier::external_body]
pub(crate) fn winevent_outofcontext() -> (flag: u32)
    ensures
        flag == 0,
{
    windows::Win32::UI::WindowsAndMessaging::WINEVENT_OUTOFCONTEXT
}

/// `WINEVENT_SKIPOWNPROCESS`: the flag of a hook that is not told of the events of its own
/// process, which the `windows` crate defines as 2.
#[verifier::external_body]
pub(crate) fn winevent_skipownprocess() -> (flag: u32)
    ensures
        flag == 2,
{
    windows::Win32::UI::WindowsAndMessaging::WINEVENT_SKIPOWNPROCESS
}

/// `AudioSessionStateExpired`: the state of a session whose streams are all gone, which the
/// `windows` crate defines as 2.
#[verifier::external_body]
pub(crate) fn session_state_expired() -> (state: i32)
    ensures
        state == 2,
{
    windows::Win32::Media::Audio::AudioSessionStateExpired.0
}

/// `==` on `windows::core::GUID`, whose derived `PartialEq` compares the four fields. The
/// two identifiers are built by `GUID::from_values`, which stores its four arguments.
#[verifier::external_body]
pub(crate) fn same_guid(a: &ContextId, b: &ContextId) -> (same: bool)
    ensures
        same == a.same(*b),
{
    let left = windows::core::GUID::from_values(a.data1, a.data2, a.data3, a.data4);
    let right = windows::core::GUID::from_values(b.data1, b.data2, b.data3, b.data4);
    left == right
}

} // verus!
