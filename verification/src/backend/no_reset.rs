//! Errors of opening a port, and the registry step that keeps USB serial
//! adapters from resetting the device on open.

use vstd::prelude::*;
use crate::text::{contains, eq_ignore_ascii_case, push_str, string_of, text_contains,
    text_eq_ignore_ascii_case};

verus! {

/// The registry has just been configured for the port; the USB cable must
/// be plugged in again before it takes effect.
#[derive(Debug)]
pub struct NeedReconnect(pub String);

/// The message shown for [`NeedReconnect`] on `port`.
pub open spec fn reconnect_message(port: Seq<char>) -> Seq<char> {
    "已完成配置，请重新插拔 USB 数据线后重试（端口："@ + port + "）"@
}

impl NeedReconnect {
    /// The text shown to the user.
    pub fn message(&self) -> (s: String)
        ensures
            s@ == reconnect_message(self.0@),
    {
        let mut v: Vec<char> = Vec::new();
        push_str(&mut v, "已完成配置，请重新插拔 USB 数据线后重试（端口：");
        push_str(&mut v, self.0.as_str());
        push_str(&mut v, "）");
        string_of(v.as_slice())
    }
}

/// Why a port could not be opened.
#[derive(Debug)]
pub enum OpenError {
    /// The configuration was written; the USB cable must be plugged in again.
    NeedReconnect(String),
    /// The system refused access to the port.
    PermissionDenied(String),
    /// Any other failure (no such port, port busy, bad parameters).
    Other(String),
}

impl From<NeedReconnect> for OpenError {
    fn from(e: NeedReconnect) -> (r: Self)
        ensures
            r matches OpenError::NeedReconnect(m) && m@ == reconnect_message(e.0@),
    {
        OpenError::NeedReconnect(e.message())
    }
}

/// `from` follows no spec function: `obeys_from_spec` is false, so what a
/// conversion gives is known only from the `ensures` of `from` above (the
/// message for the port).  `from_spec` is a placeholder the trait requires,
/// of the right variant, and is never relied on.
impl vstd::std_specs::convert::FromSpecImpl<NeedReconnect> for OpenError {
    open spec fn obeys_from_spec() -> bool {
        false
    }

    open spec fn from_spec(e: NeedReconnect) -> Self {
        OpenError::NeedReconnect(e.0)
    }
}

/// Whether the text of an open failure reports refused access.
pub open spec fn is_permission_failure(msg: Seq<char>) -> bool {
    ||| contains(msg, "Permission denied"@)
    ||| contains(msg, "Access is denied"@)
    ||| contains(msg, "os error 13"@)
}

/// Sorts the text of a failure to open a port: refused access keeps the
/// text as it is; anything else is reported as `"打开失败: "` and the text.
pub fn classify_open_failure(msg: String) -> (e: OpenError)
    ensures
        is_permission_failure(msg@) ==> (e matches OpenError::PermissionDenied(m) && m@ == msg@),
        !is_permission_failure(msg@) ==> (e matches OpenError::Other(m) && m@ == "打开失败: "@
            + msg@),
{
    if text_contains(msg.as_str(), "Permission denied") || text_contains(
        msg.as_str(),
        "Access is denied",
    ) || text_contains(msg.as_str(), "os error 13") {
        OpenError::PermissionDenied(msg)
    } else {
        let mut v: Vec<char> = Vec::new();
        push_str(&mut v, "打开失败: ");
        push_str(&mut v, msg.as_str());
        OpenError::Other(string_of(v.as_slice()))
    }
}

/// One USB device instance found in the registry: the port name it is
/// bound to and its `DisableModemOutHandShake` value (0 when absent).
#[derive(Debug)]
pub struct UsbPortInstance {
    pub port_name: String,
    pub disable_modem_out_handshake: u32,
}

/// The first instance bound to `port_name`, if any.
pub fn find_port_instance(port_name: &str, instances: &[UsbPortInstance]) -> (r: Option<usize>)
    ensures
        r matches Some(i) ==> i < instances@.len() && eq_ignore_ascii_case(
            instances@[i as int].port_name@,
            port_name@,
        ) && forall|j: int|
            0 <= j < i ==> !eq_ignore_ascii_case(#[trigger] instances@[j].port_name@, port_name@),
        r is None ==> forall|j: int|
            0 <= j < instances@.len() ==> !eq_ignore_ascii_case(
                #[trigger] instances@[j].port_name@,
                port_name@,
            ),
{
    let mut i: usize = 0;
    while i < instances.len()
        invariant
            i <= instances@.len(),
            forall|j: int|
                0 <= j < i ==> !eq_ignore_ascii_case(#[trigger] instances@[j].port_name@, port_name@),
        decreases instances@.len() - i,
    {
        if text_eq_ignore_ascii_case(instances[i].port_name.as_str(), port_name) {
            return Some(i);
        }
        i = i + 1;
    }
    None
}

/// The step before opening a port with modem handshaking disabled: when
/// the first registry instance bound to the port does not yet have the
/// flag set to 1, the flag must be written and the user must plug the cable
/// in again; otherwise (flag already set, or no instance for the port) the
/// port can be opened.
pub fn prepare(port_name: &str, instances: &[UsbPortInstance]) -> (r: Result<(), NeedReconnect>)
    ensures
        r is Err <==> exists|i: int|
            0 <= i < instances@.len() && eq_ignore_ascii_case(
                #[trigger] instances@[i].port_name@,
                port_name@,
            ) && (forall|j: int|
                0 <= j < i ==> !eq_ignore_ascii_case(#[trigger] instances@[j].port_name@, port_name@))
                && instances@[i].disable_modem_out_handshake != 1,
        r matches Err(e) ==> e.0@ == port_name@,
{
    match find_port_instance(port_name, instances) {
        Some(i) => {
            if instances[i].disable_modem_out_handshake == 1 {
                proof {
                    assert forall|k: int|
                        0 <= k < instances@.len() && eq_ignore_ascii_case(
                            #[trigger] instances@[k].port_name@,
                            port_name@,
                        ) && (forall|j: int|
                            0 <= j < k ==> !eq_ignore_ascii_case(
                                #[trigger] instances@[j].port_name@,
                                port_name@,
                            )) implies instances@[k].disable_modem_out_handshake == 1 by {
                        if k < i {
                        } else if k > i {
                            assert(!eq_ignore_ascii_case(instances@[i as int].port_name@, port_name@));
                        }
                    }
                }
                Ok(())
            } else {
                let chars = crate::text::chars_of(port_name);
                Err(NeedReconnect(string_of(chars.as_slice())))
            }
        },
        None => Ok(()),
    }
}

} // verus!
