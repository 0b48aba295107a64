//! Which USB interface speaks the Mi Assistant dialect, and how a bulk
//! transfer advances.

use vstd::prelude::*;

verus! {

/// Interface class of the dialect: vendor specific.
pub const MI_CLASS: u8 = 0xff;

/// Interface subclass of the dialect.
pub const MI_SUBCLASS: u8 = 0x42;

/// Interface protocol of the dialect.
pub const MI_PROTOCOL: u8 = 0x01;

/// The bit of an endpoint address that marks the direction to the host.
pub const DIRECTION_IN: u8 = 0x80;

/// One endpoint of an interface setting.
#[derive(Debug, Clone, Copy, PartialEq, Eq, Structural)]
pub struct Endpoint {
    pub address: u8,
    /// Whether its transfer type is bulk.
    pub bulk: bool,
}

/// One alternate setting of an interface, as its descriptor gives it.
#[derive(Debug, PartialEq, Eq)]
pub struct InterfaceSetting {
    pub interface_number: u8,
    pub class_code: u8,
    pub sub_class_code: u8,
    pub protocol_code: u8,
    pub endpoints: Vec<Endpoint>,
}

/// An interface to talk to: its number and its two bulk endpoints.
#[derive(Debug, Clone, Copy, PartialEq, Eq, Structural)]
pub struct InterfaceMatch {
    pub interface_number: u8,
    pub ep_in: u8,
    pub ep_out: u8,
}

/// Why no transport could be had, or a transfer failed.
#[derive(Debug, Clone, Copy, PartialEq, Eq, Structural)]
pub enum UsbError {
    /// No interface of the dialect was found.
    DeviceNotFound,
    /// Fewer interfaces were found than the index asks for.
    IndexOutOfRange { index: usize, found: usize },
    /// A transfer moved no byte: the endpoint has stalled or timed out.
    TransportStall { done: usize, total: usize },
}

/// Whether an endpoint address points to the host.
pub open spec fn is_in(address: u8) -> bool {
    address & DIRECTION_IN != 0
}

/// The address of the last bulk endpoint among `eps` in the given
/// direction.
pub open spec fn last_bulk(eps: Seq<Endpoint>, to_host: bool) -> Option<u8>
    decreases eps.len(),
{
    if eps.len() == 0 {
        None
    } else if eps.last().bulk && is_in(eps.last().address) == to_host {
        Some(eps.last().address)
    } else {
        last_bulk(eps.drop_last(), to_host)
    }
}

/// The interface that a setting offers: its class, subclass and protocol
/// must be those of the dialect, and it must have a bulk endpoint in each
/// direction.
pub open spec fn matched(
    interface_number: u8,
    class_code: u8,
    sub_class_code: u8,
    protocol_code: u8,
    eps: Seq<Endpoint>,
) -> Option<InterfaceMatch> {
    if class_code == MI_CLASS && sub_class_code == MI_SUBCLASS && protocol_code == MI_PROTOCOL
        && last_bulk(eps, true) is Some && last_bulk(eps, false) is Some {
        Some(
            InterfaceMatch {
                interface_number,
                ep_in: last_bulk(eps, true)->Some_0,
                ep_out: last_bulk(eps, false)->Some_0,
            },
        )
    } else {
        None
    }
}

/// The interface that a setting offers, if it speaks the dialect.
pub fn match_setting(setting: &InterfaceSetting) -> (r: Option<InterfaceMatch>)
    ensures
        r == matched(
            setting.interface_number,
            setting.class_code,
            setting.sub_class_code,
            setting.protocol_code,
            setting.endpoints@,
        ),
{
    if !(setting.class_code == MI_CLASS && setting.sub_class_code == MI_SUBCLASS
        && setting.protocol_code == MI_PROTOCOL) {
        return None;
    }
    let eps = &setting.endpoints;
    let mut ep_in: Option<u8> = None;
    let mut ep_out: Option<u8> = None;
    let mut i: usize = 0;
    assert(eps@.take(0) =~= Seq::<Endpoint>::empty());
    while i < eps.len()
        invariant
            i <= eps@.len(),
            ep_in == last_bulk(eps@.take(i as int), true),
            ep_out == last_bulk(eps@.take(i as int), false),
        decreases eps@.len() - i,
    {
        assert(eps@.take(i as int + 1).drop_last() =~= eps@.take(i as int));
        let ep = eps[i];
        if ep.bulk {
            if ep.address & DIRECTION_IN != 0 {
                ep_in = Some(ep.address);
            } else {
                ep_out = Some(ep.address);
            }
        }
        i += 1;
    }
    assert(eps@.take(i as int) =~= eps@);
    match (ep_in, ep_out) {
        (Some(a), Some(b)) => Some(
            InterfaceMatch { interface_number: setting.interface_number, ep_in: a, ep_out: b },
        ),
        _ => None,
    }
}

/// Picks the interface to open among `found` matches, by its index from 0.
pub fn pick_match(found: usize, device_index: usize) -> (r: Result<usize, UsbError>)
    ensures
        found == 0 ==> r == Err::<usize, UsbError>(UsbError::DeviceNotFound),
        found > 0 && device_index >= found ==> r == Err::<usize, UsbError>(
            UsbError::IndexOutOfRange { index: device_index, found },
        ),
        device_index < found ==> r == Ok::<usize, UsbError>(device_index),
{
    if found == 0 {
        Err(UsbError::DeviceNotFound)
    } else if device_index >= found {
        Err(UsbError::IndexOutOfRange { index: device_index, found })
    } else {
        Ok(device_index)
    }
}

/// How far a transfer of `total` bytes has come.
#[derive(Debug, Clone, Copy, PartialEq, Eq, Structural)]
pub struct Transfer {
    pub done: usize,
    pub total: usize,
}

impl Transfer {
    /// A transfer of `total` bytes, none of them moved yet.
    pub fn new(total: usize) -> (t: Self)
        ensures
            t == (Transfer { done: 0, total }),
    {
        Transfer { done: 0, total }
    }

    /// Whether every byte has been moved.
    pub fn complete(&self) -> (r: bool)
        ensures
            r == (self.done >= self.total),
    {
        self.done >= self.total
    }

    /// Counts the `n` bytes that one bulk transfer has moved. None moved
    /// is a stall, and the transfer has failed.
    pub fn advance(&mut self, n: usize) -> (r: Result<(), UsbError>)
        requires
            old(self).done <= old(self).total,
            n <= old(self).total - old(self).done,
        ensures
            n == 0 ==> r == Err::<(), UsbError>(
                UsbError::TransportStall { done: old(self).done, total: old(self).total },
            ) && *final(self) == *old(self),
            n > 0 ==> r is Ok && final(self).done == old(self).done + n && final(self).total
                == old(self).total,
    {
        if n == 0 {
            return Err(UsbError::TransportStall { done: self.done, total: self.total });
        }
        self.done = self.done + n;
        Ok(())
    }
}

} // verus!
