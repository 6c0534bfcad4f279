//! Description records for the serial devices a caller enumerated.

use vstd::prelude::*;

verus! {

/// One enumerated serial device: its name and its presumed availability.
#[derive(Debug)]
pub struct SerialInfo {
    pub name: String,
    pub state: bool,
}

/// Turns the device names a caller enumerated into description records.
///
/// Availability is reported optimistically (`state` is always true) instead
/// of probing each device, which would be slow; this is a documented
/// limitation of the listing.
pub fn list_available_ports(port_names: Vec<String>) -> (r: Vec<SerialInfo>)
    ensures
        r@.len() == port_names@.len(),
        forall|i: int|
            0 <= i < r@.len() ==> #[trigger] r@[i].name@ == port_names@[i]@ && r@[i].state,
{
    let mut ports_detail: Vec<SerialInfo> = Vec::new();
    let mut i: usize = 0;
    while i < port_names.len()
        invariant
            i <= port_names@.len(),
            ports_detail@.len() == i,
            forall|j: int|
                0 <= j < i ==> #[trigger] ports_detail@[j].name@ == port_names@[j]@
                    && ports_detail@[j].state,
        decreases port_names@.len() - i,
    {
        let name = port_names[i].clone();
        ports_detail.push(SerialInfo { name, state: true });
        i += 1;
    }
    ports_detail
}

} // verus!
