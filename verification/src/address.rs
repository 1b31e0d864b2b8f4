//! The addresses in endpoints: `<device>` or `<adapter>@<device>`.
use vstd::prelude::*;
use vstd::string::*;
use crate::text;

verus! {

/// The adapter that an address names, if it names one: what stands before its
/// first `@`.
pub open spec fn adapter_part(address: Seq<char>) -> Option<Seq<char>> {
    let at = text::first_index(address, '@');
    if at < address.len() {
        Some(address.take(at))
    } else {
        None
    }
}

/// The device that an address names: what stands behind its first `@`, or all
/// of it.
pub open spec fn device_part(address: Seq<char>) -> Seq<char> {
    let at = text::first_index(address, '@');
    if at < address.len() {
        address.skip(at + 1)
    } else {
        address
    }
}

/// Splits an address into the adapter and the device. Either part may be empty.
pub fn split_address(address: &str) -> (parts: (Option<&str>, &str))
    ensures
        parts.0 is Some <==> adapter_part(address@) is Some,
        parts.0 is Some ==> (parts.0->0)@ == adapter_part(address@)->0,
        parts.1@ == device_part(address@),
{
    proof {
        text::lemma_first_index(address@, '@');
    }
    let n = address.unicode_len();
    let at = text::find_char(address, '@');
    if at < n {
        assert(address@.subrange(0, at as int) =~= address@.take(at as int));
        assert(address@.subrange(at + 1, n as int) =~= address@.skip(at + 1));
        (Some(address.substring_char(0, at)), address.substring_char(at + 1, n))
    } else {
        (None, address)
    }
}

/// A device with an adapter before it reads back as both, and a device alone
/// reads back as a device. The name before an `@` must not hold one.
pub proof fn law_address_reads_back(adapter: Seq<char>, device: Seq<char>)
    requires
        !adapter.contains('@'),
    ensures
        adapter_part(adapter + seq!['@'] + device) == Some(adapter),
        device_part(adapter + seq!['@'] + device) == device,
        !device.contains('@') ==> adapter_part(device) is None && device_part(device) == device,
{
    let address = adapter + seq!['@'] + device;
    text::lemma_first_index_unique(address, '@', adapter.len() as int);
    assert(address.take(adapter.len() as int) =~= adapter);
    assert(address.skip(adapter.len() as int + 1) =~= device);
    if !device.contains('@') {
        text::lemma_first_index_unique(device, '@', device.len() as int);
    }
}

} // verus!
