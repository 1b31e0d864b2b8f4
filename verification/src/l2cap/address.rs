//! Addresses of devices.
use vstd::prelude::*;
use vstd::string::*;
use crate::address;
use crate::text;

verus! {

/// What is wrong with an address.
#[derive(Clone, Copy, PartialEq, Eq, Structural, Debug)]
pub enum AddressFault {
    /// It holds more than one `@`.
    TooManyAts,
    /// Nothing stands before the `@`.
    EmptyAdapter,
    /// Nothing stands behind the `@`.
    EmptyDevice,
}

/// An address that names no device.
#[derive(Debug)]
pub struct InvalidAddress {
    pub address: String,
    pub fault: AddressFault,
}

/// How many `@` a text holds.
pub open spec fn ats(s: Seq<char>) -> nat {
    s.filter(|c: char| c == '@').len()
}

/// What is wrong with an address, if anything is. One without an `@` is the
/// name of a device; one with an `@` has a part on either side of it.
pub open spec fn address_fault(s: Seq<char>) -> Option<AddressFault> {
    if ats(s) > 1 {
        Some(AddressFault::TooManyAts)
    } else if ats(s) == 1 && s.first() == '@' {
        Some(AddressFault::EmptyAdapter)
    } else if ats(s) == 1 && s.last() == '@' {
        Some(AddressFault::EmptyDevice)
    } else {
        None
    }
}

/// How the first `@` divides the count.
proof fn lemma_ats(s: Seq<char>)
    ensures
        ats(s) == if text::first_index(s, '@') < s.len() {
            1 + ats(s.skip(text::first_index(s, '@') + 1))
        } else {
            0
        },
        ats(s) == 0 <==> text::first_index(s, '@') == s.len(),
    decreases s.len(),
{
    let at = |c: char| c == '@';
    text::lemma_first_index(s, '@');
    let n = text::first_index(s, '@');
    let head = s.take(n);
    assert(head.filter(at).len() == 0) by {
        lemma_no_ats(head);
    }
    if n < s.len() {
        let tail = s.skip(n + 1);
        assert(s =~= head + (seq!['@'] + tail));
        Seq::filter_distributes_over_add(head, seq!['@'] + tail, at);
        Seq::filter_distributes_over_add(seq!['@'], tail, at);
        assert(seq!['@'].filter(at).len() == 1) by {
            reveal(Seq::filter);
            assert(seq!['@'].drop_last() =~= Seq::<char>::empty());
            assert(Seq::<char>::empty().filter(at).len() == 0);
        }
    } else {
        assert(head =~= s);
    }
}

/// A text without an `@` has none to count.
proof fn lemma_no_ats(s: Seq<char>)
    requires
        forall|j: int| 0 <= j < s.len() ==> s[j] != '@',
    ensures
        ats(s) == 0,
    decreases s.len(),
{
    reveal(Seq::filter);
    if s.len() > 0 {
        lemma_no_ats(s.drop_last());
    }
}

/// Splits an address into the adapter, if it names one, and the device.
pub fn parse_address(address: &str) -> (parts: Result<(Option<&str>, &str), InvalidAddress>)
    ensures
        parts is Ok <==> address_fault(address@) is None,
        parts matches Ok((adapter, device)) ==> {
            &&& adapter is Some <==> address::adapter_part(address@) is Some
            &&& adapter is Some ==> (adapter->0)@ == address::adapter_part(address@)->0
            &&& device@ == address::device_part(address@)
        },
        parts matches Err(e) ==> address_fault(address@) == Some(e.fault) && e.address@
            == address@,
{
    proof {
        text::lemma_first_index(address@, '@');
        lemma_ats(address@);
    }
    match address::split_address(address) {
        (None, device) => Ok((None, device)),
        (Some(adapter), device) => {
            proof {
                lemma_ats(device@);
                text::lemma_first_index(device@, '@');
                if ats(device@) == 0 && device@.len() > 0 {
                    assert(address@.last() == device@.last());
                    assert(device@.last() != '@');
                }
            }
            if text::find_char(device, '@') < device.unicode_len() {
                return Err(
                    InvalidAddress { address: address.to_owned(), fault: AddressFault::TooManyAts },
                );
            }
            if adapter.is_empty() {
                return Err(
                    InvalidAddress {
                        address: address.to_owned(),
                        fault: AddressFault::EmptyAdapter,
                    },
                );
            }
            if device.is_empty() {
                return Err(
                    InvalidAddress {
                        address: address.to_owned(),
                        fault: AddressFault::EmptyDevice,
                    },
                );
            }
            Ok((Some(adapter), device))
        },
    }
}

/// Every adapter and device that have a name without an `@` can be addressed,
/// and so can every device without one on the default adapter.
pub proof fn law_named_devices_can_be_addressed(adapter: Seq<char>, device: Seq<char>)
    requires
        !adapter.contains('@'),
        !device.contains('@'),
        adapter.len() > 0,
        device.len() > 0,
    ensures
        address_fault(adapter + seq!['@'] + device) is None,
        address_fault(device) is None,
{
    let s = adapter + seq!['@'] + device;
    text::lemma_first_index_unique(s, '@', adapter.len() as int);
    text::lemma_first_index_unique(device, '@', device.len() as int);
    lemma_ats(s);
    lemma_ats(device);
    assert(s.skip(adapter.len() as int + 1) =~= device);
    assert(s.first() == adapter[0]);
    assert(s.last() == device[device.len() - 1]);
}

/// What is wrong with an address, by its parts: of one with an `@`, that the device
/// behind the first holds another, else that the adapter is empty, else that the
/// device is. With neither, and without any `@`, nothing is wrong.
pub proof fn law_address_faults(adapter: Seq<char>, device: Seq<char>)
    requires
        !adapter.contains('@'),
    ensures
        address_fault(adapter) is None,
        device.contains('@') <==> address_fault(adapter + seq!['@'] + device) == Some(
            AddressFault::TooManyAts,
        ),
        !device.contains('@') && adapter.len() == 0 <==> address_fault(
            adapter + seq!['@'] + device,
        ) == Some(AddressFault::EmptyAdapter),
        !device.contains('@') && adapter.len() > 0 && device.len() == 0 <==> address_fault(
            adapter + seq!['@'] + device,
        ) == Some(AddressFault::EmptyDevice),
{
    let s = adapter + seq!['@'] + device;
    let n = adapter.len() as int;
    assert forall|j: int| 0 <= j < n implies adapter[j] != '@' by {
        assert(adapter.contains(adapter[j]));
    }
    text::lemma_first_index_unique(s, '@', n);
    text::lemma_first_index_unique(adapter, '@', n);
    text::lemma_first_index(device, '@');
    lemma_ats(s);
    lemma_ats(adapter);
    lemma_ats(device);
    assert(s.skip(n + 1) =~= device);
    assert(s[n] == '@');
    if n > 0 {
        assert(s.first() == adapter[0]);
    }
    if device.len() > 0 {
        assert(s.last() == device.last());
        if !device.contains('@') {
            assert(device.contains(device.last()));
        }
    }
}

} // verus!
