//! Addresses of Bluetooth devices.
use vstd::prelude::*;
use vstd::string::*;

verus! {

/// No address of a device reaches this number.
pub const ADDRESS_LIMIT: u64 = 0x1_0000_0000_0000;

/// The number that octets make, the first of them weighing most.
pub open spec fn octets_value(octets: Seq<u8>) -> int
    decreases octets.len(),
{
    if octets.len() == 0 {
        0
    } else {
        octets_value(octets.drop_last()) * 0x100 + octets.last()
    }
}

/// One octet more.
proof fn lemma_octets_value_push(octets: Seq<u8>, octet: u8)
    ensures
        octets_value(octets.push(octet)) == octets_value(octets) * 0x100 + octet,
{
    assert(octets.push(octet).drop_last() =~= octets);
}

/// The address that six octets make.
pub fn address_from_octets(octets: [u8; 6]) -> (address: u64)
    ensures
        address as int == octets_value(octets@),
        address < ADDRESS_LIMIT,
{
    let mut address: u64 = 0;
    let mut i: usize = 0;
    let ghost mut limit: int = 1;
    assert(octets@.take(0) =~= Seq::<u8>::empty());
    while i < 6
        invariant
            i <= 6,
            address as int == octets_value(octets@.take(i as int)),
            address < limit,
            limit == if i == 0 {
                1int
            } else if i == 1 {
                0x100
            } else if i == 2 {
                0x1_0000
            } else if i == 3 {
                0x100_0000
            } else if i == 4 {
                0x1_0000_0000
            } else if i == 5 {
                0x100_0000_0000
            } else {
                ADDRESS_LIMIT as int
            },
        decreases 6 - i,
    {
        proof {
            assert(octets@.take(i + 1) =~= octets@.take(i as int).push(octets@[i as int]));
            lemma_octets_value_push(octets@.take(i as int), octets@[i as int]);
            limit = limit * 0x100;
        }
        address = address * 0x100 + octets[i] as u64;
        i = i + 1;
    }
    assert(octets@.take(6) =~= octets@);
    address
}

/// The last `n` octets of a number.
pub open spec fn octets_of(value: int, n: nat) -> Seq<u8>
    decreases n,
{
    if n == 0 {
        Seq::empty()
    } else {
        octets_of(value / 0x100, (n - 1) as nat).push((value % 0x100) as u8)
    }
}

/// That many octets.
pub proof fn lemma_octets_of_len(value: int, n: nat)
    ensures
        octets_of(value, n).len() == n,
    decreases n,
{
    if n > 0 {
        lemma_octets_of_len(value / 0x100, (n - 1) as nat);
    }
}

/// The six octets that make an address.
pub fn address_octets(address: u64) -> (octets: [u8; 6])
    requires
        address < ADDRESS_LIMIT,
    ensures
        octets_value(octets@) == address,
        octets@ == octets_of(address as int, 6),
{
    let v: u64 = address / 0x100;
    let w: u64 = v / 0x100;
    let x: u64 = w / 0x100;
    let y: u64 = x / 0x100;
    let z: u64 = y / 0x100;
    let octets = [
        z as u8,
        (y % 0x100) as u8,
        (x % 0x100) as u8,
        (w % 0x100) as u8,
        (v % 0x100) as u8,
        (address % 0x100) as u8,
    ];
    proof {
        let none = Seq::<u8>::empty();
        let one = none.push(octets@[0]);
        let two = one.push(octets@[1]);
        let three = two.push(octets@[2]);
        let four = three.push(octets@[3]);
        let five = four.push(octets@[4]);
        lemma_octets_value_push(none, octets@[0]);
        lemma_octets_value_push(one, octets@[1]);
        lemma_octets_value_push(two, octets@[2]);
        lemma_octets_value_push(three, octets@[3]);
        lemma_octets_value_push(four, octets@[4]);
        lemma_octets_value_push(five, octets@[5]);
        assert(octets@ =~= five.push(octets@[5]));
        reveal_with_fuel(octets_of, 7);
        assert(octets_value(one) == z);
        assert(octets_value(two) == y);
        assert(octets_value(three) == x);
        assert(octets_value(four) == w);
        assert(octets_value(five) == v);
    }
    octets
}

/// Different devices have different addresses.
pub proof fn law_address_names_one_device(x: Seq<u8>, y: Seq<u8>)
    requires
        x.len() == y.len(),
        octets_value(x) == octets_value(y),
    ensures
        x == y,
    decreases x.len(),
{
    if x.len() > 0 {
        law_address_names_one_device(x.drop_last(), y.drop_last());
        assert(x =~= x.drop_last().push(x.last()));
        assert(y =~= y.drop_last().push(y.last()));
    } else {
        assert(x =~= y);
    }
}

/// A hexadecimal digit.
pub open spec fn hex_char(n: int) -> char {
    if n < 10 {
        ('0' as int + n) as char
    } else {
        ('A' as int + n - 10) as char
    }
}

/// An octet in hexadecimal.
pub open spec fn octet_text(octet: u8) -> Seq<char> {
    seq![hex_char(octet as int / 16), hex_char(octet as int % 16)]
}

/// Octets in hexadecimal, with colons between them.
pub open spec fn octets_text(octets: Seq<u8>) -> Seq<char>
    decreases octets.len(),
{
    if octets.len() == 0 {
        Seq::empty()
    } else if octets.len() == 1 {
        octet_text(octets[0])
    } else {
        octets_text(octets.drop_last()) + seq![':'] + octet_text(octets.last())
    }
}

/// The text of octets holds hexadecimal digits and colons only, and three
/// characters for every octet but one.
pub proof fn law_octets_text_is_plain(octets: Seq<u8>)
    requires
        octets.len() > 0,
    ensures
        octets_text(octets).len() == 3 * octets.len() - 1,
        forall|i: int|
            0 <= i < octets_text(octets).len() ==> ('0' <= #[trigger] octets_text(octets)[i] <= ':'
                || 'A' <= octets_text(octets)[i] <= 'F'),
    decreases octets.len(),
{
    if octets.len() > 1 {
        law_octets_text_is_plain(octets.drop_last());
    }
}

/// Writes an address down.
///
/// Calls the `Display` of `bluer::Address`, which writes its six octets as two
/// upper-case hexadecimal digits each, with colons between them.
#[verifier::external_body]
fn octets_to_text(octets: [u8; 6]) -> (s: String)
    ensures
        s@ == octets_text(octets@),
{
    bluer::Address::new(octets).to_string()
}

/// Writes the address of a device down.
pub fn address_text(address: u64) -> (s: String)
    requires
        address < ADDRESS_LIMIT,
    ensures
        s@ == octets_text(octets_of(address as int, 6)),
{
    octets_to_text(address_octets(address))
}

/// The octets of a number make that number again.
pub proof fn law_octets_of_read_back(octets: Seq<u8>)
    ensures
        octets_of(octets_value(octets), octets.len()) == octets,
    decreases octets.len(),
{
    if octets.len() > 0 {
        law_octets_of_read_back(octets.drop_last());
        assert(octets =~= octets.drop_last().push(octets.last()));
    } else {
        assert(octets_of(0, 0) =~= octets);
    }
}

/// The `i`-th octet stands at the `i`-th place of the text, as its two hexadecimal
/// digits, with a colon before every octet but the first. So the text of the
/// address that octets make shows these octets in their order.
pub proof fn law_text_shows_octets_in_order(octets: Seq<u8>, i: int)
    requires
        0 <= i < octets.len(),
    ensures
        ({
            let text = octets_text(octets_of(octets_value(octets), octets.len()));
            let digits = seq![
                '0',
                '1',
                '2',
                '3',
                '4',
                '5',
                '6',
                '7',
                '8',
                '9',
                'A',
                'B',
                'C',
                'D',
                'E',
                'F',
            ];
            &&& text.len() == 3 * octets.len() - 1
            &&& text[3 * i] == digits[octets[i] as int / 16]
            &&& text[3 * i + 1] == digits[octets[i] as int % 16]
            &&& i > 0 ==> text[3 * i - 1] == ':'
        }),
{
    law_octets_of_read_back(octets);
    lemma_octet_place(octets, i);
}

/// Where an octet stands in the text of octets.
proof fn lemma_octet_place(octets: Seq<u8>, i: int)
    requires
        0 <= i < octets.len(),
    ensures
        octets_text(octets).len() == 3 * octets.len() - 1,
        octets_text(octets)[3 * i] == hex_char(octets[i] as int / 16),
        octets_text(octets)[3 * i + 1] == hex_char(octets[i] as int % 16),
        i > 0 ==> octets_text(octets)[3 * i - 1] == ':',
    decreases octets.len(),
{
    law_octets_text_is_plain(octets);
    if octets.len() > 1 {
        law_octets_text_is_plain(octets.drop_last());
        if i < octets.len() - 1 {
            lemma_octet_place(octets.drop_last(), i);
            assert(octets.drop_last()[i] == octets[i]);
        }
    }
}

} // verus!
