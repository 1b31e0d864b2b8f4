//! A link between a central and a peripheral.
use vstd::prelude::*;
use vstd::string::*;
use crate::auth::LinkAuthId;
use crate::device;
use crate::device::ADDRESS_LIMIT;
use crate::gatt::io;
use crate::gatt::io::{GattCharRead, GattCharWrite, WriteOp};
use crate::gatt::BT_GATT_LOCATOR_PREFIX;
use crate::locator;
use crate::locator::Locator;

verus! {

/// The smaller of two numbers.
pub open spec fn smaller(a: int, b: int) -> int {
    if a < b {
        a
    } else {
        b
    }
}

/// The smaller of two numbers is one of them and above neither.
pub proof fn law_smaller_is_one_of_both(a: int, b: int)
    ensures
        smaller(a, b) == a || smaller(a, b) == b,
        smaller(a, b) <= a,
        smaller(a, b) <= b,
{
}

/// What is known of a link besides its two ends.
pub struct LinkUnicastBtGatt {
    src_locator: Locator,
    dst_locator: Locator,
    interface: String,
    mtu: usize,
}

impl LinkUnicastBtGatt {
    /// Where the link comes from.
    pub closed spec fn src(self) -> Seq<char> {
        self.src_locator@
    }

    /// Where the link goes to.
    pub closed spec fn dst(self) -> Seq<char> {
        self.dst_locator@
    }

    /// The adapter that the link uses.
    pub closed spec fn interface(self) -> Seq<char> {
        self.interface@
    }

    /// The most bytes that a packet of the link holds.
    pub closed spec fn packet_size(self) -> usize {
        self.mtu
    }

    /// A link between two ends. Its packets are as large as both ends allow.
    pub fn new<R: GattCharRead, W: GattCharWrite>(
        reader: &R,
        writer: &W,
        src_path: &str,
        dst_path: &str,
        interface: String,
    ) -> (link: Self)
        requires
            locator::locator_text(BT_GATT_LOCATOR_PREFIX@, src_path@, Seq::empty()) is Some,
            locator::locator_text(BT_GATT_LOCATOR_PREFIX@, dst_path@, Seq::empty()) is Some,
        ensures
            link.src() == locator::locator_text(
                BT_GATT_LOCATOR_PREFIX@,
                src_path@,
                Seq::empty(),
            )->0,
            link.dst() == locator::locator_text(
                BT_GATT_LOCATOR_PREFIX@,
                dst_path@,
                Seq::empty(),
            )->0,
            link.interface() == interface@,
            link.packet_size() == smaller(
                reader.packet_size() as int,
                writer.packet_size() as int,
            ),
    {
        proof {
            lemma_empty_literal();
        }
        let src_locator = Locator::new(BT_GATT_LOCATOR_PREFIX, src_path, "").unwrap();
        let dst_locator = Locator::new(BT_GATT_LOCATOR_PREFIX, dst_path, "").unwrap();
        Self::with_locators(reader, writer, src_locator, dst_locator, interface)
    }

    /// A link between two ends, where both paths make a locator.
    pub fn checked_new<R: GattCharRead, W: GattCharWrite>(
        reader: &R,
        writer: &W,
        src_path: &str,
        dst_path: &str,
        interface: String,
    ) -> (link: Option<Self>)
        ensures
            link is Some <==> locator::locator_text(
                BT_GATT_LOCATOR_PREFIX@,
                src_path@,
                Seq::empty(),
            ) is Some && locator::locator_text(
                BT_GATT_LOCATOR_PREFIX@,
                dst_path@,
                Seq::empty(),
            ) is Some,
            link matches Some(link) ==> {
                &&& link.src() == locator::locator_text(
                    BT_GATT_LOCATOR_PREFIX@,
                    src_path@,
                    Seq::empty(),
                )->0
                &&& link.dst() == locator::locator_text(
                    BT_GATT_LOCATOR_PREFIX@,
                    dst_path@,
                    Seq::empty(),
                )->0
                &&& link.interface() == interface@
                &&& link.packet_size() == smaller(
                    reader.packet_size() as int,
                    writer.packet_size() as int,
                )
            },
    {
        proof {
            lemma_empty_literal();
        }
        if Locator::new(BT_GATT_LOCATOR_PREFIX, src_path, "").is_some() && Locator::new(
            BT_GATT_LOCATOR_PREFIX,
            dst_path,
            "",
        ).is_some() {
            Some(Self::new(reader, writer, src_path, dst_path, interface))
        } else {
            None
        }
    }

    /// A link between two ends with the locators of its peers.
    pub fn with_locators<R: GattCharRead, W: GattCharWrite>(
        reader: &R,
        writer: &W,
        src_locator: Locator,
        dst_locator: Locator,
        interface: String,
    ) -> (link: Self)
        ensures
            link.src() == src_locator@,
            link.dst() == dst_locator@,
            link.interface() == interface@,
            link.packet_size() == smaller(
                reader.packet_size() as int,
                writer.packet_size() as int,
            ),
    {
        let read_mtu = reader.mtu();
        let write_mtu = writer.mtu();
        let mtu = if read_mtu < write_mtu {
            read_mtu
        } else {
            write_mtu
        };
        LinkUnicastBtGatt { src_locator, dst_locator, interface, mtu }
    }

    /// A link with the central at an address, which is where it comes from; it
    /// goes to the adapter with this alias.
    pub fn for_central<R: GattCharRead, W: GattCharWrite>(
        reader: &R,
        writer: &W,
        address: u64,
        alias: &str,
        interface: String,
    ) -> (link: Option<Self>)
        requires
            address < ADDRESS_LIMIT,
        ensures
            link is Some <==> locator::locator_text(
                BT_GATT_LOCATOR_PREFIX@,
                alias@,
                Seq::empty(),
            ) is Some,
            link matches Some(link) ==> {
                &&& link.src() == BT_GATT_LOCATOR_PREFIX@ + seq!['/'] + device::octets_text(
                    device::octets_of(address as int, 6),
                )
                &&& link.dst() == locator::locator_text(
                    BT_GATT_LOCATOR_PREFIX@,
                    alias@,
                    Seq::empty(),
                )->0
                &&& link.interface() == interface@
                &&& link.packet_size() == smaller(
                    reader.packet_size() as int,
                    writer.packet_size() as int,
                )
            },
    {
        let central = device::address_text(address);
        proof {
            lemma_empty_literal();
            lemma_prefix_is_plain();
            device::lemma_octets_of_len(address as int, 6);
            locator::lemma_device_address_is_plain(
                device::octets_of(address as int, 6),
                BT_GATT_LOCATOR_PREFIX@,
            );
        }
        let src_locator = match Locator::new(BT_GATT_LOCATOR_PREFIX, central.as_str(), "") {
            Some(locator) => locator,
            None => {
                return None;
            },
        };
        match Locator::new(BT_GATT_LOCATOR_PREFIX, alias, "") {
            Some(dst_locator) => Some(
                Self::with_locators(reader, writer, src_locator, dst_locator, interface),
            ),
            None => None,
        }
    }

    /// The packet size in 16 bits; what does not fit is cut off.
    pub fn get_mtu(&self) -> (mtu: u16)
        ensures
            mtu as int == self.packet_size() as int % 0x1_0000,
            mtu as int == low_bits(self.packet_size() as int),
    {
        let mtu = self.mtu;
        assert(mtu as u16 == mtu % 0x1_0000) by (bit_vector);
        #[verifier::truncate]
        (mtu as u16)
    }

    /// The locator of the near end.
    pub fn get_src(&self) -> (locator: &Locator)
        ensures
            locator@ == self.src(),
    {
        &self.src_locator
    }

    /// The locator of the far end.
    pub fn get_dst(&self) -> (locator: &Locator)
        ensures
            locator@ == self.dst(),
    {
        &self.dst_locator
    }

    /// The link promises no delivery.
    pub fn is_reliable(&self) -> (reliable: bool)
        ensures
            reliable == false,
    {
        false
    }

    /// The link carries packets.
    pub fn is_streamed(&self) -> (streamed: bool)
        ensures
            streamed == false,
    {
        false
    }

    /// The one interface that the link uses.
    pub fn get_interface_names(&self) -> (names: Vec<String>)
        ensures
            names@.len() == 1,
            names@[0]@ == self.interface(),
    {
        let mut names: Vec<String> = Vec::new();
        names.push(self.interface.clone());
        names
    }

    /// The far end is known by its device alone.
    pub fn get_auth_id(&self) -> (id: LinkAuthId)
        ensures
            id == LinkAuthId::Ble,
    {
        LinkAuthId::Ble
    }

    /// How the link is written down.
    pub open spec fn text(self) -> Seq<char> {
        self.src() + " => "@ + self.dst()
    }

    /// A link is written down as where it comes from, an arrow, and where it goes to.
    pub proof fn law_text_names_both_ends(self)
        ensures
            self.text().len() == self.src().len() + 4 + self.dst().len(),
            self.text().take(self.src().len() as int) == self.src(),
            self.text().subrange(self.src().len() as int, self.src().len() as int + 4) == seq![
                ' ',
                '=',
                '>',
                ' ',
            ],
            self.text().skip(self.src().len() as int + 4) == self.dst(),
    {
        reveal_strlit(" => ");
        assert(" => "@ =~= seq![' ', '=', '>', ' ']);
        let n = self.src().len() as int;
        assert(self.text().take(n) =~= self.src());
        assert(self.text().subrange(n, n + 4) =~= " => "@);
        assert(self.text().skip(n + 4) =~= self.dst());
    }

    /// Writes the link down.
    pub fn describe(&self) -> (s: String)
        ensures
            s@ == self.text(),
    {
        let mut s = self.src_locator.as_str().to_owned();
        s.append(" => ");
        s.append(self.dst_locator.as_str());
        s
    }

    /// What is said where the link has no end to read from.
    pub fn read_err(&self) -> (s: String)
        ensures
            s@ == "Unable to read from BT GATT link "@ + self.text()
                + ": Peripheral not connected"@,
    {
        let mut s = "Unable to read from BT GATT link ".to_owned();
        s.append(self.describe().as_str());
        s.append(": Peripheral not connected");
        s
    }

    /// What is said where the link has no end to write to.
    pub fn write_err(&self) -> (s: String)
        ensures
            s@ == "Unable to read from BT GATT link "@ + self.text()
                + ": Peripheral not connected"@,
    {
        let mut s = "Unable to read from BT GATT link ".to_owned();
        s.append(self.describe().as_str());
        s.append(": Peripheral not connected");
        s
    }

    /// What is said where the peripheral cannot be disconnected.
    pub fn close_err(&self, cause: &str) -> (s: String)
        ensures
            s@ == "Unable to close BT GATT link "@ + self.text() + ": "@ + cause@,
    {
        let mut s = "Unable to close BT GATT link ".to_owned();
        s.append(self.describe().as_str());
        s.append(": ");
        s.append(cause);
        s
    }

    /// The packet that a write of `buffer` sends: as much of its front as a
    /// packet holds.
    pub fn packet<'a>(&self, buffer: &'a [u8]) -> (packet: &'a [u8])
        ensures
            packet@ == buffer@.take(smaller(buffer@.len() as int, self.packet_size() as int)),
    {
        let n = if buffer.len() < self.mtu {
            buffer.len()
        } else {
            self.mtu
        };
        assert(buffer@.subrange(0, n as int) =~= buffer@.take(n as int));
        vstd::slice::slice_subrange(buffer, 0, n)
    }

    /// What is said where nothing could be read: the far end is gone.
    pub fn end_of_life(&self) -> (s: String)
        ensures
            s@ == "End Of Life for "@ + self.src(),
    {
        let mut s = "End Of Life for ".to_owned();
        s.append(self.src_locator.as_str());
        s
    }
}

/// What 16 bits hold of a packet size.
pub open spec fn low_bits(size: int) -> int {
    size % 0x1_0000
}

/// A packet size that fits into 16 bits is told as it is, and of a larger one what
/// does not fit is cut off.
pub proof fn law_packet_size_is_told(size: int)
    requires
        size >= 0,
    ensures
        size <= 0xFFFF ==> low_bits(size) == size,
        low_bits(size + 0x1_0000) == low_bits(size),
{
}

/// What is to be done next by a read into a buffer.
#[derive(Clone, Copy, PartialEq, Eq, Structural, Debug)]
pub enum ReadPhase {
    /// Read from the characteristic into the buffer.
    Reading,
    /// Nothing: this many bytes were read.
    Done { n: usize },
    /// Nothing: the far end is gone.
    Ended,
    /// Nothing: the characteristic could not be read from.
    Failed,
}

/// Where a read into a buffer of `room` bytes begins.
pub open spec fn read_first(room: nat) -> ReadPhase {
    if room > 0 {
        ReadPhase::Reading
    } else {
        ReadPhase::Done { n: 0 }
    }
}

/// The phase that follows the reading of so many bytes, or of none for a
/// failure.
pub open spec fn read_next(got: Option<usize>) -> ReadPhase {
    match got {
        Some(n) => if n == 0 {
            ReadPhase::Ended
        } else {
            ReadPhase::Done { n }
        },
        None => ReadPhase::Failed,
    }
}

/// Begins a read into a buffer of `room` bytes. Into an empty one nothing is
/// read.
pub fn start_read(room: usize) -> (phase: ReadPhase)
    ensures
        phase == read_first(room as nat),
        phase == ReadPhase::Reading <==> room > 0,
{
    if room > 0 {
        ReadPhase::Reading
    } else {
        ReadPhase::Done { n: 0 }
    }
}

/// Takes in what the reading came to. Nothing read into a buffer with room
/// means that the far end is gone.
pub fn read_step(phase: ReadPhase, got: Option<usize>) -> (next: ReadPhase)
    requires
        phase == ReadPhase::Reading,
    ensures
        next == read_next(got),
{
    match got {
        Some(n) => if n == 0 {
            ReadPhase::Ended
        } else {
            ReadPhase::Done { n }
        },
        None => ReadPhase::Failed,
    }
}

/// The phase of a read into a buffer of `room` bytes after a run of readings.
pub open spec fn read_run(room: nat, readings: Seq<Option<usize>>) -> ReadPhase {
    if readings.len() == 0 {
        read_first(room)
    } else {
        read_next(readings.last())
    }
}

/// Whether each reading of a run was asked for, and none gave more than the
/// buffer holds.
pub open spec fn read_run_fits(room: nat, readings: Seq<Option<usize>>) -> bool {
    forall|i: int|
        0 <= i < readings.len() ==> read_run(room, readings.take(i)) == ReadPhase::Reading && (
        #[trigger] readings[i] matches Some(n) ==> n <= room)
}

/// A read that is over made exactly one reading, or none into an empty buffer. It
/// gives no more bytes than the buffer holds, and none exactly for an empty
/// buffer. It is an error exactly where the one reading failed or gave nothing.
pub proof fn law_read_makes_one_reading(room: nat, readings: Seq<Option<usize>>)
    requires
        read_run_fits(room, readings),
        read_run(room, readings) != ReadPhase::Reading,
    ensures
        readings.len() == if room > 0 {
            1nat
        } else {
            0nat
        },
        read_run(room, readings) matches ReadPhase::Done { n } ==> n <= room && (n == 0 <==> room
            == 0),
        read_run(room, readings) == ReadPhase::Failed <==> room > 0 && readings[0] is None,
        read_run(room, readings) == ReadPhase::Ended <==> room > 0 && readings[0] == Some(0usize),
{
    if readings.len() > 0 {
        assert(readings[0] is None || readings[0] is Some);
        assert(readings.take(0).len() == 0);
        assert(read_run(room, readings.take(0)) == ReadPhase::Reading);
        if readings.len() > 1 {
            assert(readings[1] is None || readings[1] is Some);
            assert(readings.take(1).last() == readings[0]);
            assert(read_run(room, readings.take(1)) == ReadPhase::Reading);
        }
    }
}

/// A read into a buffer with room tells exactly as many bytes as its one reading
/// gave, be they few or many; that the far end is gone exactly where it gave none;
/// and a failure exactly where it failed. Into an empty buffer nothing is read.
pub proof fn law_read_tells_what_was_read(room: nat, got: Option<usize>, n: usize)
    ensures
        room > 0 ==> read_run(room, seq![]) == ReadPhase::Reading,
        room == 0 ==> read_run(room, seq![]) == (ReadPhase::Done { n: 0 }),
        read_run(room, seq![got]) == (ReadPhase::Done { n }) <==> n > 0 && got == Some(n),
        read_run(room, seq![got]) == ReadPhase::Ended <==> got == Some(0usize),
        read_run(room, seq![got]) == ReadPhase::Failed <==> got is None,
{
    assert(seq![got].last() == got);
}

/// The empty literal holds no character.
proof fn lemma_empty_literal()
    ensures
        ""@ == Seq::<char>::empty(),
{
    reveal_strlit("");
    assert(""@ =~= Seq::<char>::empty());
}

/// The protocol is free of separators.
proof fn lemma_prefix_is_plain()
    ensures
        locator::is_plain_protocol(BT_GATT_LOCATOR_PREFIX@),
        vstd::utf8::is_ascii_chars(BT_GATT_LOCATOR_PREFIX@),
        BT_GATT_LOCATOR_PREFIX@.len() == 7,
{
    reveal_strlit("bt_gatt");
}

/// The packets that the bytes of a buffer are sent in.
pub open spec fn packets(data: Seq<u8>, packet_size: nat) -> Seq<Seq<u8>>
    decreases data.len(),
{
    if data.len() == 0 || packet_size == 0 {
        Seq::empty()
    } else {
        let n = smaller(data.len() as int, packet_size as int);
        seq![data.take(n)] + packets(data.skip(n), packet_size)
    }
}

/// Everything is sent, in its order, in packets that are full but for the last
/// one.
pub proof fn law_packets_carry_everything(data: Seq<u8>, packet_size: nat)
    requires
        packet_size > 0,
    ensures
        packets(data, packet_size).flatten() == data,
        forall|i: int|
            0 <= i < packets(data, packet_size).len() ==> 0 < (#[trigger] packets(
                data,
                packet_size,
            )[i]).len() <= packet_size,
        forall|i: int|
            0 <= i < packets(data, packet_size).len() - 1 ==> (#[trigger] packets(
                data,
                packet_size,
            )[i]).len() == packet_size,
        packets(data, packet_size).len() == (data.len() + packet_size - 1) / packet_size as int,
    decreases data.len(),
{
    let all = packets(data, packet_size);
    if data.len() > 0 {
        let n = smaller(data.len() as int, packet_size as int);
        let rest = packets(data.skip(n), packet_size);
        law_packets_carry_everything(data.skip(n), packet_size);
        assert(all.drop_first() =~= rest);
        assert(all.first() == data.take(n));
        assert(data.take(n) + data.skip(n) =~= data);
        assert forall|i: int| 0 <= i < all.len() implies 0 < (#[trigger] all[i]).len()
            <= packet_size by {
            if i > 0 {
                assert(all[i] == rest[i - 1]);
            }
        }
        assert forall|i: int| 0 <= i < all.len() - 1 implies (#[trigger] all[i]).len()
            == packet_size by {
            if i > 0 {
                assert(all[i] == rest[i - 1]);
            } else {
                assert(rest.len() > 0);
                assert(data.skip(n).len() > 0);
            }
        }
        let d = packet_size as int;
        let len = data.len() as int;
        if len <= d {
            assert(data.skip(n) =~= Seq::<u8>::empty());
            assert((len + d - 1) / d == 1) by (nonlinear_arith)
                requires
                    0 < len <= d,
            ;
        } else {
            assert((len + d - 1) / d == (len - d + d - 1) / d + 1) by (nonlinear_arith)
                requires
                    len > d,
                    d > 0,
            ;
        }
    } else {
        assert(all =~= Seq::<Seq<u8>>::empty());
        assert((0 + packet_size - 1) / packet_size as int == 0) by (nonlinear_arith)
            requires
                packet_size > 0,
        ;
        assert(all.flatten() =~= data);
    }
}

/// No packet of a link is too large for either of its ends.
pub proof fn law_packets_fit_both_ends(data: Seq<u8>, read_size: nat, write_size: nat, i: int)
    requires
        0 <= i < packets(data, smaller(read_size as int, write_size as int) as nat).len(),
    ensures
        packets(data, smaller(read_size as int, write_size as int) as nat)[i].len() <= read_size,
        packets(data, smaller(read_size as int, write_size as int) as nat)[i].len() <= write_size,
{
    law_packets_carry_everything(data, smaller(read_size as int, write_size as int) as nat);
}

/// Every packet of a link is taken by its writing end as it is, in one write that is
/// confirmed as that end confirms writes.
pub proof fn law_every_packet_is_taken(
    data: Seq<u8>,
    read_size: usize,
    write_size: usize,
    op: WriteOp,
    i: int,
)
    requires
        0 <= i < packets(data, smaller(read_size as int, write_size as int) as nat).len(),
    ensures
        ({
            let packet = packets(data, smaller(read_size as int, write_size as int) as nat)[i];
            let request = io::write_request(op, write_size, packet.len());
            &&& request is Ok
            &&& request->Ok_0.op == op
            &&& request->Ok_0.offset == 0
            &&& !request->Ok_0.prepare_authorize
            &&& io::write_request(op, (packet.len() - 1) as usize, packet.len()) is Err
        }),
{
    let size = smaller(read_size as int, write_size as int) as nat;
    law_packets_fit_both_ends(data, read_size as nat, write_size as nat, i);
    law_packets_carry_everything(data, size);
}

/// How many bytes a course counts once it was told of `n` more.
pub open spec fn count_after(counted: int, n: int) -> int {
    counted + n
}

/// How many bytes a course counts that was told of packets one by one.
pub open spec fn counted(packets: Seq<Seq<u8>>) -> int
    decreases packets.len(),
{
    if packets.len() == 0 {
        0
    } else {
        count_after(counted(packets.drop_last()), packets.last().len() as int)
    }
}

/// A course that was told of every packet of a buffer has counted the whole buffer,
/// no more and no less, whatever the packet size.
pub proof fn law_courses_count_every_byte(data: Seq<u8>, packet_size: nat, all: Seq<Seq<u8>>)
    requires
        packet_size > 0,
    ensures
        counted(all) == all.flatten().len(),
        counted(packets(data, packet_size)) == data.len(),
{
    lemma_counted(all);
    lemma_counted(packets(data, packet_size));
    law_packets_carry_everything(data, packet_size);
}

/// What is counted are the bytes of the packets.
proof fn lemma_counted(packets: Seq<Seq<u8>>)
    ensures
        counted(packets) == packets.flatten().len(),
    decreases packets.len(),
{
    if packets.len() > 0 {
        lemma_counted(packets.drop_last());
        lemma_flatten_last(packets);
    } else {
        assert(packets =~= Seq::<Seq<u8>>::empty());
        assert(packets.flatten() =~= Seq::<u8>::empty());
    }
}

/// The course of a write that sends a whole buffer.
pub struct WriteAll {
    written: usize,
}

impl WriteAll {
    /// How many bytes have been sent.
    pub closed spec fn written(self) -> usize {
        self.written
    }

    /// A write that has not begun.
    pub fn new() -> (course: Self)
        ensures
            course.written() == 0,
    {
        WriteAll { written: 0 }
    }

    /// The packet to send next, unless all is sent.
    pub fn next_packet<'a>(&self, link: &LinkUnicastBtGatt, buffer: &'a [u8]) -> (packet: Option<
        &'a [u8],
    >)
        ensures
            packet is Some <==> self.written() < buffer@.len(),
            packet matches Some(packet) ==> packet@ == buffer@.skip(self.written() as int).take(
                smaller(buffer@.len() - self.written(), link.packet_size() as int),
            ),
            packet matches Some(packet) ==> link.packet_size() > 0 ==> packets(
                buffer@.skip(self.written() as int),
                link.packet_size() as nat,
            ).first() == packet@,
    {
        if self.written < buffer.len() {
            let rest = vstd::slice::slice_subrange(buffer, self.written, buffer.len());
            assert(rest@ =~= buffer@.skip(self.written as int));
            Some(link.packet(rest))
        } else {
            None
        }
    }

    /// Takes in that a packet of `n` bytes was sent.
    pub fn sent(&mut self, n: usize)
        requires
            old(self).written() + n <= usize::MAX,
        ensures
            final(self).written() == old(self).written() + n,
            final(self).written() == count_after(old(self).written() as int, n as int),
    {
        self.written = self.written + n;
    }
}

/// The packets that are left once the first was sent are those of the bytes
/// that are left.
pub proof fn law_sending_a_packet_leaves_the_others(data: Seq<u8>, packet_size: nat)
    requires
        packet_size > 0,
        data.len() > 0,
    ensures
        packets(data, packet_size).drop_first() == packets(
            data.skip(packets(data, packet_size).first().len() as int),
            packet_size,
        ),
{
    let n = smaller(data.len() as int, packet_size as int);
    let rest = packets(data.skip(n), packet_size);
    assert(packets(data, packet_size) =~= seq![data.take(n)] + rest);
    assert((seq![data.take(n)] + rest).drop_first() =~= rest);
}

/// The course of a read that fills a whole buffer.
pub struct ReadExact {
    filled: usize,
}

impl ReadExact {
    /// How many bytes have been read.
    pub closed spec fn filled(self) -> usize {
        self.filled
    }

    /// A read that has not begun.
    pub fn new() -> (course: Self)
        ensures
            course.filled() == 0,
    {
        ReadExact { filled: 0 }
    }

    /// Where in a buffer of `room` bytes to read to next, unless it is full.
    pub fn next_start(&self, room: usize) -> (start: Option<usize>)
        ensures
            start is Some <==> self.filled() < room,
            start is Some ==> start->0 == self.filled(),
    {
        if self.filled < room {
            Some(self.filled)
        } else {
            None
        }
    }

    /// Takes in that `n` bytes were read. None being read does not end the
    /// course.
    pub fn received(&mut self, n: usize)
        requires
            old(self).filled() + n <= usize::MAX,
        ensures
            final(self).filled() == old(self).filled() + n,
            final(self).filled() == count_after(old(self).filled() as int, n as int),
    {
        self.filled = self.filled + n;
    }

    /// Whether the course has read these packets into a buffer of `room` bytes.
    pub open spec fn has_read(self, room: nat, packets: Seq<Seq<u8>>) -> bool {
        packets_fill(room, packets) && self.filled() == packets.flatten().len()
    }

    /// A course that is told of a packet that fits has read that packet behind
    /// the ones before.
    pub proof fn law_course_follows_packets(
        self,
        next: Self,
        room: nat,
        packets: Seq<Seq<u8>>,
        packet: Seq<u8>,
    )
        requires
            self.has_read(room, packets),
            self.filled() < room,
            self.filled() + packet.len() <= room,
            next.filled() == self.filled() + packet.len(),
        ensures
            next.has_read(room, packets.push(packet)),
    {
        lemma_flatten_last(packets.push(packet));
        assert(packets.push(packet).drop_last() =~= packets);
    }
}

/// What a buffer holds once packets were read into it, each behind the one
/// before.
pub open spec fn filled_with(buffer: Seq<u8>, packets: Seq<Seq<u8>>) -> Seq<u8>
    decreases packets.len(),
{
    if packets.len() == 0 {
        buffer
    } else {
        let before = filled_with(buffer, packets.drop_last());
        let start = packets.drop_last().flatten().len() as int;
        before.take(start) + packets.last() + before.skip(start + packets.last().len())
    }
}

/// Whether packets are those of a course that fills a buffer of `room` bytes:
/// each was read while there was room left, and fitted into it.
pub open spec fn packets_fill(room: nat, packets: Seq<Seq<u8>>) -> bool
    decreases packets.len(),
{
    packets.len() > 0 ==> {
        let start = packets.drop_last().flatten().len();
        &&& packets_fill(room, packets.drop_last())
        &&& start < room
        &&& start + packets.last().len() <= room
    }
}

/// One packet more at the end.
proof fn lemma_flatten_last(packets: Seq<Seq<u8>>)
    requires
        packets.len() > 0,
    ensures
        packets.flatten() == packets.drop_last().flatten() + packets.last(),
{
    packets.lemma_flatten_and_flatten_alt_are_equivalent();
    packets.drop_last().lemma_flatten_and_flatten_alt_are_equivalent();
}

/// A course that fills a buffer leaves the bytes of its packets at the front, in
/// their order, and the bytes behind them as they were. It reads no more once
/// the buffer is full.
pub proof fn law_packets_fill_the_buffer(buffer: Seq<u8>, packets: Seq<Seq<u8>>)
    requires
        packets_fill(buffer.len(), packets),
    ensures
        ({
            let filled = packets.flatten().len() as int;
            &&& filled <= buffer.len()
            &&& filled_with(buffer, packets).len() == buffer.len()
            &&& filled_with(buffer, packets).take(filled) == packets.flatten()
            &&& filled_with(buffer, packets).skip(filled) == buffer.skip(filled)
            &&& filled == buffer.len() ==> filled_with(buffer, packets) == packets.flatten()
            &&& filled == buffer.len() ==> forall|packet: Seq<u8>|
                !#[trigger] packets_fill(buffer.len(), packets.push(packet))
        }),
    decreases packets.len(),
{
    let whole = filled_with(buffer, packets);
    let filled = packets.flatten().len() as int;
    if packets.len() > 0 {
        let front = packets.drop_last();
        let before = filled_with(buffer, front);
        let start = front.flatten().len() as int;
        law_packets_fill_the_buffer(buffer, front);
        lemma_flatten_last(packets);
        assert(whole.take(filled) =~= before.take(start) + packets.last());
        assert(whole.skip(filled) =~= before.skip(start).skip(packets.last().len() as int));
        assert(buffer.skip(filled) =~= buffer.skip(start).skip(packets.last().len() as int));
    } else {
        assert(packets =~= Seq::<Seq<u8>>::empty());
        assert(packets.flatten() =~= Seq::<u8>::empty());
        assert(whole.take(0) =~= Seq::<u8>::empty());
    }
    if filled == buffer.len() {
        assert(whole.take(filled) =~= whole);
        assert forall|packet: Seq<u8>| !#[trigger] packets_fill(
            buffer.len(),
            packets.push(packet),
        ) by {
            assert(packets.push(packet).drop_last() =~= packets);
        }
    }
}

/// Filling a buffer is reading each packet into the room that the ones before it
/// have left.
pub proof fn law_each_packet_is_read_into_the_rest(buffer: Seq<u8>, packets: Seq<Seq<u8>>)
    requires
        packets.len() > 0,
        packets_fill(buffer.len(), packets),
    ensures
        ({
            let before = filled_with(buffer, packets.drop_last());
            let start = packets.drop_last().flatten().len() as int;
            let (read, after) = io::read_into(before.skip(start), Some(packets.last()));
            &&& read is Ok
            &&& filled_with(buffer, packets) == before.take(start) + after
        }),
{
    let before = filled_with(buffer, packets.drop_last());
    let start = packets.drop_last().flatten().len() as int;
    let n = packets.last().len() as int;
    law_packets_fill_the_buffer(buffer, packets.drop_last());
    assert(before.skip(start).skip(n) =~= before.skip(start + n));
    assert(filled_with(buffer, packets) =~= before.take(start) + (packets.last() + before.skip(
        start,
    ).skip(n)));
}

/// The packets before one, and that one, are no more than all of them.
proof fn lemma_flatten_front(packets: Seq<Seq<u8>>, n: int)
    requires
        0 <= n <= packets.len(),
    ensures
        packets.take(n).flatten().len() <= packets.flatten().len(),
    decreases packets.len() - n,
{
    if n < packets.len() {
        lemma_flatten_front(packets, n + 1);
        lemma_flatten_last(packets.take(n + 1));
        assert(packets.take(n + 1).drop_last() =~= packets.take(n));
    } else {
        assert(packets.take(n) =~= packets);
    }
}

/// Packets that are not empty fill a buffer of their size.
proof fn lemma_packets_fill(packets: Seq<Seq<u8>>, n: int)
    requires
        0 <= n <= packets.len(),
        forall|i: int| 0 <= i < packets.len() ==> (#[trigger] packets[i]).len() > 0,
    ensures
        packets_fill(packets.flatten().len(), packets.take(n)),
    decreases n,
{
    if n > 0 {
        let front = packets.take(n);
        lemma_packets_fill(packets, n - 1);
        lemma_flatten_front(packets, n);
        lemma_flatten_last(front);
        assert(front.drop_last() =~= packets.take(n - 1));
        assert(front.last() == packets[n - 1]);
    }
}

/// What is sent in packets is what is received into a buffer of its size,
/// whatever the packet size.
pub proof fn law_sent_is_received(data: Seq<u8>, packet_size: nat, buffer: Seq<u8>)
    requires
        packet_size > 0,
        buffer.len() == data.len(),
    ensures
        packets_fill(buffer.len(), packets(data, packet_size)),
        filled_with(buffer, packets(data, packet_size)) == data,
{
    let sent = packets(data, packet_size);
    law_packets_carry_everything(data, packet_size);
    lemma_packets_fill(sent, sent.len() as int);
    assert(sent.take(sent.len() as int) =~= sent);
    law_packets_fill_the_buffer(buffer, sent);
}

/// The device that a link keeps connected until it is closed.
pub struct DeviceHandle<D> {
    device: Option<D>,
}

impl<D> DeviceHandle<D> {
    /// The device that is held.
    pub closed spec fn held(self) -> Option<D> {
        self.device
    }

    /// Holds a device, or none.
    pub fn new(device: Option<D>) -> (handle: Self)
        ensures
            handle.held() == device,
    {
        DeviceHandle { device }
    }

    /// Begins to close the link: gives the device away that may have to be
    /// disconnected, with what is to be done next. Closing again finds none,
    /// whatever comes of it.
    pub fn close(&mut self) -> (closing: (Option<D>, ClosePhase))
        ensures
            closing.0 == old(self).held(),
            closing.1 == close_first(old(self).held() is Some),
            final(self).held() is None,
    {
        match self.device.take() {
            Some(device) => (Some(device), ClosePhase::Checking),
            None => (None, ClosePhase::Closed),
        }
    }
}

/// What is to be done next to close a link.
#[derive(Clone, Copy, PartialEq, Eq, Structural, Debug)]
pub enum ClosePhase {
    /// Ask whether the device is connected.
    Checking,
    /// Disconnect from the device.
    Disconnecting,
    /// Nothing: the link is closed.
    Closed,
    /// Nothing: the device could not be disconnected.
    Failed,
}

/// How it went.
#[derive(Clone, Copy, PartialEq, Eq, Structural, Debug)]
pub enum CloseEvent {
    /// The device is connected, or is not.
    Connected(bool),
    /// The device was disconnected, or was not.
    Disconnected(bool),
}

/// Where closing begins.
pub open spec fn close_first(has_device: bool) -> ClosePhase {
    if has_device {
        ClosePhase::Checking
    } else {
        ClosePhase::Closed
    }
}

/// Whether an event is one that a phase can bring.
pub open spec fn close_event_fits(phase: ClosePhase, event: CloseEvent) -> bool {
    match event {
        CloseEvent::Connected(_) => phase == ClosePhase::Checking,
        CloseEvent::Disconnected(_) => phase == ClosePhase::Disconnecting,
    }
}

/// The phase that follows.
pub open spec fn close_next(event: CloseEvent) -> ClosePhase {
    match event {
        CloseEvent::Connected(true) => ClosePhase::Disconnecting,
        CloseEvent::Disconnected(false) => ClosePhase::Failed,
        _ => ClosePhase::Closed,
    }
}

/// Decides on the phase that follows. Only a connected device is disconnected,
/// and only a failure to do so is one of closing.
pub fn close_step(phase: ClosePhase, event: CloseEvent) -> (next: ClosePhase)
    requires
        close_event_fits(phase, event),
    ensures
        next == close_next(event),
{
    match event {
        CloseEvent::Connected(connected) => if connected {
            ClosePhase::Disconnecting
        } else {
            ClosePhase::Closed
        },
        CloseEvent::Disconnected(ok) => if ok {
            ClosePhase::Closed
        } else {
            ClosePhase::Failed
        },
    }
}

/// The phase after a run of events.
pub open spec fn close_run(has_device: bool, events: Seq<CloseEvent>) -> ClosePhase {
    if events.len() == 0 {
        close_first(has_device)
    } else {
        close_next(events.last())
    }
}

/// Whether each event of a run is one that its phase can bring.
pub open spec fn close_run_fits(has_device: bool, events: Seq<CloseEvent>) -> bool {
    forall|i: int|
        0 <= i < events.len() ==> close_event_fits(
            close_run(has_device, events.take(i)),
            #[trigger] events[i],
        )
}

/// Closing a link without a device does nothing. With one, the device is
/// disconnected exactly where it is connected, and closing fails exactly where
/// that fails.
pub proof fn law_closing_takes_a_course(has_device: bool, events: Seq<CloseEvent>)
    requires
        close_run_fits(has_device, events),
        close_run(has_device, events) == ClosePhase::Closed || close_run(has_device, events)
            == ClosePhase::Failed,
    ensures
        !has_device ==> events.len() == 0,
        has_device ==> ({
            ||| events == seq![CloseEvent::Connected(false)]
            ||| events == seq![CloseEvent::Connected(true), CloseEvent::Disconnected(true)]
            ||| events == seq![CloseEvent::Connected(true), CloseEvent::Disconnected(false)]
        }),
        close_run(has_device, events) == ClosePhase::Failed <==> events.len() > 0 && events.last()
            == CloseEvent::Disconnected(false),
{
    if events.len() > 0 {
        assert(events.take(0).len() == 0);
        assert(close_event_fits(close_run(has_device, events.take(0)), events[0]));
        if events.len() > 1 {
            assert(events.take(1).last() == events[0]);
            assert(close_event_fits(close_run(has_device, events.take(1)), events[1]));
        }
        if events.len() > 2 {
            assert(events.take(2).last() == events[1]);
            assert(close_event_fits(close_run(has_device, events.take(2)), events[2]));
        }
        if events.len() == 1 {
            assert(events =~= seq![events[0]]);
        } else {
            assert(events =~= seq![events[0], events[1]]);
        }
    }
}

/// What closing does next depends on its last event alone: a device that is
/// connected is disconnected, one that is not is left alone, and only a device
/// that could not be disconnected makes closing fail.
pub proof fn law_closing_follows_the_last_event(has_device: bool, events: Seq<CloseEvent>)
    requires
        close_run_fits(has_device, events),
    ensures
        close_run(has_device, events) == ClosePhase::Checking <==> has_device && events.len() == 0,
        close_run(has_device, events) == ClosePhase::Disconnecting <==> events.len() > 0
            && events.last() == CloseEvent::Connected(true),
        close_run(has_device, events) == ClosePhase::Failed <==> events.len() > 0 && events.last()
            == CloseEvent::Disconnected(false),
        close_run(has_device, events) == ClosePhase::Closed <==> if events.len() > 0 {
            events.last() == CloseEvent::Connected(false) || events.last()
                == CloseEvent::Disconnected(true)
        } else {
            !has_device
        },
{
}

} // verus!
