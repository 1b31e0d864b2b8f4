//! The two ends of a link: characteristics that bytes are read from and written
//! to.
use vstd::prelude::*;

verus! {

/// A characteristic that bytes can be read from.
///
/// Whether it is local or remote, and whether its packets come through a socket
/// or as GATT operations, is up to the implementation.
pub trait GattCharRead {
    /// The negotiated packet size.
    spec fn packet_size(&self) -> usize;

    /// Tells the negotiated packet size.
    fn mtu(&self) -> (mtu: usize)
        ensures
            mtu == self.packet_size(),
    ;
}

/// A characteristic that bytes can be written to.
///
/// Whether it is local or remote, and whether its packets go through a socket
/// or as GATT operations, is up to the implementation.
pub trait GattCharWrite {
    /// The negotiated packet size.
    spec fn packet_size(&self) -> usize;

    /// Tells the negotiated packet size.
    fn mtu(&self) -> (mtu: usize)
        ensures
            mtu == self.packet_size(),
    ;
}

impl<T: GattCharRead> GattCharRead for &mut T {
    open spec fn packet_size(&self) -> usize {
        (**self).packet_size()
    }

    fn mtu(&self) -> (mtu: usize) {
        (**self).mtu()
    }
}

impl<T: GattCharWrite> GattCharWrite for &mut T {
    open spec fn packet_size(&self) -> usize {
        (**self).packet_size()
    }

    fn mtu(&self) -> (mtu: usize) {
        (**self).mtu()
    }
}

/// A packet does not fit: into the buffer of a reader, or into the negotiated
/// packet size of a writer.
#[derive(Clone, Copy, PartialEq, Eq, Structural, Debug)]
pub struct PacketTruncated {
    pub packet: usize,
    pub room: usize,
}

/// How a write is confirmed.
#[derive(Clone, Copy, PartialEq, Eq, Structural, Debug)]
pub enum WriteOp {
    /// Not at all.
    Command,
    /// By a response.
    Request,
    /// By a response that repeats the data.
    Reliable,
}

/// A write of one packet to a remote characteristic.
#[derive(Clone, Copy, PartialEq, Eq, Structural, Debug)]
pub struct WriteRequest {
    pub op: WriteOp,
    /// Where in the value the packet goes.
    pub offset: u16,
    pub prepare_authorize: bool,
}

/// What a write of `len` bytes to a characteristic with this packet size comes to.
pub open spec fn write_request(op: WriteOp, size: usize, len: nat) -> Result<
    WriteRequest,
    PacketTruncated,
> {
    if len <= size {
        Ok(WriteRequest { op, offset: 0, prepare_authorize: false })
    } else {
        Err(PacketTruncated { packet: len as usize, room: size })
    }
}

/// What reading a packet, or the end of the packets, into `room` comes to, and what
/// `room` holds then.
pub open spec fn read_into(room: Seq<u8>, packet: Option<Seq<u8>>) -> (
    Result<usize, PacketTruncated>,
    Seq<u8>,
) {
    match packet {
        Some(data) if room.len() > 0 => if data.len() <= room.len() {
            (Ok(data.len() as usize), data + room.skip(data.len() as int))
        } else {
            (
                Err(PacketTruncated { packet: data.len() as usize, room: room.len() as usize }),
                room,
            )
        },
        _ => (Ok(0), room),
    }
}

/// Nothing of a packet is lost: one that fits is told with all its bytes and stands
/// at the front of the room, with nothing behind it changed; one that does not fit
/// is refused with both sizes, and then, at the end of the packets and without any
/// room, nothing is changed at all.
pub proof fn law_packet_is_read_whole_or_refused(room: Seq<u8>, data: Seq<u8>, i: int)
    requires
        room.len() <= usize::MAX,
        data.len() <= usize::MAX,
        0 <= i < room.len(),
    ensures
        ({
            let (read, after) = read_into(room, Some(data));
            &&& after.len() == room.len()
            &&& read is Ok <==> data.len() <= room.len()
            &&& read matches Ok(n) ==> n == data.len() && after[i] == if i < n {
                data[i]
            } else {
                room[i]
            }
            &&& read matches Err(e) ==> e.packet == data.len() && e.room == room.len() && after
                == room
        }),
        read_into(room, None) == (Ok::<usize, PacketTruncated>(0), room),
        read_into(Seq::empty(), Some(data)) == (
            Ok::<usize, PacketTruncated>(0),
            Seq::<u8>::empty(),
        ),
{
}

/// The writing end at a remote characteristic.
#[derive(Clone, Copy, PartialEq, Eq, Structural, Debug)]
pub struct RemoteCharacteristicWriter {
    mtu: usize,
    write_op: WriteOp,
}

impl RemoteCharacteristicWriter {
    /// How writes are confirmed.
    pub closed spec fn op(self) -> WriteOp {
        self.write_op
    }

    /// The writing end for a characteristic with this packet size.
    pub fn new(mtu: usize, write_op: WriteOp) -> (writer: Self)
        ensures
            writer.packet_size() == mtu,
            writer.op() == write_op,
    {
        RemoteCharacteristicWriter { mtu, write_op }
    }

    /// The writing end of a central. Its writes are confirmed, so that the
    /// peripheral can slow it down.
    pub fn for_peripheral(mtu: usize) -> (writer: Self)
        ensures
            writer.packet_size() == mtu,
            writer.op() == WriteOp::Request,
    {
        RemoteCharacteristicWriter { mtu, write_op: WriteOp::Request }
    }

    /// How to write `data`: all of it in one packet, where the packet size
    /// allows it.
    pub fn write(&self, data: &[u8]) -> (request: Result<WriteRequest, PacketTruncated>)
        ensures
            request is Ok <==> data@.len() <= self.packet_size(),
            request is Ok ==> request->Ok_0 == (WriteRequest {
                op: self.op(),
                offset: 0,
                prepare_authorize: false,
            }),
            request is Err ==> request->Err_0 == (PacketTruncated {
                packet: data@.len() as usize,
                room: self.packet_size(),
            }),
            request == write_request(self.op(), self.packet_size(), data@.len()),
    {
        if data.len() <= self.mtu {
            Ok(WriteRequest { op: self.write_op, offset: 0, prepare_authorize: false })
        } else {
            Err(PacketTruncated { packet: data.len(), room: self.mtu })
        }
    }
}

impl GattCharWrite for RemoteCharacteristicWriter {
    closed spec fn packet_size(&self) -> usize {
        self.mtu
    }

    fn mtu(&self) -> (mtu: usize) {
        self.mtu
    }
}

/// The reading end at a remote characteristic.
#[derive(Clone, Copy, PartialEq, Eq, Structural, Debug)]
pub struct RemoteCharacteristicReader {
    mtu: usize,
}

impl RemoteCharacteristicReader {
    /// The reading end for a characteristic with this packet size.
    pub fn new(mtu: usize) -> (reader: Self)
        ensures
            reader.packet_size() == mtu,
    {
        RemoteCharacteristicReader { mtu }
    }

    /// Takes the next packet, or the end of the packets, into `buf`. Nothing is
    /// taken into an empty buffer, and a packet that does not fit is refused
    /// with the buffer left as it was.
    pub fn read(&self, buf: &mut [u8], packet: Option<&[u8]>) -> (read: Result<
        usize,
        PacketTruncated,
    >)
        ensures
            final(buf)@.len() == old(buf)@.len(),
            old(buf)@.len() == 0 || packet is None ==> read == Ok::<usize, PacketTruncated>(0)
                && final(buf)@ == old(buf)@,
            old(buf)@.len() > 0 && packet is Some ==> ({
                let data = packet->0@;
                if data.len() <= old(buf)@.len() {
                    &&& read == Ok::<usize, PacketTruncated>(data.len() as usize)
                    &&& final(buf)@ == data + old(buf)@.skip(data.len() as int)
                } else {
                    &&& read == Err::<usize, PacketTruncated>(
                        PacketTruncated {
                            packet: data.len() as usize,
                            room: old(buf)@.len() as usize,
                        },
                    )
                    &&& final(buf)@ == old(buf)@
                }
            }),
            (read, final(buf)@) == read_into(
                old(buf)@,
                match packet {
                    Some(data) => Some(data@),
                    None => None,
                },
            ),
    {
        if buf.len() == 0 {
            return Ok(0);
        }
        match packet {
            Some(data) => {
                if data.len() <= buf.len() {
                    copy_to_front(buf, data);
                    Ok(data.len())
                } else {
                    Err(PacketTruncated { packet: data.len(), room: buf.len() })
                }
            },
            None => Ok(0),
        }
    }
}

impl GattCharRead for RemoteCharacteristicReader {
    closed spec fn packet_size(&self) -> usize {
        self.mtu
    }

    fn mtu(&self) -> (mtu: usize) {
        self.mtu
    }
}

/// Copies `data` to the front of `buf`.
fn copy_to_front(buf: &mut [u8], data: &[u8])
    requires
        data@.len() <= old(buf)@.len(),
    ensures
        final(buf)@ == data@ + old(buf)@.skip(data@.len() as int),
{
    let ghost before = buf@;
    let mut i: usize = 0;
    while i < data.len()
        invariant
            i <= data@.len() <= before.len(),
            buf@.len() == before.len(),
            buf@ == data@.take(i as int) + before.skip(i as int),
        decreases data@.len() - i,
    {
        buf[i] = data[i];
        i = i + 1;
        assert(buf@ =~= data@.take(i as int) + before.skip(i as int));
    }
    assert(data@.take(i as int) =~= data@);
}

} // verus!
