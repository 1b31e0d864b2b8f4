//! A link over a secured channel.
use vstd::prelude::*;
use vstd::string::*;
use crate::auth::LinkAuthId;
use crate::device;
use crate::device::ADDRESS_LIMIT;
use crate::l2cap::identity;
use crate::l2cap::BT_L2CAP_TLS_LOCATOR_PREFIX;
use crate::locator;
use crate::locator::Locator;

verus! {

/// The packet size that the link gives. The channel is a stream, so nothing
/// depends on it.
pub const L2CAP_MTU: u16 = 1500;

/// The interface that all these links use.
pub const INTERFACE: &'static str = "bluetooth";

/// One of the ends of a link has no locator.
#[derive(Debug)]
pub enum LinkFault {
    /// The near end.
    InvalidSource { path: String },
    /// The far end.
    InvalidDestination { path: String },
}

/// The text of the locator of one end, if there is one.
pub open spec fn end_text(path: Seq<char>) -> Option<Seq<char>> {
    locator::locator_text(BT_L2CAP_TLS_LOCATOR_PREFIX@, path, Seq::empty())
}

/// What is known of a link besides its channel.
pub struct LinkUnicastBtL2capTls {
    src_locator: Locator,
    dst_locator: Locator,
    interface: String,
    auth_id: LinkAuthId,
}

impl LinkUnicastBtL2capTls {
    /// Where the link comes from.
    pub closed spec fn src(self) -> Seq<char> {
        self.src_locator@
    }

    /// Where the link goes to.
    pub closed spec fn dst(self) -> Seq<char> {
        self.dst_locator@
    }

    /// The interface that the link uses.
    pub closed spec fn interface(self) -> Seq<char> {
        self.interface@
    }

    /// Who is at the far end.
    pub closed spec fn peer(self) -> LinkAuthId {
        self.auth_id
    }

    /// A link between two ends. The near end is looked at first.
    pub fn new(src: &str, dst: &str, interface: String, auth_id: LinkAuthId) -> (link: Result<
        Self,
        LinkFault,
    >)
        ensures
            link is Ok <==> end_text(src@) is Some && end_text(dst@) is Some,
            link matches Ok(link) ==> {
                &&& link.src() == end_text(src@)->0
                &&& link.dst() == end_text(dst@)->0
                &&& link.interface() == interface@
                &&& link.peer() == auth_id
            },
            link matches Err(fault) ==> if end_text(src@) is None {
                fault matches LinkFault::InvalidSource { path } && path@ == src@
            } else {
                fault matches LinkFault::InvalidDestination { path } && path@ == dst@
            },
    {
        proof {
            reveal_strlit("");
            assert(""@ =~= Seq::<char>::empty());
        }
        let src_locator = match Locator::new(BT_L2CAP_TLS_LOCATOR_PREFIX, src, "") {
            Some(locator) => locator,
            None => {
                return Err(LinkFault::InvalidSource { path: src.to_owned() });
            },
        };
        let dst_locator = match Locator::new(BT_L2CAP_TLS_LOCATOR_PREFIX, dst, "") {
            Some(locator) => locator,
            None => {
                return Err(LinkFault::InvalidDestination { path: dst.to_owned() });
            },
        };
        Ok(LinkUnicastBtL2capTls { src_locator, dst_locator, interface, auth_id })
    }

    /// A link over a secured channel between the adapter with this alias and the
    /// device at an address, which showed these certificates. It is made wherever
    /// the alias has a locator.
    pub fn secured(alias: &str, address: u64, certs: Option<&Vec<Vec<u8>>>) -> (link: Result<
        Self,
        LinkFault,
    >)
        requires
            address < ADDRESS_LIMIT,
        ensures
            link is Ok <==> end_text(alias@) is Some,
            link matches Ok(link) ==> {
                &&& link.src() == end_text(alias@)->0
                &&& link.dst() == BT_L2CAP_TLS_LOCATOR_PREFIX@ + seq!['/'] + device::octets_text(
                    device::octets_of(address as int, 6),
                )
                &&& link.interface() == INTERFACE@
                &&& identity::is_peer_identity(link.peer(), certs)
            },
            link matches Err(fault) ==> (fault matches LinkFault::InvalidSource { path } && path@
                == alias@),
    {
        let peer = device::address_text(address);
        proof {
            reveal_strlit("");
            reveal_strlit("bt_l2cap_tls");
            assert(""@ =~= Seq::<char>::empty());
            device::lemma_octets_of_len(address as int, 6);
            locator::lemma_device_address_is_plain(
                device::octets_of(address as int, 6),
                BT_L2CAP_TLS_LOCATOR_PREFIX@,
            );
        }
        let dst_locator = Locator::new(BT_L2CAP_TLS_LOCATOR_PREFIX, peer.as_str(), "").unwrap();
        match Locator::new(BT_L2CAP_TLS_LOCATOR_PREFIX, alias, "") {
            Some(src_locator) => Ok(
                LinkUnicastBtL2capTls {
                    src_locator,
                    dst_locator,
                    interface: INTERFACE.to_owned(),
                    auth_id: identity::peer_cert_cn(certs),
                },
            ),
            None => Err(LinkFault::InvalidSource { path: alias.to_owned() }),
        }
    }

    /// The packet size.
    pub fn get_mtu(&self) -> (mtu: u16)
        ensures
            mtu == L2CAP_MTU,
    {
        L2CAP_MTU
    }

    /// The locator of the near end.
    pub fn get_src(&self) -> (locator: &Locator)
        ensures
            locator@ == self.src(),
    {
        &self.src_locator
    }

    /// The locator of the far end.
    pub fn get_dst(&self) -> (locator: &Locator)
        ensures
            locator@ == self.dst(),
    {
        &self.dst_locator
    }

    /// The link delivers what it takes.
    pub fn is_reliable(&self) -> (reliable: bool)
        ensures
            reliable == true,
    {
        true
    }

    /// The link carries a stream.
    pub fn is_streamed(&self) -> (streamed: bool)
        ensures
            streamed == true,
    {
        true
    }

    /// The one interface that the link uses.
    pub fn get_interface_names(&self) -> (names: Vec<String>)
        ensures
            names@.len() == 1,
            names@[0]@ == self.interface(),
    {
        let mut names: Vec<String> = Vec::new();
        names.push(self.interface.clone());
        names
    }

    /// Who is at the far end.
    pub fn get_auth_id(&self) -> (id: &LinkAuthId)
        ensures
            *id == self.peer(),
    {
        &self.auth_id
    }

    /// How the link is written down.
    pub open spec fn text(self) -> Seq<char> {
        self.src() + " => "@ + self.dst()
    }

    /// A link is written down as where it comes from, an arrow, and where it goes to.
    pub proof fn law_text_names_both_ends(self)
        ensures
            self.text().len() == self.src().len() + 4 + self.dst().len(),
            self.text().take(self.src().len() as int) == self.src(),
            self.text().subrange(self.src().len() as int, self.src().len() as int + 4) == seq![
                ' ',
                '=',
                '>',
                ' ',
            ],
            self.text().skip(self.src().len() as int + 4) == self.dst(),
    {
        reveal_strlit(" => ");
        assert(" => "@ =~= seq![' ', '=', '>', ' ']);
        let n = self.src().len() as int;
        assert(self.text().take(n) =~= self.src());
        assert(self.text().subrange(n, n + 4) =~= " => "@);
        assert(self.text().skip(n + 4) =~= self.dst());
    }

    /// Writes the link down.
    pub fn describe(&self) -> (s: String)
        ensures
            s@ == self.text(),
    {
        let mut s = self.src_locator.as_str().to_owned();
        s.append(" => ");
        s.append(self.dst_locator.as_str());
        s
    }

    /// What is said where something cannot be done with the link.
    pub fn failure(&self, what: &str, cause: &str) -> (s: String)
        ensures
            s@ == "bt_l2cap_tls "@ + what@ + " on "@ + self.text() + ": "@ + cause@,
    {
        let mut s = "bt_l2cap_tls ".to_owned();
        s.append(what);
        s.append(" on ");
        s.append(self.describe().as_str());
        s.append(": ");
        s.append(cause);
        s
    }

    /// What a read of `n` bytes into a buffer of `room` bytes comes to: nothing
    /// read into a buffer with room means that the far end has closed the link.
    pub fn finish_read(&self, n: usize, room: usize) -> (read: Result<usize, String>)
        ensures
            read is Err <==> n == 0 && room > 0,
            read is Ok ==> read->Ok_0 == n,
            stream_read(n, room) is Some <==> read is Ok,
            stream_read(n, room) is Some ==> read->Ok_0 == stream_read(n, room)->0,
            read is Err ==> read->Err_0@ == "bt_l2cap_tls connection closed on "@ + self.text(),
    {
        if n == 0 && room > 0 {
            let mut s = "bt_l2cap_tls connection closed on ".to_owned();
            s.append(self.describe().as_str());
            Err(s)
        } else {
            Ok(n)
        }
    }
}

/// How many bytes a read tells that gave `n` into `room` bytes, unless the far end has
/// closed the link.
pub open spec fn stream_read(n: usize, room: usize) -> Option<usize> {
    if n == 0 && room > 0 {
        None
    } else {
        Some(n)
    }
}

/// A read tells exactly the bytes that it gave. Only a read that gave none although
/// there was room says that the link is closed.
pub proof fn law_read_tells_what_the_stream_gave(n: usize, room: usize, told: usize)
    ensures
        n > 0 ==> (stream_read(n, room) == Some(told) <==> told == n),
        stream_read(n, 0) == Some(n),
        room > 0 ==> stream_read(0, room) is None,
{
}

} // verus!
