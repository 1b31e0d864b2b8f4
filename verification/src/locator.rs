//! Endpoints and locators in their textual form
//! `<protocol>/<address>[?<metadata>][#<config>]`.
use vstd::prelude::*;
use vstd::string::*;
use crate::device;
use crate::params;
use crate::text;

verus! {

/// Whether a text has the shape of a locator: a protocol that is not empty
/// before a `/`, and metadata and configuration, where present, behind the `/`
/// and in this order.
pub open spec fn is_locator_text(s: Seq<char>) -> bool {
    let slash = text::first_index(s, '/');
    let question = text::first_index(s, '?');
    let hash = text::first_index(s, '#');
    &&& 0 < slash < s.len()
    &&& slash < question
    &&& slash < hash
    &&& question < s.len() && hash < s.len() ==> question < hash
}

/// Whether a text has the shape of an endpoint: that of a locator with
/// something behind the `/`.
pub open spec fn is_endpoint_text(s: Seq<char>) -> bool {
    is_locator_text(s) && text::first_index(s, '/') + 1 < s.len()
}

/// The address of an endpoint: what stands between the first `/` and the
/// first `?` or `#`.
pub open spec fn endpoint_address(s: Seq<char>) -> Seq<char> {
    let question = text::first_index(s, '?');
    let hash = text::first_index(s, '#');
    s.subrange(
        text::first_index(s, '/') + 1,
        if question < hash {
            question
        } else {
            hash
        },
    )
}

/// The metadata of an endpoint: what stands between the first `?` and the
/// first `#`.
pub open spec fn endpoint_metadata(s: Seq<char>) -> Seq<char> {
    if text::first_index(s, '?') < s.len() {
        s.subrange(text::first_index(s, '?') + 1, text::first_index(s, '#'))
    } else {
        Seq::empty()
    }
}

/// The configuration of an endpoint: what stands behind the first `#`.
pub open spec fn endpoint_config(s: Seq<char>) -> Seq<char> {
    if text::first_index(s, '#') < s.len() {
        s.skip(text::first_index(s, '#') + 1)
    } else {
        Seq::empty()
    }
}

/// The locator of an endpoint: the endpoint without its configuration.
pub open spec fn endpoint_locator(s: Seq<char>) -> Seq<char> {
    s.take(text::first_index(s, '#'))
}

/// The text of the locator that `zenoh_protocol` makes of a protocol, an
/// address and metadata, if it makes one.
pub uninterp spec fn locator_text(
    protocol: Seq<char>,
    address: Seq<char>,
    metadata: Seq<char>,
) -> Option<Seq<char>>;

/// Whether `c` separates parts of an endpoint.
pub open spec fn is_separator(c: char) -> bool {
    c == '/' || c == '?' || c == '#'
}

/// Whether a protocol name is not empty and free of separators.
pub open spec fn is_plain_protocol(protocol: Seq<char>) -> bool {
    &&& protocol.len() > 0
    &&& forall|i: int| 0 <= i < protocol.len() ==> !is_separator(#[trigger] protocol[i])
}

/// Whether an address is free of the characters that start metadata and
/// configuration.
pub open spec fn is_plain_address(address: Seq<char>) -> bool {
    !address.contains('?') && !address.contains('#')
}

/// The number of bytes that a text takes.
pub open spec fn byte_len(s: Seq<char>) -> nat {
    vstd::utf8::encode_utf8(s).len()
}

/// The most bytes that protocol, address and metadata of a locator may take
/// together.
pub const LOCATOR_MAX_BYTES: usize = 255;

/// Makes the text of a locator.
///
/// Calls `zenoh_protocol::core::Locator::new`, whose result is named
/// `locator_text`. A locator has the shape of an endpoint. It is refused where
/// its parts take more than 255 bytes, and, of a plain protocol without
/// metadata, where the address is empty. Otherwise a plain protocol and a plain
/// address without metadata give `<protocol>/<address>`. Nothing is said of
/// what metadata, or a `?` or `#` in the address, is turned into.
#[verifier::external_body]
fn new_locator_text(protocol: &str, address: &str, metadata: &str) -> (made: Option<String>)
    ensures
        made is Some <==> locator_text(protocol@, address@, metadata@) is Some,
        made is Some ==> made->0@ == locator_text(protocol@, address@, metadata@)->0,
        made is Some ==> is_endpoint_text(made->0@),
        byte_len(protocol@) + byte_len(address@) + byte_len(metadata@) > LOCATOR_MAX_BYTES
            ==> made is None,
        is_plain_protocol(protocol@) && is_plain_address(address@) && metadata@.len() == 0
            && byte_len(protocol@) + byte_len(address@) <= LOCATOR_MAX_BYTES ==> (made is Some
            <==> address@.len() > 0),
        is_plain_protocol(protocol@) && is_plain_address(address@) && metadata@.len() == 0
            && made is Some ==> made->0@ == protocol@ + seq!['/'] + address@,
{
    zenoh_protocol::core::Locator::new(protocol, address, metadata).ok().map(String::from)
}

/// The text of a device address is a plain address, and short enough for any
/// protocol of ASCII characters that leaves it room.
pub proof fn lemma_device_address_is_plain(octets: Seq<u8>, protocol: Seq<char>)
    requires
        octets.len() == 6,
        vstd::utf8::is_ascii_chars(protocol),
        protocol.len() <= 200,
    ensures
        is_plain_address(device::octets_text(octets)),
        device::octets_text(octets).len() > 0,
        byte_len(protocol) + byte_len(device::octets_text(octets)) <= LOCATOR_MAX_BYTES,
{
    let text = device::octets_text(octets);
    device::law_octets_text_is_plain(octets);
    assert(vstd::utf8::is_ascii_chars(text));
    vstd::utf8::is_ascii_chars_encode_utf8(protocol);
    vstd::utf8::is_ascii_chars_encode_utf8(text);
}

/// A locator.
pub struct Locator {
    text: String,
}

impl View for Locator {
    type V = Seq<char>;

    closed spec fn view(&self) -> Seq<char> {
        self.text@
    }
}

impl Locator {
    #[verifier::type_invariant]
    spec fn inv(self) -> bool {
        is_locator_text(self.text@)
    }

    /// Makes a locator of its parts.
    pub fn new(protocol: &str, address: &str, metadata: &str) -> (made: Option<Locator>)
        ensures
            made is Some <==> locator_text(protocol@, address@, metadata@) is Some,
            made is Some ==> made->0@ == locator_text(protocol@, address@, metadata@)->0,
            made is Some ==> is_endpoint_text(made->0@),
            byte_len(protocol@) + byte_len(address@) + byte_len(metadata@) > LOCATOR_MAX_BYTES
                ==> made is None,
            is_plain_protocol(protocol@) && is_plain_address(address@) && metadata@.len() == 0
                && byte_len(protocol@) + byte_len(address@) <= LOCATOR_MAX_BYTES ==> (made is Some
                <==> address@.len() > 0),
            is_plain_protocol(protocol@) && is_plain_address(address@) && metadata@.len() == 0
                && made is Some ==> made->0@ == protocol@ + seq!['/'] + address@,
    {
        match new_locator_text(protocol, address, metadata) {
            Some(text) => Some(Locator { text }),
            None => None,
        }
    }

    /// Takes a text as a locator, where it has the shape of one.
    pub fn from_text(text: String) -> (made: Option<Locator>)
        ensures
            made is Some <==> is_locator_text(text@),
            made is Some ==> made->0@ == text@,
    {
        if has_locator_shape(text.as_str()) {
            Some(Locator { text })
        } else {
            None
        }
    }

    /// The text of the locator.
    pub fn as_str(&self) -> (s: &str)
        ensures
            s@ == self@,
    {
        self.text.as_str()
    }

    /// The value that the metadata holds for `key`.
    pub fn metadata_value(&self, key: &str) -> (value: Option<String>)
        ensures
            value is Some <==> params::param_value(endpoint_metadata(self@), key@) is Some,
            value is Some ==> value->0@ == params::param_value(endpoint_metadata(self@), key@)->0,
    {
        proof {
            use_type_invariant(self);
            text::lemma_first_index(self.text@, '?');
            text::lemma_first_index(self.text@, '#');
        }
        let s = self.text.as_str();
        let question = text::find_char(s, '?');
        if question < s.unicode_len() {
            let hash = text::find_char(s, '#');
            params::params_get(s.substring_char(question + 1, hash), key)
        } else {
            let value = params::params_get("", key);
            proof {
                reveal_strlit("");
                assert(""@ =~= Seq::<char>::empty());
            }
            value
        }
    }
}

/// Tests for the shape of a locator.
fn has_locator_shape(s: &str) -> (has: bool)
    ensures
        has == is_locator_text(s@),
{
    proof {
        text::lemma_first_index(s@, '/');
        text::lemma_first_index(s@, '?');
        text::lemma_first_index(s@, '#');
    }
    let n = s.unicode_len();
    let slash = text::find_char(s, '/');
    let question = text::find_char(s, '?');
    let hash = text::find_char(s, '#');
    0 < slash && slash < n && slash < question && slash < hash && (question == n || hash == n
        || question < hash)
}

/// An endpoint: a locator with an optional configuration.
pub struct EndPoint {
    text: String,
}

impl View for EndPoint {
    type V = Seq<char>;

    closed spec fn view(&self) -> Seq<char> {
        self.text@
    }
}

impl EndPoint {
    #[verifier::type_invariant]
    spec fn inv(self) -> bool {
        is_endpoint_text(self.text@)
    }

    /// Takes a text as an endpoint, where it has the shape of one.
    pub fn from_text(text: String) -> (made: Option<EndPoint>)
        ensures
            made is Some <==> is_endpoint_text(text@),
            made is Some ==> made->0@ == text@,
    {
        proof {
            text::lemma_first_index(text@, '/');
        }
        let n = text.as_str().unicode_len();
        let slash = text::find_char(text.as_str(), '/');
        if has_locator_shape(text.as_str()) && slash < n && slash + 1 < n {
            Some(EndPoint { text })
        } else {
            None
        }
    }

    /// The text of the endpoint.
    pub fn as_str(&self) -> (s: &str)
        ensures
            s@ == self@,
    {
        self.text.as_str()
    }

    /// A second endpoint with the same text.
    pub fn duplicate(&self) -> (copy: EndPoint)
        ensures
            copy@ == self@,
    {
        proof {
            use_type_invariant(self);
        }
        EndPoint { text: self.text.clone() }
    }

    /// The address of the endpoint.
    pub fn address(&self) -> (s: &str)
        ensures
            s@ == endpoint_address(self@),
    {
        proof {
            use_type_invariant(self);
            text::lemma_first_index(self.text@, '/');
            text::lemma_first_index(self.text@, '?');
            text::lemma_first_index(self.text@, '#');
        }
        let s = self.text.as_str();
        let slash = text::find_char(s, '/');
        let question = text::find_char(s, '?');
        let hash = text::find_char(s, '#');
        let end = if question < hash {
            question
        } else {
            hash
        };
        s.substring_char(slash + 1, end)
    }

    /// The configuration of the endpoint, as a parameter list.
    pub fn config(&self) -> (s: &str)
        ensures
            s@ == endpoint_config(self@),
    {
        proof {
            text::lemma_first_index(self.text@, '#');
        }
        let s = self.text.as_str();
        let n = s.unicode_len();
        let hash = text::find_char(s, '#');
        if hash < n {
            assert(s@.subrange(hash + 1, n as int) =~= s@.skip(hash + 1));
            s.substring_char(hash + 1, n)
        } else {
            assert(s@.subrange(n as int, n as int) =~= Seq::<char>::empty());
            s.substring_char(n, n)
        }
    }

    /// The endpoint without its configuration.
    pub fn to_locator(&self) -> (locator: Locator)
        ensures
            locator@ == endpoint_locator(self@),
    {
        proof {
            use_type_invariant(self);
            lemma_locator_shape(self.text@);
            text::lemma_first_index(self.text@, '#');
        }
        let s = self.text.as_str();
        let hash = text::find_char(s, '#');
        assert(s@.subrange(0, hash as int) =~= s@.take(hash as int));
        Locator { text: s.substring_char(0, hash).to_owned() }
    }
}

/// Cutting the configuration off an endpoint leaves the shape of a locator.
proof fn lemma_locator_shape(s: Seq<char>)
    requires
        is_locator_text(s),
    ensures
        is_locator_text(endpoint_locator(s)),
{
    text::lemma_first_index(s, '/');
    text::lemma_first_index(s, '?');
    text::lemma_first_index(s, '#');
    let slash = text::first_index(s, '/');
    let question = text::first_index(s, '?');
    let hash = text::first_index(s, '#');
    let cut = endpoint_locator(s);
    text::lemma_first_index_unique(cut, '/', slash);
    text::lemma_first_index_unique(cut, '#', hash);
    text::lemma_first_index_unique(
        cut,
        '?',
        if question < hash {
            question
        } else {
            hash
        },
    );
}

/// A part of an endpoint behind its separator, if it is there.
pub open spec fn optional_part(separator: char, part: Option<Seq<char>>) -> Seq<char> {
    match part {
        Some(s) => seq![separator] + s,
        None => Seq::empty(),
    }
}

/// The text of an endpoint with these parts.
pub open spec fn endpoint_text(
    protocol: Seq<char>,
    address: Seq<char>,
    metadata: Option<Seq<char>>,
    config: Option<Seq<char>>,
) -> Seq<char> {
    protocol + seq!['/'] + address + optional_part('?', metadata) + optional_part('#', config)
}

/// Every part of an endpoint reads back as it was, an absent one as empty. The
/// protocol must not be empty or hold a separator, the address must not hold a
/// `?` or `#`, and metadata must not hold a `#`; without metadata, neither may
/// the configuration hold a `?`.
pub proof fn law_endpoint_reads_back(
    protocol: Seq<char>,
    address: Seq<char>,
    metadata: Option<Seq<char>>,
    config: Option<Seq<char>>,
)
    requires
        is_plain_protocol(protocol),
        is_plain_address(address),
        metadata matches Some(m) ==> !m.contains('#'),
        metadata is None ==> (config matches Some(c) ==> !c.contains('?')),
    ensures
        ({
            let s = endpoint_text(protocol, address, metadata, config);
            &&& is_locator_text(s)
            &&& is_endpoint_text(s) <==> address.len() > 0 || metadata is Some || config is Some
            &&& endpoint_address(s) == address
            &&& endpoint_metadata(s) == (match metadata {
                Some(m) => m,
                None => Seq::empty(),
            })
            &&& endpoint_config(s) == (match config {
                Some(c) => c,
                None => Seq::empty(),
            })
            &&& endpoint_locator(s) == endpoint_text(protocol, address, metadata, None)
        }),
{
    let s = endpoint_text(protocol, address, metadata, config);
    let slash = protocol.len() as int;
    let behind = slash + 1 + address.len();
    let hash = behind + optional_part('?', metadata).len();
    assert(forall|i: int| 0 <= i < slash ==> s[i] == protocol[i]);
    assert(forall|i: int| slash < i < behind ==> s[i] == address[i - slash - 1]);
    assert(forall|i: int| 0 <= i < address.len() ==> address[i] != '?' && address[i] != '#') by {
        assert forall|i: int| 0 <= i < address.len() implies address[i] != '?' && address[i]
            != '#' by {
            assert(address.contains(address[i]));
        }
    }
    text::lemma_first_index_unique(s, '/', slash);
    match metadata {
        Some(m) => {
            assert(s[behind] == '?');
            assert(forall|i: int| behind < i < hash ==> s[i] == m[i - behind - 1]);
            assert forall|i: int| 0 <= i < m.len() implies m[i] != '#' by {
                assert(m.contains(m[i]));
            }
            text::lemma_first_index_unique(s, '?', behind);
            assert(s.subrange(behind + 1, hash) =~= m);
        },
        None => {
            match config {
                Some(c) => {
                    assert forall|i: int| hash < i < s.len() implies s[i] != '?' by {
                        assert(c[i - hash - 1] == s[i]);
                    }
                },
                None => {},
            }
            text::lemma_first_index_unique(s, '?', s.len() as int);
        },
    }
    text::lemma_first_index_unique(s, '#', hash);
    assert(s.subrange(slash + 1, behind) =~= address);
    match config {
        Some(c) => {
            assert(s.skip(hash + 1) =~= c);
        },
        None => {},
    }
    assert(s.take(hash) =~= endpoint_text(protocol, address, metadata, None));
}

/// Every locator and every endpoint is made of a protocol that is not empty and
/// holds no separator, of an address without a `?` or `#`, and of the metadata and
/// the configuration that it has; no character is lost between them. Only an
/// endpoint has something behind the `/` in any case.
pub proof fn law_endpoint_is_made_of_its_parts(s: Seq<char>, slash: int)
    requires
        is_locator_text(s) || is_endpoint_text(s),
        0 <= slash < s.len(),
        s[slash] == '/',
        forall|i: int| 0 <= i < slash ==> s[i] != '/',
    ensures
        slash > 0,
        forall|i: int| 0 <= i < slash ==> s[i] != '?' && s[i] != '#',
        !endpoint_address(s).contains('?'),
        !endpoint_address(s).contains('#'),
        !endpoint_metadata(s).contains('#'),
        s == s.take(slash) + seq!['/'] + endpoint_address(s) + (if s.contains('?') {
            seq!['?'] + endpoint_metadata(s)
        } else {
            seq![]
        }) + (if s.contains('#') {
            seq!['#'] + endpoint_config(s)
        } else {
            seq![]
        }),
        s == endpoint_locator(s) + (if s.contains('#') {
            seq!['#'] + endpoint_config(s)
        } else {
            seq![]
        }),
        !endpoint_locator(s).contains('#'),
        is_endpoint_text(s) <==> slash + 1 < s.len(),
{
    text::lemma_first_index_unique(s, '/', slash);
    text::lemma_first_index(s, '?');
    text::lemma_first_index(s, '#');
    let question = text::first_index(s, '?');
    let hash = text::first_index(s, '#');
    let address = endpoint_address(s);
    let metadata = endpoint_metadata(s);
    assert forall|i: int| 0 <= i < address.len() implies address[i] != '?' && address[i]
        != '#' by {
        assert(address[i] == s[slash + 1 + i]);
    }
    assert forall|i: int| 0 <= i < metadata.len() implies metadata[i] != '#' by {
        assert(metadata[i] == s[question + 1 + i]);
    }
    let front = s.take(slash) + seq!['/'] + address;
    let middle = if s.contains('?') {
        seq!['?'] + metadata
    } else {
        seq![]
    };
    let back = if s.contains('#') {
        seq!['#'] + endpoint_config(s)
    } else {
        seq![]
    };
    assert(front + middle =~= s.take(hash));
    assert(back =~= s.skip(hash));
    assert(front + middle + back =~= s);
    assert(endpoint_locator(s) + back =~= s);
}

} // verus!
