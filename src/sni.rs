use crate::record::{declared_length, record_body_length, FramingError, HEADER_LEN, MAX_RECORD_LENGTH};
use tls_parser::{TlsExtension, TlsMessage, TlsMessageHandshake};
use vstd::prelude::*;
use vstd::slice::slice_to_vec;

verus! {

/// The `name_type` of a server-name entry that holds a DNS host name.
pub const HOST_NAME_TYPE: u8 = 0;

/// One entry of a server-name extension: its type and its raw name bytes.
pub struct ServerName {
    pub name_type: u8,
    pub name: Vec<u8>,
}

impl View for ServerName {
    type V = (u8, Seq<u8>);

    open spec fn view(&self) -> (u8, Seq<u8>) {
        (self.name_type, self.name@)
    }
}

/// A ClientHello extension, as far as routing cares: a server-name list, or
/// anything else.
pub enum Extension {
    ServerNames(Vec<ServerName>),
    Other,
}

pub open spec fn entries_view(names: Seq<ServerName>) -> Seq<(u8, Seq<u8>)> {
    names.map_values(|n: ServerName| n@)
}

impl View for Extension {
    type V = Option<Seq<(u8, Seq<u8>)>>;

    open spec fn view(&self) -> Option<Seq<(u8, Seq<u8>)>> {
        match self {
            Extension::ServerNames(names) => Some(entries_view(names@)),
            Extension::Other => None,
        }
    }
}

pub open spec fn extensions_view(exts: Seq<Extension>) -> Seq<Option<Seq<(u8, Seq<u8>)>>> {
    exts.map_values(|e: Extension| e@)
}

/// What the first message of a parsed record offers for routing.
pub enum FirstMessage {
    /// The bytes are not a TLS plaintext record.
    Malformed,
    /// The first message is not a ClientHello, or has no extensions block.
    NoClientHelloExtensions,
    /// The raw extensions block of the ClientHello.
    ClientHelloExtensions(Vec<u8>),
}

impl View for FirstMessage {
    type V = Option<Option<Seq<u8>>>;

    open spec fn view(&self) -> Option<Option<Seq<u8>>> {
        match self {
            FirstMessage::Malformed => None,
            FirstMessage::NoClientHelloExtensions => Some(None),
            FirstMessage::ClientHelloExtensions(block) => Some(Some(block@)),
        }
    }
}

/// What the TLS record grammar makes of a record: `None` if it does not parse,
/// else the extensions block of its first message if that is a ClientHello
/// that carries one.
pub uninterp spec fn first_message_of(record: Seq<u8>) -> Option<Option<Seq<u8>>>;

/// What the TLS extension grammar makes of an extensions block: `None` if it
/// does not parse, else for each extension its server-name entries, or `None`
/// for an extension of another kind.
pub uninterp spec fn extensions_of(block: Seq<u8>) -> Option<Seq<Option<Seq<(u8, Seq<u8>)>>>>;

/// The characters that a byte string encodes as UTF-8, or `None` if it is not
/// valid UTF-8.
pub uninterp spec fn utf8_of(bytes: Seq<u8>) -> Option<Seq<char>>;

/// Relies on `tls_parser::parse_tls_plaintext`, a function of its input alone,
/// to parse one record; its first message is then taken apart.
#[verifier::external_body]
fn parse_first_message(record: &[u8]) -> (r: FirstMessage)
    ensures
        r@ == first_message_of(record@),
{
    match tls_parser::parse_tls_plaintext(record) {
        Err(_) => FirstMessage::Malformed,
        Ok((_, plain)) => match plain.msg.first() {
            Some(TlsMessage::Handshake(TlsMessageHandshake::ClientHello(hello))) => match hello.ext {
                Some(block) => FirstMessage::ClientHelloExtensions(block.to_vec()),
                None => FirstMessage::NoClientHelloExtensions,
            },
            _ => FirstMessage::NoClientHelloExtensions,
        },
    }
}

/// Relies on `tls_parser::parse_tls_extensions`, a function of its input
/// alone, to split an extensions block; server-name lists are kept.
#[verifier::external_body]
fn parse_extensions(block: &[u8]) -> (r: Option<Vec<Extension>>)
    ensures
        r is Some <==> extensions_of(block@) is Some,
        r is Some ==> extensions_view(r->0@) == extensions_of(block@)->0,
{
    tls_parser::parse_tls_extensions(block).ok().map(|(_, exts)| exts.into_iter().map(|e| match e {
        TlsExtension::SNI(v) => Extension::ServerNames(v.into_iter().map(|(t, n)| ServerName { name_type: t.0, name: n.to_vec() }).collect()),
        _ => Extension::Other,
    }).collect())
}

/// Relies on `String::from_utf8`, which accepts exactly the valid UTF-8 byte
/// strings and depends on its input alone.
#[verifier::external_body]
fn decode_utf8(bytes: &[u8]) -> (r: Option<String>)
    ensures
        r is Some <==> utf8_of(bytes@) is Some,
        r is Some ==> r->0@ == utf8_of(bytes@)->0,
{
    String::from_utf8(bytes.to_vec()).ok()
}

/// Why a well-framed record gives no backend to route to.
#[derive(Debug, Clone, Copy, PartialEq, Eq, Structural)]
pub enum RoutingError {
    /// The first message is not a ClientHello with an extensions block.
    NoClientHelloExtensions,
    /// The extensions block does not parse.
    BadExtensions,
    /// No server-name entry of the host-name type.
    NoHostName,
    /// The first host name is empty.
    EmptyName,
    /// The first host name is not valid UTF-8.
    NotUtf8,
}

/// Why sniffing the first record failed: its framing, or its routing.
#[derive(Debug, Clone, Copy, PartialEq, Eq, Structural)]
pub enum SniffError {
    Framing(FramingError),
    Routing(RoutingError),
}

/// The first host-name entry among `entries[i..]`.
pub open spec fn host_in_entries(entries: Seq<(u8, Seq<u8>)>, i: int) -> Option<Seq<u8>>
    decreases entries.len() - i,
{
    if i < 0 || i >= entries.len() {
        None
    } else if entries[i].0 == HOST_NAME_TYPE {
        Some(entries[i].1)
    } else {
        host_in_entries(entries, i + 1)
    }
}

/// The first host-name entry of the first server-name extension among
/// `exts[i..]` that holds one.
pub open spec fn host_in_extensions(exts: Seq<Option<Seq<(u8, Seq<u8>)>>>, i: int) -> Option<Seq<u8>>
    decreases exts.len() - i,
{
    if i < 0 || i >= exts.len() {
        None
    } else {
        let here = match exts[i] {
            Some(entries) => host_in_entries(entries, 0),
            None => None,
        };
        if here is Some {
            here
        } else {
            host_in_extensions(exts, i + 1)
        }
    }
}

/// The host name that routing takes from a list of extensions: the first
/// host-name entry, scanning extensions and then entries in order.
pub open spec fn first_host_name(exts: Seq<Option<Seq<(u8, Seq<u8>)>>>) -> Option<Seq<u8>> {
    host_in_extensions(exts, 0)
}

/// The outcome of host-name selection over a list of extensions.
pub open spec fn host_selection(exts: Seq<Option<Seq<(u8, Seq<u8>)>>>) -> Result<Seq<u8>, RoutingError> {
    match first_host_name(exts) {
        None => Err(RoutingError::NoHostName),
        Some(name) => if name.len() == 0 {
            Err(RoutingError::EmptyName)
        } else {
            Ok(name)
        },
    }
}

/// The outcome of sniffing a captured record: the host name to route to, or
/// the error, framing errors first.
pub open spec fn sniff_outcome(record: Seq<u8>) -> Result<Seq<char>, SniffError> {
    if record.len() < HEADER_LEN {
        Err(SniffError::Framing(FramingError::ShortHeader))
    } else if declared_length(record) > MAX_RECORD_LENGTH {
        Err(SniffError::Framing(FramingError::TooLong))
    } else if record.len() != HEADER_LEN + declared_length(record) {
        Err(SniffError::Framing(FramingError::LengthMismatch))
    } else {
        match first_message_of(record) {
            None => Err(SniffError::Framing(FramingError::Malformed)),
            Some(None) => Err(SniffError::Routing(RoutingError::NoClientHelloExtensions)),
            Some(Some(block)) => match extensions_of(block) {
                None => Err(SniffError::Routing(RoutingError::BadExtensions)),
                Some(exts) => match host_selection(exts) {
                    Err(e) => Err(SniffError::Routing(e)),
                    Ok(name) => match utf8_of(name) {
                        None => Err(SniffError::Routing(RoutingError::NotUtf8)),
                        Some(host) => Ok(host),
                    },
                },
            },
        }
    }
}

/// Where to route a connection, and the bytes already taken from the client,
/// to be replayed to the backend.
pub struct Route {
    pub host: String,
    pub captured: Vec<u8>,
}

/// The first host-name entry of a server-name list, copied out.
fn host_in(names: &Vec<ServerName>) -> (r: Option<Vec<u8>>)
    ensures
        r is Some <==> host_in_entries(entries_view(names@), 0) is Some,
        r is Some ==> r->0@ == host_in_entries(entries_view(names@), 0)->0,
{
    let ghost entries = entries_view(names@);
    let mut i: usize = 0;
    while i < names.len()
        invariant
            0 <= i <= names.len(),
            entries == entries_view(names@),
            host_in_entries(entries, 0) == host_in_entries(entries, i as int),
        decreases names.len() - i,
    {
        assert(entries[i as int] == names@[i as int]@);
        if names[i].name_type == HOST_NAME_TYPE {
            return Some(slice_to_vec(names[i].name.as_slice()));
        }
        i = i + 1;
    }
    None
}

/// Selects the host name to route to from a ClientHello's extensions: the
/// first host-name entry, scanning extensions and then entries in order, and
/// rejects an empty one.
pub fn select_host_name(exts: &Vec<Extension>) -> (r: Result<Vec<u8>, RoutingError>)
    ensures
        match r {
            Ok(name) => host_selection(extensions_view(exts@)) == Ok::<Seq<u8>, RoutingError>(name@),
            Err(e) => host_selection(extensions_view(exts@)) == Err::<Seq<u8>, RoutingError>(e),
        },
{
    let ghost view = extensions_view(exts@);
    let mut i: usize = 0;
    while i < exts.len()
        invariant
            0 <= i <= exts.len(),
            view == extensions_view(exts@),
            first_host_name(view) == host_in_extensions(view, i as int),
        decreases exts.len() - i,
    {
        assert(view[i as int] == exts@[i as int]@);
        match &exts[i] {
            Extension::ServerNames(names) => {
                if let Some(name) = host_in(names) {
                    if name.len() == 0 {
                        return Err(RoutingError::EmptyName);
                    }
                    return Ok(name);
                }
            },
            Extension::Other => {},
        }
        i = i + 1;
    }
    Err(RoutingError::NoHostName)
}

/// Reads the routing decision out of one captured TLS record (header and
/// body): the host name of the first host-name server-name entry, decoded as
/// UTF-8. On success the captured bytes are handed back unchanged, for replay
/// to the backend.
pub fn sniff(record: Vec<u8>) -> (r: Result<Route, SniffError>)
    ensures
        match r {
            Ok(route) => sniff_outcome(record@) == Ok::<Seq<char>, SniffError>(route.host@)
                && route.captured@ == record@,
            Err(e) => sniff_outcome(record@) == Err::<Seq<char>, SniffError>(e),
        },
{
    let length = match record_body_length(record.as_slice()) {
        Ok(n) => n,
        Err(e) => {
            return Err(SniffError::Framing(e));
        },
    };
    if record.len() != HEADER_LEN + length {
        return Err(SniffError::Framing(FramingError::LengthMismatch));
    }
    let block = match parse_first_message(record.as_slice()) {
        FirstMessage::Malformed => {
            return Err(SniffError::Framing(FramingError::Malformed));
        },
        FirstMessage::NoClientHelloExtensions => {
            return Err(SniffError::Routing(RoutingError::NoClientHelloExtensions));
        },
        FirstMessage::ClientHelloExtensions(block) => block,
    };
    let exts = match parse_extensions(block.as_slice()) {
        None => {
            return Err(SniffError::Routing(RoutingError::BadExtensions));
        },
        Some(exts) => exts,
    };
    let name = match select_host_name(&exts) {
        Err(e) => {
            return Err(SniffError::Routing(e));
        },
        Ok(name) => name,
    };
    match decode_utf8(name.as_slice()) {
        None => Err(SniffError::Routing(RoutingError::NotUtf8)),
        Some(host) => Ok(Route { host, captured: record }),
    }
}

/// A well-framed record whose ClientHello carries a host-name entry routes to
/// exactly that name, decoded as UTF-8: the first such entry of the first
/// server-name extension that has one.
pub proof fn lemma_routes_to_first_host_name(record: Seq<u8>, block: Seq<u8>, exts: Seq<Option<Seq<(u8, Seq<u8>)>>>, name: Seq<u8>, host: Seq<char>)
    requires
        record.len() >= HEADER_LEN,
        declared_length(record) <= MAX_RECORD_LENGTH,
        record.len() == HEADER_LEN + declared_length(record),
        first_message_of(record) == Some(Some(block)),
        extensions_of(block) == Some(exts),
        first_host_name(exts) == Some(name),
        name.len() > 0,
        utf8_of(name) == Some(host),
    ensures
        sniff_outcome(record) == Ok::<Seq<char>, SniffError>(host),
{
}

/// A header that declares a body longer than the limit is a framing error,
/// whatever follows it.
pub proof fn lemma_oversized_is_framing_error(record: Seq<u8>)
    requires
        record.len() >= HEADER_LEN,
        declared_length(record) > MAX_RECORD_LENGTH,
    ensures
        sniff_outcome(record) == Err::<Seq<char>, SniffError>(SniffError::Framing(FramingError::TooLong)),
        forall|body: Seq<u8>| sniff_outcome(#[trigger] (record.subrange(0, HEADER_LEN as int) + body))
            == Err::<Seq<char>, SniffError>(SniffError::Framing(FramingError::TooLong)),
{
    assert forall|body: Seq<u8>| sniff_outcome(#[trigger] (record.subrange(0, HEADER_LEN as int) + body))
        == Err::<Seq<char>, SniffError>(SniffError::Framing(FramingError::TooLong)) by {
        let r2 = record.subrange(0, HEADER_LEN as int) + body;
        assert(r2[3] == record[3] && r2[4] == record[4]);
    }
}

} // verus!
