//! Network addresses: a sequence of protocol components, read from text.
use crate::legacy::{
    law_legacy_name_gives_way, law_sanitize_idempotent, law_sanitized_at_slash, law_sanitized_parts,
    lemma_sanitized_slash_free, modern_part, modern_parts, sanitize, sanitized, slash_free,
    split_parts,
};
use vstd::prelude::*;

verus! {

/// One protocol of an address, such as `/tcp/8000`.
#[derive(Debug, PartialEq, Eq)]
pub struct Component {
    /// The protocol's name, such as `tcp`.
    pub tag: String,
    /// The component in the binary form of multiaddresses.
    pub bytes: Vec<u8>,
}

/// What a [`Component`] holds.
pub struct ComponentView {
    pub tag: Seq<char>,
    pub bytes: Seq<u8>,
}

impl View for Component {
    type V = ComponentView;

    open spec fn view(&self) -> ComponentView {
        ComponentView { tag: self.tag@, bytes: self.bytes@ }
    }
}

/// An address: its components from the outermost to the innermost.
#[derive(Debug, PartialEq, Eq)]
pub struct Address {
    pub components: Vec<Component>,
}

impl View for Address {
    type V = Seq<ComponentView>;

    open spec fn view(&self) -> Seq<ComponentView> {
        Seq::new(self.components@.len(), |i: int| self.components@[i]@)
    }
}

/// Why a text is no address.
#[derive(Debug, PartialEq, Eq)]
pub enum AddressError {
    /// The text does not start with a slash, or an onion address in it is malformed.
    InvalidMultiaddr,
    /// A protocol lacks its value, or a garlic address has a wrong length.
    InvalidProtocolString,
    /// The value of a protocol cannot be read, for the cause that the text gives.
    ParsingError(String),
    /// No protocol of that name exists.
    UnknownProtocolString(String),
    /// Any other failure.
    Other,
}

/// What an [`AddressError`] holds.
pub enum AddressErrorView {
    InvalidMultiaddr,
    InvalidProtocolString,
    ParsingError(Seq<char>),
    UnknownProtocolString(Seq<char>),
    Other,
}

impl View for AddressError {
    type V = AddressErrorView;

    open spec fn view(&self) -> AddressErrorView {
        match self {
            AddressError::InvalidMultiaddr => AddressErrorView::InvalidMultiaddr,
            AddressError::InvalidProtocolString => AddressErrorView::InvalidProtocolString,
            AddressError::ParsingError(cause) => AddressErrorView::ParsingError(cause@),
            AddressError::UnknownProtocolString(name) => {
                AddressErrorView::UnknownProtocolString(name@)
            },
            AddressError::Other => AddressErrorView::Other,
        }
    }
}

/// What reading an address gives: the components, or the error.
pub type ParsedView = Result<Seq<ComponentView>, AddressErrorView>;

/// What `Multiaddr::from_str` makes of a text.
pub uninterp spec fn parsed_multiaddr(text: Seq<char>) -> Result<
    Seq<ComponentView>,
    AddressErrorView,
>;

/// The view of what reading an address gave.
pub open spec fn address_result(res: Result<Address, AddressError>) -> ParsedView {
    match res {
        Ok(address) => Ok(address@),
        Err(e) => Err(e@),
    }
}

/// The text of the component that names the peer `id`.
pub open spec fn peer_component(id: Seq<char>) -> Seq<char> {
    "/p2p/"@ + id
}

/// Calls `Multiaddr::from_str` of the multiaddr crate and takes the address apart into its
/// protocols: each with what `Protocol::tag` calls it and with its own binary form.
///
/// Trusted: which components come out, or which error, is a function of the text alone, named by
/// [`parsed_multiaddr`]; an error comes with the cause or the name that it carries, as text. Two
/// facts are stated. A name that is not known is one of the parts of the text. And the protocols
/// are read from left to right, so an address text followed by a peer component reads as the
/// components of the one followed by that of the other, whose tag is `p2p`; and it fails as the
/// peer component alone fails.
#[verifier::external_body]
pub(crate) fn multiaddr_from_str(text: &str) -> (res: Result<Address, AddressError>)
    ensures
        address_result(res) == parsed_multiaddr(text@),
        res matches Err(AddressError::UnknownProtocolString(name)) ==> split_parts(
            text@,
        ).contains(name@),
        forall|front: Seq<char>, id: Seq<char>|
            #![trigger parsed_multiaddr(front), peer_component(id)]
            text@ == front + peer_component(id) && slash_free(id) && parsed_multiaddr(front) is Ok
                ==> match parsed_multiaddr(peer_component(id)) {
                Ok(peer) => {
                    &&& peer.len() == 1
                    &&& peer[0].tag == "p2p"@
                    &&& address_result(res) == Ok::<Seq<ComponentView>, AddressErrorView>(
                        parsed_multiaddr(front)->Ok_0 + peer,
                    )
                },
                Err(e) => address_result(res) == Err::<Seq<ComponentView>, AddressErrorView>(e),
            },
{
    match text.parse::<libp2p::Multiaddr>() {
        Ok(address) => Ok(Address {
            components: address.iter().map(|protocol| Component {
                tag: protocol.tag().to_string(),
                bytes: libp2p::Multiaddr::from(protocol).to_vec(),
            }).collect(),
        }),
        Err(libp2p::multiaddr::Error::InvalidMultiaddr) => Err(AddressError::InvalidMultiaddr),
        Err(libp2p::multiaddr::Error::InvalidProtocolString) => Err(AddressError::InvalidProtocolString),
        Err(libp2p::multiaddr::Error::ParsingError(e)) => Err(AddressError::ParsingError(e.to_string())),
        Err(libp2p::multiaddr::Error::UnknownProtocolString(s)) => Err(AddressError::UnknownProtocolString(s)),
        Err(_) => Err(AddressError::Other),
    }
}

/// Whether the last component of an address names a peer.
pub open spec fn ends_with_peer(components: Seq<ComponentView>) -> bool {
    components.len() > 0 && components.last().tag == "p2p"@
}

/// The components without a peer at their end.
pub open spec fn without_peer(components: Seq<ComponentView>) -> Seq<ComponentView> {
    if ends_with_peer(components) {
        components.drop_last()
    } else {
        components
    }
}

/// Takes the peer id off the end of an address, so that the address can be dialed. An address
/// that does not end with one stays as it is.
pub fn strip_peer_id(address: &mut Address)
    ensures
        final(address)@ == without_peer(old(address)@),
        // Nothing but a peer is taken off.
        old(address).components@.len() == 0 || old(address).components@.last().tag@ != "p2p"@
            ==> final(address)@ == old(address)@,
        old(address).components@.len() > 0 && old(address).components@.last().tag@ == "p2p"@
            ==> final(address)@ == old(address)@.drop_last(),
{
    let last = address.components.pop();
    match last {
        Some(component) => {
            if component.tag == "p2p".to_owned() {
                assert(address@ =~= old(address)@.drop_last());
            } else {
                address.components.push(component);
                assert(address@ =~= old(address)@);
            }
        },
        None => {
            assert(address@ =~= old(address)@);
        },
    }
}

/// The address that a legacy text stands for, without the peer id at its end.
pub open spec fn legacy_address(text: Seq<char>) -> ParsedView {
    match parsed_multiaddr(sanitized(text)) {
        Ok(components) => Ok(without_peer(components)),
        Err(e) => Err(e),
    }
}

/// `text` is `front` followed by the peer `id` under its legacy or its modern name.
pub open spec fn names_peer(text: Seq<char>, front: Seq<char>, id: Seq<char>) -> bool {
    &&& slash_free(id)
    &&& text == front + "/ipfs/"@ + id || text == front + "/p2p/"@ + id
}

proof fn lemma_sanitized_peer(text: Seq<char>, front: Seq<char>, id: Seq<char>)
    requires
        names_peer(text, front, id),
    ensures
        sanitized(text) == sanitized(front) + peer_component(modern_part(id)),
        slash_free(modern_part(id)),
{
    reveal_strlit("/ipfs/");
    reveal_strlit("/p2p/");
    reveal_strlit("ipfs");
    reveal_strlit("p2p");
    let name = if text == front + "/ipfs/"@ + id {
        "ipfs"@
    } else {
        "p2p"@
    };
    assert("/ipfs/"@ =~= seq!['/'] + "ipfs"@ + seq!['/']);
    assert("/p2p/"@ =~= seq!['/'] + "p2p"@ + seq!['/']);
    assert(text =~= front + seq!['/'] + (name + seq!['/'] + id));
    law_sanitized_at_slash(front, name + seq!['/'] + id);
    law_sanitized_at_slash(name, id);
    assert("ipfs"@ =~= seq!['i', 'p', 'f', 's']);
    assert("p2p"@ =~= seq!['p', '2', 'p']);
    lemma_sanitized_slash_free(name);
    lemma_sanitized_slash_free(id);
    assert(sanitized(text) =~= sanitized(front) + peer_component(modern_part(id)));
}

/// Reads a legacy address text, in which a peer may be named by `ipfs`, and takes the peer id off
/// its end so that the address can be dialed.
pub fn parse_legacy_multiaddr(text: &str) -> (res: Result<Address, AddressError>)
    ensures
        address_result(res) == legacy_address(text@),
        // An address that does not end with a peer is returned with all its components, and one
        // that does with all but the last. What cannot be read fails as reading it fails.
        match parsed_multiaddr(sanitized(text@)) {
            Ok(components) => if components.len() > 0 && components.last().tag == "p2p"@ {
                res matches Ok(address) && address@ == components.drop_last()
            } else {
                res matches Ok(address) && address@ == components
            },
            Err(error) => res matches Err(e) && e@ == error,
        },
        // A name that is not known is one that the text gives, in its modern spelling.
        res matches Err(AddressError::UnknownProtocolString(name)) ==> modern_parts(
            text@,
        ).contains(name@),
        // A peer id at the end is dropped, whichever name it goes by.
        forall|front: Seq<char>, id: Seq<char>| #[trigger]
            names_peer(text@, front, id) && parsed_multiaddr(sanitized(front)) is Ok
                ==> match parsed_multiaddr(peer_component(modern_part(id))) {
                Ok(_) => address_result(res) == parsed_multiaddr(sanitized(front)),
                Err(e) => address_result(res) == Err::<Seq<ComponentView>, AddressErrorView>(e),
            },
{
    let modern = sanitize(text);
    let parsed = multiaddr_from_str(modern.as_str());
    proof {
        law_sanitized_parts(text@);
        assert forall|front: Seq<char>, id: Seq<char>| #[trigger]
            names_peer(text@, front, id) && parsed_multiaddr(
                sanitized(front),
            ) is Ok implies match parsed_multiaddr(peer_component(modern_part(id))) {
            Ok(_) => legacy_address(text@) == parsed_multiaddr(sanitized(front)),
            Err(e) => legacy_address(text@) == Err::<Seq<ComponentView>, AddressErrorView>(e),
        } by {
            lemma_sanitized_peer(text@, front, id);
            let head = parsed_multiaddr(sanitized(front))->Ok_0;
            match parsed_multiaddr(peer_component(modern_part(id))) {
                Ok(peer) => {
                    assert((head + peer).drop_last() =~= head);
                },
                Err(e) => {},
            }
        }
    }
    match parsed {
        Ok(mut address) => {
            strip_peer_id(&mut address);
            Ok(address)
        },
        Err(e) => Err(e),
    }
}

/// The binary form of an address: that of its components, one after the other.
pub open spec fn address_bytes(components: Seq<ComponentView>) -> Seq<u8>
    decreases components.len(),
{
    if components.len() == 0 {
        Seq::empty()
    } else {
        address_bytes(components.drop_last()) + components.last().bytes
    }
}

impl Address {
    /// The address in the binary form of multiaddresses.
    pub fn to_bytes(&self) -> (bytes: Vec<u8>)
        ensures
            bytes@ == address_bytes(self@),
    {
        let mut bytes: Vec<u8> = Vec::new();
        for i in 0..self.components.len()
            invariant
                bytes@ == address_bytes(self@.take(i as int)),
        {
            bytes.extend_from_slice(self.components[i].bytes.as_slice());
            assert(self@.take(i + 1).drop_last() =~= self@.take(i as int));
        }
        assert(self@.take(self.components@.len() as int) =~= self@);
        bytes
    }
}

/// An address loses a peer id that was put at its end, and nothing else.
pub proof fn law_strip_undoes_adding_a_peer(components: Seq<ComponentView>, peer: ComponentView)
    requires
        peer.tag == "p2p"@,
    ensures
        without_peer(components.push(peer)) == components,
{
    assert(components.push(peer).drop_last() =~= components);
}

/// Stripping changes nothing but the end of an address: it takes off at most one component, and
/// only one that names a peer.
pub proof fn law_strip_takes_only_a_peer(components: Seq<ComponentView>)
    ensures
        without_peer(components) == components || components == without_peer(components).push(
            components.last(),
        ) && components.last().tag == "p2p"@,
        without_peer(components) == components <==> !ends_with_peer(components),
{
    if ends_with_peer(components) {
        assert(components.drop_last().push(components.last()) =~= components);
    }
}

/// A legacy text and its modern spelling stand for the same address.
pub proof fn law_spelling_does_not_matter(text: Seq<char>)
    ensures
        legacy_address(sanitized(text)) == legacy_address(text),
{
    law_sanitize_idempotent(text);
}

/// An address that does not end with a peer keeps all its components when it is read from a
/// legacy text, and one that does loses the peer alone. A text that cannot be read fails with the
/// error of reading it.
pub proof fn law_reading_drops_nothing_but_a_peer(
    text: Seq<char>,
    front: Seq<ComponentView>,
    last: ComponentView,
    error: AddressErrorView,
)
    ensures
        parsed_multiaddr(sanitized(text)) == Ok::<Seq<ComponentView>, AddressErrorView>(Seq::empty())
            ==> legacy_address(text) == Ok::<Seq<ComponentView>, AddressErrorView>(Seq::empty()),
        parsed_multiaddr(sanitized(text)) == Ok::<Seq<ComponentView>, AddressErrorView>(
            front.push(last),
        ) && last.tag != "p2p"@ ==> legacy_address(text) == Ok::<
            Seq<ComponentView>,
            AddressErrorView,
        >(front.push(last)),
        parsed_multiaddr(sanitized(text)) == Ok::<Seq<ComponentView>, AddressErrorView>(
            front.push(last),
        ) && last.tag == "p2p"@ ==> legacy_address(text) == Ok::<
            Seq<ComponentView>,
            AddressErrorView,
        >(front),
        parsed_multiaddr(sanitized(text)) == Err::<Seq<ComponentView>, AddressErrorView>(error)
            ==> legacy_address(text) == Err::<Seq<ComponentView>, AddressErrorView>(error),
{
    assert(front.push(last).drop_last() =~= front);
}

/// Every component that reading an address gives but one at its end is given by reading its
/// legacy text too, at the same place, and the one at its end unless it is a peer.
pub proof fn law_reading_keeps_every_place(text: Seq<char>, i: int)
    requires
        parsed_multiaddr(sanitized(text)) is Ok,
    ensures
        ({
            let all = parsed_multiaddr(sanitized(text))->Ok_0;
            &&& legacy_address(text) is Ok
            &&& 0 <= i < all.len() && (i < all.len() - 1 || all[i].tag != "p2p"@) ==> i
                < legacy_address(text)->Ok_0.len() && legacy_address(text)->Ok_0[i] == all[i]
            &&& legacy_address(text)->Ok_0.len() <= all.len()
        }),
{
}

/// A peer may go by its legacy or its modern name, wherever in a text: the address is the same.
pub proof fn law_a_peer_goes_by_either_name(left: Seq<char>, right: Seq<char>)
    ensures
        legacy_address(left + "/ipfs/"@ + right) == legacy_address(left + "/p2p/"@ + right),
{
    law_legacy_name_gives_way(left, right);
}

/// Stripping leaves an address that does not end with a peer as it is, however long it is.
pub proof fn law_strip_spares_what_is_no_peer(front: Seq<ComponentView>, last: ComponentView)
    requires
        last.tag != "p2p"@,
    ensures
        without_peer(front.push(last)) == front.push(last),
        without_peer(Seq::<ComponentView>::empty()) == Seq::<ComponentView>::empty(),
{
}

/// The binary form of an address is made component by component: that of one component is its
/// own, and that of two addresses in a row is that of the first, then that of the second.
pub proof fn law_address_bytes_follow_the_components(
    left: Seq<ComponentView>,
    right: Seq<ComponentView>,
    component: ComponentView,
)
    ensures
        address_bytes(seq![component]) == component.bytes,
        address_bytes(left + right) == address_bytes(left) + address_bytes(right),
    decreases right.len(),
{
    assert(seq![component].drop_last() =~= Seq::empty());
    assert(address_bytes(Seq::<ComponentView>::empty()) =~= Seq::empty());
    assert(address_bytes(seq![component]) =~= component.bytes);
    if right.len() == 0 {
        assert(left + right =~= left);
        assert(address_bytes(left + right) =~= address_bytes(left) + address_bytes(right));
    } else {
        assert((left + right).drop_last() =~= left + right.drop_last());
        law_address_bytes_follow_the_components(left, right.drop_last(), component);
        assert(address_bytes(left + right) =~= address_bytes(left) + address_bytes(right));
    }
}

/// The view of an address shows what its components hold, each at its place.
pub proof fn law_an_address_shows_its_components(address: Address, i: int)
    ensures
        address@.len() == address.components@.len(),
        0 <= i < address@.len() ==> address@[i].tag == address.components@[i].tag@
            && address@[i].bytes == address.components@[i].bytes@,
        address_result(Ok(address)) == Ok::<Seq<ComponentView>, AddressErrorView>(address@),
{
}

/// The view of an address error shows its kind, and the text that comes with it.
pub proof fn law_an_address_error_shows_its_cause(error: AddressError)
    ensures
        address_result(Err(error)) == Err::<Seq<ComponentView>, AddressErrorView>(error@),
        match error {
            AddressError::InvalidMultiaddr => error@ is InvalidMultiaddr,
            AddressError::InvalidProtocolString => error@ is InvalidProtocolString,
            AddressError::ParsingError(cause) => error@ == AddressErrorView::ParsingError(cause@),
            AddressError::UnknownProtocolString(name) => error@
                == AddressErrorView::UnknownProtocolString(name@),
            AddressError::Other => error@ is Other,
        },
{
}

}
