//! The node in the group network: what it answers to messages, and whom it asks in.
use vstd::prelude::*;

verus! {

/// What the group reports. `P` stands for peers.
pub enum RecvType<P> {
    /// A peer asks for a stable connection and says something about itself.
    Connect(P, Vec<u8>),
    /// Anything else.
    Other,
}

/// What is sent to the group.
pub enum SendType<P> {
    /// The answer to a peer that asks for a stable connection: the delivery's number, the peer,
    /// whether to connect, whether to force the connection closed, and data for the peer.
    Result(u64, P, bool, bool, Vec<u8>),
}

/// What is asked of the network. `A` stands for socket addresses.
pub enum NetworkType<A> {
    /// Take the peer at this address in.
    Connect(A),
}

/// What is to be done about a message: messages to the node's own devices (`owns`), calls to
/// make (`rpcs`), messages to the group (`groups`) and requests to the network (`networks`).
pub struct HandleResult<G, R, N> {
    pub owns: Vec<G>,
    pub rpcs: Vec<R>,
    pub groups: Vec<G>,
    pub networks: Vec<N>,
}

/// A message that leaves the node.
pub enum SendMessage<G, N> {
    Group(G),
    Network(N),
}

/// A message that reaches the node.
pub enum ReceiveMessage<P> {
    Group(RecvType<P>),
    /// The node has lost all its connections.
    NetworkLost,
    /// Anything else.
    Other,
}

/// The messages that carry out a result: those to the group, then those to the network.
pub open spec fn outgoing<G, N>(groups: Seq<G>, networks: Seq<N>) -> Seq<SendMessage<G, N>> {
    Seq::new(groups.len(), |i: int| SendMessage::<G, N>::Group(groups[i])) + Seq::new(
        networks.len(),
        |i: int| SendMessage::<G, N>::Network(networks[i]),
    )
}

/// Lists the messages that carry out a result, in the order in which they are sent. The network
/// comes last, because it may be told to stop. Nothing is done about `owns` and `rpcs`.
pub fn handle_result<G, R, N>(result: HandleResult<G, R, N>) -> (messages: Vec<SendMessage<G, N>>)
    ensures
        messages@ == outgoing(result.groups@, result.networks@),
        messages@.len() == result.groups@.len() + result.networks@.len(),
        forall|i: int|
            0 <= i < result.groups@.len() ==> #[trigger] messages@[i] == SendMessage::<G, N>::Group(
                result.groups@[i],
            ),
        forall|i: int|
            result.groups@.len() <= i < messages@.len() ==> #[trigger] messages@[i]
                == SendMessage::<G, N>::Network(result.networks@[i - result.groups@.len()]),
{
    let HandleResult { owns: _, rpcs: _, groups, networks } = result;
    let mut messages: Vec<SendMessage<G, N>> = Vec::new();
    let ghost to_group = groups@;
    let ghost to_network = networks@;
    for message in it: groups
        invariant
            it.seq() == to_group,
            messages@ == outgoing(to_group.take(it.index() as int), Seq::<N>::empty()),
    {
        messages.push(SendMessage::Group(message));
    }
    assert(to_group.take(to_group.len() as int) =~= to_group);
    assert(to_network.take(0) =~= Seq::<N>::empty());
    for message in it: networks
        invariant
            it.seq() == to_network,
            messages@ == outgoing(to_group, to_network.take(it.index() as int)),
    {
        messages.push(SendMessage::Network(message));
    }
    assert(to_network.take(to_network.len() as int) =~= to_network);
    messages
}

/// The answer that declines a stable connection with `peer` without closing the one there is.
pub open spec fn declines<P>(answer: SendType<P>, peer: P) -> bool {
    let SendType::Result(delivery, to, connect, force_close, data) = answer;
    &&& delivery == 0
    &&& to == peer
    &&& !connect
    &&& !force_close
    &&& data@.len() == 0
}

/// The messages to the group that answer what it reports: a peer that asks for a stable
/// connection is declined, and nothing else is answered.
pub open spec fn answers<P>(msg: RecvType<P>, groups: Seq<SendType<P>>) -> bool {
    match msg {
        RecvType::Connect(peer, _) => groups.len() == 1 && declines(groups[0], peer),
        RecvType::Other => groups.len() == 0,
    }
}

/// Says what is to be done about a report of the group.
pub fn handle_group<P, R, N>(msg: RecvType<P>) -> (result: HandleResult<SendType<P>, R, N>)
    ensures
        answers(msg, result.groups@),
        // A peer that asks for a stable connection is declined, whatever it says about itself.
        msg matches RecvType::Connect(peer, _) ==> {
            let SendType::Result(delivery, to, connect, force_close, data) = result.groups@[0];
            &&& result.groups@.len() == 1
            &&& delivery == 0
            &&& to == peer
            &&& !connect
            &&& !force_close
            &&& data@.len() == 0
        },
        msg is Other ==> result.groups@.len() == 0,
        result.owns@.len() == 0,
        result.rpcs@.len() == 0,
        result.networks@.len() == 0,
{
    let mut groups: Vec<SendType<P>> = Vec::new();
    match msg {
        RecvType::Connect(peer, _) => {
            groups.push(SendType::Result(0, peer, false, false, Vec::new()));
        },
        RecvType::Other => {},
    }
    HandleResult { owns: Vec::new(), rpcs: Vec::new(), groups, networks: Vec::new() }
}

/// A character with the Unicode property `White_Space`.
pub open spec fn is_white_space(c: char) -> bool {
    let code = c as u32;
    ||| 0x09 <= code <= 0x0D
    ||| code == 0x20
    ||| code == 0x85
    ||| code == 0xA0
    ||| code == 0x1680
    ||| 0x2000 <= code <= 0x200A
    ||| code == 0x2028
    ||| code == 0x2029
    ||| code == 0x202F
    ||| code == 0x205F
    ||| code == 0x3000
}

/// A text without the white space at its ends.
pub open spec fn trimmed(text: Seq<char>) -> Seq<char>
    decreases text.len(),
{
    if text.len() == 0 {
        text
    } else if is_white_space(text[0]) {
        trimmed(text.drop_first())
    } else if is_white_space(text.last()) {
        trimmed(text.drop_last())
    } else {
        text
    }
}

/// `str::trim` of the standard library.
///
/// Trusted: the outcome is the text without the characters of the Unicode property
/// `White_Space` at its beginning and at its end.
pub assume_specification<'a>[ str::trim ](text: &'a str) -> (res: &'a str)
    ensures
        res@ == trimmed(text@),
;

/// The requests to take in the peers whose addresses could be read, in order.
pub open spec fn connects<G, A>(parsed: Seq<Option<A>>) -> Seq<SendMessage<G, NetworkType<A>>>
    decreases parsed.len(),
{
    if parsed.len() == 0 {
        Seq::empty()
    } else {
        let before = connects::<G, A>(parsed.drop_last());
        match parsed.last() {
            Some(addr) => before.push(SendMessage::Network(NetworkType::Connect(addr))),
            None => before,
        }
    }
}

/// `parsed` is a possible outcome of reading the trimmed text of `seed` by `parse`.
pub open spec fn reads<A, F: Fn(&str) -> Option<A>>(
    parse: F,
    seed: Seq<char>,
    parsed: Option<A>,
) -> bool {
    exists|text: &str| text@ == trimmed(seed) && #[trigger] call_ensures(parse, (text,), parsed)
}

/// `messages` asks the network to take in the seeds that `parse` could read.
pub open spec fn bootstraps<G, A, F: Fn(&str) -> Option<A>>(
    seeds: Seq<&str>,
    parse: F,
    messages: Seq<SendMessage<G, NetworkType<A>>>,
) -> bool {
    exists|parsed: Seq<Option<A>>|
        {
            &&& parsed.len() == seeds.len()
            &&& forall|i: int|
                0 <= i < seeds.len() ==> #[trigger] reads(parse, seeds[i]@, parsed[i])
            &&& messages == #[trigger] connects::<G, A>(parsed)
        }
}

/// Lists the requests to take in the seeds: each is trimmed and read by `parse`, and one that
/// cannot be read is passed over.
pub fn bootstrap<G, A, F: Fn(&str) -> Option<A>>(seeds: &Vec<&str>, parse: F) -> (messages: Vec<
    SendMessage<G, NetworkType<A>>,
>)
    requires
        forall|text: &str| call_requires(parse, (text,)),
    ensures
        bootstraps(seeds@, parse, messages@),
{
    let mut messages: Vec<SendMessage<G, NetworkType<A>>> = Vec::new();
    let ghost mut all: Seq<Option<A>> = Seq::empty();
    for i in 0..seeds.len()
        invariant
            forall|text: &str| call_requires(parse, (text,)),
            all.len() == i,
            forall|k: int| 0 <= k < i ==> #[trigger] reads(parse, seeds@[k]@, all[k]),
            messages@ == connects::<G, A>(all),
    {
        let text = seeds[i].trim();
        let parsed = parse(text);
        let ghost before = all;
        proof {
            all = all.push(parsed);
            assert(all.drop_last() =~= before);
            assert(reads(parse, seeds@[i as int]@, parsed));
            assert forall|k: int| 0 <= k < i + 1 implies #[trigger] reads(
                parse,
                seeds@[k]@,
                all[k],
            ) by {
                if k < i {
                    assert(reads(parse, seeds@[k]@, before[k]));
                }
            }
        }
        match parsed {
            Some(addr) => {
                messages.push(SendMessage::Network(NetworkType::Connect(addr)));
            },
            None => {},
        }
    }
    messages
}

/// The messages that a message calls for: reports of the group are answered, the loss of the
/// network brings a new bootstrap, and anything else is passed over.
pub open spec fn responds<P, A, F: Fn(&str) -> Option<A>>(
    message: ReceiveMessage<P>,
    seeds: Seq<&str>,
    parse: F,
    messages: Seq<SendMessage<SendType<P>, NetworkType<A>>>,
) -> bool {
    match message {
        ReceiveMessage::Group(msg) => exists|groups: Seq<SendType<P>>|
            answers(msg, groups) && messages == #[trigger] outgoing(
                groups,
                Seq::<NetworkType<A>>::empty(),
            ),
        ReceiveMessage::NetworkLost => bootstraps(seeds, parse, messages),
        ReceiveMessage::Other => messages.len() == 0,
    }
}

/// Lists the messages to send in response to a message.
pub fn handle_message<P, A, F: Fn(&str) -> Option<A>>(
    message: ReceiveMessage<P>,
    seeds: &Vec<&str>,
    parse: F,
) -> (messages: Vec<SendMessage<SendType<P>, NetworkType<A>>>)
    requires
        forall|text: &str| call_requires(parse, (text,)),
    ensures
        responds(message, seeds@, parse, messages@),
        // A peer that asks the group for a stable connection is declined, and that is all.
        message matches ReceiveMessage::Group(RecvType::Connect(peer, _)) ==> messages@.len() == 1
            && (messages@[0] matches SendMessage::Group(SendType::Result(n, to, connect, close, data))
            && n == 0 && to == peer && !connect && !close && data@.len() == 0),
        message matches ReceiveMessage::Group(RecvType::Other) ==> messages@.len() == 0,
        message is NetworkLost ==> bootstraps(seeds@, parse, messages@),
        message is Other ==> messages@.len() == 0,
{
    match message {
        ReceiveMessage::Group(msg) => {
            let result: HandleResult<SendType<P>, (), NetworkType<A>> = handle_group(msg);
            assert(result.networks@ =~= Seq::empty());
            handle_result(result)
        },
        ReceiveMessage::NetworkLost => bootstrap(seeds, parse),
        ReceiveMessage::Other => Vec::new(),
    }
}

/// No message to the group is sent after one to the network, and within each kind the order is
/// kept.
pub proof fn law_network_comes_last<G, N>(groups: Seq<G>, networks: Seq<N>, i: int)
    requires
        0 <= i < outgoing(groups, networks).len(),
    ensures
        outgoing(groups, networks).len() == groups.len() + networks.len(),
        outgoing(groups, networks)[i] == if i < groups.len() {
            SendMessage::<G, N>::Group(groups[i])
        } else {
            SendMessage::<G, N>::Network(networks[i - groups.len()])
        },
{
}

/// Every message to the group and every message to the network is sent, once.
pub proof fn law_everything_is_sent<G, N>(groups: Seq<G>, networks: Seq<N>)
    ensures
        outgoing(groups, networks).len() == groups.len() + networks.len(),
{
}

/// Seeds are asked in one by one: those of a list are those of its first part, then those of the
/// rest. A seed that cannot be read brings no request, and any other brings one.
pub proof fn law_seeds_are_asked_one_by_one<G, A>(left: Seq<Option<A>>, right: Seq<Option<A>>)
    ensures
        connects::<G, A>(left + right) == connects::<G, A>(left) + connects::<G, A>(right),
        connects::<G, A>(seq![None]) == Seq::<SendMessage<G, NetworkType<A>>>::empty(),
        forall|addr: A| #[trigger]
            connects::<G, A>(seq![Some(addr)]) == seq![
                SendMessage::<G, NetworkType<A>>::Network(NetworkType::Connect(addr)),
            ],
    decreases right.len(),
{
    if right.len() == 0 {
        assert(left + right =~= left);
        assert(connects::<G, A>(left + right) =~= connects::<G, A>(left) + connects::<G, A>(right));
    } else {
        assert((left + right).drop_last() =~= left + right.drop_last());
        law_seeds_are_asked_one_by_one::<G, A>(left, right.drop_last());
        assert(connects::<G, A>(left + right) =~= connects::<G, A>(left) + connects::<G, A>(right));
    }
    assert(seq![None::<A>].drop_last() =~= Seq::empty());
    assert(connects::<G, A>(Seq::<Option<A>>::empty()) =~= Seq::empty());
    assert forall|addr: A| #[trigger]
        connects::<G, A>(seq![Some(addr)]) == seq![
            SendMessage::<G, NetworkType<A>>::Network(NetworkType::Connect(addr)),
        ] by {
        assert(seq![Some(addr)].drop_last() =~= Seq::empty());
        assert(connects::<G, A>(seq![Some(addr)]) =~= seq![
            SendMessage::<G, NetworkType<A>>::Network(NetworkType::Connect(addr)),
        ]);
    }
}

/// A trimmed text neither begins nor ends with white space.
pub proof fn law_trimmed_has_bare_ends(text: Seq<char>)
    ensures
        trimmed(text).len() > 0 ==> !is_white_space(trimmed(text)[0]) && !is_white_space(
            trimmed(text).last(),
        ),
    decreases text.len(),
{
    if text.len() > 0 {
        if is_white_space(text[0]) {
            law_trimmed_has_bare_ends(text.drop_first());
        } else if is_white_space(text.last()) {
            law_trimmed_has_bare_ends(text.drop_last());
        }
    }
}

/// White space around a seed does not matter.
pub proof fn law_white_space_around_is_dropped(left: Seq<char>, text: Seq<char>, right: Seq<char>)
    requires
        forall|i: int| 0 <= i < left.len() ==> is_white_space(#[trigger] left[i]),
        forall|i: int| 0 <= i < right.len() ==> is_white_space(#[trigger] right[i]),
    ensures
        trimmed(left + text + right) == trimmed(text),
    decreases left.len() + text.len() + right.len(),
{
    let whole = left + text + right;
    if left.len() > 0 {
        assert(is_white_space(left[0]));
        assert(whole[0] == left[0]);
        assert(whole.drop_first() =~= left.drop_first() + text + right);
        assert forall|i: int| 0 <= i < left.drop_first().len() implies is_white_space(
            #[trigger] left.drop_first()[i],
        ) by {
            assert(is_white_space(left[i + 1]));
        }
        law_white_space_around_is_dropped(left.drop_first(), text, right);
    } else if text.len() == 0 {
        if right.len() == 0 {
            assert(whole =~= text);
        } else {
            assert(is_white_space(right[0]));
            assert(whole[0] == right[0]);
            assert(whole.drop_first() =~= left + text + right.drop_first());
            assert forall|i: int| 0 <= i < right.drop_first().len() implies is_white_space(
                #[trigger] right.drop_first()[i],
            ) by {
                assert(is_white_space(right[i + 1]));
            }
            law_white_space_around_is_dropped(left, text, right.drop_first());
        }
    } else if is_white_space(text[0]) {
        assert(whole[0] == text[0]);
        assert(whole.drop_first() =~= left + text.drop_first() + right);
        law_white_space_around_is_dropped(left, text.drop_first(), right);
    } else if right.len() > 0 {
        assert(whole[0] == text[0]);
        assert(is_white_space(right[right.len() - 1]));
        assert(whole.last() == right.last());
        assert(whole.drop_last() =~= left + text + right.drop_last());
        assert forall|i: int| 0 <= i < right.drop_last().len() implies is_white_space(
            #[trigger] right.drop_last()[i],
        ) by {
            assert(is_white_space(right[i]));
        }
        law_white_space_around_is_dropped(left, text, right.drop_last());
    } else {
        assert(whole =~= text);
    }
}

/// A bootstrap after the network was lost asks for the same as the first: where `parse` gives one
/// outcome for each text, so does a bootstrap for each list of seeds.
pub proof fn law_bootstrap_repeats<G, A, F: Fn(&str) -> Option<A>>(
    seeds: Seq<&str>,
    parse: F,
    first: Seq<SendMessage<G, NetworkType<A>>>,
    second: Seq<SendMessage<G, NetworkType<A>>>,
)
    requires
        forall|s: &str, t: &str, a: Option<A>, b: Option<A>|
            s@ == t@ && #[trigger] call_ensures(parse, (s,), a) && #[trigger] call_ensures(
                parse,
                (t,),
                b,
            ) ==> a == b,
        bootstraps(seeds, parse, first),
        bootstraps(seeds, parse, second),
    ensures
        first == second,
{
    let p = choose|parsed: Seq<Option<A>>|
        {
            &&& parsed.len() == seeds.len()
            &&& forall|i: int|
                0 <= i < seeds.len() ==> #[trigger] reads(parse, seeds[i]@, parsed[i])
            &&& first == #[trigger] connects::<G, A>(parsed)
        };
    let q = choose|parsed: Seq<Option<A>>|
        {
            &&& parsed.len() == seeds.len()
            &&& forall|i: int|
                0 <= i < seeds.len() ==> #[trigger] reads(parse, seeds[i]@, parsed[i])
            &&& second == #[trigger] connects::<G, A>(parsed)
        };
    assert forall|i: int| 0 <= i < seeds.len() implies p[i] == q[i] by {
        assert(reads(parse, seeds[i]@, p[i]) && reads(parse, seeds[i]@, q[i]));
    }
    assert(p =~= q);
}

/// What is handed to `parse` is the whole seed but for the white space around it, and whatever
/// comes of that is what is read.
pub proof fn law_a_seed_is_read_whole<A, F: Fn(&str) -> Option<A>>(
    parse: F,
    left: Seq<char>,
    core: Seq<char>,
    right: Seq<char>,
    parsed: Option<A>,
)
    requires
        forall|i: int| 0 <= i < left.len() ==> is_white_space(#[trigger] left[i]),
        forall|i: int| 0 <= i < right.len() ==> is_white_space(#[trigger] right[i]),
        core.len() > 0 ==> !is_white_space(core[0]) && !is_white_space(core.last()),
    ensures
        reads(parse, left + core + right, parsed) <==> exists|text: &str|
            text@ == core && #[trigger] call_ensures(parse, (text,), parsed),
{
    law_white_space_around_is_dropped(left, core, right);
}

/// A seed is read as `parse` reads the seed without the white space at its ends, all of it.
pub proof fn law_a_seed_is_read_trimmed<A, F: Fn(&str) -> Option<A>>(
    parse: F,
    seed: Seq<char>,
    parsed: Option<A>,
)
    ensures
        reads(parse, seed, parsed) <==> exists|text: &str|
            text@ == trimmed(seed) && #[trigger] call_ensures(parse, (text,), parsed),
{
}

/// Trimming takes nothing but white space off the ends: every text is what is left of it, between
/// white space. A text with bare ends stays as it is.
pub proof fn law_trimming_takes_only_white_space(text: Seq<char>) -> (ends: (
    Seq<char>,
    Seq<char>,
))
    ensures
        text == ends.0 + trimmed(text) + ends.1,
        forall|i: int| 0 <= i < ends.0.len() ==> is_white_space(#[trigger] ends.0[i]),
        forall|i: int| 0 <= i < ends.1.len() ==> is_white_space(#[trigger] ends.1[i]),
        text.len() > 0 && !is_white_space(text[0]) && !is_white_space(text.last()) ==> trimmed(text)
            == text,
    decreases text.len(),
{
    if text.len() == 0 {
        let none = Seq::<char>::empty();
        assert(text =~= none + trimmed(text) + none);
        (none, none)
    } else if is_white_space(text[0]) {
        let inner = law_trimming_takes_only_white_space(text.drop_first());
        let left = seq![text[0]] + inner.0;
        assert(text =~= seq![text[0]] + text.drop_first());
        assert(text =~= left + trimmed(text) + inner.1);
        assert forall|i: int| 0 <= i < left.len() implies is_white_space(#[trigger] left[i]) by {
            if i > 0 {
                assert(left[i] == inner.0[i - 1]);
            }
        }
        (left, inner.1)
    } else if is_white_space(text.last()) {
        let inner = law_trimming_takes_only_white_space(text.drop_last());
        let right = inner.1.push(text.last());
        assert(text =~= text.drop_last().push(text.last()));
        assert(text =~= inner.0 + trimmed(text) + right);
        (inner.0, right)
    } else {
        let none = Seq::<char>::empty();
        assert(text =~= none + trimmed(text) + none);
        (none, none)
    }
}

/// A bootstrap reads every seed, once and in order: there is one outcome of reading for each, and
/// the requests are those for the outcomes.
pub proof fn law_bootstrap_reads_every_seed<G, A, F: Fn(&str) -> Option<A>>(
    seeds: Seq<&str>,
    parse: F,
    messages: Seq<SendMessage<G, NetworkType<A>>>,
) -> (parsed: Seq<Option<A>>)
    requires
        bootstraps(seeds, parse, messages),
    ensures
        parsed.len() == seeds.len(),
        messages == connects::<G, A>(parsed),
        forall|i: int| 0 <= i < seeds.len() ==> #[trigger] reads(parse, seeds[i]@, parsed[i]),
{
    choose|parsed: Seq<Option<A>>|
        {
            &&& parsed.len() == seeds.len()
            &&& forall|i: int|
                0 <= i < seeds.len() ==> #[trigger] reads(parse, seeds[i]@, parsed[i])
            &&& messages == #[trigger] connects::<G, A>(parsed)
        }
}

/// Where `parse` reads each text as `read` says, a bootstrap asks for what `read` says of each
/// trimmed seed, in order, and for nothing else.
pub proof fn law_bootstrap_asks_for_what_is_read<G, A, F: Fn(&str) -> Option<A>>(
    seeds: Seq<&str>,
    parse: F,
    read: spec_fn(Seq<char>) -> Option<A>,
    messages: Seq<SendMessage<G, NetworkType<A>>>,
)
    requires
        forall|text: &str, parsed: Option<A>| #[trigger]
            call_ensures(parse, (text,), parsed) ==> parsed == read(text@),
        bootstraps(seeds, parse, messages),
    ensures
        messages == connects::<G, A>(
            Seq::new(seeds.len(), |i: int| read(trimmed(seeds[i]@))),
        ),
{
    let p = choose|parsed: Seq<Option<A>>|
        {
            &&& parsed.len() == seeds.len()
            &&& forall|i: int|
                0 <= i < seeds.len() ==> #[trigger] reads(parse, seeds[i]@, parsed[i])
            &&& messages == #[trigger] connects::<G, A>(parsed)
        };
    assert forall|i: int| 0 <= i < seeds.len() implies p[i] == read(trimmed(seeds[i]@)) by {
        assert(reads(parse, seeds[i]@, p[i]));
    }
    assert(p =~= Seq::new(seeds.len(), |i: int| read(trimmed(seeds[i]@))));
}

/// Every seed that is read is asked in, and nobody is asked in but a seed that is read.
pub proof fn law_seeds_asked_in_are_those_read<G, A, F: Fn(&str) -> Option<A>>(
    seeds: Seq<&str>,
    parse: F,
    read: spec_fn(Seq<char>) -> Option<A>,
    messages: Seq<SendMessage<G, NetworkType<A>>>,
    addr: A,
)
    requires
        forall|text: &str, parsed: Option<A>| #[trigger]
            call_ensures(parse, (text,), parsed) ==> parsed == read(text@),
        bootstraps(seeds, parse, messages),
    ensures
        messages.len() <= seeds.len(),
        messages.contains(SendMessage::<G, NetworkType<A>>::Network(NetworkType::Connect(addr)))
            <==> exists|i: int|
            0 <= i < seeds.len() && read(trimmed((#[trigger] seeds[i])@)) == Some(addr),
        forall|i: int| 0 <= i < messages.len() ==> #[trigger] messages[i] is Network,
{
    law_bootstrap_asks_for_what_is_read(seeds, parse, read, messages);
    let parsed = Seq::new(seeds.len(), |i: int| read(trimmed(seeds[i]@)));
    lemma_connects_contains::<G, A>(parsed, addr);
    if exists|i: int| 0 <= i < seeds.len() && read(trimmed((#[trigger] seeds[i])@)) == Some(addr) {
        let i = choose|i: int|
            0 <= i < seeds.len() && read(trimmed((#[trigger] seeds[i])@)) == Some(addr);
        assert(parsed[i] == Some(addr));
    }
    if parsed.contains(Some(addr)) {
        let i = choose|i: int| 0 <= i < parsed.len() && parsed[i] == Some(addr);
        assert(read(trimmed(seeds[i]@)) == Some(addr));
    }
}

proof fn lemma_connects_contains<G, A>(parsed: Seq<Option<A>>, addr: A)
    ensures
        connects::<G, A>(parsed).len() <= parsed.len(),
        connects::<G, A>(parsed).contains(
            SendMessage::<G, NetworkType<A>>::Network(NetworkType::Connect(addr)),
        ) <==> parsed.contains(Some(addr)),
        forall|i: int|
            0 <= i < connects::<G, A>(parsed).len() ==> #[trigger] connects::<G, A>(
                parsed,
            )[i] is Network,
    decreases parsed.len(),
{
    let message = SendMessage::<G, NetworkType<A>>::Network(NetworkType::Connect(addr));
    let all = connects::<G, A>(parsed);
    if parsed.len() > 0 {
        let init = parsed.drop_last();
        let before = connects::<G, A>(init);
        lemma_connects_contains::<G, A>(init, addr);
        assert(parsed =~= init.push(parsed.last()));
        if all.contains(message) {
            let k = choose|k: int| 0 <= k < all.len() && all[k] == message;
            if k < before.len() {
                assert(before[k] == message);
                let j = choose|j: int| 0 <= j < init.len() && init[j] == Some(addr);
                assert(parsed[j] == Some(addr));
            } else {
                assert(parsed[parsed.len() - 1] == Some(addr));
            }
        }
        if parsed.contains(Some(addr)) {
            let j = choose|j: int| 0 <= j < parsed.len() && parsed[j] == Some(addr);
            if j < init.len() {
                assert(init[j] == Some(addr));
                let k = choose|k: int| 0 <= k < before.len() && before[k] == message;
                assert(all[k] == message);
            } else {
                assert(all[all.len() - 1] == message);
            }
        }
        assert forall|i: int| 0 <= i < all.len() implies #[trigger] all[i] is Network by {
            if i < before.len() {
                assert(before[i] is Network);
                assert(all[i] == before[i]);
            }
        }
    }
}

/// A peer that asks for a stable connection gets one answer, which says no and leaves the
/// connection that there is; the answer is for that peer and carries no data.
pub proof fn law_a_peer_is_declined<P>(peer: P, about: Vec<u8>, groups: Seq<SendType<P>>)
    requires
        answers(RecvType::Connect(peer, about), groups),
    ensures
        groups.len() == 1,
        groups[0] matches SendType::Result(delivery, to, connect, force_close, data) && delivery == 0
            && to == peer && connect == false && force_close == false && data@ == Seq::<u8>::empty(),
{
    let SendType::Result(_, _, _, _, data) = groups[0];
    assert(data@ =~= Seq::empty());
}

/// A message that neither asks for a connection nor tells of a lost network calls for nothing.
/// One that asks for a connection calls for its refusal. A lost network calls for a bootstrap.
pub proof fn law_each_message_gets_its_response<P, A, F: Fn(&str) -> Option<A>>(
    message: ReceiveMessage<P>,
    seeds: Seq<&str>,
    parse: F,
    messages: Seq<SendMessage<SendType<P>, NetworkType<A>>>,
)
    requires
        responds(message, seeds, parse, messages),
    ensures
        match message {
            ReceiveMessage::Group(RecvType::Connect(peer, _)) => {
                &&& messages.len() == 1
                &&& messages[0] matches SendMessage::Group(
                    SendType::Result(delivery, to, connect, force_close, data),
                ) && delivery == 0 && to == peer && connect == false && force_close == false
                    && data@.len() == 0
            },
            ReceiveMessage::Group(RecvType::Other) => messages.len() == 0,
            ReceiveMessage::NetworkLost => bootstraps(seeds, parse, messages),
            ReceiveMessage::Other => messages.len() == 0,
        },
{
}

}
