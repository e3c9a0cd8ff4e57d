//! Server targets and the configuration that lists them.

use vstd::prelude::*;

verus! {

/// What the URL parser makes of a text: `None` where the text is no
/// absolute URL, else the URL written out in its normal form.
pub uninterp spec fn parsed_address(text: Seq<char>) -> Option<Seq<char>>;

/// Calls `url::Url::parse` and, where it succeeds, takes the serialization
/// of the URL it gives.
///
/// Believed, not proved: the outcome is a function of the text alone, so it
/// has a name, `parsed_address`; the parser returns an error for a text it
/// rejects and does not panic.
#[verifier::external_body]
fn parse_address(text: &str) -> (address: Option<String>)
    ensures
        address matches Some(written) ==> parsed_address(text@) == Some(written@),
        address is None ==> parsed_address(text@) is None,
{
    match url::Url::parse(text) {
        Ok(parsed) => Some(String::from(parsed)),
        Err(_) => None,
    }
}

/// The address of one event-streaming server.
#[derive(Debug, Clone, PartialEq, Eq)]
pub struct ServerTarget {
    address: String,
}

impl View for ServerTarget {
    type V = Seq<char>;

    closed spec fn view(&self) -> Seq<char> {
        self.address@
    }
}

impl ServerTarget {
    /// A target from the text of its address. The text must be an absolute
    /// URL; the target holds it in the URL's normal form.
    pub fn parse(text: &str) -> (target: Option<ServerTarget>)
        ensures
            target is Some <==> parsed_address(text@) is Some,
            target matches Some(t) ==> parsed_address(text@) == Some(t@),
    {
        match parse_address(text) {
            Some(address) => Some(ServerTarget { address }),
            None => None,
        }
    }

    /// The address, as it is handed to the transport.
    pub fn address(&self) -> (address: &str)
        ensures
            address@ == self@,
    {
        self.address.as_str()
    }

    /// A copy of the target.
    pub fn duplicate(&self) -> (copy: ServerTarget)
        ensures
            copy@ == self@,
    {
        ServerTarget { address: self.address.clone() }
    }
}

/// Why a list of addresses is no configuration.
#[derive(Debug, Clone, Copy, PartialEq, Eq)]
pub enum AddressError {
    /// The address at this position of the list is no absolute URL.
    Malformed(usize),
}

/// The addresses of `targets`, in order.
pub open spec fn addresses_of(targets: Seq<ServerTarget>) -> Seq<Seq<char>> {
    Seq::new(targets.len(), |i: int| targets[i]@)
}

/// Each text as the URL parser writes it out.
pub open spec fn all_parsed(texts: Seq<String>) -> Seq<Seq<char>> {
    Seq::new(texts.len(), |i: int| parsed_address(texts[i]@).unwrap())
}

/// The position of the first text that is no absolute URL, if there is one.
pub open spec fn first_malformed(texts: Seq<String>) -> Option<usize>
    decreases texts.len(),
{
    if texts.len() == 0 {
        None
    } else {
        match first_malformed(texts.drop_last()) {
            Some(position) => Some(position),
            None => if parsed_address(texts.last()@) is None {
                Some((texts.len() - 1) as usize)
            } else {
                None
            },
        }
    }
}

/// The ordered list of servers to subscribe to. An address may occur more
/// than once.
#[derive(Debug)]
pub struct Configuration {
    relays: Vec<ServerTarget>,
}

impl View for Configuration {
    type V = Seq<Seq<char>>;

    closed spec fn view(&self) -> Seq<Seq<char>> {
        addresses_of(self.relays@)
    }
}

impl Default for Configuration {
    /// The configuration that lists no server.
    fn default() -> (configuration: Configuration)
        ensures
            configuration@ == Seq::<Seq<char>>::empty(),
    {
        let configuration = Configuration { relays: Vec::new() };
        assert(configuration@ =~= Seq::<Seq<char>>::empty());
        configuration
    }
}

impl Configuration {
    /// A configuration from the texts of the addresses, in their order. The
    /// first text that is no absolute URL is reported by its position.
    pub fn from_addresses(texts: &Vec<String>) -> (result: Result<Configuration, AddressError>)
        ensures
            match first_malformed(texts@) {
                Some(position) => result == Err::<Configuration, AddressError>(
                    AddressError::Malformed(position),
                ),
                None => result is Ok && result.unwrap()@ == all_parsed(texts@),
            },
    {
        let mut relays: Vec<ServerTarget> = Vec::new();
        let mut i: usize = 0;
        while i < texts.len()
            invariant
                0 <= i <= texts.len(),
                relays@.len() == i,
                first_malformed(texts@.take(i as int)) is None,
                addresses_of(relays@) == all_parsed(texts@.take(i as int)),
            decreases texts.len() - i,
        {
            assert(texts@.take(i + 1).drop_last() =~= texts@.take(i as int));
            assert(texts@.take(i + 1).last() == texts@[i as int]);
            let ghost before = relays@;
            match ServerTarget::parse(texts[i].as_str()) {
                Some(target) => {
                    relays.push(target);
                    assert forall|j: int| 0 <= j < i + 1 implies addresses_of(relays@)[j]
                        == all_parsed(texts@.take(i + 1))[j] by {
                        if j < i {
                            assert(addresses_of(before)[j] == all_parsed(texts@.take(i as int))[j]);
                        }
                    }
                    assert(addresses_of(relays@) =~= all_parsed(texts@.take(i + 1)));
                },
                None => {
                    proof {
                        malformed_stays_first(texts@, i as int);
                    }
                    return Err(AddressError::Malformed(i));
                },
            }
            i = i + 1;
        }
        assert(texts@.take(i as int) =~= texts@);
        Ok(Configuration { relays })
    }

    /// The configured servers, in order.
    pub fn relays(&self) -> (relays: Vec<ServerTarget>)
        ensures
            addresses_of(relays@) == self@,
    {
        let mut relays: Vec<ServerTarget> = Vec::new();
        let mut i: usize = 0;
        while i < self.relays.len()
            invariant
                0 <= i <= self.relays.len(),
                relays@.len() == i,
                addresses_of(relays@) == addresses_of(self.relays@.take(i as int)),
            decreases self.relays.len() - i,
        {
            let ghost before = relays@;
            relays.push(self.relays[i].duplicate());
            assert forall|j: int| 0 <= j < i + 1 implies addresses_of(relays@)[j] == addresses_of(
                self.relays@.take(i + 1),
            )[j] by {
                if j < i {
                    assert(addresses_of(before)[j] == addresses_of(self.relays@.take(i as int))[j]);
                }
            }
            assert(addresses_of(relays@) =~= addresses_of(self.relays@.take(i + 1)));
            i = i + 1;
        }
        assert(self.relays@.take(i as int) =~= self.relays@);
        relays
    }

    /// Number of configured servers.
    pub fn len(&self) -> (len: usize)
        ensures
            len == self@.len(),
    {
        self.relays.len()
    }

    pub fn is_empty(&self) -> (empty: bool)
        ensures
            empty == (self@.len() == 0),
    {
        self.relays.len() == 0
    }
}

/// The first malformed text of a list is the first malformed text of any
/// longer list that starts with it.
proof fn malformed_stays_first(texts: Seq<String>, position: int)
    requires
        0 <= position < texts.len(),
        first_malformed(texts.take(position + 1)) == Some(position as usize),
    ensures
        first_malformed(texts) == Some(position as usize),
    decreases texts.len(),
{
    if texts.len() > position + 1 {
        assert(texts.drop_last().take(position + 1) =~= texts.take(position + 1));
        malformed_stays_first(texts.drop_last(), position);
    } else {
        assert(texts.take(position + 1) =~= texts);
    }
}

} // verus!
