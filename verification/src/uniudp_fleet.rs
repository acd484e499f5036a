//! A fleet of nodes that are reached over UniUDP.
//!
//! The sockets are the embedder's: a node holds one as an opaque `S`. Here
//! stands which nodes there may be, which of them a set of tags selects, and
//! what sending to them comes to.

use crate::error::{ErrorModel, RepeError};
use crate::text;
use crate::text::{concat2, concat3, text_equal, u64_text};
use crate::udp_client;
use crate::udp_client::{UdpModel, UniUdpClient};
use serde_json::Value;
use vstd::prelude::*;

verus! {

// ---- errors ----

/// Why a fleet refused something.
#[derive(Debug)]
pub enum FleetError {
    EmptyHost,
    EmptyNodeName,
    InvalidPort(u16),
    InvalidRedundancy,
    InvalidChunkSize,
    InvalidFecGroupSize,
    InvalidParityShards,
    DuplicateNodeName(String),
    NodeNotFound(String),
    NodeInitialization(String),
}

/// What a [`FleetError`] says.
pub enum FleetFault {
    EmptyHost,
    EmptyNodeName,
    InvalidPort(u16),
    InvalidRedundancy,
    InvalidChunkSize,
    InvalidFecGroupSize,
    InvalidParityShards,
    DuplicateNodeName(Seq<char>),
    NodeNotFound(Seq<char>),
    NodeInitialization(Seq<char>),
}

impl View for FleetError {
    type V = FleetFault;

    open spec fn view(&self) -> FleetFault {
        match *self {
            FleetError::EmptyHost => FleetFault::EmptyHost,
            FleetError::EmptyNodeName => FleetFault::EmptyNodeName,
            FleetError::InvalidPort(port) => FleetFault::InvalidPort(port),
            FleetError::InvalidRedundancy => FleetFault::InvalidRedundancy,
            FleetError::InvalidChunkSize => FleetFault::InvalidChunkSize,
            FleetError::InvalidFecGroupSize => FleetFault::InvalidFecGroupSize,
            FleetError::InvalidParityShards => FleetFault::InvalidParityShards,
            FleetError::DuplicateNodeName(name) => FleetFault::DuplicateNodeName(name@),
            FleetError::NodeNotFound(name) => FleetFault::NodeNotFound(name@),
            FleetError::NodeInitialization(text) => FleetFault::NodeInitialization(text@),
        }
    }
}

// ---- configurations ----

/// The texts of a list of strings.
pub open spec fn texts(list: Seq<String>) -> Seq<Seq<char>> {
    list.map_values(|s: String| s@)
}

/// How a node is reached.
#[derive(Debug)]
pub struct UniUdpNodeConfig {
    pub name: String,
    pub host: String,
    pub port: u16,
    pub tags: Vec<String>,
    pub redundancy: usize,
    pub chunk_size: usize,
    pub fec_group_size: usize,
    pub parity_shards: usize,
}

/// What a [`UniUdpNodeConfig`] says.
#[verifier::ext_equal]
pub struct ConfigModel {
    pub name: Seq<char>,
    pub host: Seq<char>,
    pub port: u16,
    pub tags: Seq<Seq<char>>,
    pub redundancy: nat,
    pub chunk_size: nat,
    pub fec_group_size: nat,
    pub parity_shards: nat,
}

impl View for UniUdpNodeConfig {
    type V = ConfigModel;

    open spec fn view(&self) -> ConfigModel {
        ConfigModel {
            name: self.name@,
            host: self.host@,
            port: self.port,
            tags: texts(self.tags@),
            redundancy: self.redundancy as nat,
            chunk_size: self.chunk_size as nat,
            fec_group_size: self.fec_group_size as nat,
            parity_shards: self.parity_shards as nat,
        }
    }
}

/// The outcome of a configuration step.
pub open spec fn configured(r: Result<UniUdpNodeConfig, FleetError>) -> Result<
    ConfigModel,
    FleetFault,
> {
    match r {
        Ok(config) => Ok(config@),
        Err(e) => Err(e@),
    }
}

/// What is wrong with a configuration, the first thing first.
pub open spec fn config_fault(c: ConfigModel) -> Option<FleetFault> {
    if c.host.len() == 0 {
        Some(FleetFault::EmptyHost)
    } else if c.name.len() == 0 {
        Some(FleetFault::EmptyNodeName)
    } else if c.port == 0 {
        Some(FleetFault::InvalidPort(c.port))
    } else if c.redundancy < 1 {
        Some(FleetFault::InvalidRedundancy)
    } else if c.chunk_size < 1 {
        Some(FleetFault::InvalidChunkSize)
    } else if c.fec_group_size < 1 {
        Some(FleetFault::InvalidFecGroupSize)
    } else if !(1 <= c.parity_shards <= 16) {
        Some(FleetFault::InvalidParityShards)
    } else {
        None
    }
}

impl UniUdpNodeConfig {
    /// A node at a host and port, under the name of its host.
    pub fn new(host: String, port: u16) -> (r: Result<UniUdpNodeConfig, FleetError>)
        ensures
            configured(r) == if host@.len() == 0 {
                Err::<ConfigModel, _>(FleetFault::EmptyHost)
            } else if port == 0 {
                Err::<ConfigModel, _>(FleetFault::InvalidPort(port))
            } else {
                Ok(
                    ConfigModel {
                        name: host@,
                        host: host@,
                        port,
                        tags: Seq::empty(),
                        redundancy: 1,
                        chunk_size: 1024,
                        fec_group_size: 4,
                        parity_shards: 2,
                    },
                )
            },
    {
        if host.as_str().is_empty() {
            return Err(FleetError::EmptyHost);
        }
        if port == 0 {
            return Err(FleetError::InvalidPort(port));
        }
        let config = UniUdpNodeConfig {
            name: host.as_str().to_owned(),
            host,
            port,
            tags: Vec::new(),
            redundancy: 1,
            chunk_size: 1024,
            fec_group_size: 4,
            parity_shards: 2,
        };
        assert(config@.tags =~= Seq::empty());
        Ok(config)
    }

    /// Names the node.
    pub fn with_name(self, name: String) -> (r: Result<UniUdpNodeConfig, FleetError>)
        ensures
            configured(r) == if name@.len() == 0 {
                Err::<ConfigModel, _>(FleetFault::EmptyNodeName)
            } else {
                Ok(ConfigModel { name: name@, ..self@ })
            },
    {
        if name.as_str().is_empty() {
            return Err(FleetError::EmptyNodeName);
        }
        Ok(UniUdpNodeConfig { name, ..self })
    }

    /// Tags the node.
    pub fn with_tags(self, tags: Vec<String>) -> (r: UniUdpNodeConfig)
        ensures
            r@ == (ConfigModel { tags: texts(tags@), ..self@ }),
    {
        UniUdpNodeConfig { tags, ..self }
    }

    /// Sets how often each chunk is sent.
    pub fn with_redundancy(self, redundancy: usize) -> (r: Result<UniUdpNodeConfig, FleetError>)
        ensures
            configured(r) == if redundancy < 1 {
                Err::<ConfigModel, _>(FleetFault::InvalidRedundancy)
            } else {
                Ok(ConfigModel { redundancy: redundancy as nat, ..self@ })
            },
    {
        if redundancy < 1 {
            return Err(FleetError::InvalidRedundancy);
        }
        Ok(UniUdpNodeConfig { redundancy, ..self })
    }

    /// Sets the size of a chunk.
    pub fn with_chunk_size(self, chunk_size: usize) -> (r: Result<UniUdpNodeConfig, FleetError>)
        ensures
            configured(r) == if chunk_size < 1 {
                Err::<ConfigModel, _>(FleetFault::InvalidChunkSize)
            } else {
                Ok(ConfigModel { chunk_size: chunk_size as nat, ..self@ })
            },
    {
        if chunk_size < 1 {
            return Err(FleetError::InvalidChunkSize);
        }
        Ok(UniUdpNodeConfig { chunk_size, ..self })
    }

    /// Sets how many chunks are corrected together.
    pub fn with_fec_group_size(self, fec_group_size: usize) -> (r: Result<
        UniUdpNodeConfig,
        FleetError,
    >)
        ensures
            configured(r) == if fec_group_size < 1 {
                Err::<ConfigModel, _>(FleetFault::InvalidFecGroupSize)
            } else {
                Ok(ConfigModel { fec_group_size: fec_group_size as nat, ..self@ })
            },
    {
        if fec_group_size < 1 {
            return Err(FleetError::InvalidFecGroupSize);
        }
        Ok(UniUdpNodeConfig { fec_group_size, ..self })
    }

    /// Sets how many lost chunks of a group can be recovered.
    pub fn with_parity_shards(self, parity_shards: usize) -> (r: Result<
        UniUdpNodeConfig,
        FleetError,
    >)
        ensures
            configured(r) == if !(1 <= parity_shards <= 16) {
                Err::<ConfigModel, _>(FleetFault::InvalidParityShards)
            } else {
                Ok(ConfigModel { parity_shards: parity_shards as nat, ..self@ })
            },
    {
        if parity_shards < 1 || parity_shards > 16 {
            return Err(FleetError::InvalidParityShards);
        }
        Ok(UniUdpNodeConfig { parity_shards, ..self })
    }

    /// What the configuration says to a reader.
    pub fn text(&self) -> (s: String)
        ensures
            s@ == config_text(self@),
    {
        let mut s = concat3("UniUdpNodeConfig(\"", self.host.as_str(), "\", ");
        s.append(u64_text(self.port as u64).as_str());
        s.append("; name=\"");
        s.append(self.name.as_str());
        s.append("\", tags=");
        s.append(quote_all(&self.tags).as_str());
        s.append(", redundancy=");
        s.append(u64_text(self.redundancy as u64).as_str());
        s.append(", chunk_size=");
        s.append(u64_text(self.chunk_size as u64).as_str());
        s.append(", fec_group_size=");
        s.append(u64_text(self.fec_group_size as u64).as_str());
        s.append(", parity_shards=");
        s.append(u64_text(self.parity_shards as u64).as_str());
        s.append(")");
        s
    }
}

/// How std's `Debug` writes a list of strings: quoted and escaped.
pub uninterp spec fn quoted(list: Seq<Seq<char>>) -> Seq<char>;

/// `Debug` of `Vec<String>`. The text depends on the strings alone.
#[verifier::external_body]
fn quote_all(list: &Vec<String>) -> (s: String)
    ensures
        s@ == quoted(texts(list@)),
{
    format!("{list:?}")
}

/// What a configuration says to a reader.
pub open spec fn config_text(c: ConfigModel) -> Seq<char> {
    "UniUdpNodeConfig(\""@ + c.host + "\", "@ + text::decimal(c.port as nat) + "; name=\""@ + c.name
        + "\", tags="@ + quoted(c.tags) + ", redundancy="@ + text::decimal(c.redundancy)
        + ", chunk_size="@ + text::decimal(c.chunk_size) + ", fec_group_size="@ + text::decimal(
        c.fec_group_size,
    ) + ", parity_shards="@ + text::decimal(c.parity_shards) + ")"@
}

/// Checks a configuration.
pub fn validate_node_config(config: &UniUdpNodeConfig) -> (r: Result<(), FleetError>)
    ensures
        match config_fault(config@) {
            Some(fault) => r matches Err(e) && e@ == fault,
            None => r is Ok,
        },
{
    if config.host.as_str().is_empty() {
        return Err(FleetError::EmptyHost);
    }
    if config.name.as_str().is_empty() {
        return Err(FleetError::EmptyNodeName);
    }
    if config.port == 0 {
        return Err(FleetError::InvalidPort(config.port));
    }
    if config.redundancy < 1 {
        return Err(FleetError::InvalidRedundancy);
    }
    if config.chunk_size < 1 {
        return Err(FleetError::InvalidChunkSize);
    }
    if config.fec_group_size < 1 {
        return Err(FleetError::InvalidFecGroupSize);
    }
    if config.parity_shards < 1 || config.parity_shards > 16 {
        return Err(FleetError::InvalidParityShards);
    }
    Ok(())
}

// ---- tags ----

/// Whether `a` comes before `b`, byte by byte.
pub open spec fn bytes_before(a: Seq<u8>, b: Seq<u8>) -> bool
    decreases a.len(),
{
    if b.len() == 0 {
        false
    } else if a.len() == 0 {
        true
    } else if a[0] != b[0] {
        a[0] < b[0]
    } else {
        bytes_before(a.drop_first(), b.drop_first())
    }
}

/// Whether text `a` comes before text `b`, as strings are ordered.
pub open spec fn text_before(a: Seq<char>, b: Seq<char>) -> bool {
    bytes_before(vstd::utf8::encode_utf8(a), vstd::utf8::encode_utf8(b))
}

/// Whether a list is in ascending order, which also says that nothing occurs in
/// it twice.
pub open spec fn ascending(list: Seq<Seq<char>>) -> bool {
    forall|i: int, j: int| 0 <= i < j < list.len() ==> text_before(#[trigger] list[i], #[trigger] list[j])
}

proof fn before_is_transitive(a: Seq<u8>, b: Seq<u8>, c: Seq<u8>)
    requires
        bytes_before(a, b),
        bytes_before(b, c),
    ensures
        bytes_before(a, c),
    decreases a.len(),
{
    if a.len() > 0 && b.len() > 0 && c.len() > 0 && a[0] == b[0] && b[0] == c[0] {
        before_is_transitive(a.drop_first(), b.drop_first(), c.drop_first());
    }
}

proof fn before_is_total(a: Seq<u8>, b: Seq<u8>)
    ensures
        a == b || bytes_before(a, b) || bytes_before(b, a),
        !bytes_before(a, a),
    decreases a.len(),
{
    if a.len() == 0 && b.len() == 0 {
        assert(a =~= b);
    }
    if a.len() > 0 {
        before_is_total(a.drop_first(), a.drop_first());
    }
    if a.len() > 0 && b.len() > 0 && a[0] == b[0] {
        before_is_total(a.drop_first(), b.drop_first());
        if a.drop_first() == b.drop_first() {
            assert(a =~= seq![a[0]] + a.drop_first());
            assert(b =~= seq![b[0]] + b.drop_first());
        }
    }
}

proof fn before_skips_common(a: Seq<u8>, b: Seq<u8>, n: nat)
    requires
        n <= a.len(),
        n <= b.len(),
        forall|i: int| 0 <= i < n ==> a[i] == b[i],
    ensures
        bytes_before(a, b) == bytes_before(
            a.subrange(n as int, a.len() as int),
            b.subrange(n as int, b.len() as int),
        ),
    decreases n,
{
    if n == 0 {
        assert(a.subrange(0, a.len() as int) =~= a);
        assert(b.subrange(0, b.len() as int) =~= b);
    } else {
        let x = a.drop_first();
        let y = b.drop_first();
        assert forall|i: int| 0 <= i < n - 1 implies x[i] == y[i] by {
            assert(x[i] == a[i + 1]);
            assert(y[i] == b[i + 1]);
        }
        before_skips_common(x, y, (n - 1) as nat);
        assert(x.subrange(n - 1, x.len() as int) =~= a.subrange(n as int, a.len() as int));
        assert(y.subrange(n - 1, y.len() as int) =~= b.subrange(n as int, b.len() as int));
        assert(a[0] == b[0]);
    }
}

/// Whether text `a` comes before text `b`.
fn comes_before(a: &str, b: &str) -> (r: bool)
    ensures
        r == text_before(a@, b@),
{
    let x = a.as_bytes();
    let y = b.as_bytes();
    let mut i: usize = 0;
    while i < x.len() && i < y.len()
        invariant
            i <= x@.len(),
            i <= y@.len(),
            forall|j: int| 0 <= j < i ==> x@[j] == y@[j],
            x@ == vstd::utf8::encode_utf8(a@),
            y@ == vstd::utf8::encode_utf8(b@),
        decreases x@.len() - i,
    {
        if x[i] != y[i] {
            proof {
                before_skips_common(x@, y@, i as nat);
            }
            return x[i] < y[i];
        }
        i = i + 1;
    }
    proof {
        before_skips_common(x@, y@, i as nat);
    }
    i < y.len()
}

/// Whether a list holds a text.
pub fn contains_text(list: &Vec<String>, wanted: &str) -> (r: bool)
    ensures
        r == texts(list@).contains(wanted@),
{
    let n: usize = list.len();
    let mut i: usize = 0;
    while i < n
        invariant
            i <= n,
            n == list@.len(),
            forall|j: int| 0 <= j < i ==> list@[j]@ != wanted@,
        decreases n - i,
    {
        if text_equal(list[i].as_str(), wanted) {
            assert(texts(list@)[i as int] == wanted@);
            return true;
        }
        i = i + 1;
    }
    assert forall|j: int| 0 <= j < texts(list@).len() implies texts(list@)[j] != wanted@ by {
        assert(texts(list@)[j] == list@[j]@);
    }
    false
}

/// Whether a list holds every one of the wanted texts.
pub open spec fn has_all(list: Seq<Seq<char>>, wanted: Seq<Seq<char>>) -> bool {
    forall|i: int| 0 <= i < wanted.len() ==> list.contains(#[trigger] wanted[i])
}

/// Whether a list holds every one of the wanted texts.
pub fn contains_all(list: &Vec<String>, wanted: &Vec<String>) -> (r: bool)
    ensures
        r == has_all(texts(list@), texts(wanted@)),
{
    let n: usize = wanted.len();
    let mut i: usize = 0;
    while i < n
        invariant
            i <= n,
            n == wanted@.len(),
            forall|j: int| 0 <= j < i ==> texts(list@).contains(#[trigger] texts(wanted@)[j]),
        decreases n - i,
    {
        assert(texts(wanted@)[i as int] == wanted@[i as int]@);
        if !contains_text(list, wanted[i].as_str()) {
            return false;
        }
        i = i + 1;
    }
    true
}

/// The texts of a list, each once, in ascending order.
pub fn sorted_set(list: &Vec<String>) -> (r: Vec<String>)
    ensures
        ascending(texts(r@)),
        texts(r@).to_set() == texts(list@).to_set(),
{
    let n: usize = list.len();
    let mut r: Vec<String> = Vec::new();
    let mut i: usize = 0;
    assert(texts(list@).subrange(0, 0).to_set() =~= texts(r@).to_set());
    while i < n
        invariant
            i <= n,
            n == list@.len(),
            ascending(texts(r@)),
            texts(r@).to_set() == texts(list@).subrange(0, i as int).to_set(),
        decreases n - i,
    {
        let ghost before = texts(r@);
        insert_sorted(&mut r, list[i].as_str().to_owned());
        proof {
            let s = texts(list@).subrange(0, i as int);
            let t = texts(list@).subrange(0, i + 1);
            assert(t =~= s.push(list@[i as int]@));
            assert forall|x: Seq<char>| t.to_set().contains(x) == (s.to_set().contains(x) || x
                == list@[i as int]@) by {
                if s.contains(x) {
                    let k = choose|k: int| 0 <= k < s.len() && s[k] == x;
                    assert(t[k] == x);
                }
                if x == list@[i as int]@ {
                    assert(t[i as int] == x);
                }
                if t.contains(x) {
                    let k = choose|k: int| 0 <= k < t.len() && t[k] == x;
                    if k < i {
                        assert(s[k] == x);
                    }
                }
            }
            assert(texts(r@).to_set() =~= t.to_set());
        }
        i = i + 1;
    }
    assert(texts(list@).subrange(0, n as int) =~= texts(list@));
    r
}

/// Puts a text in its place in an ascending list, unless it is there.
fn insert_sorted(list: &mut Vec<String>, item: String)
    requires
        ascending(texts(old(list)@)),
    ensures
        ascending(texts(final(list)@)),
        texts(final(list)@).to_set() == texts(old(list)@).to_set().insert(item@),
{
    let n: usize = list.len();
    let mut at: usize = 0;
    while at < n
        invariant
            at <= n,
            n == list@.len(),
            *list == *old(list),
            ascending(texts(list@)),
            forall|j: int| 0 <= j < at ==> text_before(#[trigger] texts(list@)[j], item@),
        decreases n - at,
    {
        assert(texts(list@)[at as int] == list@[at as int]@);
        if text_equal(list[at].as_str(), item.as_str()) {
            assert(texts(list@).contains(item@));
            assert(texts(list@).to_set().insert(item@) =~= texts(list@).to_set());
            return;
        }
        if !comes_before(list[at].as_str(), item.as_str()) {
            proof {
                let a = vstd::utf8::encode_utf8(list@[at as int]@);
                let b = vstd::utf8::encode_utf8(item@);
                before_is_total(a, b);
                text::same_bytes_same_text(list@[at as int]@, item@);
            }
            insert_at(list, at, item);
            return;
        }
        at = at + 1;
    }
    insert_at(list, at, item);
}

/// Puts a text at a place in an ascending list where it belongs.
fn insert_at(list: &mut Vec<String>, at: usize, item: String)
    requires
        ascending(texts(old(list)@)),
        at <= old(list)@.len(),
        forall|j: int| 0 <= j < at ==> text_before(#[trigger] texts(old(list)@)[j], item@),
        at < old(list)@.len() ==> text_before(item@, texts(old(list)@)[at as int]),
    ensures
        ascending(texts(final(list)@)),
        texts(final(list)@).to_set() == texts(old(list)@).to_set().insert(item@),
{
    let ghost before = texts(list@);
    let ghost added = item@;
    list.insert(at, item);
    proof {
        let after = texts(list@);
        assert(after =~= before.insert(at as int, added));
        assert forall|i: int, j: int| 0 <= i < j < after.len() implies text_before(
            #[trigger] after[i],
            #[trigger] after[j],
        ) by {
            let x = if i < at {
                before[i]
            } else {
                before[i - 1]
            };
            if j == at {
                assert(after[i] == before[i]);
            } else if i == at {
                assert(after[j] == before[j - 1]);
                if j - 1 > at {
                    assert(text_before(before[at as int], before[j - 1]));
                    before_is_transitive(
                        vstd::utf8::encode_utf8(added),
                        vstd::utf8::encode_utf8(before[at as int]),
                        vstd::utf8::encode_utf8(before[j - 1]),
                    );
                }
            } else {
                let y = if j < at {
                    before[j]
                } else {
                    before[j - 1]
                };
                assert(after[i] == x);
                assert(after[j] == y);
            }
        }
        assert forall|t: Seq<char>| after.to_set().contains(t) == before.to_set().insert(
            added,
        ).contains(t) by {
            if after.contains(t) {
                let k = choose|k: int| 0 <= k < after.len() && after[k] == t;
                if k < at {
                    assert(before[k] == t);
                } else if k > at {
                    assert(before[k - 1] == t);
                }
            }
            if before.contains(t) {
                let k = choose|k: int| 0 <= k < before.len() && before[k] == t;
                if k < at {
                    assert(after[k] == t);
                } else {
                    assert(after[k + 1] == t);
                }
            }
            if t == added {
                assert(after[at as int] == t);
            }
        }
        assert(after.to_set() =~= before.to_set().insert(added));
    }
}

// ---- nodes ----

/// A node as it is shown: its configuration, its tags in ascending order, and
/// whether it can be sent to.
#[derive(Debug)]
pub struct UniUdpNode {
    pub name: String,
    pub host: String,
    pub port: u16,
    pub tags: Vec<String>,
    pub redundancy: usize,
    pub chunk_size: usize,
    pub fec_group_size: usize,
    pub parity_shards: usize,
    pub open: bool,
}

/// Whether `node` shows a node of the fleet.
pub open spec fn shows(node: UniUdpNode, config: ConfigModel, open: bool) -> bool {
    &&& node.name@ == config.name
    &&& node.host@ == config.host
    &&& node.port == config.port
    &&& ascending(texts(node.tags@))
    &&& texts(node.tags@).to_set() == config.tags.to_set()
    &&& node.redundancy == config.redundancy
    &&& node.chunk_size == config.chunk_size
    &&& node.fec_group_size == config.fec_group_size
    &&& node.parity_shards == config.parity_shards
    &&& node.open == open
}

/// A node of a fleet: its configuration, its client and its socket.
pub struct UniUdpNodeState<S> {
    pub config: UniUdpNodeConfig,
    pub client: UniUdpClient,
    pub socket: S,
}

/// The state of a node.
#[verifier::ext_equal]
pub struct NodeModel<S> {
    pub config: ConfigModel,
    pub client: UdpModel,
    pub socket: S,
}

impl<S> View for UniUdpNodeState<S> {
    type V = NodeModel<S>;

    open spec fn view(&self) -> NodeModel<S> {
        NodeModel { config: self.config@, client: self.client@, socket: self.socket }
    }
}

/// Whether a client is one that was just connected for a configuration.
pub open spec fn connected(client: UdpModel, c: ConfigModel) -> bool {
    &&& client.open
    &&& client.next_id == 1
    &&& client.settings.redundancy == c.redundancy
    &&& client.settings.chunk_size == c.chunk_size
    &&& client.settings.fec_group_size == c.fec_group_size
    &&& client.settings.parity_shards == c.parity_shards
}

/// What keeps a node from being set up: the socket, or else the settings.
pub open spec fn setup_fault<S>(c: ConfigModel, socket: Result<S, RepeError>) -> Option<ErrorModel> {
    match socket {
        Err(e) => Some(e@),
        Ok(_) => match udp_client::settings_fault(
            c.redundancy,
            c.chunk_size,
            c.fec_group_size,
            c.parity_shards,
        ) {
            Some(text) => Some(udp_client::invalid_input(text)),
            None => None,
        },
    }
}

impl<S> UniUdpNodeState<S> {
    /// Sets a node up with the socket that was opened for it.
    pub fn new(config: UniUdpNodeConfig, socket: Result<S, RepeError>) -> (r: Result<
        UniUdpNodeState<S>,
        RepeError,
    >)
        ensures
            match setup_fault(config@, socket) {
                Some(fault) => r matches Err(e) && e@ == fault,
                None => r matches Ok(node) && node@.config == config@ && Ok::<S, RepeError>(
                    node@.socket,
                ) == socket && connected(node@.client, config@),
            },
    {
        let socket = match socket {
            Ok(s) => s,
            Err(e) => {
                return Err(e);
            },
        };
        match UniUdpClient::connect(
            config.redundancy,
            config.chunk_size,
            config.fec_group_size,
            config.parity_shards,
        ) {
            Ok(client) => Ok(UniUdpNodeState { config, client, socket }),
            Err(e) => Err(e),
        }
    }

    /// Shows the node.
    pub fn snapshot(&self) -> (node: UniUdpNode)
        ensures
            shows(node, self@.config, self@.client.open),
    {
        UniUdpNode {
            name: self.config.name.as_str().to_owned(),
            host: self.config.host.as_str().to_owned(),
            port: self.config.port,
            tags: sorted_set(&self.config.tags),
            redundancy: self.config.redundancy,
            chunk_size: self.config.chunk_size,
            fec_group_size: self.config.fec_group_size,
            parity_shards: self.config.parity_shards,
            open: self.client.is_open(),
        }
    }
}

// ---- the fleet ----

/// Nodes with distinct names.
pub struct UniUdpFleet<S> {
    nodes: Vec<UniUdpNodeState<S>>,
}

/// The states of a list of nodes.
pub open spec fn states<S>(nodes: Seq<UniUdpNodeState<S>>) -> Seq<NodeModel<S>> {
    nodes.map_values(|n: UniUdpNodeState<S>| n@)
}

/// Whether a node has a name.
pub open spec fn named<S>(nodes: Seq<NodeModel<S>>, name: Seq<char>, i: int) -> bool {
    0 <= i < nodes.len() && nodes[i].config.name == name
}

/// Whether some node has a name.
pub open spec fn has_node<S>(nodes: Seq<NodeModel<S>>, name: Seq<char>) -> bool {
    exists|i: int| named(nodes, name, i)
}

/// Whether the nodes of a fleet are sound: their names differ, and their
/// configurations are valid.
pub open spec fn sound<S>(nodes: Seq<NodeModel<S>>) -> bool {
    &&& forall|i: int, j: int| #[trigger]
        named(nodes, nodes[j].config.name, i) && 0 <= j < nodes.len() ==> i == j
    &&& forall|i: int| 0 <= i < nodes.len() ==> config_fault((#[trigger] nodes[i]).config) is None
}

/// What keeps a configuration from being added: it is not valid, the node could
/// not be set up, or its name is in use, in this order.
pub open spec fn add_fault<S>(
    nodes: Seq<NodeModel<S>>,
    c: ConfigModel,
    socket: Result<S, RepeError>,
) -> Option<FleetFault> {
    match config_fault(c) {
        Some(fault) => Some(fault),
        None => match setup_fault(c, socket) {
            Some(fault) => Some(FleetFault::NodeInitialization(fault.text())),
            None => if has_node(nodes, c.name) {
                Some(FleetFault::DuplicateNodeName(c.name))
            } else {
                None
            },
        },
    }
}

/// What keeps a configuration out of a fleet before a socket is opened for it.
pub open spec fn entry_fault<S>(nodes: Seq<NodeModel<S>>, c: ConfigModel) -> Option<FleetFault> {
    match config_fault(c) {
        Some(fault) => Some(fault),
        None => if has_node(nodes, c.name) {
            Some(FleetFault::DuplicateNodeName(c.name))
        } else {
            None
        },
    }
}

impl<S> View for UniUdpFleet<S> {
    type V = Seq<NodeModel<S>>;

    closed spec fn view(&self) -> Seq<NodeModel<S>> {
        states(self.nodes@)
    }
}

impl<S> UniUdpFleet<S> {
    /// A fleet without nodes.
    pub fn empty() -> (f: UniUdpFleet<S>)
        ensures
            f@ == Seq::<NodeModel<S>>::empty(),
            sound(f@),
    {
        let f = UniUdpFleet { nodes: Vec::new() };
        assert(f@ =~= Seq::<NodeModel<S>>::empty());
        f
    }

    /// How many nodes there are.
    pub fn len(&self) -> (n: usize)
        ensures
            n == self@.len(),
    {
        self.nodes.len()
    }

    pub fn is_empty(&self) -> (r: bool)
        ensures
            r == (self@.len() == 0),
    {
        self.len() == 0
    }

    /// The place of the node with a name.
    fn position(&self, name: &str) -> (r: Option<usize>)
        ensures
            match r {
                Some(i) => named(self@, name@, i as int) && i < self.nodes@.len(),
                None => !has_node(self@, name@),
            },
    {
        let n: usize = self.nodes.len();
        let mut i: usize = 0;
        while i < n
            invariant
                i <= n,
                n == self.nodes@.len(),
                forall|j: int| 0 <= j < i ==> !(#[trigger] named(self@, name@, j)),
            decreases n - i,
        {
            assert(self@[i as int] == self.nodes@[i as int]@);
            if text_equal(self.nodes[i].config.name.as_str(), name) {
                return Some(i);
            }
            i = i + 1;
        }
        assert forall|j: int| !(#[trigger] named(self@, name@, j)) by {
            if named(self@, name@, j) {
                assert(0 <= j < n);
            }
        }
        None
    }

    /// The names of the nodes.
    pub fn keys(&self) -> (r: Vec<String>)
        ensures
            texts(r@) == self@.map_values(|n: NodeModel<S>| n.config.name),
    {
        let n: usize = self.nodes.len();
        let mut r: Vec<String> = Vec::new();
        let mut i: usize = 0;
        while i < n
            invariant
                i <= n,
                n == self.nodes@.len(),
                r@.len() == i,
                forall|j: int| 0 <= j < i ==> (#[trigger] r@[j])@ == self@[j].config.name,
            decreases n - i,
        {
            assert(self@[i as int] == self.nodes@[i as int]@);
            r.push(self.nodes[i].config.name.as_str().to_owned());
            i = i + 1;
        }
        assert(texts(r@) =~= self@.map_values(|n: NodeModel<S>| n.config.name));
        r
    }

    /// Shows the node with a name.
    pub fn node(&self, name: &str) -> (r: Result<UniUdpNode, FleetError>)
        ensures
            match r {
                Ok(node) => exists|i: int| #[trigger]
                    named(self@, name@, i) && shows(
                        node,
                        self@[i].config,
                        self@[i].client.open,
                    ),
                Err(e) => !has_node(self@, name@) && e@ == FleetFault::NodeNotFound(name@),
            },
    {
        match self.position(name) {
            Some(i) => {
                assert(named(self@, name@, i as int));
                assert(self@[i as int] == self.nodes@[i as int]@);
                Ok(self.nodes[i].snapshot())
            },
            None => Err(FleetError::NodeNotFound(name.to_owned())),
        }
    }

    /// Shows every node.
    pub fn nodes(&self) -> (r: Vec<UniUdpNode>)
        ensures
            r@.len() == self@.len(),
            forall|i: int|
                0 <= i < r@.len() ==> shows(
                    #[trigger] r@[i],
                    self@[i].config,
                    self@[i].client.open,
                ),
    {
        let n: usize = self.nodes.len();
        let mut r: Vec<UniUdpNode> = Vec::new();
        let mut i: usize = 0;
        while i < n
            invariant
                i <= n,
                n == self.nodes@.len(),
                r@.len() == i,
                forall|j: int|
                    0 <= j < i ==> shows(
                        #[trigger] r@[j],
                        self@[j].config,
                        self@[j].client.open,
                    ),
            decreases n - i,
        {
            assert(self@[i as int] == self.nodes@[i as int]@);
            r.push(self.nodes[i].snapshot());
            i = i + 1;
        }
        r
    }

    /// The places of the nodes that have every one of the tags, in ascending
    /// order.
    pub fn snapshot_target_nodes(&self, tags: &Vec<String>) -> (r: Vec<usize>)
        ensures
            r@.map_values(|i: usize| i as int) == targets(self@, texts(tags@)),
    {
        let n: usize = self.nodes.len();
        let mut r: Vec<usize> = Vec::new();
        let mut i: usize = 0;
        assert(r@.map_values(|i: usize| i as int) =~= targets(self@.take(0), texts(tags@)));
        while i < n
            invariant
                i <= n,
                n == self.nodes@.len(),
                r@.map_values(|i: usize| i as int) == targets(
                    self@.take(i as int),
                    texts(tags@),
                ),
            decreases n - i,
        {
            let ghost before = r@;
            assert(self@[i as int] == self.nodes@[i as int]@);
            assert(self@.take(i + 1).drop_last() =~= self@.take(i as int));
            assert(self@.take(i + 1).last() == self@[i as int]);
            if contains_all(&self.nodes[i].config.tags, tags) {
                r.push(i);
                assert(r@.map_values(|i: usize| i as int) =~= before.map_values(
                    |i: usize| i as int,
                ).push(i as int));
            }
            i = i + 1;
        }
        assert(self@.take(n as int) =~= self@);
        r
    }

    /// Shows the nodes that have every one of the tags. No tags select every
    /// node.
    pub fn filter_nodes(&self, tags: &Vec<String>) -> (r: Vec<UniUdpNode>)
        ensures
            r@.len() == targets(self@, texts(tags@)).len(),
            forall|i: int|
                0 <= i < r@.len() ==> shows(
                    #[trigger] r@[i],
                    self@[targets(self@, texts(tags@))[i]].config,
                    self@[targets(self@, texts(tags@))[i]].client.open,
                ),
    {
        let places = self.snapshot_target_nodes(tags);
        let ghost t = targets(self@, texts(tags@));
        proof {
            targets_are_places(self@, texts(tags@));
            assert(places@.map_values(|i: usize| i as int) == t);
            assert forall|k: int| 0 <= k < places@.len() implies places@[k] as int
                == #[trigger] t[k] by {
                assert(places@.map_values(|i: usize| i as int)[k] == places@[k] as int);
            }
        }
        let n: usize = places.len();
        let mut r: Vec<UniUdpNode> = Vec::new();
        let mut i: usize = 0;
        while i < n
            invariant
                i <= n,
                n == places@.len(),
                n == t.len(),
                r@.len() == i,
                forall|k: int| 0 <= k < n ==> places@[k] as int == #[trigger] t[k],
                forall|k: int| 0 <= k < n ==> 0 <= #[trigger] t[k] < self@.len(),
                forall|j: int|
                    0 <= j < i ==> shows(
                        #[trigger] r@[j],
                        self@[t[j]].config,
                        self@[t[j]].client.open,
                    ),
            decreases n - i,
        {
            let at: usize = places[i];
            assert(at as int == t[i as int]);
            assert(self@[at as int] == self.nodes@[at as int]@);
            r.push(self.nodes[at].snapshot());
            i = i + 1;
        }
        r
    }

    /// Checks a configuration before a socket is opened for it.
    pub fn check_entry(&self, config: &UniUdpNodeConfig) -> (r: Result<(), FleetError>)
        ensures
            match entry_fault(self@, config@) {
                Some(fault) => r matches Err(e) && e@ == fault,
                None => r is Ok,
            },
    {
        match validate_node_config(config) {
            Ok(_) => {},
            Err(e) => {
                return Err(e);
            },
        }
        match self.position(config.name.as_str()) {
            Some(i) => {
                assert(named(self@, config@.name, i as int));
                Err(FleetError::DuplicateNodeName(config.name.as_str().to_owned()))
            },
            None => Ok(()),
        }
    }

    /// Adds a node with the socket that was opened for it.
    pub fn add_node(&mut self, config: UniUdpNodeConfig, socket: Result<S, RepeError>) -> (r: Result<
        (),
        FleetError,
    >)
        requires
            sound(old(self)@),
        ensures
            sound(final(self)@),
            match add_fault(old(self)@, config@, socket) {
                Some(fault) => r matches Err(e) && e@ == fault && final(self)@ == old(self)@,
                None => {
                    &&& r is Ok
                    &&& final(self)@.len() == old(self)@.len() + 1
                    &&& final(self)@.drop_last() == old(self)@
                    &&& final(self)@.last().config == config@
                    &&& Ok::<S, RepeError>(final(self)@.last().socket) == socket
                    &&& connected(final(self)@.last().client, config@)
                },
            },
    {
        match validate_node_config(&config) {
            Ok(_) => {},
            Err(e) => {
                return Err(e);
            },
        }
        let ghost c = config@;
        let state = match UniUdpNodeState::new(config, socket) {
            Ok(state) => state,
            Err(e) => {
                return Err(FleetError::NodeInitialization(e.text()));
            },
        };
        match self.position(state.config.name.as_str()) {
            Some(i) => {
                assert(named(self@, c.name, i as int));
                return Err(
                    FleetError::DuplicateNodeName(state.config.name.as_str().to_owned()),
                );
            },
            None => {},
        }
        let ghost before = self@;
        let ghost added = state@;
        self.nodes.push(state);
        proof {
            assert(self@ =~= before.push(added));
            assert(self@.drop_last() =~= before);
            assert forall|i: int, j: int| #[trigger]
                named(self@, self@[j].config.name, i) && 0 <= j < self@.len() implies i == j by {
                if i < before.len() && j < before.len() {
                    assert(named(before, before[j].config.name, i));
                } else if i < before.len() {
                    assert(named(before, c.name, i));
                } else if j < before.len() {
                    assert(named(before, c.name, j));
                }
            }
        }
        Ok(())
    }

    /// Removes the node with a name and hands out its socket, to be closed.
    pub fn remove_node(&mut self, name: &str) -> (r: Option<S>)
        requires
            sound(old(self)@),
        ensures
            sound(final(self)@),
            !has_node(final(self)@, name@),
            match r {
                Some(socket) => exists|i: int| #[trigger]
                    named(old(self)@, name@, i) && final(self)@ == old(self)@.remove(i)
                        && socket == old(self)@[i].socket,
                None => !has_node(old(self)@, name@) && final(self)@ == old(self)@,
            },
    {
        match self.position(name) {
            Some(i) => {
                let ghost before = self@;
                let node = self.nodes.remove(i);
                proof {
                    let at = i as int;
                    assert(self@ =~= before.remove(at));
                    assert(named(before, name@, at));
                    assert(before[at] == node@);
                    assert forall|k: int| 0 <= k < self@.len() implies #[trigger] self@[k]
                        == before[if k < at {
                        k
                    } else {
                        k + 1
                    }] by {}
                    assert forall|p: int, q: int| #[trigger]
                        named(self@, self@[q].config.name, p) && 0 <= q < self@.len() implies p
                        == q by {
                        let p2 = if p < at {
                            p
                        } else {
                            p + 1
                        };
                        let q2 = if q < at {
                            q
                        } else {
                            q + 1
                        };
                        assert(named(before, before[q2].config.name, p2));
                    }
                    assert forall|k: int| !(#[trigger] named(self@, name@, k)) by {
                        if named(self@, name@, k) {
                            let k2 = if k < at {
                                k
                            } else {
                                k + 1
                            };
                            assert(named(before, before[at].config.name, k2));
                        }
                    }
                }
                Some(node.socket)
            },
            None => None,
        }
    }

    /// Closes every node. They stay in the fleet.
    pub fn close(&mut self)
        ensures
            final(self)@ == closed_nodes(old(self)@),
    {
        let n: usize = self.nodes.len();
        let ghost before = self@;
        let mut i: usize = 0;
        while i < n
            invariant
                i <= n,
                n == self.nodes@.len(),
                n == before.len(),
                forall|j: int|
                    0 <= j < n ==> #[trigger] self@[j] == if j < i {
                        closed_node(before[j])
                    } else {
                        before[j]
                    },
            decreases n - i,
        {
            let ghost mid = self@;
            let ghost was = self.nodes@;
            self.nodes[i].client.close();
            proof {
                assert forall|j: int| 0 <= j < n implies #[trigger] self@[j] == if j < i + 1 {
                    closed_node(before[j])
                } else {
                    before[j]
                } by {
                    assert(mid[j] == was[j]@);
                    assert(self@[j] == self.nodes@[j]@);
                }
            }
            i = i + 1;
        }
        assert(self@ =~= closed_nodes(before));
    }

    /// The id and the bytes of a message to the node at a place.
    pub fn prepare(
        &mut self,
        at: usize,
        method: &str,
        params: Option<&Value>,
        notify: bool,
    ) -> (r: Result<(u64, Vec<u8>), RepeError>)
        requires
            at < old(self)@.len(),
        ensures
            udp_client::prepared(r) == plain_send(old(self)@[at as int], method@, params, notify),
            final(self)@ == old(self)@.update(at as int, spent_node(old(self)@[at as int])),
    {
        let ghost before = self@;
        let ghost was = self.nodes@;
        assert(before[at as int] == was[at as int]@);
        let r = if notify {
            self.nodes[at].client.send_notify(method, params)
        } else {
            self.nodes[at].client.send_request(method, params)
        };
        proof {
            assert forall|j: int| 0 <= j < before.len() implies #[trigger] self@[j]
                == before.update(at as int, spent_node(before[at as int]))[j] by {
                assert(before[j] == was[j]@);
                assert(self@[j] == self.nodes@[j]@);
            }
            assert(self@ =~= before.update(at as int, spent_node(before[at as int])));
        }
        r
    }

    /// The messages to the nodes that have every one of the tags: the place of
    /// each node, in ascending order, and what is to be sent to it.
    fn send_with_selection(
        &mut self,
        method: &str,
        params: Option<&Value>,
        tags: &Vec<String>,
        notify: bool,
    ) -> (r: Vec<(usize, Result<(u64, Vec<u8>), RepeError>)>)
        ensures
            dispatches(old(self)@, method@, params, texts(tags@), notify, r@),
            final(self)@ == after_selection(old(self)@, texts(tags@)),
    {
        let n: usize = self.nodes.len();
        let ghost before = self@;
        let ghost wanted = texts(tags@);
        let mut r: Vec<(usize, Result<(u64, Vec<u8>), RepeError>)> = Vec::new();
        let mut i: usize = 0;
        assert(places_of(r@) =~= targets(before.take(0), wanted));
        while i < n
            invariant
                i <= n,
                n == self.nodes@.len(),
                n == before.len(),
                wanted == texts(tags@),
                places_of(r@) == targets(before.take(i as int), wanted),
                forall|k: int|
                    0 <= k < r@.len() ==> (#[trigger] r@[k]).0 < i && udp_client::prepared(r@[k].1)
                        == plain_send(before[r@[k].0 as int], method@, params, notify),
                forall|j: int|
                    0 <= j < n ==> #[trigger] self@[j] == if j < i {
                        after_selection(before, wanted)[j]
                    } else {
                        before[j]
                    },
            decreases n - i,
        {
            let ghost had = r@;
            let ghost mid = self@;
            assert(self@[i as int] == self.nodes@[i as int]@);
            assert(self@[i as int] == before[i as int]);
            assert(before.take(i + 1).drop_last() =~= before.take(i as int));
            assert(before.take(i + 1).last() == before[i as int]);
            if contains_all(&self.nodes[i].config.tags, tags) {
                let message = self.prepare(i, method, params, notify);
                assert(self@.len() == self.nodes@.len());
                r.push((i, message));
                assert(places_of(r@) =~= places_of(had).push(i as int));
                assert forall|k: int| 0 <= k < r@.len() implies (#[trigger] r@[k]).0 < i + 1
                    && udp_client::prepared(r@[k].1) == plain_send(
                    before[r@[k].0 as int],
                    method@,
                    params,
                    notify,
                ) by {
                    if k < had.len() {
                        assert(r@[k] == had[k]);
                    }
                }
                assert forall|j: int| 0 <= j < n implies #[trigger] self@[j] == if j < i + 1 {
                    after_selection(before, wanted)[j]
                } else {
                    before[j]
                } by {
                    assert(mid[j] == if j < i {
                        after_selection(before, wanted)[j]
                    } else {
                        before[j]
                    });
                }
            }
            i = i + 1;
        }
        proof {
            assert(before.take(n as int) =~= before);
            assert(self@ =~= after_selection(before, wanted));
            assert forall|k: int| 0 <= k < r@.len() implies udp_client::prepared(
                (#[trigger] r@[k]).1,
            ) == plain_send(before[targets(before, wanted)[k]], method@, params, notify) by {
                assert(places_of(r@)[k] == r@[k].0 as int);
            }
        }
        r
    }

    /// The notifies to the nodes that have every one of the tags. No tags select
    /// every node.
    pub fn send_notify(&mut self, method: &str, params: Option<&Value>, tags: &Vec<String>) -> (r:
        Vec<(usize, Result<(u64, Vec<u8>), RepeError>)>)
        ensures
            dispatches(old(self)@, method@, params, texts(tags@), true, r@),
            final(self)@ == after_selection(old(self)@, texts(tags@)),
    {
        self.send_with_selection(method, params, tags, true)
    }

    /// The requests to the nodes that have every one of the tags. No tags select
    /// every node.
    pub fn send_request(&mut self, method: &str, params: Option<&Value>, tags: &Vec<String>) -> (r:
        Vec<(usize, Result<(u64, Vec<u8>), RepeError>)>)
        ensures
            dispatches(old(self)@, method@, params, texts(tags@), false, r@),
            final(self)@ == after_selection(old(self)@, texts(tags@)),
    {
        self.send_with_selection(method, params, tags, false)
    }

    /// The notifies to all nodes.
    pub fn notify_all(&mut self, method: &str, params: Option<&Value>) -> (r: Vec<
        (usize, Result<(u64, Vec<u8>), RepeError>),
    >)
        ensures
            dispatches(old(self)@, method@, params, Seq::empty(), true, r@),
            final(self)@ == after_selection(old(self)@, Seq::empty()),
    {
        let none: Vec<String> = Vec::new();
        assert(texts(none@) =~= Seq::<Seq<char>>::empty());
        self.send_notify(method, params, &none)
    }

    /// The place of the node with a name, and the notify to it.
    pub fn send_notify_to(&mut self, node_name: &str, method: &str, params: Option<&Value>) -> (r:
        Result<(usize, Result<(u64, Vec<u8>), RepeError>), FleetError>)
        ensures
            match r {
                Ok((at, message)) => named(old(self)@, node_name@, at as int)
                    && udp_client::prepared(message) == plain_send(
                    old(self)@[at as int],
                    method@,
                    params,
                    true,
                ) && final(self)@ == old(self)@.update(
                    at as int,
                    spent_node(old(self)@[at as int]),
                ),
                Err(e) => !has_node(old(self)@, node_name@) && e@ == FleetFault::NodeNotFound(
                    node_name@,
                ) && final(self)@ == old(self)@,
            },
    {
        match self.node_state(node_name) {
            Ok(at) => {
                let message = self.prepare(at, method, params, true);
                Ok((at, message))
            },
            Err(e) => Err(e),
        }
    }

    /// The place of the node with a name, to be sent to.
    pub fn node_state(&self, name: &str) -> (r: Result<usize, FleetError>)
        ensures
            match r {
                Ok(i) => named(self@, name@, i as int),
                Err(e) => !has_node(self@, name@) && e@ == FleetFault::NodeNotFound(name@),
            },
    {
        match self.position(name) {
            Some(i) => Ok(i),
            None => Err(FleetError::NodeNotFound(name.to_owned())),
        }
    }

    /// The node at a place.
    pub fn node_at(&self, at: usize) -> (n: &UniUdpNodeState<S>)
        requires
            at < self@.len(),
        ensures
            n@ == self@[at as int],
    {
        &self.nodes[at]
    }

    /// What the fleet says to a reader.
    pub fn text(&self) -> (s: String)
        ensures
            s@ == "UniUdpFleet("@ + text::decimal(self@.len()) + " nodes)"@,
    {
        concat3("UniUdpFleet(", u64_text(self.len() as u64).as_str(), " nodes)")
    }
}

impl<S> Default for UniUdpFleet<S> {
    fn default() -> (f: UniUdpFleet<S>)
        ensures
            f@ == Seq::<NodeModel<S>>::empty(),
            sound(f@),
    {
        UniUdpFleet::empty()
    }
}

/// A node that is closed.
pub open spec fn closed_node<S>(n: NodeModel<S>) -> NodeModel<S> {
    NodeModel { client: UdpModel { open: false, ..n.client }, ..n }
}

/// Nodes that are closed.
pub open spec fn closed_nodes<S>(nodes: Seq<NodeModel<S>>) -> Seq<NodeModel<S>> {
    nodes.map_values(|n: NodeModel<S>| closed_node(n))
}

/// A node that has sent a message.
pub open spec fn spent_node<S>(n: NodeModel<S>) -> NodeModel<S> {
    NodeModel { client: n.client.after_send(), ..n }
}

/// What sending to a node in the usual formats yields.
pub open spec fn plain_send<S>(
    n: NodeModel<S>,
    method: Seq<char>,
    params: Option<&Value>,
    notify: bool,
) -> Result<(u64, Seq<u8>), ErrorModel> {
    n.client.sent(
        method,
        params,
        crate::constants::QueryFormat::JsonPointer.wire(),
        crate::constants::BodyFormat::Json.wire(),
        notify,
    )
}

/// The places that messages go to.
pub open spec fn places_of(r: Seq<(usize, Result<(u64, Vec<u8>), RepeError>)>) -> Seq<int> {
    Seq::new(r.len(), |k: int| r[k].0 as int)
}

/// Whether `r` holds, for each node that has every one of the tags, its place
/// and what sending to it yields.
pub open spec fn dispatches<S>(
    nodes: Seq<NodeModel<S>>,
    method: Seq<char>,
    params: Option<&Value>,
    tags: Seq<Seq<char>>,
    notify: bool,
    r: Seq<(usize, Result<(u64, Vec<u8>), RepeError>)>,
) -> bool {
    &&& places_of(r) == targets(nodes, tags)
    &&& forall|k: int|
        0 <= k < r.len() ==> udp_client::prepared((#[trigger] r[k]).1) == plain_send(
            nodes[targets(nodes, tags)[k]],
            method,
            params,
            notify,
        )
}

/// The nodes after those that have every one of the tags have sent a message.
pub open spec fn after_selection<S>(nodes: Seq<NodeModel<S>>, tags: Seq<Seq<char>>) -> Seq<
    NodeModel<S>,
> {
    Seq::new(
        nodes.len(),
        |j: int|
            if has_all(nodes[j].config.tags, tags) {
                spent_node(nodes[j])
            } else {
                nodes[j]
            },
    )
}

/// The places of the nodes that have every one of the tags, in ascending order.
pub open spec fn targets<S>(nodes: Seq<NodeModel<S>>, tags: Seq<Seq<char>>) -> Seq<int>
    decreases nodes.len(),
{
    if nodes.len() == 0 {
        Seq::empty()
    } else {
        let rest = targets(nodes.drop_last(), tags);
        if has_all(nodes.last().config.tags, tags) {
            rest.push(nodes.len() - 1)
        } else {
            rest
        }
    }
}

proof fn targets_are_places<S>(nodes: Seq<NodeModel<S>>, tags: Seq<Seq<char>>)
    ensures
        forall|k: int| 0 <= k < targets(nodes, tags).len() ==> 0 <= #[trigger] targets(nodes, tags)[k]
            < nodes.len(),
    decreases nodes.len(),
{
    if nodes.len() > 0 {
        let rest = targets(nodes.drop_last(), tags);
        targets_are_places(nodes.drop_last(), tags);
        assert forall|k: int| 0 <= k < targets(nodes, tags).len() implies 0 <= #[trigger] targets(
            nodes,
            tags,
        )[k] < nodes.len() by {
            if k < rest.len() {
                assert(targets(nodes, tags)[k] == rest[k]);
            }
        }
    }
}

// ---- results ----

/// What sending to a node came to.
#[derive(Debug)]
pub struct SendResult {
    pub node: String,
    pub message_id: u64,
    pub error: Option<RepeError>,
    /// How long it took, in milliseconds.
    pub elapsed_ms: u64,
}

impl SendResult {
    pub fn succeeded(&self) -> (r: bool)
        ensures
            r == self.error is None,
    {
        self.error.is_none()
    }

    pub fn failed(&self) -> (r: bool)
        ensures
            r == self.error is Some,
    {
        self.error.is_some()
    }

    /// What the result says to a reader.
    pub fn text(&self) -> (s: String)
        ensures
            s@ == if self.error is None {
                "SendResult("@ + self.node@ + ", msg_id="@ + text::decimal(self.message_id as nat)
                    + ", "@ + text::decimal(self.elapsed_ms as nat) + "ms)"@
            } else {
                "SendResult("@ + self.node@ + ", failed, "@ + text::decimal(self.elapsed_ms as nat)
                    + "ms)"@
            },
    {
        let mut s = concat2("SendResult(", self.node.as_str());
        if self.succeeded() {
            s.append(", msg_id=");
            s.append(u64_text(self.message_id).as_str());
            s.append(", ");
        } else {
            s.append(", failed, ");
        }
        s.append(u64_text(self.elapsed_ms).as_str());
        s.append("ms)");
        s
    }
}

/// The result of sending to a node: a message that was not sent has id 0.
pub fn send_result(node: &str, outcome: Result<u64, RepeError>, elapsed_ms: u64) -> (r: SendResult)
    ensures
        r.node@ == node@,
        r.elapsed_ms == elapsed_ms,
        match outcome {
            Ok(id) => r.message_id == id && r.error is None,
            Err(e) => r.message_id == 0 && r.error == Some(e),
        },
{
    match outcome {
        Ok(message_id) => SendResult {
            node: node.to_owned(),
            message_id,
            error: None,
            elapsed_ms,
        },
        Err(e) => SendResult { node: node.to_owned(), message_id: 0, error: Some(e), elapsed_ms },
    }
}

// ---- laws ----

/// A configuration that was built step by step is valid.
pub proof fn built_configurations_are_valid(c: ConfigModel, step: ConfigModel)
    requires
        config_fault(c) is None,
        ({
            ||| step == (ConfigModel { name: step.name, ..c }) && step.name.len() > 0
            ||| step == (ConfigModel { tags: step.tags, ..c })
            ||| step == (ConfigModel { redundancy: step.redundancy, ..c }) && step.redundancy >= 1
            ||| step == (ConfigModel { chunk_size: step.chunk_size, ..c }) && step.chunk_size >= 1
            ||| step == (ConfigModel { fec_group_size: step.fec_group_size, ..c })
                && step.fec_group_size >= 1
            ||| step == (ConfigModel { parity_shards: step.parity_shards, ..c }) && 1
                <= step.parity_shards <= 16
        }),
    ensures
        config_fault(step) is None,
{
}

/// A node is selected if and only if it has every one of the tags.
pub proof fn tags_select_exactly<S>(nodes: Seq<NodeModel<S>>, tags: Seq<Seq<char>>, i: int)
    requires
        0 <= i < nodes.len(),
    ensures
        targets(nodes, tags).contains(i) == has_all(nodes[i].config.tags, tags),
    decreases nodes.len(),
{
    let rest = nodes.drop_last();
    let t = targets(rest, tags);
    targets_are_places(rest, tags);
    if i < nodes.len() - 1 {
        tags_select_exactly(rest, tags, i);
        assert(rest[i] == nodes[i]);
        if t.contains(i) {
            let k = choose|k: int| 0 <= k < t.len() && t[k] == i;
            assert(targets(nodes, tags)[k] == i);
        }
        if targets(nodes, tags).contains(i) {
            let k = choose|k: int|
                0 <= k < targets(nodes, tags).len() && targets(nodes, tags)[k] == i;
            assert(k < t.len());
            assert(t[k] == i);
        }
    } else if has_all(nodes[i].config.tags, tags) {
        assert(targets(nodes, tags)[t.len() as int] == i);
    } else if targets(nodes, tags).contains(i) {
        let k = choose|k: int| 0 <= k < t.len() && t[k] == i;
        assert(0 <= t[k] < rest.len());
    }
}

/// Sending to the nodes that a selection picks leaves every other node as it is,
/// and no node gets or loses its configuration or its socket.
pub proof fn only_selected_nodes_send<S>(nodes: Seq<NodeModel<S>>, tags: Seq<Seq<char>>, i: int)
    requires
        0 <= i < nodes.len(),
    ensures
        !targets(nodes, tags).contains(i) ==> after_selection(nodes, tags)[i] == nodes[i],
        after_selection(nodes, tags).len() == nodes.len(),
        after_selection(nodes, tags)[i].config == nodes[i].config,
        after_selection(nodes, tags)[i].socket == nodes[i].socket,
        after_selection(nodes, tags)[i].client.open == nodes[i].client.open,
{
    tags_select_exactly(nodes, tags, i);
}

/// No tags select every node.
pub proof fn no_tags_select_every_node<S>(nodes: Seq<NodeModel<S>>, i: int)
    requires
        0 <= i < nodes.len(),
    ensures
        targets(nodes, Seq::empty()).contains(i),
{
    tags_select_exactly(nodes, Seq::empty(), i);
}

/// More tags select fewer nodes.
pub proof fn more_tags_select_fewer_nodes<S>(
    nodes: Seq<NodeModel<S>>,
    tags: Seq<Seq<char>>,
    more: Seq<Seq<char>>,
    i: int,
)
    requires
        0 <= i < nodes.len(),
        targets(nodes, tags + more).contains(i),
    ensures
        targets(nodes, tags).contains(i),
{
    tags_select_exactly(nodes, tags + more, i);
    tags_select_exactly(nodes, tags, i);
    assert forall|k: int| 0 <= k < tags.len() implies nodes[i].config.tags.contains(
        #[trigger] tags[k],
    ) by {
        assert((tags + more)[k] == tags[k]);
    }
}

/// Closing a fleet closes every node and changes nothing else, and nothing is
/// sent afterwards.
pub proof fn a_closed_fleet_sends_nothing<S>(
    nodes: Seq<NodeModel<S>>,
    i: int,
    method: Seq<char>,
    params: Option<&Value>,
    query_format: u16,
    body_format: u16,
    notify: bool,
)
    requires
        0 <= i < nodes.len(),
    ensures
        closed_nodes(nodes).len() == nodes.len(),
        closed_nodes(nodes)[i].config == nodes[i].config,
        closed_nodes(nodes)[i].client.sent(method, params, query_format, body_format, notify)
            == Err::<(u64, Seq<u8>), _>(udp_client::closed_client()),
{
}

/// A valid configuration whose numbers fit is refused only for its name, once
/// its socket is open.
pub proof fn a_valid_node_is_refused_only_for_its_name<S>(
    nodes: Seq<NodeModel<S>>,
    c: ConfigModel,
    socket: S,
)
    requires
        config_fault(c) is None,
        c.redundancy <= u16::MAX,
        c.chunk_size <= u16::MAX,
        c.fec_group_size <= 64,
    ensures
        add_fault(nodes, c, Ok::<S, RepeError>(socket)) == if has_node(nodes, c.name) {
            Some(FleetFault::DuplicateNodeName(c.name))
        } else {
            None
        },
        entry_fault(nodes, c) == add_fault(nodes, c, Ok::<S, RepeError>(socket)),
{
}

/// A configuration is valid exactly where it names a host, a node and a port, and
/// its numbers are at least one, with at most 16 parity shards.
pub proof fn a_configuration_is_refused_only_for_cause(c: ConfigModel)
    ensures
        config_fault(c) is None <==> c.host.len() > 0 && c.name.len() > 0 && c.port > 0
            && c.redundancy >= 1 && c.chunk_size >= 1 && c.fec_group_size >= 1 && 1
            <= c.parity_shards <= 16,
        c.host.len() == 0 ==> config_fault(c) == Some(FleetFault::EmptyHost),
        config_fault(c) matches Some(FleetFault::EmptyHost) ==> c.host.len() == 0,
        config_fault(c) matches Some(FleetFault::EmptyNodeName) ==> c.name.len() == 0,
        config_fault(c) matches Some(FleetFault::InvalidPort(port)) ==> port == 0 && c.port == 0,
        config_fault(c) matches Some(FleetFault::InvalidRedundancy) ==> c.redundancy == 0,
        config_fault(c) matches Some(FleetFault::InvalidChunkSize) ==> c.chunk_size == 0,
        config_fault(c) matches Some(FleetFault::InvalidFecGroupSize) ==> c.fec_group_size == 0,
        config_fault(c) matches Some(FleetFault::InvalidParityShards) ==> c.parity_shards == 0
            || c.parity_shards > 16,
{
}

/// A node has every one of some tags exactly where it has each of them.
pub proof fn tags_are_all_wanted(list: Seq<Seq<char>>, wanted: Seq<Seq<char>>, tag: Seq<char>)
    ensures
        has_all(list, Seq::empty()),
        has_all(list, wanted.push(tag)) <==> has_all(list, wanted) && list.contains(tag),
{
    let more = wanted.push(tag);
    if has_all(list, more) {
        assert(more[wanted.len() as int] == tag);
        assert forall|i: int| 0 <= i < wanted.len() implies list.contains(
            #[trigger] wanted[i],
        ) by {
            assert(more[i] == wanted[i]);
        }
    }
    if has_all(list, wanted) && list.contains(tag) {
        assert forall|i: int| 0 <= i < more.len() implies list.contains(#[trigger] more[i]) by {
            if i < wanted.len() {
                assert(more[i] == wanted[i]);
            }
        }
    }
}

/// Each node that is selected is sent to once, and hears of it as a client of its
/// own would: with its own next id, if it is open.
pub proof fn a_selected_node_is_sent_to_once<S>(
    nodes: Seq<NodeModel<S>>,
    method: Seq<char>,
    params: Option<&Value>,
    tags: Seq<Seq<char>>,
    notify: bool,
    r: Seq<(usize, Result<(u64, Vec<u8>), RepeError>)>,
    i: int,
)
    requires
        dispatches(nodes, method, params, tags, notify, r),
        0 <= i < nodes.len(),
    ensures
        has_all(nodes[i].config.tags, tags) ==> exists|k: int|
            0 <= k < r.len() && (#[trigger] r[k]).0 == i && udp_client::prepared(r[k].1)
                == nodes[i].client.sent(method, params, 1, 2, notify),
        !has_all(nodes[i].config.tags, tags) ==> forall|k: int|
            0 <= k < r.len() ==> (#[trigger] r[k]).0 != i,
        forall|k: int, l: int|
            0 <= k < l < r.len() ==> (#[trigger] r[k]).0 < (#[trigger] r[l]).0,
{
    let t = targets(nodes, tags);
    tags_select_exactly(nodes, tags, i);
    targets_ascend(nodes, tags);
    assert(places_of(r).len() == r.len());
    assert forall|k: int| 0 <= k < r.len() implies (#[trigger] r[k]).0 == t[k] by {
        assert(places_of(r)[k] == r[k].0);
    }
    if has_all(nodes[i].config.tags, tags) {
        let k = choose|k: int| 0 <= k < t.len() && t[k] == i;
        assert(r[k].0 == i);
    } else {
        assert forall|k: int| 0 <= k < r.len() implies (#[trigger] r[k]).0 != i by {
            if r[k].0 == i {
                assert(t[k] == i);
            }
        }
    }
}

proof fn targets_ascend<S>(nodes: Seq<NodeModel<S>>, tags: Seq<Seq<char>>)
    ensures
        forall|k: int, l: int|
            0 <= k < l < targets(nodes, tags).len() ==> #[trigger] targets(nodes, tags)[k]
                < #[trigger] targets(nodes, tags)[l],
    decreases nodes.len(),
{
    if nodes.len() > 0 {
        let rest = nodes.drop_last();
        targets_ascend(rest, tags);
        targets_are_places(rest, tags);
        let t = targets(rest, tags);
        assert forall|k: int, l: int| 0 <= k < l < targets(nodes, tags).len() implies #[trigger] targets(
            nodes,
            tags,
        )[k] < #[trigger] targets(nodes, tags)[l] by {
            assert(targets(nodes, tags)[k] == t[k]);
            if l < t.len() {
                assert(targets(nodes, tags)[l] == t[l]);
            }
        }
    }
}

/// A node that was sent to has spent an id, unless it is closed; nothing else of
/// it changes, and closing a node changes nothing but that it is closed.
pub proof fn sending_spends_an_id<S>(n: NodeModel<S>)
    ensures
        n.client.open && n.client.next_id < u64::MAX ==> spent_node(n).client.next_id
            == n.client.next_id + 1,
        !n.client.open ==> spent_node(n) == n,
        spent_node(n).config == n.config && spent_node(n).socket == n.socket,
        spent_node(n).client.settings == n.client.settings,
        !closed_node(n).client.open,
        closed_node(n).client.next_id == n.client.next_id,
        closed_node(n).client.settings == n.client.settings,
        closed_node(n).config == n.config && closed_node(n).socket == n.socket,
{
}

/// A node is set up to send as it was configured, and is kept out for the first
/// thing that is wrong: its configuration, its socket, its numbers, or its name.
pub proof fn a_node_sends_as_it_was_configured<S>(
    nodes: Seq<NodeModel<S>>,
    c: ConfigModel,
    client: UdpModel,
    socket: Result<S, RepeError>,
)
    ensures
        connected(client, c) ==> client.open && client.next_id == 1 && client.settings.redundancy
            == c.redundancy && client.settings.chunk_size == c.chunk_size
            && client.settings.fec_group_size == c.fec_group_size && client.settings.parity_shards
            == c.parity_shards,
        connected(client, c) && c.fec_group_size >= 2 ==> udp_client::options_of(client.settings)
            == udp_client::corrected_options(
            c.redundancy as u16,
            c.chunk_size as u16,
            c.fec_group_size as u8,
            c.parity_shards as u8,
        ),
        add_fault(nodes, c, socket) is None ==> config_fault(c) is None && socket is Ok
            && !has_node(nodes, c.name),
        config_fault(c) is None && socket is Err ==> (add_fault(nodes, c, socket)
            matches Some(FleetFault::NodeInitialization(_))),
        config_fault(c) matches Some(fault) ==> add_fault(nodes, c, socket) == Some(fault),
        entry_fault(nodes, c) is None <==> config_fault(c) is None && !has_node(nodes, c.name),
{
}

/// A node is found by its name, and in a sound fleet no other node has it.
pub proof fn a_name_stands_for_one_node<S>(
    nodes: Seq<NodeModel<S>>,
    name: Seq<char>,
    i: int,
    j: int,
)
    ensures
        named(nodes, name, i) <==> 0 <= i < nodes.len() && nodes[i].config.name == name,
        has_node(nodes, name) <==> exists|k: int|
            0 <= k < nodes.len() && (#[trigger] nodes[k]).config.name == name,
        sound(nodes) && 0 <= i < nodes.len() && 0 <= j < nodes.len() && i != j
            ==> nodes[i].config.name != nodes[j].config.name,
{
    if has_node(nodes, name) {
        let k = choose|k: int| named(nodes, name, k);
        assert(nodes[k].config.name == name);
    }
    if exists|k: int| 0 <= k < nodes.len() && (#[trigger] nodes[k]).config.name == name {
        let k = choose|k: int| 0 <= k < nodes.len() && (#[trigger] nodes[k]).config.name == name;
        assert(named(nodes, name, k));
    }
    if 0 <= i < nodes.len() && 0 <= j < nodes.len() && nodes[i].config.name
        == nodes[j].config.name {
        assert(named(nodes, nodes[j].config.name, i));
    }
}

/// Every node that a selection picks spends an id, if it is open.
pub proof fn a_selected_node_spends_an_id<S>(
    nodes: Seq<NodeModel<S>>,
    tags: Seq<Seq<char>>,
    i: int,
)
    requires
        0 <= i < nodes.len(),
        has_all(nodes[i].config.tags, tags),
        nodes[i].client.open,
        nodes[i].client.next_id < u64::MAX,
    ensures
        after_selection(nodes, tags)[i].client.next_id == nodes[i].client.next_id + 1,
        after_selection(nodes, tags)[i].client.open,
{
}

} // verus!
