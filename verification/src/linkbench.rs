//! The LinkBench social-graph profile: its request kinds, the keys links are
//! stored and counted under, the initial graph's link targets, the requests
//! themselves and the run's configuration. Which kind each request is, and
//! its Zipf-skewed nodes, are drawn in floating point by the runner; the
//! requests are built here from what was drawn.

use vstd::prelude::*;

use crate::args::{
    args_text, invalid_value, invalid_value_message, is_help, is_help_flag, missing_value,
    missing_value_message, parse_u64, parse_usize, unknown_option, unknown_option_message,
    unsigned_outcome,
};
use crate::kv::{printable_payload, text_value, value_seed};
use crate::rng::{below_state, below_value, seed_state, Rng};
use vstd::wrapping::u64_specs::{wrapping_add, wrapping_mul};

verus! {

/// The ten LinkBench request kinds.
#[derive(Clone, Copy, Debug, PartialEq, Eq, Structural)]
pub enum Kind {
    AddLink,
    DeleteLink,
    UpdateLink,
    CountLinks,
    GetLink,
    GetLinkList,
    AddNode,
    UpdateNode,
    DeleteNode,
    GetNode,
}

pub open spec fn kind_name(kind: Kind) -> Seq<char> {
    match kind {
        Kind::AddLink => "add_link"@,
        Kind::DeleteLink => "delete_link"@,
        Kind::UpdateLink => "update_link"@,
        Kind::CountLinks => "count_links"@,
        Kind::GetLink => "get_link"@,
        Kind::GetLinkList => "get_link_list"@,
        Kind::AddNode => "add_node"@,
        Kind::UpdateNode => "update_node"@,
        Kind::DeleteNode => "delete_node"@,
        Kind::GetNode => "get_node"@,
    }
}

impl Kind {
    pub const ALL: [Kind; 10] = [
        Kind::AddLink,
        Kind::DeleteLink,
        Kind::UpdateLink,
        Kind::CountLinks,
        Kind::GetLink,
        Kind::GetLinkList,
        Kind::AddNode,
        Kind::UpdateNode,
        Kind::DeleteNode,
        Kind::GetNode,
    ];

    pub fn as_str(self) -> (name: &'static str)
        ensures
            name@ == kind_name(self),
    {
        match self {
            Kind::AddLink => "add_link",
            Kind::DeleteLink => "delete_link",
            Kind::UpdateLink => "update_link",
            Kind::CountLinks => "count_links",
            Kind::GetLink => "get_link",
            Kind::GetLinkList => "get_link_list",
            Kind::AddNode => "add_node",
            Kind::UpdateNode => "update_node",
            Kind::DeleteNode => "delete_node",
            Kind::GetNode => "get_node",
        }
    }
}

/// The key a node's links of one type are counted and listed under: the
/// node in the high half, the type in the low.
pub open spec fn source_type_spec(id1: u64, link_type: u64) -> u128 {
    ((id1 as u128) * 0x1_0000_0000_0000_0000 + link_type as u128) as u128
}

pub fn source_type(id1: u64, link_type: u64) -> (key: u128)
    ensures
        key == source_type_spec(id1, link_type),
{
    let key = ((id1 as u128) << 64u128) | (link_type as u128);
    assert(key == (id1 as u128) * 0x1_0000_0000_0000_0000 + link_type as u128) by (bit_vector)
        requires
            key == ((id1 as u128) << 64u128) | (link_type as u128),
    ;
    key
}

/// Distinct (node, type) pairs never share a key.
pub proof fn lemma_source_type_injective(a1: u64, t1: u64, a2: u64, t2: u64)
    requires
        a1 != a2 || t1 != t2,
    ensures
        source_type_spec(a1, t1) != source_type_spec(a2, t2),
{
}

/// The node the `slot`-th link of type `link_type` out of `id1` points at in
/// the initial graph.
pub open spec fn existing_target_spec(nodes: u64, id1: u64, link_type: u64, slot: u64) -> u64 {
    (wrapping_add(wrapping_add(wrapping_mul(id1, 1_000_003), wrapping_mul(link_type, 65_537)), slot)
        % nodes) as u64
}

pub fn existing_target(nodes: u64, id1: u64, link_type: u64, slot: u64) -> (target: u64)
    requires
        nodes > 0,
    ensures
        target == existing_target_spec(nodes, id1, link_type, slot),
        target < nodes,
{
    id1.wrapping_mul(1_000_003).wrapping_add(link_type.wrapping_mul(65_537)).wrapping_add(slot)
        % nodes
}

/// The sizes and seed of a LinkBench run.
#[derive(Clone, Debug)]
pub struct Config {
    pub nodes: u64,
    pub links_per_node: u64,
    pub link_types: u64,
    pub operations: u64,
    pub repetitions: usize,
    pub payload_bytes: usize,
    pub list_limit: usize,
    pub sample_every: u64,
    pub seed: u64,
}

pub open spec fn default_config() -> Config {
    Config {
        nodes: 100_000,
        links_per_node: 20,
        link_types: 2,
        operations: 1_000_000,
        repetitions: 5,
        payload_bytes: 64,
        list_limit: 100,
        sample_every: 1_000,
        seed: 42,
    }
}

impl Default for Config {
    fn default() -> (config: Config)
        ensures
            config == default_config(),
    {
        Config {
            nodes: 100_000,
            links_per_node: 20,
            link_types: 2,
            operations: 1_000_000,
            repetitions: 5,
            payload_bytes: 64,
            list_limit: 100,
            sample_every: 1_000,
            seed: 42,
        }
    }
}

/// Whether every count, size and interval is positive.
pub open spec fn config_valid(config: Config) -> bool {
    config.nodes != 0 && config.links_per_node != 0 && config.link_types != 0
        && config.operations != 0 && config.repetitions != 0 && config.payload_bytes != 0
        && config.list_limit != 0 && config.sample_every != 0
}

/// The number a flag's value names, or the refusal of it.
pub open spec fn count_value(flag: Seq<char>, value: Seq<char>, max: nat) -> Result<nat, Seq<char>> {
    match unsigned_outcome(value, max) {
        Ok(n) => Ok(n),
        Err(error) => Err(invalid_value_message(flag, error)),
    }
}

/// The configuration after one `flag value` pair, or why it is refused.
pub open spec fn config_apply(config: Config, flag: Seq<char>, value: Seq<char>) -> Result<
    Config,
    Seq<char>,
> {
    let wide = u64::MAX as nat;
    let size = usize::MAX as nat;
    if flag == "--nodes"@ {
        match count_value(flag, value, wide) {
            Ok(n) => Ok(Config { nodes: n as u64, ..config }),
            Err(message) => Err(message),
        }
    } else if flag == "--links-per-node"@ {
        match count_value(flag, value, wide) {
            Ok(n) => Ok(Config { links_per_node: n as u64, ..config }),
            Err(message) => Err(message),
        }
    } else if flag == "--link-types"@ {
        match count_value(flag, value, wide) {
            Ok(n) => Ok(Config { link_types: n as u64, ..config }),
            Err(message) => Err(message),
        }
    } else if flag == "--operations"@ {
        match count_value(flag, value, wide) {
            Ok(n) => Ok(Config { operations: n as u64, ..config }),
            Err(message) => Err(message),
        }
    } else if flag == "--repetitions"@ {
        match count_value(flag, value, size) {
            Ok(n) => Ok(Config { repetitions: n as usize, ..config }),
            Err(message) => Err(message),
        }
    } else if flag == "--payload-bytes"@ {
        match count_value(flag, value, size) {
            Ok(n) => Ok(Config { payload_bytes: n as usize, ..config }),
            Err(message) => Err(message),
        }
    } else if flag == "--list-limit"@ {
        match count_value(flag, value, size) {
            Ok(n) => Ok(Config { list_limit: n as usize, ..config }),
            Err(message) => Err(message),
        }
    } else if flag == "--sample-every"@ {
        match count_value(flag, value, wide) {
            Ok(n) => Ok(Config { sample_every: n as u64, ..config }),
            Err(message) => Err(message),
        }
    } else if flag == "--seed"@ {
        match count_value(flag, value, wide) {
            Ok(n) => Ok(Config { seed: n as u64, ..config }),
            Err(message) => Err(message),
        }
    } else {
        Err(unknown_option_message(flag))
    }
}

/// What the arguments come to: a help flag asks for the usage text (`None`);
/// a flag with no value, a bad value, an unknown flag or a zero count is
/// refused; anything else is the configuration.
pub open spec fn linkbench_args(args: Seq<Seq<char>>, config: Config) -> Result<
    Option<Config>,
    Seq<char>,
>
    decreases args.len(),
{
    if args.len() == 0 {
        if config_valid(config) {
            Ok(Some(config))
        } else {
            Err("counts, repetitions, sizes, and sampling interval must be non-zero"@)
        }
    } else if is_help_flag(args[0]) {
        Ok(None)
    } else if args.len() == 1 {
        Err(missing_value_message(args[0]))
    } else {
        match config_apply(config, args[0], args[1]) {
            Ok(next) => linkbench_args(args.skip(2), next),
            Err(message) => Err(message),
        }
    }
}

fn config_apply_exec(config: Config, flag: &str, value: &str) -> (applied: Result<Config, String>)
    ensures
        match (applied, config_apply(config, flag@, value@)) {
            (Ok(a), Ok(b)) => a == b,
            (Err(m), Err(e)) => m@ == e,
            _ => false,
        },
{
    let mut config = config;
    if crate::text::str_eq(flag, "--nodes") {
        match parse_u64(value) {
            Ok(n) => config.nodes = n,
            Err(error) => return Err(invalid_value(flag, error)),
        }
    } else if crate::text::str_eq(flag, "--links-per-node") {
        match parse_u64(value) {
            Ok(n) => config.links_per_node = n,
            Err(error) => return Err(invalid_value(flag, error)),
        }
    } else if crate::text::str_eq(flag, "--link-types") {
        match parse_u64(value) {
            Ok(n) => config.link_types = n,
            Err(error) => return Err(invalid_value(flag, error)),
        }
    } else if crate::text::str_eq(flag, "--operations") {
        match parse_u64(value) {
            Ok(n) => config.operations = n,
            Err(error) => return Err(invalid_value(flag, error)),
        }
    } else if crate::text::str_eq(flag, "--repetitions") {
        match parse_usize(value) {
            Ok(n) => config.repetitions = n,
            Err(error) => return Err(invalid_value(flag, error)),
        }
    } else if crate::text::str_eq(flag, "--payload-bytes") {
        match parse_usize(value) {
            Ok(n) => config.payload_bytes = n,
            Err(error) => return Err(invalid_value(flag, error)),
        }
    } else if crate::text::str_eq(flag, "--list-limit") {
        match parse_usize(value) {
            Ok(n) => config.list_limit = n,
            Err(error) => return Err(invalid_value(flag, error)),
        }
    } else if crate::text::str_eq(flag, "--sample-every") {
        match parse_u64(value) {
            Ok(n) => config.sample_every = n,
            Err(error) => return Err(invalid_value(flag, error)),
        }
    } else if crate::text::str_eq(flag, "--seed") {
        match parse_u64(value) {
            Ok(n) => config.seed = n,
            Err(error) => return Err(invalid_value(flag, error)),
        }
    } else {
        return Err(unknown_option(flag));
    }
    Ok(config)
}

impl Config {
    /// Reads the runner's arguments, after the program name. `Ok(None)` asks
    /// for the usage text.
    pub fn from_args(args: &[String]) -> (parsed: Result<Option<Config>, String>)
        ensures
            match (parsed, linkbench_args(args_text(args@), default_config())) {
                (Ok(a), Ok(b)) => a == b,
                (Err(m), Err(e)) => m@ == e,
                _ => false,
            },
    {
        let mut config = Config::default();
        let ghost text = args_text(args@);
        let n = args.len();
        let mut i: usize = 0;
        assert(text.skip(0) =~= text);
        while i < n
            invariant
                n == args@.len(),
                text == args_text(args@),
                i <= n,
                linkbench_args(text, default_config()) == linkbench_args(text.skip(i as int), config),
            decreases n - i,
        {
            let flag = args[i].as_str();
            assert(text.skip(i as int)[0] == flag@);
            if is_help(flag) {
                return Ok(None);
            }
            if i + 1 >= n {
                return Err(missing_value(flag));
            }
            let value = args[i + 1].as_str();
            assert(text.skip(i as int)[1] == value@);
            match config_apply_exec(config, flag, value) {
                Ok(next) => config = next,
                Err(message) => return Err(message),
            }
            assert(text.skip(i as int).skip(2) =~= text.skip(i + 2));
            i = i + 2;
        }
        if config.nodes == 0 || config.links_per_node == 0 || config.link_types == 0
            || config.operations == 0 || config.repetitions == 0 || config.payload_bytes == 0
            || config.list_limit == 0 || config.sample_every == 0 {
            return Err(
                String::from_str(
                    "counts, repetitions, sizes, and sampling interval must be non-zero",
                ),
            );
        }
        Ok(Some(config))
    }
}


/// One LinkBench request with its arguments.
#[derive(Debug)]
pub enum Operation {
    LinkUpsert {
        kind: Kind,
        id1: u64,
        link_type: u64,
        id2: u64,
        time: u64,
        version: u64,
        data: String,
    },
    DeleteLink { id1: u64, link_type: u64, id2: u64 },
    CountLinks { id1: u64, link_type: u64 },
    GetLink { id1: u64, link_type: u64, id2: u64 },
    GetLinkList { id1: u64, link_type: u64, minimum_time: u64 },
    AddNode { id: u64, time: u64, data: String },
    UpdateNode { id: u64, time: u64, data: String },
    DeleteNode { id: u64 },
    GetNode { id: u64 },
}

/// A request with its payload taken by value.
pub enum OperationView {
    LinkUpsert {
        kind: Kind,
        id1: u64,
        link_type: u64,
        id2: u64,
        time: u64,
        version: u64,
        data: Seq<char>,
    },
    DeleteLink { id1: u64, link_type: u64, id2: u64 },
    CountLinks { id1: u64, link_type: u64 },
    GetLink { id1: u64, link_type: u64, id2: u64 },
    GetLinkList { id1: u64, link_type: u64, minimum_time: u64 },
    AddNode { id: u64, time: u64, data: Seq<char> },
    UpdateNode { id: u64, time: u64, data: Seq<char> },
    DeleteNode { id: u64 },
    GetNode { id: u64 },
}

impl View for Operation {
    type V = OperationView;

    open spec fn view(&self) -> OperationView {
        match self {
            Operation::LinkUpsert { kind, id1, link_type, id2, time, version, data } => {
                OperationView::LinkUpsert {
                    kind: *kind,
                    id1: *id1,
                    link_type: *link_type,
                    id2: *id2,
                    time: *time,
                    version: *version,
                    data: data@,
                }
            },
            Operation::DeleteLink { id1, link_type, id2 } => OperationView::DeleteLink {
                id1: *id1,
                link_type: *link_type,
                id2: *id2,
            },
            Operation::CountLinks { id1, link_type } => OperationView::CountLinks {
                id1: *id1,
                link_type: *link_type,
            },
            Operation::GetLink { id1, link_type, id2 } => OperationView::GetLink {
                id1: *id1,
                link_type: *link_type,
                id2: *id2,
            },
            Operation::GetLinkList { id1, link_type, minimum_time } => {
                OperationView::GetLinkList {
                    id1: *id1,
                    link_type: *link_type,
                    minimum_time: *minimum_time,
                }
            },
            Operation::AddNode { id, time, data } => OperationView::AddNode {
                id: *id,
                time: *time,
                data: data@,
            },
            Operation::UpdateNode { id, time, data } => OperationView::UpdateNode {
                id: *id,
                time: *time,
                data: data@,
            },
            Operation::DeleteNode { id } => OperationView::DeleteNode { id: *id },
            Operation::GetNode { id } => OperationView::GetNode { id: *id },
        }
    }
}

/// The kind of a request.
pub open spec fn view_kind(operation: OperationView) -> Kind {
    match operation {
        OperationView::LinkUpsert { kind, .. } => kind,
        OperationView::DeleteLink { .. } => Kind::DeleteLink,
        OperationView::CountLinks { .. } => Kind::CountLinks,
        OperationView::GetLink { .. } => Kind::GetLink,
        OperationView::GetLinkList { .. } => Kind::GetLinkList,
        OperationView::AddNode { .. } => Kind::AddNode,
        OperationView::UpdateNode { .. } => Kind::UpdateNode,
        OperationView::DeleteNode { .. } => Kind::DeleteNode,
        OperationView::GetNode { .. } => Kind::GetNode,
    }
}

impl Operation {
    pub fn kind(&self) -> (kind: Kind)
        ensures
            kind == view_kind(self@),
    {
        match self {
            Operation::LinkUpsert { kind, .. } => *kind,
            Operation::DeleteLink { .. } => Kind::DeleteLink,
            Operation::CountLinks { .. } => Kind::CountLinks,
            Operation::GetLink { .. } => Kind::GetLink,
            Operation::GetLinkList { .. } => Kind::GetLinkList,
            Operation::AddNode { .. } => Kind::AddNode,
            Operation::UpdateNode { .. } => Kind::UpdateNode,
            Operation::DeleteNode { .. } => Kind::DeleteNode,
            Operation::GetNode { .. } => Kind::GetNode,
        }
    }
}

/// Link slots per type in the initial graph: the links of a node shared out
/// over the types, rounded up.
pub open spec fn slot_count_spec(links_per_node: u64, link_types: u64) -> u64 {
    (links_per_node / link_types + if links_per_node % link_types == 0 {
        0u64
    } else {
        1u64
    }) as u64
}

pub fn slot_count(links_per_node: u64, link_types: u64) -> (slots: u64)
    requires
        link_types > 0,
    ensures
        slots == slot_count_spec(links_per_node, link_types),
        slots * link_types >= links_per_node,
        links_per_node > 0 ==> slots > 0,
{
    let whole = links_per_node / link_types;
    let slots = if links_per_node % link_types == 0 {
        whole
    } else {
        assert(whole < links_per_node) by (nonlinear_arith)
            requires
                whole == links_per_node / link_types,
                link_types > 0,
                links_per_node % link_types != 0,
        ;
        whole + 1
    };
    assert(slots * link_types >= links_per_node) by (nonlinear_arith)
        requires
            link_types > 0,
            whole == links_per_node / link_types,
            slots == whole + if links_per_node % link_types == 0 {
                0int
            } else {
                1int
            },
    ;
    assert(links_per_node > 0 ==> slots > 0) by (nonlinear_arith)
        requires
            slots * link_types >= links_per_node,
    ;
    slots
}

/// The link type and slot a request draws after its kind and first node:
/// a type below the configured count, then a slot of the initial graph.
pub fn link_draws(rng: &mut Rng, config: &Config) -> (draws: (u64, u64))
    requires
        config.link_types > 0,
    ensures
        draws.0 == below_value(old(rng)@, config.link_types),
        draws.1 == below_value(
            below_state(old(rng)@, config.link_types),
            slot_count_spec(config.links_per_node, config.link_types),
        ),
        final(rng)@ == below_state(
            below_state(old(rng)@, config.link_types),
            slot_count_spec(config.links_per_node, config.link_types),
        ),
{
    let link_type = rng.below(config.link_types);
    let slots = slot_count(config.links_per_node, config.link_types);
    let slot = rng.below(slots);
    (link_type, slot)
}

/// The printable payload the suite derives from `key`: what `text_value`
/// returns.
pub open spec fn payload_text(index: u64, payload_bytes: usize) -> Seq<char> {
    printable_payload(seed_state(value_seed(index)), payload_bytes as nat)
}

/// The request number `index` of a run is, once its kind, its first node
/// `id1`, its link type and slot, and (for the node requests that need one)
/// a further node `node` have been drawn. New links and nodes take ids past
/// the initial graph; the others address a link of the initial graph.
pub open spec fn request(
    config: Config,
    index: u64,
    kind: Kind,
    id1: u64,
    link_type: u64,
    slot: u64,
    node: u64,
) -> OperationView {
    let id2 = existing_target_spec(config.nodes, id1, link_type, slot);
    let data = payload_text(index, config.payload_bytes);
    match kind {
        Kind::AddLink => OperationView::LinkUpsert {
            kind: Kind::AddLink,
            id1,
            link_type,
            id2: (config.nodes + index) as u64,
            time: index,
            version: 0,
            data,
        },
        Kind::DeleteLink => OperationView::DeleteLink { id1, link_type, id2 },
        Kind::UpdateLink => OperationView::LinkUpsert {
            kind: Kind::UpdateLink,
            id1,
            link_type,
            id2,
            time: index,
            version: index,
            data,
        },
        Kind::CountLinks => OperationView::CountLinks { id1, link_type },
        Kind::GetLink => OperationView::GetLink { id1, link_type, id2 },
        Kind::GetLinkList => OperationView::GetLinkList {
            id1,
            link_type,
            minimum_time: if index >= 10_000 {
                (index - 10_000) as u64
            } else {
                0
            },
        },
        Kind::AddNode => OperationView::AddNode {
            id: (config.nodes + index) as u64,
            time: index,
            data,
        },
        Kind::UpdateNode => OperationView::UpdateNode { id: node, time: index, data },
        Kind::DeleteNode => OperationView::DeleteNode { id: node },
        Kind::GetNode => OperationView::GetNode { id: node },
    }
}

/// Whether a request of `kind` names a new id past the initial graph.
pub open spec fn creates(kind: Kind) -> bool {
    kind == Kind::AddLink || kind == Kind::AddNode
}

/// Builds request number `index` from its drawn kind, nodes, link type and
/// slot.
pub fn operation_for(
    config: &Config,
    index: u64,
    kind: Kind,
    id1: u64,
    link_type: u64,
    slot: u64,
    node: u64,
) -> (operation: Operation)
    requires
        config.nodes > 0,
        creates(kind) ==> config.nodes + index <= u64::MAX,
    ensures
        operation@ == request(*config, index, kind, id1, link_type, slot, node),
        view_kind(operation@) == kind,
{
    let id2 = existing_target(config.nodes, id1, link_type, slot);
    match kind {
        Kind::AddLink => Operation::LinkUpsert {
            kind: Kind::AddLink,
            id1,
            link_type,
            id2: config.nodes + index,
            time: index,
            version: 0,
            data: text_value(index, config.payload_bytes),
        },
        Kind::DeleteLink => Operation::DeleteLink { id1, link_type, id2 },
        Kind::UpdateLink => Operation::LinkUpsert {
            kind: Kind::UpdateLink,
            id1,
            link_type,
            id2,
            time: index,
            version: index,
            data: text_value(index, config.payload_bytes),
        },
        Kind::CountLinks => Operation::CountLinks { id1, link_type },
        Kind::GetLink => Operation::GetLink { id1, link_type, id2 },
        Kind::GetLinkList => Operation::GetLinkList {
            id1,
            link_type,
            minimum_time: index.saturating_sub(10_000),
        },
        Kind::AddNode => Operation::AddNode {
            id: config.nodes + index,
            time: index,
            data: text_value(index, config.payload_bytes),
        },
        Kind::UpdateNode => Operation::UpdateNode {
            id: node,
            time: index,
            data: text_value(index, config.payload_bytes),
        },
        Kind::DeleteNode => Operation::DeleteNode { id: node },
        Kind::GetNode => Operation::GetNode { id: node },
    }
}

/// Requests that add a link or a node use an id past the initial graph, so
/// they never collide with it; requests that delete, update or read a link
/// address one the initial graph holds, a target below the node count.
pub proof fn lemma_requests_address_the_graph(
    config: Config,
    index: u64,
    kind: Kind,
    id1: u64,
    link_type: u64,
    slot: u64,
    node: u64,
)
    requires
        config.nodes > 0,
        creates(kind) ==> config.nodes + index <= u64::MAX,
    ensures
        view_kind(request(config, index, kind, id1, link_type, slot, node)) == kind,
        match request(config, index, kind, id1, link_type, slot, node) {
            OperationView::LinkUpsert { kind: k, id2, .. } => if k == Kind::AddLink {
                id2 >= config.nodes
            } else {
                id2 < config.nodes
            },
            OperationView::DeleteLink { id2, .. } => id2 < config.nodes,
            OperationView::GetLink { id2, .. } => id2 < config.nodes,
            OperationView::AddNode { id, .. } => id >= config.nodes,
            _ => true,
        },
{
}

/// One stored link, keyed by its source node, type and target, with the
/// key its node's links of that type are counted and listed under.
#[derive(Debug)]
pub struct LinkRow {
    pub id1: u64,
    pub link_type: u64,
    pub id2: u64,
    pub source_type: u128,
    pub time: u64,
    pub version: u64,
    pub data: String,
}

/// The stored link for the given key, time, version and payload.
pub fn link_row(id1: u64, link_type: u64, id2: u64, time: u64, version: u64, data: String) -> (row:
    LinkRow)
    ensures
        row.id1 == id1,
        row.link_type == link_type,
        row.id2 == id2,
        row.source_type == source_type_spec(id1, link_type),
        row.time == time,
        row.version == version,
        row.data@ == data@,
{
    LinkRow { id1, link_type, id2, source_type: source_type(id1, link_type), time, version, data }
}

/// One stored node.
#[derive(Debug)]
pub struct NodeRow {
    pub id: u64,
    pub version: u64,
    pub time: u64,
    pub data: String,
}

/// Node `id` of the initial graph: version and time zero, its payload the
/// suite's value for its id.
pub fn node_row(config: &Config, id: u64) -> (row: NodeRow)
    ensures
        row.id == id,
        row.version == 0,
        row.time == 0,
        row.data@ == payload_text(id, config.payload_bytes),
{
    NodeRow { id, version: 0, time: 0, data: text_value(id, config.payload_bytes) }
}

/// The type of a node's `slot`-th initial link: slots cycle through the types.
pub open spec fn slot_type(slot: u64, link_types: u64) -> u64 {
    slot % link_types
}

/// The target of a node's `slot`-th initial link: the slot's place among the
/// links of its type picks the target.
pub open spec fn slot_target(config: Config, id1: u64, slot: u64) -> u64 {
    existing_target_spec(
        config.nodes,
        id1,
        slot_type(slot, config.link_types),
        slot / config.link_types,
    )
}

/// The outgoing links node `id1` starts with, one per slot, in slot order.
pub fn initial_links(config: &Config, id1: u64) -> (links: Vec<LinkRow>)
    requires
        config.nodes > 0,
        config.link_types > 0,
    ensures
        links@.len() == config.links_per_node,
        forall|slot: int|
            #![trigger links@[slot]]
            0 <= slot < config.links_per_node ==> {
                let link = links@[slot];
                let id2 = slot_target(*config, id1, slot as u64);
                &&& link.id1 == id1
                &&& link.link_type == slot_type(slot as u64, config.link_types)
                &&& link.id2 == id2
                &&& link.source_type == source_type_spec(
                    id1,
                    slot_type(slot as u64, config.link_types),
                )
                &&& link.time == 0
                &&& link.version == 0
                &&& link.data@ == payload_text(id1 ^ id2, config.payload_bytes)
            },
{
    let mut links: Vec<LinkRow> = Vec::new();
    let mut slot: u64 = 0;
    while slot < config.links_per_node
        invariant
            config.nodes > 0,
            config.link_types > 0,
            slot <= config.links_per_node,
            links@.len() == slot,
            forall|s: int|
                #![trigger links@[s]]
                0 <= s < slot ==> {
                    let link = links@[s];
                    let id2 = slot_target(*config, id1, s as u64);
                    &&& link.id1 == id1
                    &&& link.link_type == slot_type(s as u64, config.link_types)
                    &&& link.id2 == id2
                    &&& link.source_type == source_type_spec(
                        id1,
                        slot_type(s as u64, config.link_types),
                    )
                    &&& link.time == 0
                    &&& link.version == 0
                    &&& link.data@ == payload_text(id1 ^ id2, config.payload_bytes)
                },
        decreases config.links_per_node - slot,
    {
        let link_type = slot % config.link_types;
        let type_slot = slot / config.link_types;
        let id2 = existing_target(config.nodes, id1, link_type, type_slot);
        let data = text_value(id1 ^ id2, config.payload_bytes);
        links.push(link_row(id1, link_type, id2, 0, 0, data));
        slot = slot + 1;
    }
    links
}

/// Where a node's targets of one link type start before the slot is added.
pub open spec fn link_base(id1: u64, link_type: u64) -> u64 {
    wrapping_add(wrapping_mul(id1, 1_000_003), wrapping_mul(link_type, 65_537))
}

/// Two slots of one type sit at different places among that type's slots,
/// each below the type's slot count.
proof fn lemma_same_type_places(s1: nat, s2: nat, t: nat, links: nat)
    requires
        t > 0,
        s1 < s2 < links,
        s1 % t == s2 % t,
    ensures
        s1 / t < s2 / t,
        s2 / t < links / t + if links % t == 0 {
            0nat
        } else {
            1nat
        },
{
    let lt = (s1 % t) as int;
    let q1 = (s1 / t) as int;
    let q2 = (s2 / t) as int;
    let lq = (links / t) as int;
    let lr = (links % t) as int;
    vstd::arithmetic::div_mod::lemma_fundamental_div_mod(s1 as int, t as int);
    vstd::arithmetic::div_mod::lemma_fundamental_div_mod(s2 as int, t as int);
    vstd::arithmetic::div_mod::lemma_fundamental_div_mod(links as int, t as int);
    vstd::arithmetic::div_mod::lemma_mod_bound(s1 as int, t as int);
    vstd::arithmetic::div_mod::lemma_mod_bound(links as int, t as int);
    assert(q1 < q2) by (nonlinear_arith)
        requires
            s1 == t * q1 + lt,
            s2 == t * q2 + lt,
            s1 < s2,
            t > 0,
    ;
    assert(q2 < lq + if lr == 0 {
        0int
    } else {
        1int
    }) by (nonlinear_arith)
        requires
            s2 == t * q2 + lt,
            0 <= lt < t,
            s2 < links,
            links == t * lq + lr,
            0 <= lr < t,
    ;
}

/// The slot count of a type is the rounded-up share, with nothing cut off.
proof fn lemma_slot_count_value(links: u64, t: u64)
    requires
        t > 0,
    ensures
        slot_count_spec(links, t) == links / t + if links % t == 0 {
            0int
        } else {
            1int
        },
{
    if links % t != 0 {
        assert(links / t < links) by (nonlinear_arith)
            requires
                t > 0,
                links % t != 0,
        ;
    }
}

/// Two numbers closer together than `n` leave different remainders.
proof fn lemma_close_remainders_differ(a: int, b: int, n: int)
    requires
        0 <= a < b,
        b - a < n,
    ensures
        a % n != b % n,
{
    vstd::arithmetic::div_mod::lemma_fundamental_div_mod(a, n);
    vstd::arithmetic::div_mod::lemma_fundamental_div_mod(b, n);
    let qa = a / n;
    let qb = b / n;
    if a % n == b % n {
        assert(b - a == n * (qb - qa)) by (nonlinear_arith)
            requires
                a == n * qa + a % n,
                b == n * qb + b % n,
                a % n == b % n,
        ;
        assert(false) by (nonlinear_arith)
            requires
                b - a == n * (qb - qa),
                0 < b - a < n,
        ;
    }
}

/// A node's initial links never repeat a key, so loading the graph never
/// meets a duplicate: two slots of one type get different targets as long as
/// a type has no more slots than the graph has nodes and the slots of the
/// type do not carry its targets' base past the top of the integers.
pub proof fn lemma_initial_link_keys_distinct(config: Config, id1: u64, s1: u64, s2: u64)
    requires
        config.nodes > 0,
        config.link_types > 0,
        s1 < s2 < config.links_per_node,
        slot_count_spec(config.links_per_node, config.link_types) <= config.nodes,
        slot_type(s1, config.link_types) == slot_type(s2, config.link_types) ==> link_base(
            id1,
            slot_type(s1, config.link_types),
        ) + slot_count_spec(config.links_per_node, config.link_types) <= u64::MAX,
    ensures
        slot_type(s1, config.link_types) != slot_type(s2, config.link_types) || slot_target(
            config,
            id1,
            s1,
        ) != slot_target(config, id1, s2),
{
    let lt = slot_type(s1, config.link_types);
    if lt == slot_type(s2, config.link_types) {
        lemma_same_type_places(
            s1 as nat,
            s2 as nat,
            config.link_types as nat,
            config.links_per_node as nat,
        );
        lemma_slot_count_value(config.links_per_node, config.link_types);
        let slots = slot_count_spec(config.links_per_node, config.link_types);
        let base = link_base(id1, lt);
        let q1 = s1 / config.link_types;
        let q2 = s2 / config.link_types;
        assert(q1 < q2 < slots);
        assert(base + q2 <= u64::MAX);
        assert(wrapping_add(base, q1) == base + q1);
        assert(wrapping_add(base, q2) == base + q2);
        assert(slot_target(config, id1, s1) == (base + q1) % config.nodes as int);
        assert(slot_target(config, id1, s2) == (base + q2) % config.nodes as int);
        lemma_close_remainders_differ(base + q1, base + q2, config.nodes as int);
    }
}

/// Law: every request carries what it was built from. A request that names
/// a source node and a link type names the drawn `id1` and `link_type`; a
/// link that already exists is addressed by its initial-graph target; writes
/// are stamped with the request's index; the node requests name the drawn
/// node; and the kind is the one drawn.
pub proof fn lemma_requests_carry_their_draws(
    config: Config,
    index: u64,
    kind: Kind,
    id1: u64,
    link_type: u64,
    slot: u64,
    node: u64,
)
    requires
        creates(kind) ==> config.nodes + index <= u64::MAX,
    ensures
        view_kind(request(config, index, kind, id1, link_type, slot, node)) == kind,
        match request(config, index, kind, id1, link_type, slot, node) {
            OperationView::LinkUpsert { id1: a, link_type: t, id2, time, version, data, .. } => {
                &&& a == id1 && t == link_type && time == index
                &&& data == payload_text(index, config.payload_bytes)
                &&& kind == Kind::AddLink ==> version == 0 && id2 == config.nodes + index
                &&& kind == Kind::UpdateLink ==> version == index && id2
                    == existing_target_spec(config.nodes, id1, link_type, slot)
            },
            OperationView::DeleteLink { id1: a, link_type: t, id2 } => a == id1 && t == link_type
                && id2 == existing_target_spec(config.nodes, id1, link_type, slot),
            OperationView::CountLinks { id1: a, link_type: t } => a == id1 && t == link_type,
            OperationView::GetLink { id1: a, link_type: t, id2 } => a == id1 && t == link_type
                && id2 == existing_target_spec(config.nodes, id1, link_type, slot),
            OperationView::GetLinkList { id1: a, link_type: t, minimum_time } => a == id1 && t
                == link_type && minimum_time <= index && (index >= 10_000 ==> minimum_time + 10_000
                == index) && (index < 10_000 ==> minimum_time == 0),
            OperationView::AddNode { id, time, data } => id == config.nodes + index && time
                == index && data == payload_text(index, config.payload_bytes),
            OperationView::UpdateNode { id, time, data } => id == node && time == index && data
                == payload_text(index, config.payload_bytes),
            OperationView::DeleteNode { id } => id == node,
            OperationView::GetNode { id } => id == node,
        },
{
}

} // verus!
