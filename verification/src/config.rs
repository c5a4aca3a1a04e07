//! The cluster configuration: which nodes run a server, and the command-line
//! arguments each server process is started with.

use vstd::prelude::*;

use crate::words::words_view;

verus! {

/// One server node: the address it listens on, in text form, and whether it
/// is the main node.
pub struct NodeConfig {
    pub address: String,
    pub is_main: bool,
}

/// The nodes of the cluster: one main node and any number of secondary nodes.
pub struct RedisConfig {
    pub main_node: NodeConfig,
    pub slave_nodes: Vec<NodeConfig>,
}

pub open spec fn true_text() -> Seq<char> {
    seq!['t', 'r', 'u', 'e']
}

pub open spec fn false_text() -> Seq<char> {
    seq!['f', 'a', 'l', 's', 'e']
}

/// The text of a boolean: `true` or `false`.
pub open spec fn flag_text_spec(b: bool) -> Seq<char> {
    if b {
        true_text()
    } else {
        false_text()
    }
}

/// The boolean that a text names: only `true` and `false` name one.
pub open spec fn parse_flag_spec(s: Seq<char>) -> Option<bool> {
    if s == true_text() {
        Some(true)
    } else if s == false_text() {
        Some(false)
    } else {
        None
    }
}

/// The arguments a server process for `node` is started with: its address and
/// whether it is the main node.
pub open spec fn server_args_spec(node: NodeConfig) -> Seq<Seq<char>> {
    seq![node.address@, flag_text_spec(node.is_main)]
}

/// Writes a boolean as text.
pub fn flag_text(b: bool) -> (s: String)
    ensures
        s@ == flag_text_spec(b),
{
    proof {
        reveal_strlit("true");
        reveal_strlit("false");
        assert("true"@ =~= true_text());
        assert("false"@ =~= false_text());
    }
    if b {
        "true".to_owned()
    } else {
        "false".to_owned()
    }
}

/// Reads the main-node flag that a server process is started with.
pub fn parse_is_main_flag(arg: &str) -> (b: Option<bool>)
    ensures
        b == parse_flag_spec(arg@),
{
    proof {
        reveal_strlit("true");
        reveal_strlit("false");
        assert("true"@ =~= true_text());
        assert("false"@ =~= false_text());
    }
    let a = arg.to_owned();
    let t = "true".to_owned();
    let f = "false".to_owned();
    if a.eq(&t) {
        Some(true)
    } else if a.eq(&f) {
        Some(false)
    } else {
        None
    }
}

/// Reading the text of a boolean gives the boolean back.
pub proof fn lemma_flag_round_trip(b: bool)
    ensures
        parse_flag_spec(flag_text_spec(b)) == Some(b),
{
    assert(true_text() != false_text());
}

/// A text names boolean `b` exactly when it is the text written for `b`.
pub proof fn lemma_flag_text_is_only_reading(s: Seq<char>, b: bool)
    ensures
        parse_flag_spec(s) == Some(b) <==> s == flag_text_spec(b),
{
    assert(true_text() != false_text());
}

/// A server process for `node` is started with two arguments: the node's
/// address text unchanged, then the text of its own main-node flag.
pub proof fn lemma_server_args_content(node: NodeConfig)
    ensures
        server_args_spec(node).len() == 2,
        server_args_spec(node)[0] == node.address@,
        parse_flag_spec(server_args_spec(node)[1]) == Some(node.is_main),
{
    lemma_flag_round_trip(node.is_main);
}

/// The launch plan starts the main node with its own address and flag, then
/// each secondary node with its own address and flag.
pub proof fn lemma_launch_plan_content(cfg: RedisConfig, all: Seq<Seq<Seq<char>>>)
    requires
        all.len() == cfg.slave_nodes.len() + 1,
        all[0] == server_args_spec(cfg.main_node),
        forall|i: int|
            0 <= i < cfg.slave_nodes.len() ==> #[trigger] all[i + 1] == server_args_spec(
                cfg.slave_nodes@[i],
            ),
    ensures
        all[0][0] == cfg.main_node.address@,
        parse_flag_spec(all[0][1]) == Some(cfg.main_node.is_main),
        forall|i: int|
            0 <= i < cfg.slave_nodes.len() ==> (#[trigger] all[i + 1])[0]
                == cfg.slave_nodes@[i].address@ && parse_flag_spec(all[i + 1][1]) == Some(
                cfg.slave_nodes@[i].is_main,
            ),
{
    lemma_server_args_content(cfg.main_node);
    assert forall|i: int| 0 <= i < cfg.slave_nodes.len() implies (#[trigger] all[i + 1])[0]
        == cfg.slave_nodes@[i].address@ && parse_flag_spec(all[i + 1][1]) == Some(
        cfg.slave_nodes@[i].is_main,
    ) by {
        lemma_server_args_content(cfg.slave_nodes@[i]);
    }
}

impl NodeConfig {
    /// Whether this is the main node.
    pub fn is_main(&self) -> (b: bool)
        ensures
            b == self.is_main,
    {
        self.is_main
    }

    /// The arguments a server process for this node is started with.
    pub fn server_args(&self) -> (args: Vec<String>)
        ensures
            words_view(args@) == server_args_spec(*self),
            args.len() == 2,
            args@[0]@ == self.address@,
            parse_flag_spec(args@[1]@) == Some(self.is_main),
    {
        let mut args: Vec<String> = Vec::new();
        args.push(self.address.clone());
        args.push(flag_text(self.is_main));
        assert(words_view(args@) =~= server_args_spec(*self));
        proof {
            lemma_flag_round_trip(self.is_main);
        }
        args
    }
}

impl RedisConfig {
    /// The arguments of every server process, in the order they are started:
    /// the main node first, then each secondary node in turn.
    pub fn server_launch_args(&self) -> (all: Vec<Vec<String>>)
        ensures
            all.len() == self.slave_nodes.len() + 1,
            words_view(all@[0]@) == server_args_spec(self.main_node),
            forall|i: int|
                0 <= i < self.slave_nodes.len() ==> words_view(#[trigger] all@[i + 1]@)
                    == server_args_spec(self.slave_nodes@[i]),
    {
        let mut all: Vec<Vec<String>> = Vec::new();
        all.push(self.main_node.server_args());
        let mut i: usize = 0;
        while i < self.slave_nodes.len()
            invariant
                i <= self.slave_nodes.len(),
                all.len() == i + 1,
                words_view(all@[0]@) == server_args_spec(self.main_node),
                forall|j: int|
                    0 <= j < i ==> words_view(#[trigger] all@[j + 1]@) == server_args_spec(
                        self.slave_nodes@[j],
                    ),
            decreases self.slave_nodes.len() - i,
        {
            all.push(self.slave_nodes[i].server_args());
            i = i + 1;
        }
        all
    }
}

} // verus!
