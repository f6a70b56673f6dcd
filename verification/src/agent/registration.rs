//! Which tools the agent registers besides the built-in ones, given its
//! configuration: the MCP servers' tools, the scheduling tool, the sub-agent tool
//! and the message tool, in that order.

use vstd::prelude::*;

verus! {

/// A tool registered when the agent is set up.
#[derive(Debug, Clone, Copy, PartialEq, Eq, Structural)]
pub enum ExtraTool {
    /// The `i`-th tool that connecting to the MCP servers gave.
    Mcp(usize),
    /// The scheduling tool, when a scheduler is given.
    Cron,
    /// The sub-agent spawning tool.
    Spawn,
    /// The message tool.
    Message,
}

/// The tools registered, in order: with MCP servers configured and their
/// connection made, each of the `n` tools it gave; then the scheduling tool when
/// a scheduler is given; then the spawning and message tools, always.
pub open spec fn extra_tools_spec(mcp_servers: nat, mcp_tools: Option<nat>, has_cron: bool) -> Seq<ExtraTool> {
    let mcp = if mcp_servers > 0 {
        match mcp_tools {
            Some(n) => Seq::new(n, |i: int| ExtraTool::Mcp(i as usize)),
            None => Seq::empty(),
        }
    } else {
        Seq::empty()
    };
    let cron = if has_cron {
        seq![ExtraTool::Cron]
    } else {
        Seq::empty()
    };
    mcp + cron + seq![ExtraTool::Spawn, ExtraTool::Message]
}

/// Whether the MCP servers are connected to at all: only when some are configured.
pub fn connects_mcp(mcp_servers: usize) -> (b: bool)
    ensures
        b == (mcp_servers > 0),
{
    mcp_servers > 0
}

/// The tools to register (see `extra_tools_spec`): `mcp_servers` is the number of
/// MCP servers configured, `mcp_tools` the number of tools their connection gave
/// (`None` when it failed; setting up goes on without them), `has_cron` whether a
/// scheduler is given.
pub fn extra_tools(mcp_servers: usize, mcp_tools: Option<usize>, has_cron: bool) -> (r: Vec<ExtraTool>)
    ensures
        r@ == extra_tools_spec(
            mcp_servers as nat,
            match mcp_tools {
                Some(n) => Some(n as nat),
                None => None,
            },
            has_cron,
        ),
{
    let mut r: Vec<ExtraTool> = Vec::new();
    if connects_mcp(mcp_servers) {
        if let Some(n) = mcp_tools {
            let mut i: usize = 0;
            while i < n
                invariant
                    i <= n,
                    r@ == Seq::new(i as nat, |k: int| ExtraTool::Mcp(k as usize)),
                decreases n - i,
            {
                r.push(ExtraTool::Mcp(i));
                i = i + 1;
                assert(r@ =~= Seq::new(i as nat, |k: int| ExtraTool::Mcp(k as usize)));
            }
        }
    }
    let ghost mcp = r@;
    if has_cron {
        r.push(ExtraTool::Cron);
    }
    r.push(ExtraTool::Spawn);
    r.push(ExtraTool::Message);
    proof {
        let cron = if has_cron {
            seq![ExtraTool::Cron]
        } else {
            Seq::<ExtraTool>::empty()
        };
        assert(r@ =~= mcp + cron + seq![ExtraTool::Spawn, ExtraTool::Message]);
        if !(mcp_servers > 0) || mcp_tools is None {
            assert(mcp =~= Seq::<ExtraTool>::empty());
        }
    }
    r
}

} // verus!
