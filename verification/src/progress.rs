//! The client's running total of an image pull.

use crate::docker::PullProgress;
use crate::kv::{kv_get, kv_insert, sorted_keys};
use crate::text::string_of;
use vstd::prelude::*;

verus! {

/// The latest counts of one progress node.
#[derive(Clone, Copy)]
pub struct PullNode {
    /// Bytes done.
    pub current: u64,
    /// Bytes in all.
    pub total: u64,
}

/// The state of a pull display: the latest counts of every node, by node key, and
/// the latest activity.
pub struct PullState {
    /// Project being pulled.
    pub name: String,
    /// Counts by node key, sorted by key.
    pub nodes: Vec<(String, PullNode)>,
    /// Latest activity.
    pub activity: String,
}

/// The key of the node an event reports on: its id, or its text and status.
pub open spec fn node_key(p: PullProgress) -> Seq<char> {
    if p.id@.len() == 0 {
        p.text@ + ":"@ + p.status@
    } else {
        p.id@
    }
}

/// The activity an event describes: its first non-empty text, id or status.
pub open spec fn activity_of(p: PullProgress) -> Seq<char> {
    if p.text@.len() > 0 {
        p.text@
    } else if p.id@.len() > 0 {
        p.id@
    } else if p.status@.len() > 0 {
        p.status@
    } else {
        "拉取中"@
    }
}

/// `x`, saturated at `u64::MAX`.
pub open spec fn saturate(x: int) -> nat {
    if x > u64::MAX {
        u64::MAX as nat
    } else {
        x as nat
    }
}

/// The bytes done and in all over the nodes that know their total, each node
/// counting at most its total, both sums saturating.
pub open spec fn progress_sums(nodes: Seq<(String, PullNode)>) -> (nat, nat)
    decreases nodes.len(),
{
    if nodes.len() == 0 {
        (0, 0)
    } else {
        let (c, t) = progress_sums(nodes.drop_last());
        let n = nodes.last().1;
        if n.total > 0 {
            (
                saturate(c + if n.current < n.total {
                    n.current
                } else {
                    n.total
                }),
                saturate(t + n.total),
            )
        } else {
            (c, t)
        }
    }
}

/// The percentage done; 0 when no total is known.
pub open spec fn progress_percent(c: nat, t: nat) -> nat {
    if t == 0 {
        0
    } else if c * 100 / t > 255 {
        100
    } else {
        c * 100 / t
    }
}

/// The bar of a progress line: 30 cells, the done share of them filled with `=`.
pub open spec fn bar_text(percent: nat) -> Seq<char> {
    Seq::new(percent * 30 / 100, |i: int| '=') + Seq::new((30 - percent * 30 / 100) as nat, |i: int| ' ')
}

/// The bar of a progress line for a percentage of at most 100.
pub fn progress_bar(percent: u8) -> (r: String)
    requires
        percent <= 100,
    ensures
        r@ == bar_text(percent as nat),
{
    let filled: usize = (percent as usize) * 30 / 100;
    let mut out: Vec<char> = Vec::new();
    let mut i: usize = 0;
    while i < 30
        invariant
            i <= 30,
            filled <= 30,
            filled == (percent as nat) * 30 / 100,
            out@ == bar_text(percent as nat).take(i as int),
        decreases 30 - i,
    {
        let c = if i < filled {
            '='
        } else {
            ' '
        };
        out.push(c);
        assert(bar_text(percent as nat).take(i + 1) =~= bar_text(percent as nat).take(i as int).push(c));
        i = i + 1;
    }
    assert(bar_text(percent as nat).take(30) =~= bar_text(percent as nat));
    string_of(&out)
}

/// The bytes done never pass the bytes in all.
pub proof fn lemma_progress_done_within_total(nodes: Seq<(String, PullNode)>)
    ensures
        progress_sums(nodes).0 <= progress_sums(nodes).1,
    decreases nodes.len(),
{
    if nodes.len() > 0 {
        lemma_progress_done_within_total(nodes.drop_last());
    }
}

/// The aggregated percentage of a pull never passes 100.
pub proof fn law_progress_percent_at_most_100(nodes: Seq<(String, PullNode)>)
    ensures
        progress_percent(progress_sums(nodes).0, progress_sums(nodes).1) <= 100,
{
    lemma_progress_done_within_total(nodes);
    let (c, t) = progress_sums(nodes);
    if t > 0 {
        assert(c * 100 / t <= 100) by (nonlinear_arith)
            requires
                c <= t,
                t > 0,
        {
            assert(c * 100 <= t * 100);
        }
    }
}

impl PullState {
    /// The display state before any event.
    pub fn new(name: String) -> (r: PullState)
        ensures
            r.name@ == name@,
            r.nodes@.len() == 0,
            r.activity@ == "等待 Docker 返回进度"@,
    {
        PullState { name, nodes: Vec::new(), activity: String::from_str("等待 Docker 返回进度") }
    }

    /// Records an event: the node's counts and the activity.
    pub fn update(&mut self, p: &PullProgress)
        requires
            sorted_keys(old(self).nodes@),
        ensures
            sorted_keys(final(self).nodes@),
            kv_get(final(self).nodes@, node_key(*p)) == Some(PullNode { current: p.current, total: p.total }),
            forall|k: Seq<char>|
                k != node_key(*p) ==> #[trigger] kv_get(final(self).nodes@, k) == kv_get(old(self).nodes@, k),
            final(self).activity@ == activity_of(*p),
            final(self).name@ == old(self).name@,
    {
        let key = if p.id.as_str().is_empty() {
            let mut k = p.text.clone();
            k.append(":");
            k.append(p.status.as_str());
            k
        } else {
            p.id.clone()
        };
        kv_insert(&mut self.nodes, key, PullNode { current: p.current, total: p.total });
        self.activity = if !p.text.as_str().is_empty() {
            p.text.clone()
        } else if !p.id.as_str().is_empty() {
            p.id.clone()
        } else if !p.status.as_str().is_empty() {
            p.status.clone()
        } else {
            String::from_str("拉取中")
        };
    }
}

/// `a + b`, saturated at `u64::MAX`.
fn saturating_sum(a: u64, b: u64) -> (r: u64)
    ensures
        r as nat == saturate(a + b),
{
    if a > u64::MAX - b {
        u64::MAX
    } else {
        a + b
    }
}

/// The bytes done, the bytes in all and the percentage done over the nodes that
/// know their total.
pub fn aggregate_pull_progress(nodes: &Vec<(String, PullNode)>) -> (r: (u64, u64, u8))
    ensures
        (r.0 as nat, r.1 as nat) == progress_sums(nodes@),
        r.2 as nat == progress_percent(r.0 as nat, r.1 as nat),
{
    let mut current: u64 = 0;
    let mut total: u64 = 0;
    let mut i: usize = 0;
    while i < nodes.len()
        invariant
            i <= nodes@.len(),
            (current as nat, total as nat) == progress_sums(nodes@.take(i as int)),
        decreases nodes.len() - i,
    {
        assert(nodes@.take(i + 1).drop_last() =~= nodes@.take(i as int));
        let n = nodes[i].1;
        if n.total > 0 {
            let part = if n.current < n.total {
                n.current
            } else {
                n.total
            };
            current = saturating_sum(current, part);
            total = saturating_sum(total, n.total);
        }
        i = i + 1;
    }
    assert(nodes@.take(i as int) =~= nodes@);
    let percent: u8 = if total == 0 {
        0
    } else {
        let q: u128 = (current as u128 * 100) / (total as u128);
        if q > 255 {
            100
        } else {
            q as u8
        }
    };
    (current, total, percent)
}

} // verus!
