//! Ring construction and the token-conservation law.  Robots 0..N-1 form
//! the cyclic graph 0 -> 1 -> ... -> N-1 -> 0; the connection order at boot
//! is chosen so that mutual connects cannot deadlock.
use vstd::prelude::*;
use vstd::multiset::Multiset;

use crate::messages::FlavourV;
use crate::robot::{flavour_step, start_step, RobotAction, RobotV};

verus! {

/// How a robot brings up its two ring links at boot.
#[derive(Clone, Copy, PartialEq, Eq, Structural, Debug)]
pub enum BootOrder {
    /// Dial the next neighbour first, then accept the previous one.
    ConnectThenAccept,
    /// Accept the previous neighbour first, then dial the next one.
    AcceptThenConnect,
}

/// Even-id robots dial outward first and odd-id robots accept first, so
/// that no two neighbours wait on each other's connect.
pub fn boot_order(id: usize) -> (r: BootOrder)
    ensures
        r == (if id % 2 == 0 {
            BootOrder::ConnectThenAccept
        } else {
            BootOrder::AcceptThenConnect
        }),
{
    if id % 2 == 0 {
        BootOrder::ConnectThenAccept
    } else {
        BootOrder::AcceptThenConnect
    }
}

/// The id of the next robot around the ring.
pub fn next_robot_id(id: usize, ring_size: usize) -> (r: usize)
    requires
        ring_size >= 1,
        id < ring_size,
    ensures
        r as int == (id + 1) % (ring_size as int),
{
    let r = if id == ring_size - 1 {
        0
    } else {
        id + 1
    };
    proof {
        if id == ring_size - 1 {
            vstd::arithmetic::div_mod::lemma_mod_self_0(ring_size as int);
        } else {
            vstd::arithmetic::div_mod::lemma_small_mod((id + 1) as nat, ring_size as nat);
        }
    }
    r
}

/// The tokens a step sends on the outbound ring link, in order.
pub open spec fn forwarded_tokens(out: Seq<RobotAction>) -> Seq<FlavourV>
    decreases out.len(),
{
    if out.len() == 0 {
        Seq::<FlavourV>::empty()
    } else {
        let rest = forwarded_tokens(out.drop_last());
        match out.last() {
            RobotAction::Forward(g) => rest.push(g@),
            _ => rest,
        }
    }
}

/// The multiset of token names in a token sequence.
pub open spec fn token_names(tokens: Seq<FlavourV>) -> Multiset<Seq<char>>
    decreases tokens.len(),
{
    if tokens.len() == 0 {
        Multiset::<Seq<char>>::empty()
    } else {
        token_names(tokens.drop_last()).insert(tokens.last().name)
    }
}

/// The multiset of names in a name sequence.
pub open spec fn names_of(names: Seq<Seq<char>>) -> Multiset<Seq<char>>
    decreases names.len(),
{
    if names.len() == 0 {
        Multiset::<Seq<char>>::empty()
    } else {
        names_of(names.drop_last()).insert(names.last())
    }
}

/// When every action of `out` forwards a token named after the matching
/// entry of `names`, the forwarded tokens line up with `names` one to one.
proof fn lemma_forwarded_names(out: Seq<RobotAction>, names: Seq<Seq<char>>)
    requires
        out.len() == names.len(),
        forall|i: int|
            0 <= i < out.len() ==> (#[trigger] out[i] matches RobotAction::Forward(g) && g@.name
                == names[i]),
    ensures
        forwarded_tokens(out).len() == out.len(),
        forall|i: int| 0 <= i < out.len() ==> #[trigger] forwarded_tokens(out)[i].name == names[i],
    decreases out.len(),
{
    if out.len() > 0 {
        lemma_forwarded_names(out.drop_last(), names.drop_last());
        assert(out.last() matches RobotAction::Forward(g) && g@.name == names[out.len() - 1]);
    }
}

/// A token sequence whose names line up with `names` carries exactly the
/// multiset of those names.
proof fn lemma_token_names_of(tokens: Seq<FlavourV>, names: Seq<Seq<char>>)
    requires
        tokens.len() == names.len(),
        forall|i: int| 0 <= i < tokens.len() ==> #[trigger] tokens[i].name == names[i],
    ensures
        token_names(tokens) =~= names_of(names),
    decreases tokens.len(),
{
    if tokens.len() > 0 {
        lemma_token_names_of(tokens.drop_last(), names.drop_last());
        assert(tokens.last().name == names[tokens.len() - 1]);
    }
}

/// Robot 0's start event puts exactly one token per configured flavour
/// name in circulation — and by `lemma_ring_names_preserved` every later
/// delivery keeps that multiset: the ring always carries the configured
/// flavour set.
pub proof fn lemma_initial_token_names(pre: RobotV, post: RobotV, out: Seq<RobotAction>)
    requires
        start_step(pre, post, out),
        pre.id == 0,
    ensures
        token_names(forwarded_tokens(out)) =~= names_of(pre.flavours),
{
    lemma_forwarded_names(out, pre.flavours);
    lemma_token_names_of(forwarded_tokens(out), pre.flavours);
}

/// Handling a token forwards exactly one token, of the same name, never
/// carrying more than came in.  A robot holds nothing back: the ring's
/// tokens stay in circulation.
pub proof fn lemma_token_conservation(
    pre: RobotV,
    post: RobotV,
    f: FlavourV,
    out: Seq<RobotAction>,
)
    requires
        flavour_step(pre, post, f, out),
    ensures
        forwarded_tokens(out).len() == 1,
        forwarded_tokens(out)[0].name == f.name,
        0 <= forwarded_tokens(out)[0].amount <= f.amount,
{
    reveal_with_fuel(forwarded_tokens, 4);
    if out.len() == 1 {
        assert(out.drop_last().len() == 0);
        assert(forwarded_tokens(out) =~= seq![out[0]->Forward_0@]);
    } else if out.len() == 2 {
        assert(out.drop_last().drop_last().len() == 0);
        assert(out.drop_last().len() == 1);
        assert(forwarded_tokens(out) =~= seq![out[1]->Forward_0@]);
    } else {
        assert(out.len() == 3);
        assert(forwarded_tokens(out) =~= seq![out[2]->Forward_0@]);
    }
}

/// Delivering one in-flight token to a robot leaves the multiset of token
/// names on the ring unchanged: the configured flavour set keeps
/// circulating, one token per name.
pub proof fn lemma_ring_names_preserved(
    pre: RobotV,
    post: RobotV,
    f: FlavourV,
    out: Seq<RobotAction>,
    wire: Multiset<Seq<char>>,
)
    requires
        flavour_step(pre, post, f, out),
        wire.count(f.name) > 0,
    ensures
        wire.remove(f.name).add(token_names(forwarded_tokens(out))) =~= wire,
{
    lemma_token_conservation(pre, post, f, out);
    reveal_with_fuel(token_names, 2);
    let toks = forwarded_tokens(out);
    assert(toks.drop_last().len() == 0);
    assert(toks.last().name == f.name);
    assert(token_names(toks) =~= Multiset::<Seq<char>>::empty().insert(f.name));
}

} // verus!
