//! The relay's guarantees, stated and proved over the same relations the
//! executable functions' contracts use.

use vstd::prelude::*;

use crate::message::{stamped, MessageView};
use crate::registry::{
    poll_post, register_post, route_post, unregister_post, OutputEvent, Registry,
};

verus! {

/// Law: if A registers, then B registers (A and B distinct), and a message
/// addressed to B is routed, it is delivered, B's queue holds exactly that
/// message, and B's output adapter yields it.
pub proof fn law_delivery(
    r0: Registry,
    r1: Registry,
    r2: Registry,
    r3: Registry,
    r4: Registry,
    a: Seq<char>,
    b: Seq<char>,
    sa: u64,
    sb: u64,
    m: MessageView,
    deliv: bool,
    ev: OutputEvent,
)
    requires
        a != b,
        m.to == b,
        register_post(r0, r1, a, sa),
        register_post(r1, r2, b, sb),
        route_post(r2, r3, m, deliv),
        poll_post(r3, r4, b, sb, ev),
    ensures
        deliv,
        r3.outbox_of(b) == seq![m],
        ev matches OutputEvent::Message(out) && out@ == m,
{
    assert(r2.outbox_of(b) == Seq::<MessageView>::empty());
    assert(r3.outbox_of(b) =~= seq![m]);
}

/// Law: after a session's registration is removed, its identity resolves to
/// nothing; a later registration under the same identity is reachable again.
pub proof fn law_unregister_then_reregister(
    r0: Registry,
    r1: Registry,
    r2: Registry,
    a: Seq<char>,
    s2: u64,
)
    requires
        unregister_post(r0, r1, a),
        register_post(r1, r2, a, s2),
    ensures
        !r1.has(a),
        r2.has(a),
        r2.sid_of(a) == s2,
{
}

/// Law (last writer wins): when two sessions register under the same identity
/// in turn, a message routed afterwards lands in the newest session's queue
/// alone, and the superseded session's output adapter sees its stream closed.
pub proof fn law_last_writer_wins(
    r0: Registry,
    r1: Registry,
    r2: Registry,
    r3: Registry,
    r4: Registry,
    a: Seq<char>,
    s1: u64,
    s2: u64,
    m: MessageView,
    deliv: bool,
    ev: OutputEvent,
)
    requires
        m.to == a,
        register_post(r0, r1, a, s1),
        register_post(r1, r2, a, s2),
        route_post(r2, r3, m, deliv),
        poll_post(r3, r4, a, s1, ev),
    ensures
        deliv,
        s2 != s1,
        r3.sid_of(a) == s2,
        r3.outbox_of(a) == seq![m],
        ev is Closed,
{
    assert(r3.outbox_of(a) =~= seq![m]);
}

/// Timestamps of a queue, oldest first, never decrease.
pub open spec fn timestamps_sorted(q: Seq<MessageView>) -> bool {
    forall|i: int, j: int|
        0 <= i <= j < q.len() ==> q[i].timestamp <= q[j].timestamp
}

/// Law: a stream-routed message carries the server receive time it was
/// stamped with, so as long as the server clock does not step backwards
/// between deliveries to a queue, that queue's timestamps stay non-decreasing.
pub proof fn law_stream_timestamp_step(pre: Registry, post: Registry, m: MessageView, t: int)
    requires
        route_post(pre, post, stamped(m, t), true),
        timestamps_sorted(pre.outbox_of(m.to)),
        forall|i: int|
            0 <= i < pre.outbox_of(m.to).len() ==> pre.outbox_of(m.to)[i].timestamp <= t,
    ensures
        post.outbox_of(m.to).last().timestamp == t,
        timestamps_sorted(post.outbox_of(m.to)),
{
    let q0 = pre.outbox_of(m.to);
    let q1 = post.outbox_of(m.to);
    assert(q1 == q0.push(stamped(m, t)));
    assert forall|i: int, j: int| 0 <= i <= j < q1.len() implies q1[i].timestamp
        <= q1[j].timestamp by {
        if j < q0.len() {
            assert(q0[i].timestamp <= q0[j].timestamp);
        } else {
            assert(q1[j] == stamped(m, t));
        }
    }
}

/// A run of stream deliveries to one target: step by step, the next message
/// is stamped with the next server time and delivered.
pub open spec fn routed_chain(
    regs: Seq<Registry>,
    msgs: Seq<MessageView>,
    times: Seq<int>,
    to: Seq<char>,
) -> bool {
    &&& regs.len() == msgs.len() + 1
    &&& times.len() == msgs.len()
    &&& forall|i: int| 0 <= i < msgs.len() ==> (#[trigger] msgs[i]).to == to
    &&& forall|i: int|
        0 <= i < msgs.len() ==> route_post(
            regs[i],
            regs[i + 1],
            stamped(#[trigger] msgs[i], times[i]),
            true,
        )
}

/// Law: a freshly registered session that receives a run of stream deliveries
/// ends with exactly those messages, in order, each carrying the server time
/// it was routed at; with a server clock that never steps backwards over the
/// run, the whole output's timestamps are non-decreasing.
pub proof fn law_stream_history(
    regs: Seq<Registry>,
    msgs: Seq<MessageView>,
    times: Seq<int>,
    to: Seq<char>,
)
    requires
        routed_chain(regs, msgs, times, to),
        forall|i: int, j: int| 0 <= i <= j < times.len() ==> times[i] <= times[j],
        regs[0].outbox_of(to) == Seq::<MessageView>::empty(),
    ensures
        regs.last().outbox_of(to) == Seq::new(
            msgs.len(),
            |i: int| stamped(msgs[i], times[i]),
        ),
        timestamps_sorted(regs.last().outbox_of(to)),
    decreases msgs.len(),
{
    let full = Seq::new(msgs.len(), |i: int| stamped(msgs[i], times[i]));
    if msgs.len() == 0 {
        assert(regs.last().outbox_of(to) =~= full);
    } else {
        let n = msgs.len() as int;
        let rp = regs.drop_last();
        let mp = msgs.drop_last();
        let tp = times.drop_last();
        assert(routed_chain(rp, mp, tp, to)) by {
            assert forall|i: int| 0 <= i < mp.len() implies (#[trigger] mp[i]).to == to
                && route_post(rp[i], rp[i + 1], stamped(mp[i], tp[i]), true) by {
                assert(msgs[i].to == to);
                assert(route_post(regs[i], regs[i + 1], stamped(msgs[i], times[i]), true));
            }
        }
        law_stream_history(rp, mp, tp, to);
        assert(rp.last() == regs[n - 1]);
        assert(route_post(regs[n - 1], regs[n], stamped(msgs[n - 1], times[n - 1]), true));
        assert(regs.last().outbox_of(to) =~= full);
    }
    let q = regs.last().outbox_of(to);
    assert forall|i: int, j: int| 0 <= i <= j < q.len() implies q[i].timestamp
        <= q[j].timestamp by {
        assert(q[i] == stamped(msgs[i], times[i]));
        assert(q[j] == stamped(msgs[j], times[j]));
    }
}

} // verus!
