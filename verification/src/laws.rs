//! The laws of the traversal engine, stated over the spec-level interpreter
//! that every engine contract refers to: short-circuit of a child sequence,
//! when the finish hook runs, and how a replacement is applied.
use crate::ir::{ComponentV, ControlV};
use crate::visitor::{
    children_spec, consumed, finish_id, kids_spec, node_after, start_id, visit_spec, ActionV,
    Error, Visitor,
};
use vstd::prelude::*;

verus! {

/// The walk of a child sequence keeps its length: every position is either
/// untouched or rewritten in place.
pub proof fn lemma_children_len<V: Visitor>(v: V::V, cs: Seq<ControlV>, comp: ComponentV)
    ensures
        children_spec::<V>(v, cs, comp).1.len() == cs.len(),
    decreases cs.len(),
{
    if cs.len() > 0 {
        let (v1, c1, comp1, r1) = visit_spec::<V>(v, cs[0], comp);
        match r1 {
            Result::Err(_) => {},
            Result::Ok(ActionV::Stop) => {},
            Result::Ok(_) => {
                lemma_children_len::<V>(v1, cs.subrange(1, cs.len() as int), comp1);
            },
        }
    }
}

/// Walking a concatenation of children: when the walk of `a` completes
/// with continue, the walk of `a + b` is the walk of `a` followed by the
/// walk of `b` from the state the walk of `a` left behind.
pub proof fn lemma_children_append<V: Visitor>(
    v: V::V,
    a: Seq<ControlV>,
    b: Seq<ControlV>,
    comp: ComponentV,
)
    requires
        children_spec::<V>(v, a, comp).3 == Result::<ActionV, Error>::Ok(ActionV::Continue),
    ensures
        ({
            let (v1, a1, c1, r1) = children_spec::<V>(v, a, comp);
            let (v2, b2, c2, r2) = children_spec::<V>(v1, b, c1);
            children_spec::<V>(v, a + b, comp) == (v2, a1 + b2, c2, r2)
        }),
    decreases a.len(),
{
    let (v1, a1, c1, r1) = children_spec::<V>(v, a, comp);
    let (v2, b2, c2, r2) = children_spec::<V>(v1, b, c1);
    if a.len() == 0 {
        assert(a + b =~= b);
        assert(a1 + b2 =~= b2);
    } else {
        let (vh, ch, comph, rh) = visit_spec::<V>(v, a[0], comp);
        let rest_a = a.subrange(1, a.len() as int);
        assert((a + b).len() > 0);
        assert((a + b)[0] == a[0]);
        assert((a + b).subrange(1, (a + b).len() as int) =~= rest_a + b);
        lemma_children_append::<V>(vh, rest_a, b, comph);
        let (vr, ar, cr, rr) = children_spec::<V>(vh, rest_a, comph);
        assert(a1 =~= seq![ch] + ar);
        assert((seq![ch] + ar) + b2 =~= seq![ch] + (ar + b2));
    }
}

/// Short-circuit of a child sequence: if the walk of the first `k`
/// children completes with continue and child `k` then yields stop, no
/// hook runs for any child after `k` — the sequence's outcome is stop, the
/// visitor and the component stand exactly as child `k` left them, and the
/// children after `k` are untouched.
pub proof fn lemma_seq_child_stop<V: Visitor>(v: V::V, cs: Seq<ControlV>, comp: ComponentV, k: int)
    requires
        0 <= k < cs.len(),
        children_spec::<V>(v, cs.subrange(0, k), comp).3 == Result::<ActionV, Error>::Ok(
            ActionV::Continue,
        ),
        ({
            let (vk, pk, ck, rk) = children_spec::<V>(v, cs.subrange(0, k), comp);
            visit_spec::<V>(vk, cs[k], ck).3 == Result::<ActionV, Error>::Ok(ActionV::Stop)
        }),
    ensures
        ({
            let (vk, pk, ck, rk) = children_spec::<V>(v, cs.subrange(0, k), comp);
            let (vk2, ck2, compk2, rk2) = visit_spec::<V>(vk, cs[k], ck);
            children_spec::<V>(v, cs, comp) == (
                vk2,
                pk + seq![ck2] + cs.subrange(k + 1, cs.len() as int),
                compk2,
                Result::<ActionV, Error>::Ok(ActionV::Stop),
            )
        }),
{
    let prefix = cs.subrange(0, k);
    let suffix = cs.subrange(k, cs.len() as int);
    let (vk, pk, ck, rk) = children_spec::<V>(v, prefix, comp);
    let (vk2, ck2, compk2, rk2) = visit_spec::<V>(vk, cs[k], ck);
    assert(cs =~= prefix + suffix);
    lemma_children_append::<V>(v, prefix, suffix, comp);
    assert(suffix.len() > 0);
    assert(suffix[0] == cs[k]);
    lemma_children_len::<V>(v, prefix, comp);
    assert(pk + suffix.update(0, ck2) =~= (pk + seq![ck2]) + cs.subrange(k + 1, cs.len() as int));
}

/// The finish hook of a composite node runs exactly when the start hook
/// and the full recursive walk of the children both ended in continue.
/// Any other outcome reaches the node's conclusion without the finish
/// hook, the visitor and the component standing as the last step left
/// them; a stop or an error in either phase surfaces unchanged.
pub proof fn lemma_finish_iff_continue<V: Visitor>(v: V::V, c: ControlV, comp: ComponentV)
    ensures
        ({
            let (v1, comp1, r1) = V::on_hook(v, start_id(c), c, comp);
            r1 is Err ==> visit_spec::<V>(v, c, comp) == (v1, c, comp1, r1)
        }),
        ({
            let (v1, comp1, r1) = V::on_hook(v, start_id(c), c, comp);
            (r1 is Ok && !(r1->Ok_0 is Continue)) ==> visit_spec::<V>(v, c, comp) == (
                v1,
                node_after(c, r1->Ok_0),
                comp1,
                Result::<ActionV, Error>::Ok(consumed(r1->Ok_0)),
            )
        }),
        ({
            let (v1, comp1, r1) = V::on_hook(v, start_id(c), c, comp);
            let (v2, c2, comp2, r2) = kids_spec::<V>(v1, c, comp1);
            (r1 == Result::<ActionV, Error>::Ok(ActionV::Continue) && r2 is Err)
                ==> visit_spec::<V>(v, c, comp) == (v2, c2, comp2, r2)
        }),
        ({
            let (v1, comp1, r1) = V::on_hook(v, start_id(c), c, comp);
            let (v2, c2, comp2, r2) = kids_spec::<V>(v1, c, comp1);
            (r1 == Result::<ActionV, Error>::Ok(ActionV::Continue) && r2 is Ok && !(r2->Ok_0
                is Continue)) ==> visit_spec::<V>(v, c, comp) == (
                v2,
                node_after(c2, r2->Ok_0),
                comp2,
                Result::<ActionV, Error>::Ok(consumed(r2->Ok_0)),
            )
        }),
        ({
            let (v1, comp1, r1) = V::on_hook(v, start_id(c), c, comp);
            let (v2, c2, comp2, r2) = kids_spec::<V>(v1, c, comp1);
            let (v3, comp3, r3) = V::on_hook(v2, finish_id(c), c2, comp2);
            (r1 == Result::<ActionV, Error>::Ok(ActionV::Continue) && r2 == Result::<
                ActionV,
                Error,
            >::Ok(ActionV::Continue)) ==> visit_spec::<V>(v, c, comp) == (match r3 {
                Result::Err(e) => (v3, c2, comp3, Result::<ActionV, Error>::Err(e)),
                Result::Ok(a3) => (v3, node_after(c2, a3), comp3, Result::<ActionV, Error>::Ok(
                    consumed(a3),
                )),
            })
        }),
{
}

/// A replacement from a start hook is applied at the node where it occurs
/// and consumed there: the walk of this node ends at once, the replacement
/// stands in the node's place, and continue — never replace — is what the
/// parent observes.
pub proof fn lemma_replace_consumed<V: Visitor>(
    v: V::V,
    c: ControlV,
    comp: ComponentV,
    cn: ControlV,
)
    requires
        V::on_hook(v, start_id(c), c, comp).2 == Result::<ActionV, Error>::Ok(ActionV::Change(cn)),
    ensures
        ({
            let (v1, comp1, r1) = V::on_hook(v, start_id(c), c, comp);
            visit_spec::<V>(v, c, comp) == (v1, cn, comp1, Result::<ActionV, Error>::Ok(
                ActionV::Continue,
            ))
        }),
{
}

/// A child's rewrite lands exactly at its own position in the parent's
/// child sequence: when the walk of the first `k` children completes with
/// continue and child `k`'s walk ends in continue with rewritten node
/// `ck2`, the sequence walk puts `ck2` at position `k`, keeps what the
/// earlier siblings' own walks produced, and walks the later siblings from
/// the state child `k` left behind.
pub proof fn lemma_child_rewrites_own_position<V: Visitor>(
    v: V::V,
    cs: Seq<ControlV>,
    comp: ComponentV,
    k: int,
)
    requires
        0 <= k < cs.len(),
        children_spec::<V>(v, cs.subrange(0, k), comp).3 == Result::<ActionV, Error>::Ok(
            ActionV::Continue,
        ),
        ({
            let (vk, pk, ck, rk) = children_spec::<V>(v, cs.subrange(0, k), comp);
            visit_spec::<V>(vk, cs[k], ck).3 == Result::<ActionV, Error>::Ok(ActionV::Continue)
        }),
    ensures
        ({
            let (vk, pk, ck, rk) = children_spec::<V>(v, cs.subrange(0, k), comp);
            let (vk2, ck2, compk2, rk2) = visit_spec::<V>(vk, cs[k], ck);
            let (vr, rest, compr, rr) = children_spec::<V>(
                vk2,
                cs.subrange(k + 1, cs.len() as int),
                compk2,
            );
            children_spec::<V>(v, cs, comp) == (vr, pk + seq![ck2] + rest, compr, rr)
        }),
{
    let prefix = cs.subrange(0, k);
    let suffix = cs.subrange(k, cs.len() as int);
    let (vk, pk, ck, rk) = children_spec::<V>(v, prefix, comp);
    let (vk2, ck2, compk2, rk2) = visit_spec::<V>(vk, cs[k], ck);
    assert(cs =~= prefix + suffix);
    lemma_children_append::<V>(v, prefix, suffix, comp);
    assert(suffix.len() > 0);
    assert(suffix[0] == cs[k]);
    assert(suffix.subrange(1, suffix.len() as int) =~= cs.subrange(k + 1, cs.len() as int));
    let (vr, rest, compr, rr) = children_spec::<V>(
        vk2,
        cs.subrange(k + 1, cs.len() as int),
        compk2,
    );
    assert(pk + (seq![ck2] + rest) =~= (pk + seq![ck2]) + rest);
}

} // verus!
