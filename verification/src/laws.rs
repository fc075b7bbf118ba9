//! Laws of matrix processing, proved once and for all kernels.

use vstd::prelude::*;

use crate::mixer::Link;
use crate::model::link_applies;
use crate::model::links_apply;
use crate::model::links_chain;
use crate::model::mono_from_mono;
use crate::model::BufView;
use crate::model::MixOp;

verus! {

/// An inactive or muted link contributes nothing to its output, whatever
/// its gain and pan: a matrix row relates the same pre and post buffer
/// states as the row with that link (and its input) removed.
pub proof fn lemma_suppressed_link_no_contribution<K: Fn(MixOp) -> u32>(
    kernel: K,
    pre: BufView,
    ins: Seq<BufView>,
    links: Seq<Link>,
    post: BufView,
    j: int,
)
    requires
        ins.len() == links.len(),
        0 <= j < links.len(),
        !links[j].active || links[j].property.mute,
    ensures
        links_apply(kernel, pre, ins, links, post) <==> links_apply(
            kernel,
            pre,
            ins.remove(j),
            links.remove(j),
            post,
        ),
{
    ins.remove_ensures(j);
    links.remove_ensures(j);
    if links_apply(kernel, pre, ins, links, post) {
        let states = choose|s: Seq<BufView>|
            #[trigger] links_chain(kernel, s, ins, links) && s.first() == pre && s.last() == post;
        assert(link_applies(kernel, states[j], ins[j], links[j], states[j + 1]));
        assert(states[j + 1] == states[j]);
        let states2 = states.remove(j + 1);
        states.remove_ensures(j + 1);
        assert forall|i: int| 0 <= i < links.remove(j).len() implies link_applies(
            kernel,
            states2[i],
            ins.remove(j)[i],
            links.remove(j)[i],
            #[trigger] states2[i + 1],
        ) by {
            if i < j {
                assert(states2[i] == states[i]);
                assert(states2[i + 1] == states[i + 1]);
                assert(link_applies(kernel, states[i], ins[i], links[i], states[i + 1]));
            } else {
                assert(states2[i] == states[i + 1]);
                assert(states2[i + 1] == states[i + 2]);
                assert(ins.remove(j)[i] == ins[i + 1]);
                assert(links.remove(j)[i] == links[i + 1]);
                assert(link_applies(kernel, states[i + 1], ins[i + 1], links[i + 1], states[i + 2]));
            }
        }
        assert(links_chain(kernel, states2, ins.remove(j), links.remove(j)));
        assert(states2.first() == pre);
        if j + 1 == states.len() - 1 {
            assert(states2.last() == states[j]);
        } else {
            assert(states2.last() == states[states.len() - 1]);
        }
        assert(states2.last() == post);
        assert(links_apply(kernel, pre, ins.remove(j), links.remove(j), post));
    }
    if links_apply(kernel, pre, ins.remove(j), links.remove(j), post) {
        let s2 = choose|s: Seq<BufView>|
            #[trigger] links_chain(kernel, s, ins.remove(j), links.remove(j)) && s.first() == pre
                && s.last() == post;
        let states = s2.insert(j + 1, s2[j]);
        s2.insert_ensures(j + 1, s2[j]);
        assert forall|i: int| 0 <= i < links.len() implies link_applies(
            kernel,
            states[i],
            ins[i],
            links[i],
            #[trigger] states[i + 1],
        ) by {
            if i < j {
                assert(states[i] == s2[i]);
                assert(states[i + 1] == s2[i + 1]);
                assert(link_applies(kernel, s2[i], ins.remove(j)[i], links.remove(j)[i], s2[i + 1]));
                assert(ins.remove(j)[i] == ins[i]);
                assert(links.remove(j)[i] == links[i]);
            } else if i == j {
                assert(states[i] == s2[j]);
                assert(states[i + 1] == s2[j]);
            } else {
                assert(states[i] == s2[i - 1]);
                assert(states[i + 1] == s2[i]);
                assert(link_applies(
                    kernel,
                    s2[i - 1],
                    ins.remove(j)[i - 1],
                    links.remove(j)[i - 1],
                    s2[i],
                ));
                assert(ins.remove(j)[i - 1] == ins[i]);
                assert(links.remove(j)[i - 1] == links[i]);
            }
        }
        assert(links_chain(kernel, states, ins, links));
        assert(states.first() == pre);
        if j + 1 == s2.len() {
            assert(states.last() == s2[j]);
            assert(s2[j] == s2.last());
        } else {
            assert(states.last() == s2[s2.len() - 1]);
        }
        assert(states.last() == post);
        assert(links_apply(kernel, pre, ins, links, post));
    }
}

/// A row whose links are all inactive or muted leaves its output buffer
/// exactly as it found it.
pub proof fn lemma_all_suppressed_row_is_identity<K: Fn(MixOp) -> u32>(
    kernel: K,
    pre: BufView,
    ins: Seq<BufView>,
    links: Seq<Link>,
    post: BufView,
)
    requires
        ins.len() == links.len(),
        links_apply(kernel, pre, ins, links, post),
        forall|j: int| 0 <= j < links.len() ==> !(#[trigger] links[j]).active || links[j].property.mute,
    ensures
        post == pre,
    decreases links.len(),
{
    if links.len() == 0 {
        let states = choose|s: Seq<BufView>|
            #[trigger] links_chain(kernel, s, ins, links) && s.first() == pre && s.last() == post;
        assert(states.len() == 1);
        assert(states.first() == states.last());
    } else {
        let j = links.len() - 1;
        lemma_suppressed_link_no_contribution(kernel, pre, ins, links, post, j);
        lemma_all_suppressed_row_is_identity(kernel, pre, ins.remove(j), links.remove(j), post);
    }
}

/// Two active, unmuted mono-to-mono links into one output both contribute:
/// the output queue passes through the first link's scaled accumulation and
/// the result of that through the second's, in order.
pub proof fn lemma_two_mono_links_accumulate<K: Fn(MixOp) -> u32>(
    kernel: K,
    pre: Seq<u32>,
    i1: Seq<u32>,
    i2: Seq<u32>,
    l1: Link,
    l2: Link,
    post: BufView,
)
    requires
        links_apply(
            kernel,
            BufView::Mono(pre),
            seq![BufView::Mono(i1), BufView::Mono(i2)],
            seq![l1, l2],
            post,
        ),
        l1.active && !l1.property.mute,
        l2.active && !l2.property.mute,
    ensures
        post matches BufView::Mono(q) && exists|mid: Seq<u32>|
            #[trigger] mono_from_mono(kernel, pre, i1, l1.property.gain, mid) && mono_from_mono(
                kernel,
                mid,
                i2,
                l2.property.gain,
                q,
            ),
{
    let ins = seq![BufView::Mono(i1), BufView::Mono(i2)];
    let links = seq![l1, l2];
    let states = choose|s: Seq<BufView>|
        #[trigger] links_chain(kernel, s, ins, links) && s.first() == BufView::Mono(pre)
            && s.last() == post;
    assert(links[0] == l1 && links[1] == l2);
    assert(ins[0] == BufView::Mono(i1) && ins[1] == BufView::Mono(i2));
    assert(link_applies(kernel, states[0], ins[0], links[0], states[1]));
    assert(link_applies(kernel, states[1], ins[1], links[1], states[2]));
    assert(states[0] == BufView::Mono(pre));
    assert(states[2] == post);
    let m1 = states[1]->Mono_0;
    assert(states[1] == BufView::Mono(m1));
    let q = post->Mono_0;
    assert(mono_from_mono(kernel, pre, i1, l1.property.gain, m1));
    assert(mono_from_mono(kernel, m1, i2, l2.property.gain, q));
}

} // verus!

