//! The mathematical model of matrix processing.
//!
//! The engine asks its caller for every scalar amplitude computation by
//! handing a [`MixOp`] to a kernel function; everything else — which links
//! fire, which combination rule applies, which samples are read and written,
//! and in what order the results land — is decided here. The relations in
//! this module say, for a given kernel, exactly which buffer states may
//! result from applying a link, and from applying a whole matrix row.

use vstd::prelude::*;

use crate::bits::val_eq;
use crate::bits::val_lt;
use crate::bits::PAN_CENTER_BITS;
use crate::mixer::Link;

verus! {

/// The smaller of two integers.
pub open spec fn min2(a: int, b: int) -> int {
    if a < b {
        a
    } else {
        b
    }
}

/// One scalar amplitude computation requested from the mixing kernel.
///
/// Samples, gain and pan are bit patterns of single-precision amplitudes.
/// The pan angle below means the pan value times a quarter turn.
pub enum MixOp {
    /// `out` plus `gain` scaled by the pan moved to the bipolar range
    /// (twice the pan, less one): a silent route into a mono output.
    BipolarOffset { out: u32, gain: u32, pan: u32 },
    /// `out` plus `input` scaled by `gain`: plain accumulation.
    ScaledAdd { out: u32, input: u32, gain: u32 },
    /// `out` plus the rotation `left` times the cosine of the pan angle
    /// plus `right` times its sine, all scaled by `gain`: a stereo input
    /// folded down into a mono output.
    RotatedDownmix { out: u32, left: u32, right: u32, gain: u32, pan: u32 },
    /// `out` plus one trigonometric leg of the pan angle (cosine, or sine
    /// when `sine` is set) scaled by the gain moved to the bipolar range
    /// (twice the gain, less one): a silent route into one stereo leg.
    PannedBipolar { out: u32, gain: u32, pan: u32, sine: bool },
    /// `out` plus `input` times one trigonometric leg of the pan angle
    /// (cosine, or sine when `sine` is set), scaled by `gain`: equal-power
    /// panning of a mono input into one stereo leg.
    PannedAdd { out: u32, input: u32, gain: u32, pan: u32, sine: bool },
    /// `main` plus `other` times (pan times a half turn), all scaled by
    /// `gain`: the stereo separation rule. The result replaces the output
    /// sample instead of accumulating into it.
    Separate { main: u32, other: u32, gain: u32, pan: u32 },
    /// `main` times the cosine of (three halves less the pan) times a
    /// quarter turn, plus `other` times the sine of (the pan less one half)
    /// times a quarter turn, all scaled by `gain`: the stereo merging rule.
    /// The result replaces the output sample instead of accumulating.
    Merge { main: u32, other: u32, gain: u32, pan: u32 },
}

/// What a buffer holds: nothing, one channel, or two.
pub ghost enum BufView {
    Absent,
    Mono(Seq<u32>),
    Stereo { l: Seq<u32>, r: Seq<u32> },
}

/// A silent route accumulated into a mono output: every output sample takes
/// a bipolar-offset step.
pub open spec fn mono_from_silence<K: Fn(MixOp) -> u32>(
    kernel: K,
    o0: Seq<u32>,
    gain: u32,
    pan: u32,
    o2: Seq<u32>,
) -> bool {
    &&& o2.len() == o0.len()
    &&& forall|j: int|
        0 <= j < o0.len() ==> call_ensures(
            kernel,
            (MixOp::BipolarOffset { out: o0[j], gain, pan },),
            #[trigger] o2[j],
        )
}

/// A mono input accumulated into a mono output, position by position over
/// the shorter of the two; the tail is untouched.
pub open spec fn mono_from_mono<K: Fn(MixOp) -> u32>(
    kernel: K,
    o0: Seq<u32>,
    i: Seq<u32>,
    gain: u32,
    o2: Seq<u32>,
) -> bool {
    let n = min2(o0.len() as int, i.len() as int);
    &&& o2.len() == o0.len()
    &&& forall|j: int|
        0 <= j < n ==> call_ensures(
            kernel,
            (MixOp::ScaledAdd { out: o0[j], input: i[j], gain },),
            #[trigger] o2[j],
        )
    &&& forall|j: int| n <= j < o0.len() ==> o2[j] == o0[j]
}

/// A stereo input folded down into a mono output, position by position over
/// the shortest queue; the tail is untouched.
pub open spec fn mono_from_stereo<K: Fn(MixOp) -> u32>(
    kernel: K,
    o0: Seq<u32>,
    li: Seq<u32>,
    ri: Seq<u32>,
    gain: u32,
    pan: u32,
    o2: Seq<u32>,
) -> bool {
    let n = min2(o0.len() as int, min2(li.len() as int, ri.len() as int));
    &&& o2.len() == o0.len()
    &&& forall|j: int|
        0 <= j < n ==> call_ensures(
            kernel,
            (MixOp::RotatedDownmix { out: o0[j], left: li[j], right: ri[j], gain, pan },),
            #[trigger] o2[j],
        )
    &&& forall|j: int| n <= j < o0.len() ==> o2[j] == o0[j]
}

/// A silent route accumulated into a stereo output: each leg takes a panned
/// bipolar step over the shorter leg; tails are untouched.
pub open spec fn stereo_from_silence<K: Fn(MixOp) -> u32>(
    kernel: K,
    lo0: Seq<u32>,
    ro0: Seq<u32>,
    gain: u32,
    pan: u32,
    lo2: Seq<u32>,
    ro2: Seq<u32>,
) -> bool {
    let n = min2(lo0.len() as int, ro0.len() as int);
    &&& lo2.len() == lo0.len()
    &&& ro2.len() == ro0.len()
    &&& forall|j: int|
        0 <= j < n ==> call_ensures(
            kernel,
            (MixOp::PannedBipolar { out: lo0[j], gain, pan, sine: false },),
            #[trigger] lo2[j],
        )
    &&& forall|j: int|
        0 <= j < n ==> call_ensures(
            kernel,
            (MixOp::PannedBipolar { out: ro0[j], gain, pan, sine: true },),
            #[trigger] ro2[j],
        )
    &&& forall|j: int| n <= j < lo0.len() ==> lo2[j] == lo0[j]
    &&& forall|j: int| n <= j < ro0.len() ==> ro2[j] == ro0[j]
}

/// A mono input spread into a stereo output with equal-power panning, over
/// the shortest queue; tails are untouched.
pub open spec fn stereo_from_mono<K: Fn(MixOp) -> u32>(
    kernel: K,
    lo0: Seq<u32>,
    ro0: Seq<u32>,
    i: Seq<u32>,
    gain: u32,
    pan: u32,
    lo2: Seq<u32>,
    ro2: Seq<u32>,
) -> bool {
    let n = min2(min2(lo0.len() as int, ro0.len() as int), i.len() as int);
    &&& lo2.len() == lo0.len()
    &&& ro2.len() == ro0.len()
    &&& forall|j: int|
        0 <= j < n ==> call_ensures(
            kernel,
            (MixOp::PannedAdd { out: lo0[j], input: i[j], gain, pan, sine: false },),
            #[trigger] lo2[j],
        )
    &&& forall|j: int|
        0 <= j < n ==> call_ensures(
            kernel,
            (MixOp::PannedAdd { out: ro0[j], input: i[j], gain, pan, sine: true },),
            #[trigger] ro2[j],
        )
    &&& forall|j: int| n <= j < lo0.len() ==> lo2[j] == lo0[j]
    &&& forall|j: int| n <= j < ro0.len() ==> ro2[j] == ro0[j]
}

/// One stereo frame combined into a stereo output. The branch is decided by
/// the sample values and the pan position: unequal samples with the pan left
/// of center separate (replacing the outputs), unequal samples with the pan
/// right of center merge (replacing the outputs), and otherwise both legs
/// accumulate plainly.
pub open spec fn stereo_sample_ok<K: Fn(MixOp) -> u32>(
    kernel: K,
    lo0: Seq<u32>,
    ro0: Seq<u32>,
    li: Seq<u32>,
    ri: Seq<u32>,
    gain: u32,
    pan: u32,
    j: int,
    lov: u32,
    rov: u32,
) -> bool {
    if !val_eq(li[j], ri[j]) && val_lt(pan, PAN_CENTER_BITS) {
        &&& call_ensures(kernel, (MixOp::Separate { main: li[j], other: ri[j], gain, pan },), lov)
        &&& call_ensures(kernel, (MixOp::Separate { main: ri[j], other: li[j], gain, pan },), rov)
    } else if !val_eq(li[j], ri[j]) && val_lt(PAN_CENTER_BITS, pan) {
        &&& call_ensures(kernel, (MixOp::Merge { main: li[j], other: ri[j], gain, pan },), lov)
        &&& call_ensures(kernel, (MixOp::Merge { main: ri[j], other: li[j], gain, pan },), rov)
    } else {
        &&& call_ensures(kernel, (MixOp::ScaledAdd { out: lo0[j], input: li[j], gain },), lov)
        &&& call_ensures(kernel, (MixOp::ScaledAdd { out: ro0[j], input: ri[j], gain },), rov)
    }
}

/// A stereo input combined into a stereo output, frame by frame over the
/// shortest queue; tails are untouched.
pub open spec fn stereo_from_stereo<K: Fn(MixOp) -> u32>(
    kernel: K,
    lo0: Seq<u32>,
    ro0: Seq<u32>,
    li: Seq<u32>,
    ri: Seq<u32>,
    gain: u32,
    pan: u32,
    lo2: Seq<u32>,
    ro2: Seq<u32>,
) -> bool {
    let n = min2(min2(lo0.len() as int, ro0.len() as int), min2(li.len() as int, ri.len() as int));
    &&& lo2.len() == lo0.len()
    &&& ro2.len() == ro0.len()
    &&& forall|j: int|
        0 <= j < n ==> stereo_sample_ok(
            kernel,
            lo0,
            ro0,
            li,
            ri,
            gain,
            pan,
            j,
            #[trigger] lo2[j],
            #[trigger] ro2[j],
        )
    &&& forall|j: int| n <= j < lo0.len() ==> lo2[j] == lo0[j]
    &&& forall|j: int| n <= j < ro0.len() ==> ro2[j] == ro0[j]
}

/// The combination table: what one firing link with the given gain and pan
/// may do to an output buffer, by the arities of output and input.
pub open spec fn rule_applies<K: Fn(MixOp) -> u32>(
    kernel: K,
    pre: BufView,
    inp: BufView,
    gain: u32,
    pan: u32,
    post: BufView,
) -> bool {
    match (pre, inp) {
        (BufView::Absent, _) => post == pre,
        (BufView::Mono(o0), BufView::Absent) => post matches BufView::Mono(o2)
            && mono_from_silence(kernel, o0, gain, pan, o2),
        (BufView::Mono(o0), BufView::Mono(i)) => post matches BufView::Mono(o2)
            && mono_from_mono(kernel, o0, i, gain, o2),
        (BufView::Mono(o0), BufView::Stereo { l, r }) => post matches BufView::Mono(o2)
            && mono_from_stereo(kernel, o0, l, r, gain, pan, o2),
        (BufView::Stereo { l: lo0, r: ro0 }, BufView::Absent) => post matches BufView::Stereo {
            l: lo2,
            r: ro2,
        } && stereo_from_silence(kernel, lo0, ro0, gain, pan, lo2, ro2),
        (BufView::Stereo { l: lo0, r: ro0 }, BufView::Mono(i)) => post matches BufView::Stereo {
            l: lo2,
            r: ro2,
        } && stereo_from_mono(kernel, lo0, ro0, i, gain, pan, lo2, ro2),
        (BufView::Stereo { l: lo0, r: ro0 }, BufView::Stereo { l: li, r: ri }) => post matches BufView::Stereo {
            l: lo2,
            r: ro2,
        } && stereo_from_stereo(kernel, lo0, ro0, li, ri, gain, pan, lo2, ro2),
    }
}

/// What one link may do to an output buffer: an inactive or muted link
/// leaves it untouched, and a firing link applies the combination table.
pub open spec fn link_applies<K: Fn(MixOp) -> u32>(
    kernel: K,
    pre: BufView,
    inp: BufView,
    link: Link,
    post: BufView,
) -> bool {
    if !link.active || link.property.mute {
        post == pre
    } else {
        rule_applies(kernel, pre, inp, link.property.gain, link.property.pan, post)
    }
}

/// The buffer states a row pass runs through: `states[i]` is the output
/// buffer before link `i` is considered, and each link relates one state to
/// the next.
pub open spec fn links_chain<K: Fn(MixOp) -> u32>(
    kernel: K,
    states: Seq<BufView>,
    ins: Seq<BufView>,
    links: Seq<Link>,
) -> bool {
    &&& states.len() == links.len() + 1
    &&& forall|i: int|
        0 <= i < links.len() ==> link_applies(
            kernel,
            states[i],
            ins[i],
            #[trigger] links[i],
            states[i + 1],
        )
}

/// What one matrix row may do to its output buffer: the links are applied
/// in order, each to the state the previous ones left behind.
pub open spec fn links_apply<K: Fn(MixOp) -> u32>(
    kernel: K,
    pre: BufView,
    ins: Seq<BufView>,
    links: Seq<Link>,
    post: BufView,
) -> bool {
    exists|states: Seq<BufView>|
        #[trigger] links_chain(kernel, states, ins, links) && states.first() == pre
            && states.last() == post
}

/// Extending a row by one link extends the chain of applications by one.
pub proof fn lemma_links_apply_step<K: Fn(MixOp) -> u32>(
    kernel: K,
    pre: BufView,
    ins: Seq<BufView>,
    links: Seq<Link>,
    mid: BufView,
    iv: BufView,
    link: Link,
    post: BufView,
)
    requires
        ins.len() == links.len(),
        links_apply(kernel, pre, ins, links, mid),
        link_applies(kernel, mid, iv, link, post),
    ensures
        links_apply(kernel, pre, ins.push(iv), links.push(link), post),
{
    let states = choose|states: Seq<BufView>|
        #[trigger] links_chain(kernel, states, ins, links) && states.first() == pre
            && states.last() == mid;
    let states2 = states.push(post);
    assert forall|i: int| 0 <= i < links.push(link).len() implies link_applies(
        kernel,
        states2[i],
        ins.push(iv)[i],
        links.push(link)[i],
        #[trigger] states2[i + 1],
    ) by {
        if i < links.len() {
            assert(states2[i] == states[i] && states2[i + 1] == states[i + 1]);
            assert(ins.push(iv)[i] == ins[i] && links.push(link)[i] == links[i]);
            assert(link_applies(kernel, states[i], ins[i], links[i], states[i + 1]));
        } else {
            assert(i == links.len());
            assert(states2[i] == states[i] && states[i] == states.last());
            assert(states2[i + 1] == post);
            assert(ins.push(iv)[i] == iv && links.push(link)[i] == link);
        }
    }
    assert(links_chain(kernel, states2, ins.push(iv), links.push(link)));
    assert(states2.first() == pre && states2.last() == post);
}

/// An empty row relates a state only to itself.
pub proof fn lemma_links_apply_empty<K: Fn(MixOp) -> u32>(kernel: K, pre: BufView)
    ensures
        links_apply(kernel, pre, Seq::<BufView>::empty(), Seq::<Link>::empty(), pre),
{
    let states = seq![pre];
    assert(links_chain(kernel, states, Seq::<BufView>::empty(), Seq::<Link>::empty()));
    assert(states.first() == pre && states.last() == pre);
}

} // verus!
