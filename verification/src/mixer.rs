//! The mix matrix and its processor.
//!
//! A [`Mixer`] owns input and output buffer arrays and a flattened
//! input-by-output matrix of [`Link`]s, row-major by output: the link at
//! index `o * INPUTS + i` routes input `i` to output `o`.
//! [`process_matrix`] walks the matrix once per processing tick and
//! combines every active, unmuted input into its output according to the
//! channel-arity combination table, asking the kernel argument for each
//! scalar amplitude step.

use vstd::prelude::*;

use crate::bits::sample_eq;
use crate::bits::sample_lt;
use crate::bits::GAIN_UNITY_BITS;
use crate::bits::PAN_CENTER_BITS;
use crate::model::lemma_links_apply_step;
use crate::model::link_applies;
use crate::model::links_apply;
use crate::model::min2;
use crate::model::mono_from_mono;
use crate::model::mono_from_silence;
use crate::model::mono_from_stereo;
use crate::model::rule_applies;
use crate::model::stereo_from_mono;
use crate::model::stereo_from_silence;
use crate::model::stereo_from_stereo;
use crate::model::stereo_sample_ok;
use crate::model::BufView;

pub use crate::channel::Channel;
pub use crate::channel::BUFFER_SIZE;
pub use crate::model::MixOp;

verus! {

/// Number of input channel slots.
pub const INPUTS: usize = 4;

/// Number of output channel slots.
pub const OUTPUTS: usize = 8;

/// Mix settings of one link: gain and pan as sample bit patterns, and a
/// mute switch.
#[derive(Clone, Debug)]
pub struct MixProperty {
    pub gain: u32,
    pub pan: u32,
    pub mute: bool,
}

impl Default for MixProperty {
    /// Unity gain, centered pan, muted.
    fn default() -> (p: MixProperty)
        ensures
            p.gain == GAIN_UNITY_BITS,
            p.pan == PAN_CENTER_BITS,
            p.mute == true,
    {
        MixProperty { gain: GAIN_UNITY_BITS, pan: PAN_CENTER_BITS, mute: true }
    }
}

/// One routing edge from an input channel to an output channel.
#[derive(Clone, Debug)]
pub struct Link {
    pub active: bool,
    pub property: MixProperty,
}

impl Default for Link {
    /// Active, with default mix settings.
    fn default() -> (l: Link)
        ensures
            l.active == true,
            l.property.gain == GAIN_UNITY_BITS,
            l.property.pan == PAN_CENTER_BITS,
            l.property.mute == true,
    {
        Link { active: true, property: MixProperty::default() }
    }
}

/// A buffer slot: no channel, one mono channel, or a stereo channel pair.
#[derive(Debug)]
pub enum Buffer {
    Absent,
    Mono(Channel),
    Stereo { l: Channel, r: Channel },
}

impl View for Buffer {
    type V = BufView;

    open spec fn view(&self) -> BufView {
        match self {
            Buffer::Absent => BufView::Absent,
            Buffer::Mono(c) => BufView::Mono(c@),
            Buffer::Stereo { l, r } => BufView::Stereo { l: l@, r: r@ },
        }
    }
}

/// What clearing a buffer leaves behind: the same arity, all queues empty.
pub open spec fn cleared(b: BufView) -> BufView {
    match b {
        BufView::Absent => BufView::Absent,
        BufView::Mono(_) => BufView::Mono(Seq::<u32>::empty()),
        BufView::Stereo { .. } => BufView::Stereo {
            l: Seq::<u32>::empty(),
            r: Seq::<u32>::empty(),
        },
    }
}

impl Default for Buffer {
    /// A defaulted buffer holds one empty mono channel.
    fn default() -> (b: Buffer)
        ensures
            b@ == BufView::Mono(Seq::<u32>::empty()),
    {
        Buffer::Mono(Channel::new())
    }
}

impl Buffer {
    /// Empties every channel the buffer has, keeping its arity.
    pub fn clear(&mut self)
        ensures
            final(self)@ == cleared(old(self)@),
    {
        match self {
            Buffer::Absent => {},
            Buffer::Mono(c) => c.clear(),
            Buffer::Stereo { l, r } => {
                l.clear();
                r.clear();
            },
        }
    }
}

/// The views of a sequence of buffers.
pub open spec fn buffer_views(bufs: Seq<Buffer>) -> Seq<BufView> {
    bufs.map_values(|b: Buffer| b@)
}

/// The one structural failure of matrix processing.
#[derive(Debug, Clone, PartialEq, Eq)]
pub enum MatrixError {
    DimensionMismatch,
}

fn mix_mono_silence<K: Fn(MixOp) -> u32 + Copy>(o: &mut Channel, gain: u32, pan: u32, kernel: K)
    requires
        forall|op: MixOp| #[trigger] call_requires(kernel, (op,)),
    ensures
        mono_from_silence(kernel, old(o)@, gain, pan, final(o)@),
{
    let ghost o0 = o@;
    let n = o.len();
    let mut k: usize = 0;
    while k < n
        invariant
            n == o0.len(),
            k <= n,
            o@.len() == o0.len(),
            forall|op: MixOp| #[trigger] call_requires(kernel, (op,)),
            forall|j: int|
                0 <= j < k ==> call_ensures(
                    kernel,
                    (MixOp::BipolarOffset { out: o0[j], gain, pan },),
                    #[trigger] o@[j],
                ),
            forall|j: int| k <= j < n ==> o@[j] == o0[j],
        decreases n - k,
    {
        let cur = o.get(k);
        let nv = kernel(MixOp::BipolarOffset { out: cur, gain, pan });
        o.set(k, nv);
        k = k + 1;
    }
}

fn mix_mono_mono<K: Fn(MixOp) -> u32 + Copy>(o: &mut Channel, i: &Channel, gain: u32, kernel: K)
    requires
        forall|op: MixOp| #[trigger] call_requires(kernel, (op,)),
    ensures
        mono_from_mono(kernel, old(o)@, i@, gain, final(o)@),
{
    let ghost o0 = o@;
    let mut n = o.len();
    let m = i.len();
    if m < n {
        n = m;
    }
    let mut k: usize = 0;
    while k < n
        invariant
            n == min2(o0.len() as int, i@.len() as int),
            k <= n,
            o@.len() == o0.len(),
            forall|op: MixOp| #[trigger] call_requires(kernel, (op,)),
            forall|j: int|
                0 <= j < k ==> call_ensures(
                    kernel,
                    (MixOp::ScaledAdd { out: o0[j], input: i@[j], gain },),
                    #[trigger] o@[j],
                ),
            forall|j: int| k <= j < o0.len() ==> o@[j] == o0[j],
        decreases n - k,
    {
        let cur = o.get(k);
        let nv = kernel(MixOp::ScaledAdd { out: cur, input: i.get(k), gain });
        o.set(k, nv);
        k = k + 1;
    }
}

fn mix_mono_stereo<K: Fn(MixOp) -> u32 + Copy>(
    o: &mut Channel,
    li: &Channel,
    ri: &Channel,
    gain: u32,
    pan: u32,
    kernel: K,
)
    requires
        forall|op: MixOp| #[trigger] call_requires(kernel, (op,)),
    ensures
        mono_from_stereo(kernel, old(o)@, li@, ri@, gain, pan, final(o)@),
{
    let ghost o0 = o@;
    let mut n = o.len();
    let m = if li.len() < ri.len() {
        li.len()
    } else {
        ri.len()
    };
    if m < n {
        n = m;
    }
    let mut k: usize = 0;
    while k < n
        invariant
            n == min2(o0.len() as int, min2(li@.len() as int, ri@.len() as int)),
            k <= n,
            o@.len() == o0.len(),
            forall|op: MixOp| #[trigger] call_requires(kernel, (op,)),
            forall|j: int|
                0 <= j < k ==> call_ensures(
                    kernel,
                    (MixOp::RotatedDownmix {
                        out: o0[j],
                        left: li@[j],
                        right: ri@[j],
                        gain,
                        pan,
                    },),
                    #[trigger] o@[j],
                ),
            forall|j: int| k <= j < o0.len() ==> o@[j] == o0[j],
        decreases n - k,
    {
        let cur = o.get(k);
        let nv = kernel(
            MixOp::RotatedDownmix { out: cur, left: li.get(k), right: ri.get(k), gain, pan },
        );
        o.set(k, nv);
        k = k + 1;
    }
}

fn mix_stereo_silence<K: Fn(MixOp) -> u32 + Copy>(
    lo: &mut Channel,
    ro: &mut Channel,
    gain: u32,
    pan: u32,
    kernel: K,
)
    requires
        forall|op: MixOp| #[trigger] call_requires(kernel, (op,)),
    ensures
        stereo_from_silence(kernel, old(lo)@, old(ro)@, gain, pan, final(lo)@, final(ro)@),
{
    let ghost lo0 = lo@;
    let ghost ro0 = ro@;
    let mut n = lo.len();
    let m = ro.len();
    if m < n {
        n = m;
    }
    let mut k: usize = 0;
    while k < n
        invariant
            n == min2(lo0.len() as int, ro0.len() as int),
            k <= n,
            lo@.len() == lo0.len(),
            ro@.len() == ro0.len(),
            forall|op: MixOp| #[trigger] call_requires(kernel, (op,)),
            forall|j: int|
                0 <= j < k ==> call_ensures(
                    kernel,
                    (MixOp::PannedBipolar { out: lo0[j], gain, pan, sine: false },),
                    #[trigger] lo@[j],
                ),
            forall|j: int|
                0 <= j < k ==> call_ensures(
                    kernel,
                    (MixOp::PannedBipolar { out: ro0[j], gain, pan, sine: true },),
                    #[trigger] ro@[j],
                ),
            forall|j: int| k <= j < lo0.len() ==> lo@[j] == lo0[j],
            forall|j: int| k <= j < ro0.len() ==> ro@[j] == ro0[j],
        decreases n - k,
    {
        let nl = kernel(MixOp::PannedBipolar { out: lo.get(k), gain, pan, sine: false });
        lo.set(k, nl);
        let nr = kernel(MixOp::PannedBipolar { out: ro.get(k), gain, pan, sine: true });
        ro.set(k, nr);
        k = k + 1;
    }
}

fn mix_stereo_mono<K: Fn(MixOp) -> u32 + Copy>(
    lo: &mut Channel,
    ro: &mut Channel,
    i: &Channel,
    gain: u32,
    pan: u32,
    kernel: K,
)
    requires
        forall|op: MixOp| #[trigger] call_requires(kernel, (op,)),
    ensures
        stereo_from_mono(kernel, old(lo)@, old(ro)@, i@, gain, pan, final(lo)@, final(ro)@),
{
    let ghost lo0 = lo@;
    let ghost ro0 = ro@;
    let mut n = lo.len();
    let m = ro.len();
    if m < n {
        n = m;
    }
    let m2 = i.len();
    if m2 < n {
        n = m2;
    }
    let mut k: usize = 0;
    while k < n
        invariant
            n == min2(min2(lo0.len() as int, ro0.len() as int), i@.len() as int),
            k <= n,
            lo@.len() == lo0.len(),
            ro@.len() == ro0.len(),
            forall|op: MixOp| #[trigger] call_requires(kernel, (op,)),
            forall|j: int|
                0 <= j < k ==> call_ensures(
                    kernel,
                    (MixOp::PannedAdd { out: lo0[j], input: i@[j], gain, pan, sine: false },),
                    #[trigger] lo@[j],
                ),
            forall|j: int|
                0 <= j < k ==> call_ensures(
                    kernel,
                    (MixOp::PannedAdd { out: ro0[j], input: i@[j], gain, pan, sine: true },),
                    #[trigger] ro@[j],
                ),
            forall|j: int| k <= j < lo0.len() ==> lo@[j] == lo0[j],
            forall|j: int| k <= j < ro0.len() ==> ro@[j] == ro0[j],
        decreases n - k,
    {
        let inm = i.get(k);
        let nl = kernel(MixOp::PannedAdd { out: lo.get(k), input: inm, gain, pan, sine: false });
        lo.set(k, nl);
        let nr = kernel(MixOp::PannedAdd { out: ro.get(k), input: inm, gain, pan, sine: true });
        ro.set(k, nr);
        k = k + 1;
    }
}

fn mix_stereo_stereo<K: Fn(MixOp) -> u32 + Copy>(
    lo: &mut Channel,
    ro: &mut Channel,
    li: &Channel,
    ri: &Channel,
    gain: u32,
    pan: u32,
    kernel: K,
)
    requires
        forall|op: MixOp| #[trigger] call_requires(kernel, (op,)),
    ensures
        stereo_from_stereo(kernel, old(lo)@, old(ro)@, li@, ri@, gain, pan, final(lo)@, final(ro)@),
{
    let ghost lo0 = lo@;
    let ghost ro0 = ro@;
    let mut n = lo.len();
    let m = ro.len();
    if m < n {
        n = m;
    }
    let m2 = if li.len() < ri.len() {
        li.len()
    } else {
        ri.len()
    };
    if m2 < n {
        n = m2;
    }
    let pan_left = sample_lt(pan, PAN_CENTER_BITS);
    let pan_right = sample_lt(PAN_CENTER_BITS, pan);
    let mut k: usize = 0;
    while k < n
        invariant
            n == min2(
                min2(lo0.len() as int, ro0.len() as int),
                min2(li@.len() as int, ri@.len() as int),
            ),
            k <= n,
            lo@.len() == lo0.len(),
            ro@.len() == ro0.len(),
            pan_left == crate::bits::val_lt(pan, PAN_CENTER_BITS),
            pan_right == crate::bits::val_lt(PAN_CENTER_BITS, pan),
            forall|op: MixOp| #[trigger] call_requires(kernel, (op,)),
            forall|j: int|
                0 <= j < k ==> stereo_sample_ok(
                    kernel,
                    lo0,
                    ro0,
                    li@,
                    ri@,
                    gain,
                    pan,
                    j,
                    #[trigger] lo@[j],
                    #[trigger] ro@[j],
                ),
            forall|j: int| k <= j < lo0.len() ==> lo@[j] == lo0[j],
            forall|j: int| k <= j < ro0.len() ==> ro@[j] == ro0[j],
        decreases n - k,
    {
        let a = li.get(k);
        let b = ri.get(k);
        let equal = sample_eq(a, b);
        if !equal && pan_left {
            let nl = kernel(MixOp::Separate { main: a, other: b, gain, pan });
            let nr = kernel(MixOp::Separate { main: b, other: a, gain, pan });
            lo.set(k, nl);
            ro.set(k, nr);
        } else if !equal && pan_right {
            let nl = kernel(MixOp::Merge { main: a, other: b, gain, pan });
            let nr = kernel(MixOp::Merge { main: b, other: a, gain, pan });
            lo.set(k, nl);
            ro.set(k, nr);
        } else {
            let nl = kernel(MixOp::ScaledAdd { out: lo.get(k), input: a, gain });
            lo.set(k, nl);
            let nr = kernel(MixOp::ScaledAdd { out: ro.get(k), input: b, gain });
            ro.set(k, nr);
        }
        k = k + 1;
    }
}

fn apply_link<K: Fn(MixOp) -> u32 + Copy>(
    ob: &mut Buffer,
    inp: &Buffer,
    gain: u32,
    pan: u32,
    kernel: K,
)
    requires
        forall|op: MixOp| #[trigger] call_requires(kernel, (op,)),
    ensures
        rule_applies(kernel, old(ob)@, inp@, gain, pan, final(ob)@),
{
    match (ob, inp) {
        (Buffer::Absent, _) => {},
        (Buffer::Mono(o), Buffer::Absent) => mix_mono_silence(o, gain, pan, kernel),
        (Buffer::Mono(o), Buffer::Mono(i)) => mix_mono_mono(o, i, gain, kernel),
        (Buffer::Mono(o), Buffer::Stereo { l, r }) => mix_mono_stereo(o, l, r, gain, pan, kernel),
        (Buffer::Stereo { l, r }, Buffer::Absent) => mix_stereo_silence(l, r, gain, pan, kernel),
        (Buffer::Stereo { l, r }, Buffer::Mono(i)) => mix_stereo_mono(l, r, i, gain, pan, kernel),
        (Buffer::Stereo { l, r }, Buffer::Stereo { l: li, r: ri }) => mix_stereo_stereo(
            l,
            r,
            li,
            ri,
            gain,
            pan,
            kernel,
        ),
    }
}

fn apply_links<K: Fn(MixOp) -> u32 + Copy>(
    ob: &mut Buffer,
    matrix: &[Link],
    base: usize,
    n_in: usize,
    inputs: &[Buffer],
    kernel: K,
)
    requires
        n_in == inputs@.len(),
        base + n_in <= matrix@.len(),
        forall|op: MixOp| #[trigger] call_requires(kernel, (op,)),
    ensures
        links_apply(
            kernel,
            old(ob)@,
            buffer_views(inputs@),
            matrix@.subrange(base as int, base as int + n_in as int),
            final(ob)@,
        ),
{
    let ghost ob0 = ob@;
    let m_total = matrix.len();
    proof {
        crate::model::lemma_links_apply_empty(kernel, ob0);
        assert(buffer_views(inputs@).take(0) =~= Seq::<BufView>::empty());
        assert(matrix@.subrange(base as int, base as int) =~= Seq::<Link>::empty());
    }
    let mut i: usize = 0;
    while i < n_in
        invariant
            n_in == inputs@.len(),
            base + n_in <= matrix@.len(),
            m_total == matrix@.len(),
            i <= n_in,
            forall|op: MixOp| #[trigger] call_requires(kernel, (op,)),
            links_apply(
                kernel,
                ob0,
                buffer_views(inputs@).take(i as int),
                matrix@.subrange(base as int, base as int + i as int),
                ob@,
            ),
        decreases n_in - i,
    {
        let ghost ob_prev = ob@;
        let link = &matrix[base + i];
        if link.active && !link.property.mute {
            apply_link(ob, &inputs[i], link.property.gain, link.property.pan, kernel);
        }
        proof {
            let links_i = matrix@.subrange(base as int, base as int + i as int);
            let views_i = buffer_views(inputs@).take(i as int);
            assert(buffer_views(inputs@)[i as int] == inputs@[i as int]@);
            assert(link_applies(kernel, ob_prev, inputs@[i as int]@, matrix@[base + i], ob@));
            lemma_links_apply_step(
                kernel,
                ob0,
                views_i,
                links_i,
                ob_prev,
                inputs@[i as int]@,
                matrix@[base + i],
                ob@,
            );
            assert(buffer_views(inputs@).take(i + 1) =~= views_i.push(inputs@[i as int]@));
            assert(matrix@.subrange(base as int, base as int + i + 1) =~= links_i.push(
                matrix@[base + i],
            ));
        }
        i = i + 1;
    }
    proof {
        assert(buffer_views(inputs@).take(n_in as int) =~= buffer_views(inputs@));
    }
}

/// Combines every active, unmuted input into its routed output.
///
/// The matrix must hold one link for every input-output pair; otherwise the
/// call fails with [`MatrixError::DimensionMismatch`] and the outputs are
/// untouched. On success, each output buffer is the result of applying its
/// matrix row to it, link by link, with every scalar amplitude step taken
/// from the kernel.
pub fn process_matrix<K: Fn(MixOp) -> u32 + Copy>(
    matrix: &[Link],
    inputs: &[Buffer],
    outputs: &mut Vec<Buffer>,
    kernel: K,
) -> (r: Result<(), MatrixError>)
    requires
        forall|op: MixOp| #[trigger] call_requires(kernel, (op,)),
    ensures
        r == Ok::<(), MatrixError>(()) <==> matrix@.len() == inputs@.len()
            * old(outputs)@.len(),
        r is Err ==> r == Err::<(), MatrixError>(MatrixError::DimensionMismatch)
            && final(outputs)@ == old(outputs)@,
        final(outputs)@.len() == old(outputs)@.len(),
        r is Ok ==> forall|o: int|
            0 <= o < old(outputs)@.len() ==> links_apply(
                kernel,
                old(outputs)@[o]@,
                buffer_views(inputs@),
                matrix@.subrange(o * (inputs@.len() as int), (o + 1) * (inputs@.len() as int)),
                #[trigger] final(outputs)@[o]@,
            ),
{
    let n_in = inputs.len();
    let n_out = outputs.len();
    let m_len = matrix.len();
    let expected = match n_in.checked_mul(n_out) {
        Some(p) => p,
        None => {
            return Err(MatrixError::DimensionMismatch);
        },
    };
    if m_len != expected {
        return Err(MatrixError::DimensionMismatch);
    }
    let ghost outs0 = outputs@;
    let mut o: usize = 0;
    while o < n_out
        invariant
            n_in == inputs@.len(),
            n_out == outs0.len(),
            outputs@.len() == outs0.len(),
            o <= n_out,
            matrix@.len() == n_in * n_out,
            m_len == matrix@.len(),
            forall|op: MixOp| #[trigger] call_requires(kernel, (op,)),
            forall|j: int|
                0 <= j < o ==> links_apply(
                    kernel,
                    outs0[j]@,
                    buffer_views(inputs@),
                    matrix@.subrange(j * (n_in as int), (j + 1) * (n_in as int)),
                    #[trigger] outputs@[j]@,
                ),
            forall|j: int| o <= j < n_out ==> outputs@[j] == outs0[j],
        decreases n_out - o,
    {
        proof {
            assert(o * n_in + n_in <= n_in * n_out) by (nonlinear_arith)
                requires
                    o < n_out,
                    0 <= o,
                    0 <= n_in,
            ;
        }
        let base = o * n_in;
        let ghost before = outputs@;
        let mut ob = outputs.remove(o);
        apply_links(&mut ob, matrix, base, n_in, inputs, kernel);
        outputs.insert(o, ob);
        proof {
            assert(outputs@ =~= before.update(o as int, ob));
            assert(o * (n_in as int) == base as int);
            assert((o + 1) * (n_in as int) == base as int + n_in as int) by (nonlinear_arith)
                requires
                    base == o * n_in,
            ;
        }
        o = o + 1;
    }
    Ok(())
}

/// The full mixing state: buffers, trim settings and the routing matrix.
///
/// The `pre` and `post` per-channel trims are part of the data model but
/// are not yet consulted by the processor; they are reserved extension
/// points for gain stages before and after the matrix pass.
#[derive(Debug)]
pub struct Mixer {
    pub inputs: Vec<Buffer>,
    pub outputs: Vec<Buffer>,
    pub pre: Vec<MixProperty>,
    pub post: Vec<MixProperty>,
    pub intern: Vec<Link>,
}

/// A link as construction leaves it: active, unity gain, centered pan,
/// muted.
pub open spec fn is_default_link(l: Link) -> bool {
    &&& l.active
    &&& l.property.gain == GAIN_UNITY_BITS
    &&& l.property.pan == PAN_CENTER_BITS
    &&& l.property.mute
}

/// A trim setting as construction leaves it: unity gain, centered pan,
/// muted.
pub open spec fn is_default_property(p: MixProperty) -> bool {
    &&& p.gain == GAIN_UNITY_BITS
    &&& p.pan == PAN_CENTER_BITS
    &&& p.mute
}

/// What [`Mixer::new`] hands back: the well-formed shape, empty mono
/// buffers on every slot, default trim settings on every channel, and a
/// full matrix of default links.
pub open spec fn is_fresh_mixer(m: Mixer) -> bool {
    &&& m.wf()
    &&& forall|j: int|
        0 <= j < INPUTS ==> #[trigger] m.inputs@[j]@ == BufView::Mono(Seq::<u32>::empty())
    &&& forall|j: int|
        0 <= j < OUTPUTS ==> #[trigger] m.outputs@[j]@ == BufView::Mono(Seq::<u32>::empty())
    &&& forall|j: int| 0 <= j < INPUTS ==> is_default_property(#[trigger] m.pre@[j])
    &&& forall|j: int| 0 <= j < OUTPUTS ==> is_default_property(#[trigger] m.post@[j])
    &&& forall|j: int| 0 <= j < INPUTS * OUTPUTS ==> is_default_link(#[trigger] m.intern@[j])
}

fn default_buffers(n: usize) -> (v: Vec<Buffer>)
    ensures
        v@.len() == n,
        forall|j: int| 0 <= j < n ==> #[trigger] v@[j]@ == BufView::Mono(Seq::<u32>::empty()),
{
    let mut v: Vec<Buffer> = Vec::new();
    let mut k: usize = 0;
    while k < n
        invariant
            k <= n,
            v@.len() == k,
            forall|j: int| 0 <= j < k ==> #[trigger] v@[j]@ == BufView::Mono(Seq::<u32>::empty()),
        decreases n - k,
    {
        v.push(Buffer::default());
        k = k + 1;
    }
    v
}

fn default_properties(n: usize) -> (v: Vec<MixProperty>)
    ensures
        v@.len() == n,
        forall|j: int| 0 <= j < n ==> is_default_property(#[trigger] v@[j]),
{
    let mut v: Vec<MixProperty> = Vec::new();
    let mut k: usize = 0;
    while k < n
        invariant
            k <= n,
            v@.len() == k,
            forall|j: int| 0 <= j < k ==> is_default_property(#[trigger] v@[j]),
        decreases n - k,
    {
        v.push(MixProperty::default());
        k = k + 1;
    }
    v
}

fn default_links(n: usize) -> (v: Vec<Link>)
    ensures
        v@.len() == n,
        forall|j: int| 0 <= j < n ==> is_default_link(#[trigger] v@[j]),
{
    let mut v: Vec<Link> = Vec::new();
    let mut k: usize = 0;
    while k < n
        invariant
            k <= n,
            v@.len() == k,
            forall|j: int| 0 <= j < k ==> is_default_link(#[trigger] v@[j]),
        decreases n - k,
    {
        v.push(Link::default());
        k = k + 1;
    }
    v
}

impl Mixer {
    /// The shape the constructor establishes and processing relies on.
    pub open spec fn wf(&self) -> bool {
        &&& self.inputs@.len() == INPUTS
        &&& self.outputs@.len() == OUTPUTS
        &&& self.pre@.len() == INPUTS
        &&& self.post@.len() == OUTPUTS
        &&& self.intern@.len() == INPUTS * OUTPUTS
    }

    /// A mixer with every slot defaulted: mono buffers, default trim
    /// settings, and a full matrix of default links.
    pub fn new() -> (m: Mixer)
        ensures
            is_fresh_mixer(m),
    {
        Mixer {
            inputs: default_buffers(INPUTS),
            outputs: default_buffers(OUTPUTS),
            pre: default_properties(INPUTS),
            post: default_properties(OUTPUTS),
            intern: default_links(INPUTS * OUTPUTS),
        }
    }

    /// One processing tick: applies the routing matrix to the owned
    /// buffers, with the kernel supplying the amplitude arithmetic.
    pub fn process<K: Fn(MixOp) -> u32 + Copy>(&mut self, kernel: K)
        requires
            old(self).wf(),
            forall|op: MixOp| #[trigger] call_requires(kernel, (op,)),
        ensures
            final(self).wf(),
            final(self).inputs == old(self).inputs,
            final(self).pre == old(self).pre,
            final(self).post == old(self).post,
            final(self).intern == old(self).intern,
            forall|o: int|
                0 <= o < OUTPUTS ==> links_apply(
                    kernel,
                    old(self).outputs@[o]@,
                    buffer_views(old(self).inputs@),
                    old(self).intern@.subrange(o * (INPUTS as int), (o + 1) * (INPUTS as int)),
                    #[trigger] final(self).outputs@[o]@,
                ),
    {
        let r = process_matrix(
            self.intern.as_slice(),
            self.inputs.as_slice(),
            &mut self.outputs,
            kernel,
        );
        match r {
            Ok(_) => {},
            Err(_) => {
                // a well-formed mixer never trips the dimension guard
                assert(false);
            },
        }
    }
}

impl Default for Mixer {
    /// The same state as [`Mixer::new`].
    fn default() -> (m: Mixer)
        ensures
            is_fresh_mixer(m),
    {
        Mixer::new()
    }
}

} // verus!
