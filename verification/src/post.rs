//! The post-process chain: which full-screen passes run, what each one samples
//! and where it draws.

use vstd::prelude::*;

verus! {

/// A full-screen post-process effect.
///
/// Each runs as one pass that samples the previous stage's texture and draws a
/// full-screen triangle into the next. Stackable: the chain runs them in order,
/// the last pass targeting the surface.
#[derive(Debug, Clone, Copy, PartialEq, Eq, Structural)]
pub enum PostEffect {
    /// Nearest-neighbour upscale, sharp pixels.
    Stretch,
    /// CRT emulation (crt-lottes): scanlines, mask, warp, bloom.
    Crt,
}

impl PostEffect {
    /// Linear filtering suits the CRT's sub-texel sampling; Stretch wants
    /// nearest for crisp pixels.
    pub fn linear(self) -> (linear: bool)
        ensures
            linear == (self == PostEffect::Crt),
    {
        matches!(self, Self::Crt)
    }
}

/// What a pass samples.
#[derive(Debug, Clone, Copy, PartialEq, Eq, Structural)]
pub enum PassInput {
    /// The engine framebuffer.
    Frame,
    /// An intermediate texture.
    Intermediate(usize),
}

/// Where a pass draws.
#[derive(Debug, Clone, Copy, PartialEq, Eq, Structural)]
pub enum PassTarget {
    /// An intermediate texture.
    Intermediate(usize),
    /// The display surface.
    Surface,
}

/// One post-process pass.
#[derive(Debug, Clone, Copy, PartialEq, Eq, Structural)]
pub struct PostPass {
    /// The pipeline that it runs, by its place among [`PostChain::kinds`].
    pub pipeline: usize,
    pub input: PassInput,
    pub target: PassTarget,
    /// Whether it samples with linear filtering.
    pub linear: bool,
}

/// The different effects of a chain, each where it first occurs.
pub open spec fn distinct(effects: Seq<PostEffect>) -> Seq<PostEffect>
    decreases effects.len(),
{
    if effects.len() == 0 {
        Seq::empty()
    } else {
        let kinds = distinct(effects.drop_last());
        if kinds.contains(effects.last()) {
            kinds
        } else {
            kinds.push(effects.last())
        }
    }
}

/// The effects that a chain runs when it is given `effects`: a chain without
/// any stretches.
pub open spec fn effective(effects: Seq<PostEffect>) -> Seq<PostEffect> {
    if effects.len() == 0 {
        seq![PostEffect::Stretch]
    } else {
        effects
    }
}

/// Ordered post-process chain. Pass 0 samples the engine framebuffer; each
/// later pass samples the previous pass's intermediate texture; the last pass
/// targets the surface. Intermediates are surface-sized.
pub struct PostChain {
    effects: Vec<PostEffect>,
    /// One pipeline per [`PostEffect`] kind, built once.
    kinds: Vec<PostEffect>,
}

impl View for PostChain {
    type V = Seq<PostEffect>;

    closed spec fn view(&self) -> Seq<PostEffect> {
        self.effects@
    }
}

/// The place of the first `kind` in `kinds`.
pub open spec fn place_of(kinds: Seq<PostEffect>, kind: PostEffect) -> int
    decreases kinds.len(),
{
    if kinds.len() == 0 || kinds[0] == kind {
        0
    } else {
        1 + place_of(kinds.drop_first(), kind)
    }
}

/// Pass `i` of the chain that runs `effects`.
pub open spec fn pass_of(effects: Seq<PostEffect>, i: int) -> PostPass {
    PostPass {
        pipeline: place_of(distinct(effects), effects[i]) as usize,
        input: if i == 0 {
            PassInput::Frame
        } else {
            PassInput::Intermediate((i - 1) as usize)
        },
        target: if i == effects.len() - 1 {
            PassTarget::Surface
        } else {
            PassTarget::Intermediate(i as usize)
        },
        linear: effects[i] == PostEffect::Crt,
    }
}

impl PostChain {
    /// A chain always has a pass, and a pipeline for every effect in it.
    pub closed spec fn wf(&self) -> bool {
        &&& self.effects@.len() > 0
        &&& self.kinds@ == distinct(self.effects@)
    }

    /// A chain that runs `effects`, or stretches if there are none.
    pub fn new(effects: Vec<PostEffect>) -> (chain: Self)
        ensures
            chain.wf(),
            chain@ == effective(effects@),
    {
        let effects: Vec<PostEffect> = if effects.is_empty() {
            let mut stretch: Vec<PostEffect> = Vec::new();
            stretch.push(PostEffect::Stretch);
            stretch
        } else {
            effects
        };
        let mut kinds: Vec<PostEffect> = Vec::new();
        let mut i: usize = 0;
        while i < effects.len()
            invariant
                i <= effects@.len(),
                kinds@ == distinct(effects@.take(i as int)),
            decreases effects@.len() - i,
        {
            let e: PostEffect = effects[i];
            assert(effects@.take(i + 1).drop_last() =~= effects@.take(i as int));
            match find(&kinds, e) {
                Some(at) => {
                    assert(kinds@[at as int] == e);
                },
                None => {
                    kinds.push(e);
                },
            }
            i += 1;
        }
        assert(effects@.take(i as int) =~= effects@);
        Self { effects, kinds }
    }

    /// The different effects of the chain, one pipeline for each.
    pub fn kinds(&self) -> (kinds: &[PostEffect])
        requires
            self.wf(),
        ensures
            kinds@ == distinct(self@),
    {
        self.kinds.as_slice()
    }

    /// How many passes the chain has.
    pub fn len(&self) -> (n: usize)
        ensures
            n == self@.len(),
    {
        self.effects.len()
    }

    /// How many intermediate textures the chain needs: one fewer than passes,
    /// since the last pass writes the surface.
    pub fn intermediates(&self) -> (n: usize)
        requires
            self.wf(),
        ensures
            n == self@.len() - 1,
    {
        self.effects.len() - 1
    }

    /// The passes, in order.
    pub fn passes(&self) -> (passes: Vec<PostPass>)
        requires
            self.wf(),
        ensures
            passes@ == Seq::new(self@.len(), |i: int| pass_of(self@, i)),
            forall|i: int|
                0 <= i < self@.len() ==> ((#[trigger] passes@[i]).linear <==> self@[i]
                    == PostEffect::Crt),
    {
        let n: usize = self.effects.len();
        let ghost all = Seq::new(self@.len(), |i: int| pass_of(self@, i));
        let mut passes: Vec<PostPass> = Vec::new();
        let mut i: usize = 0;
        while i < n
            invariant
                self.wf(),
                n == self@.len(),
                i <= n,
                all == Seq::new(self@.len(), |i: int| pass_of(self@, i)),
                passes@ == all.take(i as int),
            decreases n - i,
        {
            let effect: PostEffect = self.effects[i];
            proof {
                lemma_distinct_contains(self@, i as int);
            }
            let pipeline: usize = match find(&self.kinds, effect) {
                Some(at) => at,
                None => 0,
            };
            let input = if i == 0 {
                PassInput::Frame
            } else {
                PassInput::Intermediate(i - 1)
            };
            let target = if i == n - 1 {
                PassTarget::Surface
            } else {
                PassTarget::Intermediate(i)
            };
            passes.push(PostPass { pipeline, input, target, linear: effect.linear() });
            i += 1;
            assert(passes@ =~= all.take(i as int));
        }
        assert(all.take(n as int) =~= all);
        passes
    }
}

/// The place of `kind` in `kinds`.
fn find(kinds: &Vec<PostEffect>, kind: PostEffect) -> (at: Option<usize>)
    ensures
        match at {
            Some(i) => i < kinds@.len() && kinds@[i as int] == kind && i == place_of(kinds@, kind),
            None => !kinds@.contains(kind),
        },
{
    let mut i: usize = 0;
    assert(kinds@.skip(0) =~= kinds@);
    while i < kinds.len()
        invariant
            i <= kinds@.len(),
            forall|j: int| 0 <= j < i ==> #[trigger] kinds@[j] != kind,
            place_of(kinds@, kind) == i + place_of(kinds@.skip(i as int), kind),
        decreases kinds@.len() - i,
    {
        if kinds[i] == kind {
            assert(kinds@.skip(i as int)[0] == kind);
            return Some(i);
        }
        assert(kinds@.skip(i as int).drop_first() =~= kinds@.skip(i + 1));
        i += 1;
    }
    None
}

/// Every effect is among the different ones.
proof fn lemma_distinct_contains(effects: Seq<PostEffect>, i: int)
    requires
        0 <= i < effects.len(),
    ensures
        distinct(effects).contains(effects[i]),
    decreases effects.len(),
{
    let kinds = distinct(effects.drop_last());
    if i == effects.len() - 1 {
        if !kinds.contains(effects.last()) {
            assert(kinds.push(effects.last())[kinds.len() as int] == effects[i]);
        }
    } else {
        lemma_distinct_contains(effects.drop_last(), i);
        assert(effects.drop_last()[i] == effects[i]);
        let j = choose|j: int| 0 <= j < kinds.len() && kinds[j] == effects[i];
        assert(kinds.push(effects.last())[j] == effects[i]);
    }
}

/// The place of a kind that occurs is one where it occurs.
proof fn lemma_place_of(kinds: Seq<PostEffect>, kind: PostEffect)
    requires
        kinds.contains(kind),
    ensures
        0 <= place_of(kinds, kind) < kinds.len(),
        kinds[place_of(kinds, kind)] == kind,
    decreases kinds.len(),
{
    if kinds[0] != kind {
        let j = choose|j: int| 0 <= j < kinds.len() && kinds[j] == kind;
        assert(kinds.drop_first()[j - 1] == kind);
        lemma_place_of(kinds.drop_first(), kind);
    }
}

/// No pipeline is built twice.
pub proof fn law_one_pipeline_per_kind(effects: Seq<PostEffect>)
    ensures
        distinct(effects).no_duplicates(),
        distinct(effects).len() <= effects.len(),
    decreases effects.len(),
{
    if effects.len() > 0 {
        law_one_pipeline_per_kind(effects.drop_last());
        let kinds = distinct(effects.drop_last());
        if !kinds.contains(effects.last()) {
            assert forall|i: int, j: int|
                0 <= i < j < kinds.len() + 1 implies kinds.push(effects.last())[i] != kinds.push(
                effects.last(),
            )[j] by {
                if j == kinds.len() {
                    assert(kinds.contains(kinds[i]));
                }
            }
        }
    }
}

/// Every pass runs the pipeline that was built for its effect.
pub proof fn law_pass_runs_its_effect(effects: Seq<PostEffect>, i: int)
    requires
        0 <= i < effects.len() <= usize::MAX,
    ensures
        pass_of(effects, i).pipeline < distinct(effects).len(),
        distinct(effects)[pass_of(effects, i).pipeline as int] == effects[i],
{
    lemma_distinct_contains(effects, i);
    lemma_place_of(distinct(effects), effects[i]);
    law_one_pipeline_per_kind(effects);
}

/// The passes form a chain: the first samples the framebuffer, each later one
/// what the one before it drew, and only the last draws to the surface.
pub proof fn law_passes_are_chained(effects: Seq<PostEffect>, i: int)
    requires
        0 <= i < effects.len() <= usize::MAX,
    ensures
        pass_of(effects, i).input == PassInput::Frame <==> i == 0,
        pass_of(effects, i).target == PassTarget::Surface <==> i == effects.len() - 1,
        i + 1 < effects.len() ==> (pass_of(effects, i).target matches PassTarget::Intermediate(k)
            && k < effects.len() - 1 && pass_of(effects, i + 1).input == PassInput::Intermediate(
            k,
        )),
{
}

/// A pass never samples the texture that it draws to.
pub proof fn law_pass_does_not_sample_its_target(effects: Seq<PostEffect>, i: int, k: usize)
    requires
        0 <= i < effects.len() <= usize::MAX,
        pass_of(effects, i).target == PassTarget::Intermediate(k),
    ensures
        pass_of(effects, i).input != PassInput::Intermediate(k),
{
}

/// A pass samples linearly exactly if its effect is the CRT, whatever the length
/// of the chain and its place in it.
pub proof fn law_only_crt_samples_linearly(effects: Seq<PostEffect>, i: int)
    requires
        0 <= i < effects.len(),
    ensures
        effects[i] == PostEffect::Crt ==> pass_of(effects, i).linear,
        effects[i] == PostEffect::Stretch ==> !pass_of(effects, i).linear,
{
}

/// Pass `i` samples the framebuffer if it is the first and else intermediate
/// texture `i - 1`, and draws to the surface if it is the last and else to
/// intermediate texture `i`.
pub proof fn law_pass_has_its_place(effects: Seq<PostEffect>, i: int)
    requires
        0 <= i < effects.len() <= usize::MAX,
    ensures
        i == 0 ==> pass_of(effects, i).input == PassInput::Frame,
        i > 0 ==> (pass_of(effects, i).input matches PassInput::Intermediate(k) && k == i - 1),
        i == effects.len() - 1 ==> pass_of(effects, i).target == PassTarget::Surface,
        i < effects.len() - 1 ==> (pass_of(effects, i).target matches PassTarget::Intermediate(k)
            && k == i),
{
}

/// A chain runs the effects that it is given, in their order; one that is given
/// none stretches.
pub proof fn law_chain_runs_what_it_is_given(effects: Seq<PostEffect>)
    ensures
        effects.len() > 0 ==> effective(effects) == effects,
        effects.len() == 0 ==> effective(effects).len() == 1 && effective(effects)[0]
            == PostEffect::Stretch,
{
}

/// A pipeline is built for an effect exactly if the chain has it.
pub proof fn law_pipelines_are_those_of_the_chain(effects: Seq<PostEffect>, kind: PostEffect)
    ensures
        distinct(effects).contains(kind) <==> effects.contains(kind),
    decreases effects.len(),
{
    if effects.len() > 0 {
        let rest = effects.drop_last();
        let kinds = distinct(rest);
        law_pipelines_are_those_of_the_chain(rest, kind);
        if effects.contains(kind) {
            let i = choose|i: int| 0 <= i < effects.len() && effects[i] == kind;
            lemma_distinct_contains(effects, i);
        }
        if distinct(effects).contains(kind) {
            if kinds.contains(kind) {
                let i = choose|i: int| 0 <= i < rest.len() && rest[i] == kind;
                assert(effects[i] == kind);
            } else {
                let k = choose|k: int|
                    0 <= k < distinct(effects).len() && distinct(effects)[k] == kind;
                if k < kinds.len() {
                    assert(kinds[k] == kind);
                }
                assert(effects[effects.len() - 1] == kind);
            }
        }
    }
}

} // verus!
