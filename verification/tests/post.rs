use doom_render::post::{PassInput, PassTarget, PostChain, PostEffect, PostPass};

#[test]
fn only_the_crt_filters_linearly() {
    assert!(PostEffect::Crt.linear());
    assert!(!PostEffect::Stretch.linear());
}

#[test]
fn chain_without_effects_stretches() {
    let chain = PostChain::new(Vec::new());
    assert_eq!(chain.len(), 1);
    assert_eq!(chain.intermediates(), 0);
    assert_eq!(chain.kinds(), &[PostEffect::Stretch]);
    assert_eq!(
        chain.passes(),
        vec![PostPass {
            pipeline: 0,
            input: PassInput::Frame,
            target: PassTarget::Surface,
            linear: false,
        }]
    );
}

#[test]
fn passes_are_chained_through_intermediates() {
    let chain = PostChain::new(vec![PostEffect::Crt, PostEffect::Stretch, PostEffect::Crt]);
    assert_eq!(chain.len(), 3);
    assert_eq!(chain.intermediates(), 2);
    assert_eq!(chain.kinds(), &[PostEffect::Crt, PostEffect::Stretch]);
    assert_eq!(
        chain.passes(),
        vec![
            PostPass {
                pipeline: 0,
                input: PassInput::Frame,
                target: PassTarget::Intermediate(0),
                linear: true,
            },
            PostPass {
                pipeline: 1,
                input: PassInput::Intermediate(0),
                target: PassTarget::Intermediate(1),
                linear: false,
            },
            PostPass {
                pipeline: 0,
                input: PassInput::Intermediate(1),
                target: PassTarget::Surface,
                linear: true,
            },
        ]
    );
}

#[test]
fn no_pass_samples_its_own_target() {
    let effects = vec![PostEffect::Stretch; 5];
    let chain = PostChain::new(effects);
    assert_eq!(chain.kinds().len(), 1);
    for pass in chain.passes() {
        if let (PassInput::Intermediate(i), PassTarget::Intermediate(t)) = (pass.input, pass.target)
        {
            assert_ne!(i, t);
        }
    }
}
