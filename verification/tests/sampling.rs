use rand::Rng;
use pt::fresnel::FresnelNoOp;
use pt::sampler_random::RandomSampler;
use pt::texture::ConstantTexture;
use pt::vector::Point2;

#[test]
fn random_sampler_counts_samples() {
    let mut s = RandomSampler::new(3).expect("entropy");
    assert_eq!(s.samples_per_pixel(), 3);
    s.start_pixel(Point2::new(4, 2));
    assert_eq!(s.current_pixel_sample_index(), 0);
    assert!(s.start_next_sample());
    assert!(s.start_next_sample());
    assert!(!s.start_next_sample());
    s.start_pixel(Point2::new(5, 2));
    assert_eq!(s.current_pixel_sample_index(), 0);
    let copy = s.clone();
    assert_eq!(copy.samples_per_pixel(), 3);
}

#[test]
fn random_sampler_draws_from_its_generator() {
    let mut s = RandomSampler::new(1).expect("entropy");
    let v: f32 = s.rng().gen();
    assert!((0. ..1.).contains(&v));
    assert_eq!(s.current_pixel_sample_index(), 0);
}

#[test]
fn constant_texture_value() {
    let t = ConstantTexture::new(0.5f32);
    assert_eq!(t.value(), 0.5);
    let u = ConstantTexture::new(7u8);
    assert_eq!(u.value(), 7);
}

#[test]
fn fresnel_no_op_constructs() {
    let _f = FresnelNoOp::new();
}

#[test]
fn random_sampler_each_pixel_gets_its_samples() {
    for spp in 1..6u32 {
        let mut s = RandomSampler::new(spp).expect("entropy");
        s.start_pixel(Point2::new(0, 0));
        for k in 1..10u32 {
            assert_eq!(s.start_next_sample(), k < spp);
        }
    }
}

#[test]
fn random_sampler_with_given_generator() {
    let rng = rand::StdRng::new().expect("entropy");
    let mut a = RandomSampler::with_rng(4, rng);
    let mut b = RandomSampler::with_rng(4, rng);
    assert_eq!(a.samples_per_pixel(), 4);
    assert_eq!(a.current_pixel_sample_index(), 0);
    // Two samplers on the same generator state draw the same values.
    let x: u64 = a.rng().gen();
    let y: u64 = b.rng().gen();
    assert_eq!(x, y);
}

#[test]
fn random_sampler_clone_keeps_state() {
    let mut a = RandomSampler::new(3).expect("entropy");
    assert!(a.start_next_sample());
    let mut c = a.clone();
    assert_eq!(c.current_pixel_sample_index(), 1);
    assert_eq!(c.samples_per_pixel(), 3);
    let x: u64 = a.rng().gen();
    let y: u64 = c.rng().gen();
    assert_eq!(x, y);
}
