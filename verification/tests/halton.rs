use pt::sampler_halton::{MultiplicativeInverse, HaltonSampler};
use pt::vector::Point2;

/// A sampler for a film whose pixels are scaled by 2^7 and 3^5 into the
/// first two Halton dimensions.
fn sampler_at(px: u32, py: u32) -> HaltonSampler {
    HaltonSampler {
        samplesPerPixel: 4,
        currentPixel: Point2::new(px, py),
        currentPixelSampleIndex: 0,
        sampleArray1D: Vec::new(),
        sampleArray2D: Vec::new(),
        array1DOffset: 0,
        array2DOffset: 0,
        dimension: 0,
        intervalSampleIndex: 0,
        arrayEndDim: 6,
        baseScale: Point2::new(128, 243),
        baseExp: Point2::new(7, 5),
        sampleStride: 128 * 243,
        pixelForOffset: Point2::new(u32::MAX, u32::MAX),
        offsetForCurrentPixel: 0,
        multiInverse: [
            MultiplicativeInverse(243, 128) as usize,
            MultiplicativeInverse(128, 243) as usize,
        ],
    }
}

#[test]
fn halton_index_for_sample() {
    let mut h = sampler_at(3, 5);
    assert_eq!(h.multiInverse, [59, 112]);
    assert_eq!(h.GetIndexForSample(0), 3744);
    assert_eq!(h.offsetForCurrentPixel, 3744);
    assert_eq!(h.pixelForOffset, Point2::new(3, 5));
    assert_eq!(h.GetIndexForSample(2), 3744 + 2 * 31104);
}

#[test]
fn halton_index_cache_follows_pixel() {
    let mut h = sampler_at(3, 5);
    h.GetIndexForSample(0);
    h.currentPixel = Point2::new(130, 5);
    assert_eq!(h.GetIndexForSample(0), 23136);
    let mut fresh = sampler_at(130, 5);
    assert_eq!(fresh.GetIndexForSample(1), 23136 + 31104);
}

#[test]
fn halton_index_stride_one() {
    let mut h = sampler_at(3, 5);
    h.sampleStride = 1;
    assert_eq!(h.GetIndexForSample(9), 9);
}

#[test]
fn halton_sample_dimensions() {
    let h = sampler_at(3, 5);
    let index = 3744 + 2 * 31104;
    assert_eq!(h.SampleDimension(index, 0), (769, 1024));
    assert_eq!(h.SampleDimension(index, 1), (253, 729));
    assert_eq!(h.SampleDimension(index, 2), (33384, 78125));
}

#[test]
fn halton_next_sample_and_dimensions() {
    let mut h = sampler_at(3, 5);
    assert!(h.StartNextSample());
    assert_eq!(h.currentPixelSampleIndex, 1);
    assert_eq!(h.intervalSampleIndex, 3744 + 2 * 31104);
    assert_eq!(h.dimension, 0);

    assert_eq!(h.Get1D(), h.SampleDimension(3744 + 2 * 31104, 1));
    assert_eq!(h.dimension, 1);
    let (a, b) = h.Get2D();
    assert_eq!(a, h.SampleDimension(3744 + 2 * 31104, 1));
    assert_eq!(b, h.SampleDimension(3744 + 2 * 31104, 2));
    assert_eq!(h.dimension, 3);
    h.Get1D();
    assert_eq!(h.dimension, 4);
    h.Get2D();
    // Dimensions 4 to 6 belong to sample arrays and are skipped.
    assert_eq!(h.dimension, 8);

    assert!(h.StartNextSample());
    assert!(h.StartNextSample());
    assert!(!h.StartNextSample());
}

#[test]
fn halton_start_pixel_resets_and_fills_arrays() {
    let mut h = sampler_at(0, 0);
    h.samplesPerPixel = 1;
    h.sampleArray1D = vec![vec![(0, 0); 2]];
    h.sampleArray2D = vec![vec![((0, 0), (0, 0)); 3]];
    h.currentPixelSampleIndex = 3;
    h.dimension = 9;
    h.array1DOffset = 1;
    h.StartPixel(Point2::new(3, 5));
    assert_eq!(h.currentPixel, Point2::new(3, 5));
    assert_eq!(h.currentPixelSampleIndex, 0);
    assert_eq!((h.array1DOffset, h.array2DOffset, h.dimension), (0, 0, 0));
    assert_eq!(h.intervalSampleIndex, 3744);
    assert_eq!(h.arrayEndDim, 4 + 1 + 2);

    let mut reference = sampler_at(3, 5);
    let i0 = reference.GetIndexForSample(0);
    let i1 = reference.GetIndexForSample(1);
    let i2 = reference.GetIndexForSample(2);
    assert_eq!(h.sampleArray1D[0], vec![reference.SampleDimension(i0, 4), reference.SampleDimension(i1, 4)]);
    assert_eq!(
        h.sampleArray2D[0],
        vec![
            (reference.SampleDimension(i0, 5), reference.SampleDimension(i0, 6)),
            (reference.SampleDimension(i1, 5), reference.SampleDimension(i1, 6)),
            (reference.SampleDimension(i2, 5), reference.SampleDimension(i2, 6)),
        ]
    );
    assert_eq!(h.sampleArray1D[0][1], (288, 161051));
}

#[test]
fn halton_requested_arrays() {
    let mut h = sampler_at(0, 0);
    h.Req1DArray(2);
    h.Req2DArray(3);
    assert_eq!(h.sampleArray1D.len(), 1);
    assert_eq!(h.sampleArray2D.len(), 1);
    assert!(h.sampleArray1D[0].is_empty());
    assert!(h.sampleArray2D[0].is_empty());
    assert_eq!(h.Get1DArray(0), Some(&[][..]));
    assert_eq!(h.array1DOffset, 1);
    assert_eq!(h.Get1DArray(0), None);
    assert_eq!(h.Get2DArray(0), Some(&[][..]));
    assert_eq!(h.Get2DArray(0), None);

    let mut g = sampler_at(0, 0);
    g.sampleArray1D = vec![vec![(1, 2), (3, 4), (5, 8)]];
    g.samplesPerPixel = 1;
    assert_eq!(g.Get1DArray(3), Some(&[(1, 2), (3, 4), (5, 8)][..]));
    assert_eq!(g.Get1DArray(3), None);
}
