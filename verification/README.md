# pt

A physically based path tracer.

- `src/` is the library, verified with Verus: axes; points, vectors and
  boxes in the plane; the tiling of the film and the offsets of its pixels;
  4x4 matrices and transformations as data (transpose, inverse by swapping
  the two matrices); the kinds of a BxDF; radical inverses, their inverse,
  the extended Euclidean algorithm and the block shuffle; the bookkeeping of
  the Halton and random samplers. Sample values of the radical inverse are
  kept as exact fractions.
- `tests/` runs the library on concrete values.
- `app/` is the renderer around it: everything computed in floating point
  (vectors in space, spectra, shapes, materials, lights, the k-d tree, the
  integrator), threads and file output. `main` renders a sphere on a floor
  under an area light into `output.ppm`.
