# fluxframe

Real-time video effects for a virtual camera: configuration, effect chains,
person segmentation, background blur and the bookkeeping around them.

The library in `src/` is verified with [Verus](https://github.com/verus-lang/verus).
Contracts say what functions return and how they change what they are given; where
an outside service decides, they say what it is asked and what follows from each
answer.  Each module proves the properties that hold across calls (functions named
`law_*`).

## Layout

- `config`, `params`, `name_map`, `paths` — configuration, its validation and path
  resolution.
- `error`, `text`, `float_bits` — error texts, decimal formatting and ordering of
  single-precision bit patterns.
- `frame`, `plane`, `context`, `traits` — frames, planes, per-frame state and the
  traits that effects, engines, sources and sinks implement.  An effect, an engine
  and a blur backend are each a transition system: rules that never change, and
  what it holds.
- `metadata`, `registry`, `mask_effects`, `passthrough`, `chain` — effects, their
  descriptions and registries, and the top-level chain.
- `processing`, `pixel_math`, `ml` — box blur, tensor packing and decoding, and the
  inference engines.
- `composite`, `background_blur` — the composite effect and the stand-alone blur.
- `backend` — choice of backends and fallbacks from one to another.
- `metrics`, `protocol` — counters, latency percentiles, stage timings and control
  commands.
- `app/` — the runtime side: configuration files, wire formats, environment, log
  output, floating-point kernels, ONNX Runtime, OpenVINO and Vulkan.
- `tests/` — tests on concrete values.

Single-precision numbers are bit patterns in the library.  Arithmetic on them,
inference runtimes and GPU devices come in through traits without promises, so
the proofs hold whatever they answer.
