# shrew_nn

Neural-network layers described by the shapes of their parameters, with
their configuration, shape checks and shape arithmetic, and classification
metrics over class indices — all proved with Verus.

- `src/` — the verified library. Each layer (`Linear`, `Conv2d`, `Conv1d`,
  pooling, `Embedding`, `LayerNorm`, `RMSNorm`, `BatchNorm2d`, `GroupNorm`,
  `MultiHeadAttention`, `TransformerBlock`, the recurrent cells and layers,
  `Sequential`, activations, `Flatten`) implements the `Module` trait, whose
  contracts speak of the parameter shapes, the parameter names and the
  training mode. `metrics` builds confusion matrices and exact count ratios;
  `init` computes fans; `loss` checks class-score inputs and builds one-hot
  target masks.
- `tests/` — tests of the library on concrete values.
- `app/` — the floating-point side: metric values, initialization bounds,
  parameterized activations, dropout settings and running statistics,
  computed from the library's exact counts and shapes.
