# ftlr

A used-car price predictor: single-feature linear regression (price from
mileage) trained by gradient descent on min-max normalized data.

- `src/` is the verified library (Verus). It decides whether a dataset and
  a pair of sample columns can be used:
  - `dataset`: the `.csv` extension check, CSV reading (through the `csv`
    crate) with the `km,price` header check, the status of each row and the
    scan that reports the first bad row by its line, and the refusal messages;
  - `samples`: the shape check shared by training, the closed-form fit and
    the metrics;
  - `text`: ASCII case-insensitive comparison and joining;
  - `external`: the trusted calls into `csv` and `std::path`.
- `app/` is the command-line tool (`train`, `predict`, `precision`) with the
  floating-point model, normalization, metrics, JSON model files and charts.
- `tests/` exercises the library.
