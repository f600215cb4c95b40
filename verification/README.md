# rust_nn_api

An HTTP/JSON service over [neuralflow](https://crates.io/crates/neuralflow): a
client in any language builds, trains and queries a neural network by sending
JSON.

The rules of the service are a library verified with
[Verus](https://github.com/verus-lang/verus); the program around it is ordinary
Rust.

- `src/` decides. It validates requests, names layers, resolves optimizers,
  keeps the models, checks the paths of data files, plans what the engine is to
  build and fit, and makes an answer of what the engine returned. Its contracts
  say what is answered, down to the words of an error message.
- `app/` does what is decided: it listens, parses and writes JSON, opens files,
  and calls the engine on floating point numbers. The library carries a number
  by its encoding and never computes with it.
- `tests/` drives the library request by request, with the real engine behind
  it.

`src/laws.rs` states what holds across requests: that weights which are put are
got, that a model can be created again from what was read off it, that training
is cumulative and repeatable, that a request for wrong values is answered with a
400 and changes nothing.

## The endpoints

```text
GET    /health                  is the server up, and how many models it holds
POST   /create-compile-model    create and compile a model
GET    /models                  list them, newest first
GET    /models/{id}             one model, with Keras' summary table
DELETE /models/{id}             204, and the id stops working
POST   /models/{id}/train       fit
POST   /train-with-column-scale fit on columns divided by powers of ten
POST   /models/{id}/predict     predict
POST   /models/{id}/evaluate    evaluate, without training
GET    /models/{id}/weights     get_weights
PUT    /models/{id}/weights     set_weights
GET    /models/{id}/onnx        the model as an ONNX file (bytes, not JSON)
POST   /utils/scale             column_based_scaling
```

Swagger UI is served at `/swagger-ui`, the OpenAPI document at
`/api-docs/openapi.json`.
