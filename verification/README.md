# utopia

The decisions of a knowledge base that people and a model keep together, verified
with Verus.

- `src/` is the library. `normalize` brings what a model extracted into the agreed
  shape. `governance`, `governor` and `governor_run` read what people decided and say
  what may be decided without them; `adjudication` and `adjudication_run` do the same
  for the pairs that wait for the model. `vector_index`, `names`, `query_engine`,
  `settings`, `chat_policy`, `text` and `error` hold the rules around the store, the
  sources and the chat. The modules that end in `_laws` state what holds of several
  functions together.
- `app/` is the service around it: the database, the models and the routes. It runs
  the state machines of the library and hands back what came of each step.
- `tests/` runs the library on concrete values.

Confidences, which clients exchange as single-precision floats, are carried as
bit patterns (`single`), and identifiers as 128-bit integers.
