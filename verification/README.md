# rocket_lamb

Answers AWS Lambda requests (API Gateway and load balancers) by a
[Rocket](https://rocket.rs) instance.

- `src/` is the library, verified with Verus: the request that Rocket is handed
  (`request`, `uri`, `context`), the response that Lambda is handed back
  (`response`, `config`), and the decision how to come by the client of the
  instance (`handler`). `outside` holds the contracts that are believed of other
  crates.
- `app/` is the ordinary Rust around it: the asynchronous Lambda handler, the
  launch of the instance, and the conversions from and to the types of the
  Lambda and Rocket crates.
- `tests/` runs the library with the real crates.
