# api_gateway

An HTTP gateway in front of a users service, with its decision logic
verified by Verus.

- `src/balancer.rs`: round-robin choice among backend base URLs, with the
  laws of the rotation (closed form, full cycle, each backend once per cycle),
  also stated over any run of consecutive calls.
- `src/headers.rs`: the byte-level rules for header text and the removal of
  the `Bearer ` scheme word.
- `src/auth.rs`: the gateway's token claims (72-hour lifetime), the
  authentication guard's two-step decision, and the framing of the token that
  the gateway adds to each request, with the law that the guard reads back,
  from the very header value that the framing built, the token it framed.
- `src/routes.rs`: the forwarded path and backend URL, and the users flow: a
  step function from phase and event to next phase and action, covering the
  cache-first route and the direct route.
- `app/`: the actix-web server, the Redis pool, the actix middleware and
  route handlers that perform the actions of the library (HTTP, Redis, JSON
  and JWT encoding) and feed their outcomes back.
