# ctfzone_api

The rules of a capture-the-flag platform, written in Verus: executable Rust whose functions state
in `requires` and `ensures` what they do, and are proved to do it.

- `src/` is the library. It holds the decisions of the service: who signs in and registers, which
  challenges a visitor sees, how a submission is compared, limited and recorded, how generated
  flags are made and handed out, what administrators may change, and how the site is configured.
  It neither reads nor writes anything itself.
- `tests/` runs the library on concrete values, with the outside crates linked.
- `app/` is the service around it: the HTTP routes, the queries and the mail. It is ordinary Rust.
  One rule stands there too, the curve by which the value of a dynamic challenge falls, because it
  is computed in floating point; when it applies, and within which bounds, the library says.

## How a request is decided

An operation that needs facts from the database is a function from what is known so far to the next
step. The facts are a struct of `Option`s; the step says what to read next, how the request fails,
or what is written. `app/` reads what is asked for, fills in the fact and asks again. The contract
of such a function gives its whole course, and the laws speak of that course: that a solve is
written only for a correct submission at an open challenge while the event runs, or that a
challenge keeps at least one flag.

A writer has a plan besides: what it locks, checks and writes, in which order. A `Fence` walks the
plan with the transaction and refuses a step that is out of order.

## What is proved and what is trusted

A proof function whose name starts with `law_` states a property of the library as a whole; its doc
comment says it in words. Calls into outside crates stand behind small functions marked
`#[verifier::external_body]`. Where a result cannot be stated in a few lines it has a name, an
uninterpreted spec function of the arguments, and the contracts speak of that name. Fresh
identifiers and tokens are random: of those only the form is stated.
