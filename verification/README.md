# webhook_service

A webhook receiver service (GitHub, GitLab, Bitbucket, Stripe and generic
deliveries, HMAC-SHA256 signature checking, user accounts with sessions, and a
small API over stored webhooks and events).

- `src/` is the library, verified with Verus: signature checking
  (`signature`), request headers and their text (`headers`, `text`), the JSON
  model (`json`), webhook-type detection and dispatch (`detect`), registration
  and login decisions (`auth`), session cookies (`session`), webhook secrets
  (`secret`), API response shaping (`webhooks`), delivery recording
  (`events`), settings (`config`) and pages (`pages`).
- `app/` is the server around it: the axum routes and handlers, the Postgres
  database access with sqlx, serde forms of the records, logging, and
  conversions between wire values and the library's plain values.
- `tests/` exercises the library on concrete values.

Settings come from the environment: `DATABASE_URL` (required), `BIND_ADDRESS`
(default `0.0.0.0:3000`), `BASE_URL` (default `http://localhost:5050`),
`WEBHOOK_SECRET` (optional; signs deliveries to the generic endpoint and to
named endpoints such as `/webhook/github` that no registered webhook claims;
a registered webhook's deliveries are checked against its own secret, and
the endpoint of a deactivated webhook answers 404) and
`MAX_EVENTS` (default 1000; the number of most recent events kept, enforced in
the same transaction that stores an event). Listing all events without a `limit`
lists all stored events; a user's or a webhook's events default to the newest
100.
