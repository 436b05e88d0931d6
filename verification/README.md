# Delivery price comparison server

A small HTTP server that compares food delivery prices across providers and
reports host and process metrics. The logic is a Verus-verified library:

- `src/text.rs`: white space, splitting, lines, trimming, prefixes, joining.
- `src/num.rs`: reading and writing decimal numbers.
- `src/http.rs`: gathering a request, routing it, the heads of replies, icons.
- `src/query.rs`: `key=value` parameters of a query string.
- `src/store.rs`: a map keyed by strings (promo codes, icon addresses).
- `src/pricing.rs`: providers, their fees and promo rules; stored promo lines.
- `src/metrics.rs`: cgroup and proc values, processor use between samples.
- `src/sysinfo.rs`: the host description and its JSON.

`app/` holds the program around it: sockets, files, threads, and the
floating-point price and percentage arithmetic.
