# expiration_date

Expiration dates of financial instruments (options, futures), given either as
a number of days or as an absolute UTC datetime, with Verus proofs of the
logic.

Layout:

- `src/` — the verified library.
  - `calendar.rs`: the proleptic Gregorian calendar: day numbers of dates and
    the date of a day number, with the order of the two.
  - `datetime.rs`: UTC instants as a timestamp and nanoseconds; elapsed
    seconds and days, adding whole days, times of day, calendar fields and
    the text of the formats written (the last two through `chrono`).
  - `decimal.rs`: decimals as sign, mantissa and scale, and the non-negative
    decimals that day counts are; order, subtraction, parsing and integer
    conversion through `rust_decimal` and `positive`.
  - `conventions.rs`: the Actual/360, Actual/365 Fixed and 30/360 US day counts.
  - `expiration.rs`: `ExpirationDate` and its resolution to an instant from the
    current time and the reference datetime, which are explicit arguments.
  - `parser.rs`: `ExpirationDate::from_string` and the order of the accepted shapes.
  - `ordering.rs`: equality within 1e-16 and the order of day counts, with the
    laws of that order.
  - `wire.rs`: the decisions of reading the serialized map.
- `app/` — the interface over `positive::Positive` and `chrono::DateTime<Utc>`:
  the thread-local reference datetime, the clock, the floating-point year and
  day fractions, and the `PartialEq`/`Ord`/`Hash`/`Display`/serde impls.
- `tests/` — tests of the library.
