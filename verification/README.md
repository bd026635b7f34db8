# alerter

A Telegram and Matrix bot for alerts from Alertmanager, with its core verified
by Verus.

- `src/` is the verified library: how a span of time is told in words
  (`format_duration`, over a `Duration` whose whole weeks, days, hours, minutes,
  seconds and milliseconds come from chrono), spans between RFC 3339 date-times,
  the checking of the command line, and the steps of a delivery and the HTTP
  reply each outcome gets.
- `app/` is the program: command line (clap), the handlebars registry and its
  helpers, the warp endpoints `POST /tg` and `POST /matrix`, and the Telegram and
  Matrix clients. It calls the library for every decision.
- `tests/` runs the library on concrete values.
