//! Alert delivery for Alertmanager webhooks: the verified core.
//!
//! The library holds the logic of the alert bot: how a span of time is told
//! in words, how the command line is checked and turned into settings, and
//! which reply a webhook gets at each step of a delivery.
mod args;
mod calendar;
mod delivery;
mod duration;
mod instants;
mod span;
mod text;

pub use args::{Args, ArgsError, Config, MatrixTarget, TelegramTarget, DEFAULT_PORT};
pub use delivery::{
    delivery_reply, lemma_delivery_reply, next, next_step, outcome_of, route, status_is, template_name,
    Channel, Event, Step, MAX_BODY_BYTES, STATUS_INTERNAL_SERVER_ERROR, STATUS_OK,
    STATUS_SERVICE_UNAVAILABLE,
};
pub use duration::{
    days_part, duration_text, format_duration, format_elapsed, format_unit, hours_part, is_span,
    lemma_millis_ignored_beside_seconds, lemma_parts_recompose, lemma_text_to_the_millisecond,
    lemma_text_empty_iff_under_a_millisecond, lemma_unit_text_says_count, lemma_unit_text_shows, millis_part, minutes_part,
    seconds_part, span_limit, unit_text, unit_texts, weeks_part, Duration, NANOS_PER_DAY,
    NANOS_PER_HOUR, NANOS_PER_MILLI, NANOS_PER_MINUTE, NANOS_PER_SEC, NANOS_PER_WEEK,
};
pub use instants::{
    elapsed_between, elapsed_nanos, lemma_elapsed_antisymmetric, lemma_elapsed_is_difference, lemma_leap_second_lasts_a_second, is_next_second, lemma_next_second, lemma_offset_example, offset_example_utc, offset_example_west, lemma_offset_moves_instant, lemma_span_text_is_difference, lemma_unix_epoch, elapsed_text, format_between, format_since, format_span, instant_of, is_rfc3339_date_time, leap_correction, local_seconds, rfc3339_fields, rfc3339_instant, second_of_day, unix_seconds, LocalDateTime,
    span_text,
};
pub use span::{
    div_toward_zero, lemma_div_toward_zero_bounds, lemma_div_toward_zero_nested,
    lemma_div_toward_zero_split, lemma_whole_seconds,
};
pub use text::{
    decimal, digit_char, digit_value, digits_of, is_digit, is_white_space, lemma_decimal_denotes, lemma_decimal_lead, lemma_digit_char_value, lemma_digits_denote, lemma_digits_lead, numeral_value, signed_numeral_value,
    lemma_trim_all_space, lemma_trim_keeps_non_space, push_decimal, same_text, trim, trim_end,
    trim_start,
};
pub use calendar::{days_since_epoch, days_before_month, days_before_year, days_from_epoch, days_in_month, days_in_year, is_date, is_leap_year, lemma_epoch, lemma_month_length, lemma_next_day, lemma_year_length, leap_years_before};
