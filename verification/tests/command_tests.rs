use circuit_breaker::command::Command;
use circuit_breaker::command::CommandError;
use circuit_breaker::command::deliver;
use circuit_breaker::config::Config;
use circuit_breaker::config::DEFAULT_BUCKETS_IN_WINDOW;
use circuit_breaker::config::DEFAULT_BUCKET_SIZE_IN_MS;
use circuit_breaker::config::DEFAULT_CIRCUIT_OPEN_MS;
use circuit_breaker::config::DEFAULT_ERROR_THRESHOLD;
use circuit_breaker::config::DEFAULT_ERROR_THRESHOLD_PERCENTAGE;
use circuit_breaker::config::DEFAULT_THREADPOOL_SIZE;
use circuit_breaker::config::ResolvedConfig;

#[test]
fn new_config_has_every_option_unset() {
    let c = Config::new();
    assert!(c.error_threshold.is_none());
    assert!(c.error_threshold_percentage.is_none());
    assert!(c.buckets_in_window.is_none());
    assert!(c.bucket_size_in_ms.is_none());
    assert!(c.circuit_open_ms.is_none());
    assert!(c.threadpool_size.is_none());
    assert!(c.circuit_breaker_enabled.is_none());
}

#[test]
fn setters_chain_and_store_their_values() {
    let mut c = Config::new();
    c.error_threshold(3)
        .error_threshold_percentage(40)
        .buckets_in_window(5)
        .bucket_size_in_ms(200)
        .circuit_open_ms(700)
        .circuit_breaker_enabled(false);
    assert_eq!(c.error_threshold, Some(3));
    assert_eq!(c.error_threshold_percentage, Some(40));
    assert_eq!(c.buckets_in_window, Some(5));
    assert_eq!(c.bucket_size_in_ms, Some(200));
    assert_eq!(c.circuit_open_ms, Some(700));
    assert_eq!(c.circuit_breaker_enabled, Some(false));
    assert_eq!(c.threadpool_size, None);
}

#[test]
fn resolving_no_config_yields_the_documented_defaults() {
    let r = ResolvedConfig::resolve(None);
    assert_eq!(r.error_threshold, DEFAULT_ERROR_THRESHOLD);
    assert_eq!(r.error_threshold, 10);
    assert_eq!(r.error_threshold_percentage, DEFAULT_ERROR_THRESHOLD_PERCENTAGE);
    assert_eq!(r.error_threshold_percentage, 50);
    assert_eq!(r.buckets_in_window, DEFAULT_BUCKETS_IN_WINDOW);
    assert_eq!(r.buckets_in_window, 10);
    assert_eq!(r.bucket_size_in_ms, DEFAULT_BUCKET_SIZE_IN_MS);
    assert_eq!(r.bucket_size_in_ms, 1000);
    assert_eq!(r.circuit_open_ms, DEFAULT_CIRCUIT_OPEN_MS);
    assert_eq!(r.circuit_open_ms, 5000);
    assert_eq!(r.threadpool_size, DEFAULT_THREADPOOL_SIZE);
    assert_eq!(r.threadpool_size, 10);
    assert!(r.circuit_breaker_enabled);
}

#[test]
fn resolving_keeps_set_options_and_fills_the_rest() {
    let mut c = Config::new();
    c.error_threshold(2).circuit_open_ms(100);
    let r = ResolvedConfig::resolve(Some(c));
    assert_eq!(r.error_threshold, 2);
    assert_eq!(r.circuit_open_ms, 100);
    assert_eq!(r.error_threshold_percentage, 50);
    assert_eq!(r.buckets_in_window, 10);
    assert_eq!(r.bucket_size_in_ms, 1000);
    assert!(r.circuit_breaker_enabled);
}

#[test]
fn define_stores_the_operation_without_config() {
    let command = Command::<i32, i32, _>::define(|x: i32| {
        if x >= 0 {
            Ok(x * 2)
        } else {
            Err(CommandError::Operation("negative"))
        }
    });
    assert!(command.config.is_none());
    assert_eq!((command.cmd)(21), Ok(42));
}

#[test]
fn define_with_fallback_stores_both_operations() {
    let command = Command::<i32, i32, _>::define_with_fallback(
        |_x: i32| Err::<i32, _>(CommandError::Operation("always fails")),
        |_e: CommandError<&'static str>| -1,
    );
    assert!(command.config.is_none());
    assert_eq!((command.cmd)(5), Err(CommandError::Operation("always fails")));
    assert_eq!((command.fb)(CommandError::Rejected), -1);
}

#[test]
fn config_attaches_to_commands() {
    let mut options = Config::new();
    options.error_threshold(7);
    let command = Command::<i32, i32, _>::define(|x: i32| {
        Ok::<i32, CommandError<&'static str>>(x)
    })
        .config(options);
    assert_eq!(command.config.unwrap().error_threshold, Some(7));

    let with_fallback = Command::<i32, i32, _>::define_with_fallback(
        |x: i32| Ok::<i32, CommandError<&'static str>>(x),
        |_e: CommandError<&'static str>| 0,
    )
        .config(options);
    assert_eq!(with_fallback.config.unwrap().error_threshold, Some(7));
}

#[test]
fn rejected_call_with_fallback_yields_the_fallback_value() {
    let fb = |_e: CommandError<&'static str>| 99;
    let out = deliver(Err(CommandError::Rejected), Some(&fb));
    assert_eq!(out, Ok(99));
}

#[test]
fn failed_operation_with_fallback_yields_the_fallback_value() {
    let fb = |e: CommandError<&'static str>| {
        match e {
            CommandError::Operation(_) => 7,
            CommandError::Rejected => 8,
        }
    };
    let out = deliver(Err(CommandError::Operation("boom")), Some(&fb));
    assert_eq!(out, Ok(7));
}

#[test]
fn errors_without_fallback_pass_through() {
    let out: Result<i32, CommandError<&'static str>> = deliver(
        Err(CommandError::Rejected),
        None::<&fn(CommandError<&'static str>) -> i32>,
    );
    assert_eq!(out, Err(CommandError::Rejected));
}

#[test]
fn successes_pass_through_even_with_a_fallback() {
    let fb = |_e: CommandError<&'static str>| 0;
    let out = deliver(Ok(5), Some(&fb));
    assert_eq!(out, Ok(5));
}

#[test]
fn rejection_is_distinguishable_from_operation_errors() {
    let rejected: CommandError<&'static str> = CommandError::Rejected;
    let failed: CommandError<&'static str> = CommandError::Operation("boom");
    assert!(rejected.is_rejected());
    assert!(!failed.is_rejected());
}
