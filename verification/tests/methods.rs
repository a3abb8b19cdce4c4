use counter_agg::error::CounterError;
use counter_agg::method::as_method;
use counter_agg::method::method_from_normalized;
use counter_agg::method::method_kind;
use counter_agg::method::unknown_method_message;
use counter_agg::method::Method;

#[test]
fn the_name_of_the_method() {
    assert_eq!(as_method("prometheus"), Some(Method::Prometheus));
    assert_eq!(method_kind("prometheus"), Ok(Method::Prometheus));
    assert_eq!(method_from_normalized("prometheus"), Some(Method::Prometheus));
}

#[test]
fn case_and_white_space_do_not_matter() {
    assert_eq!(as_method("Prometheus"), Some(Method::Prometheus));
    assert_eq!(as_method("PROMETHEUS"), Some(Method::Prometheus));
    assert_eq!(as_method("  pRoMeThEuS\t\n"), Some(Method::Prometheus));
    assert_eq!(as_method("\u{a0}prometheus\u{2003}"), Some(Method::Prometheus));
    assert_eq!(method_kind(" Prometheus "), Ok(Method::Prometheus));
}

#[test]
fn a_normalized_name_is_taken_as_it_is() {
    assert_eq!(method_from_normalized("Prometheus"), None);
    assert_eq!(method_from_normalized(" prometheus"), None);
    assert_eq!(method_from_normalized(""), None);
}

#[test]
fn other_names_are_unknown() {
    for name in ["", " ", "prom", "prometheus2", "pro metheus", "linear", "prometheu\u{17f}"] {
        assert_eq!(as_method(name), None, "{name:?}");
        assert_eq!(method_kind(name), Err(CounterError::InvalidInput), "{name:?}");
    }
    assert_eq!(
        unknown_method_message(),
        "unknown analysis method. Valid methods are 'prometheus'"
    );
}
