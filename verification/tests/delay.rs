use routekit::delay::{waited, Seconds, MAX_SECONDS};
use routekit::filter::Filter;
use routekit::value::{Kind, Value};
use routekit::rejection::Rejection;
use routekit::request::{Method, Request};

#[test]
fn seconds_from_str_accepts_up_to_five() {
    for n in 0..=5u64 {
        assert_eq!(Seconds::from_str(&n.to_string()), Ok(Seconds(n)));
    }
    assert_eq!(Seconds::from_str("+3"), Ok(Seconds(3)));
    assert_eq!(Seconds::from_str("005"), Ok(Seconds(5)));
}

#[test]
fn seconds_from_str_rejects_the_rest() {
    for src in ["6", "100", "18446744073709551616", "", "five", "-1", "1.5", " 1"] {
        assert_eq!(Seconds::from_str(src), Err(()), "{:?}", src);
    }
}

#[test]
fn seconds_param_agrees_with_from_str() {
    let route: Filter<u8> = Filter::param(Kind::Unsigned { max: MAX_SECONDS });
    for src in ["0", "5", "6", "+2", "x", "18446744073709551616"] {
        let req = Request::new(Method::Get, &format!("/{}", src));
        match (route.evaluate(&req), Seconds::from_str(src)) {
            (Ok(m), Ok(Seconds(n))) => assert!(matches!(&m.values[..], [Value::Unsigned(v)] if *v == n)),
            (Err(Rejection::NotFound), Err(())) => {},
            (a, b) => panic!("{}: {:?} {:?}", src, a, b),
        }
    }
}

#[test]
fn waited_says_how_long() {
    assert_eq!(waited(Seconds(0)), "I waited 0 seconds!");
    assert_eq!(waited(Seconds(5)), "I waited 5 seconds!");
}
