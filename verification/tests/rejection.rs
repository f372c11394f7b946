use routekit::rejection::{handle_rejection, Rejection};

fn custom(tag: &str) -> Rejection {
    Rejection::Custom { tag: tag.to_string(), detail: String::new() }
}

fn invalid(detail: &str) -> Rejection {
    Rejection::InvalidParameter { detail: detail.to_string() }
}

fn recovered(r: &Rejection) -> (u16, String) {
    let m = handle_rejection(r);
    (m.code, m.message)
}

#[test]
fn recovery_maps_every_variant() {
    assert_eq!(recovered(&Rejection::NotFound), (404, "NOT_FOUND".to_string()));
    assert_eq!(recovered(&Rejection::MethodNotAllowed), (405, "METHOD_NOT_ALLOWED".to_string()));
    assert_eq!(recovered(&invalid("INVALID_QUERY")), (400, "INVALID_QUERY".to_string()));
    assert_eq!(recovered(&Rejection::PayloadTooLarge), (413, "PAYLOAD_TOO_LARGE".to_string()));
    assert_eq!(recovered(&custom("DIVIDE_BY_ZERO")), (400, "DIVIDE_BY_ZERO".to_string()));
    assert_eq!(recovered(&custom("SOMETHING_ELSE")), (500, "UNHANDLED_REJECTION".to_string()));
    assert_eq!(recovered(&Rejection::Unhandled), (500, "UNHANDLED_REJECTION".to_string()));
}

#[test]
fn recovery_status_matches_code() {
    for r in [
        Rejection::NotFound,
        Rejection::MethodNotAllowed,
        invalid("x"),
        Rejection::PayloadTooLarge,
        custom("DIVIDE_BY_ZERO"),
        custom("divide_by_zero"),
        Rejection::Unhandled,
    ] {
        assert_eq!(r.status(), handle_rejection(&r).code);
    }
}

#[test]
fn divide_by_zero_has_the_known_tag() {
    assert_eq!(recovered(&Rejection::divide_by_zero()), (400, "DIVIDE_BY_ZERO".to_string()));
}

#[test]
fn combine_prefers_anything_to_not_found() {
    let r = Rejection::NotFound.combine(invalid("bad"));
    assert!(matches!(r, Rejection::InvalidParameter { ref detail } if detail == "bad"));
    let r = invalid("bad").combine(Rejection::NotFound);
    assert!(matches!(r, Rejection::InvalidParameter { ref detail } if detail == "bad"));
    let r = Rejection::NotFound.combine(Rejection::MethodNotAllowed);
    assert!(matches!(r, Rejection::MethodNotAllowed));
    let r = Rejection::NotFound.combine(Rejection::NotFound);
    assert!(r.is_not_found());
}

#[test]
fn combine_ranks_method_not_allowed_second_lowest() {
    let r = Rejection::MethodNotAllowed.combine(invalid("bad"));
    assert!(matches!(r, Rejection::InvalidParameter { .. }));
    let r = Rejection::PayloadTooLarge.combine(Rejection::MethodNotAllowed);
    assert!(matches!(r, Rejection::PayloadTooLarge));
}

#[test]
fn combine_prefers_the_higher_status_then_the_later() {
    let r = invalid("bad").combine(Rejection::PayloadTooLarge);
    assert!(matches!(r, Rejection::PayloadTooLarge));
    let r = Rejection::PayloadTooLarge.combine(invalid("bad"));
    assert!(matches!(r, Rejection::PayloadTooLarge));
    let r = invalid("first").combine(invalid("second"));
    assert!(matches!(r, Rejection::InvalidParameter { ref detail } if detail == "second"));
    let r = Rejection::Unhandled.combine(custom("DIVIDE_BY_ZERO"));
    assert!(matches!(r, Rejection::Unhandled));
}
