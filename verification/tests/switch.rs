use flowly::context::Context;
use flowly::service::Service;
use flowly::switch::switch;

fn tag(label: &'static str) -> impl Fn(u32) -> (&'static str, u32) + Copy {
    move |x: u32| (label, x)
}

#[test]
fn switch_routes_by_discriminant() {
    let cx = Context::new();
    let mut router = switch::<u32, (&'static str, u32), _, u32>(|x: &u32| *x)
        .case(1, flowly::map::map(tag("a")))
        .case(2, flowly::map::map(tag("b")))
        .default(flowly::map::map(tag("c")));
    assert_eq!(router.handle(1, &cx), vec![("a", 1)]);
    assert_eq!(router.handle(2, &cx), vec![("b", 2)]);
    assert_eq!(router.handle(3, &cx), vec![("c", 3)]);
}

#[test]
fn switch_without_default_drops_unmatched() {
    let cx = Context::new();
    let mut bare = switch::<u32, (&'static str, u32), _, u32>(|x: &u32| *x);
    assert!(bare.handle(1, &cx).is_empty());
    let mut router = switch::<u32, (&'static str, u32), _, u32>(|x: &u32| *x)
        .case(1, flowly::map::map(tag("a")))
        .case([2, 4], flowly::map::map(tag("b")));
    assert_eq!(router.handle(1, &cx), vec![("a", 1)]);
    assert_eq!(router.handle(4, &cx), vec![("b", 4)]);
    assert!(router.handle(3, &cx).is_empty());
}

#[test]
fn switch_tests_cases_in_declaration_order() {
    let cx = Context::new();
    let mut router = switch::<u32, (&'static str, u32), _, u32>(|x: &u32| *x % 2)
        .case(1, flowly::map::map(tag("first")))
        .case(1, flowly::map::map(tag("second")))
        .default(flowly::map::map(tag("rest")));
    assert_eq!(router.handle(5, &cx), vec![("first", 5)]);
    assert_eq!(router.handle(6, &cx), vec![("rest", 6)]);
}

#[test]
fn switch_without_cases_puts_out_nothing() {
    let cx = Context::new();
    let mut bare = switch::<u32, u32, _, u32>(|x: &u32| *x);
    assert_eq!(bare.handle(1, &cx), Vec::<u32>::new());
    assert_eq!(bare.handle(3, &cx), Vec::<u32>::new());
    let mut only_default = switch::<u32, (&'static str, u32), _, u32>(|x: &u32| *x)
        .default(flowly::map::map(tag("c")));
    assert_eq!(only_default.handle(3, &cx), vec![("c", 3)]);
}
