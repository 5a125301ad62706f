use raytracer::light_path::{is_out_of_depth, resolve, step, Outcome, PathEnd, Step};

#[test]
fn zero_depth_is_black_for_any_outcomes() {
    assert!(is_out_of_depth(0));
    assert!(is_out_of_depth(-3));
    assert!(!is_out_of_depth(1));
    assert_eq!(resolve(0, &vec![]), Some((PathEnd::Black, 0)));
    assert_eq!(resolve(0, &vec![Outcome::Miss]), Some((PathEnd::Black, 0)));
    assert_eq!(resolve(-1, &vec![Outcome::Scattered, Outcome::Miss]), Some((PathEnd::Black, 0)));
}

#[test]
fn first_miss_takes_the_sky() {
    assert_eq!(resolve(50, &vec![Outcome::Miss]), Some((PathEnd::Sky, 0)));
    assert_eq!(resolve(1, &vec![Outcome::Miss, Outcome::Absorbed]), Some((PathEnd::Sky, 0)));
}

#[test]
fn step_decisions() {
    assert_eq!(step(5, Outcome::Miss), Step::End(PathEnd::Sky));
    assert_eq!(step(5, Outcome::Absorbed), Step::End(PathEnd::Black));
    assert_eq!(step(5, Outcome::Scattered), Step::Bounce(4));
    assert_eq!(step(1, Outcome::Scattered), Step::Bounce(0));
}

#[test]
fn scatters_then_sky_counts_bounces() {
    let outcomes = vec![Outcome::Scattered, Outcome::Scattered, Outcome::Miss];
    assert_eq!(resolve(3, &outcomes), Some((PathEnd::Sky, 2)));
}

#[test]
fn depth_runs_out_after_scatters() {
    let outcomes = vec![Outcome::Scattered, Outcome::Scattered, Outcome::Miss];
    assert_eq!(resolve(2, &outcomes), Some((PathEnd::Black, 2)));
    assert_eq!(resolve(1, &vec![Outcome::Scattered]), Some((PathEnd::Black, 1)));
}

#[test]
fn absorption_ends_black() {
    let outcomes = vec![Outcome::Scattered, Outcome::Absorbed, Outcome::Miss];
    assert_eq!(resolve(10, &outcomes), Some((PathEnd::Black, 1)));
}

#[test]
fn unfinished_path_needs_more_outcomes() {
    assert_eq!(resolve(3, &vec![]), None);
    assert_eq!(resolve(3, &vec![Outcome::Scattered, Outcome::Scattered]), None);
}
