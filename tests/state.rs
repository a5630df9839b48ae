use mdo_state::state::{getst, putst, run_state, State};

fn bump_twice<'a>() -> State<'a, i32, i32> {
    getst().and_then(|st: i32| {
        putst(st + 1).and_then(|_| {
            getst().and_then(|st: i32| putst(st + 1).and_then(|_| getst()))
        })
    })
}

#[test]
fn testes() {
    assert_eq!((12, 12), run_state(10, bump_twice()));
}

#[test]
fn state_lift_keeps_state() {
    assert_eq!(("v", 7), run_state(7, State::lift("v")));
}

#[test]
fn state_put_replaces_state() {
    assert_eq!(((), 3), run_state(9, putst(3)));
}

#[test]
fn state_put_changes_state_type() {
    let ma: State<String, usize> =
        putst(String::from("abc")).and_then(|_| getst().and_then(|s: String| State::lift(s.len())));
    assert_eq!((3, String::from("abc")), run_state(String::from("abc"), ma));
}

#[test]
fn state_get_put_get() {
    for s in [-4, 0, 10] {
        for x in [1, 99] {
            let ma = getst().and_then(move |_: i32| putst(x).and_then(|_| getst()));
            assert_eq!((x, x), run_state(s, ma));
        }
    }
}

#[test]
fn state_right_identity() {
    let plain = run_state(10, bump_twice());
    let lifted = run_state(10, bump_twice().and_then(|a| State::lift(a)));
    assert_eq!(plain, lifted);
}

#[test]
fn state_associative() {
    let f = |a: i32| putst(a * 2).and_then(move |_| State::lift(a + 1));
    let g = |b: i32| getst().and_then(move |s: i32| State::lift(s + b));
    let left = getst().and_then(f).and_then(g);
    let right = getst().and_then(move |a| f(a).and_then(g));
    assert_eq!(run_state(5, left), run_state(5, right));
    assert_eq!((16, 10), run_state(5, getst().and_then(f).and_then(g)));
}
