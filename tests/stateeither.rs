use std::cell::Cell;

use mdo_state::stateeither::{getste, putste, run_state_either, throwste, StateEither};

fn helper<'a>(limit: i32) -> StateEither<'a, i32, i32, &'static str> {
    getste().and_then(move |st: i32| {
        putste(st + 1).and_then(move |_| {
            getste().and_then(move |st: i32| {
                putste(st + 1).and_then(move |_| {
                    getste().and_then(move |st: i32| {
                        let guard = if st > limit { throwste("Oh no!") } else { StateEither::lift(()) };
                        guard.and_then(|_| getste())
                    })
                })
            })
        })
    })
}

#[test]
fn stateeither_sadface() {
    assert_eq!((12, Err("Oh no!")), run_state_either(10, helper(11)));
}

#[test]
fn stateeither_happyface() {
    assert_eq!((12, Ok(12)), run_state_either(10, helper(12)));
}

#[test]
fn stateeither_throw_keeps_state() {
    let ma = putste(5).and_then(|_| throwste::<i32, i32, &str>("bad"));
    assert_eq!((5, Err("bad")), run_state_either(1, ma));
}

#[test]
fn stateeither_lift_succeeds() {
    assert_eq!((4, Ok::<char, ()>('x')), run_state_either(4, StateEither::lift('x')));
}

#[test]
fn stateeither_short_circuit_counts_steps() {
    let built = Cell::new(0);
    let b = &built;
    let ma: StateEither<i32, i32, &str> = getste().and_then(move |st: i32| {
        b.set(b.get() + 1);
        putste(st + 1).and_then(move |_| {
            b.set(b.get() + 1);
            throwste("stop").and_then(move |_: ()| {
                b.set(b.get() + 1);
                getste()
            })
        })
    });
    assert_eq!((1, Err("stop")), run_state_either(0, ma));
    assert_eq!(2, built.get());
}

#[test]
fn stateeither_get_put_get() {
    let ma = getste::<i32, ()>().and_then(|_| putste(8).and_then(|_| getste()));
    assert_eq!((8, Ok(8)), run_state_either(-3, ma));
}

#[test]
fn stateeither_right_identity() {
    assert_eq!(
        run_state_either(10, helper(11)),
        run_state_either(10, helper(11).and_then(|a| StateEither::lift(a)))
    );
    assert_eq!(
        run_state_either(10, helper(12)),
        run_state_either(10, helper(12).and_then(|a| StateEither::lift(a)))
    );
}

#[test]
fn stateeither_associative() {
    let f = |a: i32| putste(a + 1).and_then(move |_| StateEither::lift(a * 3));
    let g = |b: i32| if b > 5 { throwste("big") } else { StateEither::lift(b) };
    for s in [1, 2] {
        let left = getste().and_then(f).and_then(g);
        let right = getste().and_then(move |a| f(a).and_then(g));
        assert_eq!(run_state_either(s, left), run_state_either(s, right));
    }
    assert_eq!((2, Ok(3)), run_state_either(1, getste().and_then(f).and_then(g)));
    assert_eq!((3, Err("big")), run_state_either(2, getste().and_then(f).and_then(g)));
}
