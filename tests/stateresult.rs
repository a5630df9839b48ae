use std::cell::Cell;

use mdo_state::stateresult::{getstres, putstres, run_state_result, throwstres, StateResult};

fn helper<'a>(limit: i32) -> StateResult<'a, i32, i32, &'static str> {
    getstres().and_then(move |st: i32| {
        putstres(st + 1).and_then(move |_| {
            getstres().and_then(move |st: i32| {
                putstres(st + 1).and_then(move |_| {
                    getstres().and_then(move |st: i32| {
                        let guard = if st > limit { throwstres("Oh no!") } else { StateResult::lift(()) };
                        guard.and_then(|_| getstres())
                    })
                })
            })
        })
    })
}

#[test]
fn stateresult_sadface() {
    assert_eq!(Err("Oh no!"), run_state_result(10, helper(11)));
}

#[test]
fn stateresult_happyface() {
    assert_eq!(Ok((12, 12)), run_state_result(10, helper(12)));
}

#[test]
fn stateresult_throw_drops_state() {
    let ma = putstres(5).and_then(|_| throwstres::<i32, i32, &str>("bad"));
    assert_eq!(Err("bad"), run_state_result(1, ma));
}

#[test]
fn stateresult_lift_succeeds() {
    assert_eq!(Ok::<(i32, char), ()>((4, 'x')), run_state_result(4, StateResult::lift('x')));
}

#[test]
fn stateresult_short_circuit_counts_steps() {
    let built = Cell::new(0);
    let b = &built;
    let ma: StateResult<i32, i32, &str> = getstres().and_then(move |st: i32| {
        b.set(b.get() + 1);
        throwstres("stop").and_then(move |_: ()| {
            b.set(b.get() + 1);
            putstres(st).and_then(move |_| {
                b.set(b.get() + 1);
                getstres()
            })
        })
    });
    assert_eq!(Err("stop"), run_state_result(0, ma));
    assert_eq!(1, built.get());
}

#[test]
fn stateresult_get_put_get() {
    let ma = getstres::<i32, ()>().and_then(|_| putstres(8).and_then(|_| getstres()));
    assert_eq!(Ok((8, 8)), run_state_result(-3, ma));
}

#[test]
fn stateresult_associative() {
    let f = |a: i32| putstres(a + 1).and_then(move |_| StateResult::lift(a * 3));
    let g = |b: i32| if b > 5 { throwstres("big") } else { StateResult::lift(b) };
    for s in [1, 2] {
        let left = getstres().and_then(f).and_then(g);
        let right = getstres().and_then(move |a| f(a).and_then(g));
        assert_eq!(run_state_result(s, left), run_state_result(s, right));
    }
    assert_eq!(Ok((2, 3)), run_state_result(1, getstres().and_then(f).and_then(g)));
    assert_eq!(Err("big"), run_state_result(2, getstres().and_then(f).and_then(g)));
}
