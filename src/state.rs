//! The plain shape: a state is threaded through every step, with no failure.
use vstd::prelude::*;
use crate::step::Step;

verus! {

/// What a computation of the plain shape may do: relates an initial state to
/// a (value, final state) pair.
pub type StateRel<S, A> = spec_fn(S, (A, S)) -> bool;

/// Yields `a` and leaves the state as it is.
pub open spec fn pure_rel<S, A>(a: A) -> StateRel<S, A> {
    |s: S, o: (A, S)| o == (a, s)
}

/// Runs `m`, then the computation that `k` gives for its value, on the state
/// that `m` left.
pub open spec fn bind_rel<S, A, B>(m: StateRel<S, A>, k: spec_fn(A) -> StateRel<S, B>) -> StateRel<S, B> {
    |s: S, o: (B, S)| exists|a: A, s1: S| #[trigger] m(s, (a, s1)) && k(a)(s1, o)
}

/// Yields a clone of the state and leaves the state as it is.
pub open spec fn get_rel<S: Clone>() -> StateRel<S, S> {
    |s: S, o: (S, S)| o.1 == s && cloned(s, o.0)
}

/// Replaces the state by `v`.
pub open spec fn put_rel<S>(v: S) -> StateRel<S, ()> {
    |s: S, o: ((), S)| o == ((), v)
}

/// A computation of the plain shape, not yet run.
#[verifier::reject_recursive_types(S)]
#[verifier::reject_recursive_types(A)]
pub struct State<'a, S, A>(Box<dyn Step<S, (A, S)> + 'a>);

impl<'a, S, A> State<'a, S, A> {
    /// The computation can be driven on any state.
    pub closed spec fn wf(&self) -> bool {
        self.0.ready()
    }

    /// The outcomes that driving the computation may give.
    pub closed spec fn rel(&self) -> StateRel<S, A> {
        |s: S, o: (A, S)| self.0.yields(s, o)
    }
}


/// The outcomes of feeding `a` to the step constructor `f` and driving what
/// it built.
pub open spec fn cont_rel<'a, S, A, B, F: FnOnce(A) -> State<'a, S, B>>(f: F) -> spec_fn(A) -> StateRel<S, B> {
    |a: A| |s: S, o: (B, S)| exists|m: State<'a, S, B>| #[trigger] call_ensures(f, (a,), m) && m.rel()(s, o)
}

/// `f` accepts every value and builds computations that can be driven.
pub open spec fn builds_ready<'a, S, A, B, F: FnOnce(A) -> State<'a, S, B>>(f: F) -> bool {
    &&& forall|a: A| call_requires(f, (a,))
    &&& forall|a: A, m: State<'a, S, B>| #[trigger] call_ensures(f, (a,), m) ==> m.wf()
}

struct Lifted<A>(A);

impl<S, A> Step<S, (A, S)> for Lifted<A> {
    closed spec fn ready(&self) -> bool {
        true
    }

    closed spec fn yields(&self, s: S, o: (A, S)) -> bool {
        o == (self.0, s)
    }

    fn run_once(self: Box<Self>, s: S) -> (o: (A, S)) {
        (self.0, s)
    }
}

struct Get;

impl<S: Clone> Step<S, (S, S)> for Get {
    closed spec fn ready(&self) -> bool {
        true
    }

    closed spec fn yields(&self, s: S, o: (S, S)) -> bool {
        get_rel()(s, o)
    }

    fn run_once(self: Box<Self>, s: S) -> (o: (S, S)) {
        let v = s.clone();
        (v, s)
    }
}

struct Put<S>(S);

impl<S> Step<S, ((), S)> for Put<S> {
    closed spec fn ready(&self) -> bool {
        true
    }

    closed spec fn yields(&self, s: S, o: ((), S)) -> bool {
        o == ((), self.0)
    }

    fn run_once(self: Box<Self>, s: S) -> (o: ((), S)) {
        ((), self.0)
    }
}

#[verifier::reject_recursive_types(S)]
#[verifier::reject_recursive_types(A)]
struct Then<'a, S, A, F> {
    first: State<'a, S, A>,
    next: F,
}

impl<'a, S, A, B, F: FnOnce(A) -> State<'a, S, B>> Step<S, (B, S)> for Then<'a, S, A, F> {
    closed spec fn ready(&self) -> bool {
        self.first.wf() && builds_ready(self.next)
    }

    closed spec fn yields(&self, s: S, o: (B, S)) -> bool {
        bind_rel(self.first.rel(), cont_rel(self.next))(s, o)
    }

    fn run_once(self: Box<Self>, s: S) -> (o: (B, S)) {
        let Then { first, next } = *self;
        let ghost rel_first = first.rel();
        let (a, s1) = first.0.run_once(s);
        assert(rel_first(s, (a, s1)));
        let m = next(a);
        let o = m.0.run_once(s1);
        assert(m.rel()(s1, o));
        assert(cont_rel(next)(a)(s1, o));
        assert(bind_rel(rel_first, cont_rel(next))(s, o));
        o
    }
}

impl<'a, S, A: 'a> State<'a, S, A> {
    /// A computation that yields `a` and leaves the state as it is.
    pub fn lift(a: A) -> (r: Self)
        ensures
            r.wf(),
            r.rel() == pure_rel::<S, A>(a),
    {
        let r = State(Box::new(Lifted(a)));
        assert(r.rel() =~= pure_rel::<S, A>(a));
        r
    }

    /// Runs this computation, hands its value to `f`, and runs what `f`
    /// builds on the state that this one left.
    pub fn and_then<B, F>(self, f: F) -> (r: State<'a, S, B>)
        where
            F: FnOnce(A) -> State<'a, S, B> + 'a,
            S: 'a,
        requires
            self.wf(),
            builds_ready(f),
        ensures
            r.wf(),
            r.rel() == bind_rel(self.rel(), cont_rel(f)),
    {
        let r = State(Box::new(Then { first: self, next: f }));
        assert(r.rel() =~= bind_rel(self.rel(), cont_rel(f)));
        r
    }
}

/// A computation that yields a clone of the state and leaves it as it is.
pub fn getst<'a, S: Clone + 'a>() -> (r: State<'a, S, S>)
    ensures
        r.wf(),
        r.rel() == get_rel::<S>(),
{
    let r = State(Box::new(Get));
    assert(r.rel() =~= get_rel::<S>());
    r
}

/// A computation that replaces the state by `snew`.
pub fn putst<'a, SNEW: 'a>(snew: SNEW) -> (r: State<'a, SNEW, ()>)
    ensures
        r.wf(),
        r.rel() == put_rel(snew),
{
    let ghost v = snew;
    let r = State(Box::new(Put(snew)));
    assert(r.rel() =~= put_rel(v));
    r
}

/// Drives `ma` from the state `s`, giving its value and the final state.
pub fn run_state<'a, S, A>(s: S, ma: State<'a, S, A>) -> (r: (A, S))
    requires
        ma.wf(),
    ensures
        ma.rel()(s, r),
{
    ma.0.run_once(s)
}


/// Sequencing a computation with the step that lifts its own value changes
/// no outcome.
pub proof fn law_right_identity<S, A>(m: StateRel<S, A>)
    ensures
        bind_rel(m, |a: A| pure_rel::<S, A>(a)) == m,
{
    assert forall|s: S, o: (A, S)| #[trigger] m(s, o) implies bind_rel(m, |a: A| pure_rel::<S, A>(a))(s, o) by {
        assert(pure_rel::<S, A>(o.0)(o.1, o));
    }
    assert(bind_rel(m, |a: A| pure_rel::<S, A>(a)) =~= m);
}

/// Sequencing a lifted value with a step constructor is the computation that
/// the constructor builds from that value.
pub proof fn law_left_identity<S, A, B>(a: A, k: spec_fn(A) -> StateRel<S, B>)
    ensures
        bind_rel(pure_rel::<S, A>(a), k) == k(a),
{
    assert forall|s: S, o: (B, S)| #[trigger] k(a)(s, o) implies bind_rel(pure_rel::<S, A>(a), k)(s, o) by {
        assert(pure_rel::<S, A>(a)(s, (a, s)));
    }
    assert(bind_rel(pure_rel::<S, A>(a), k) =~= k(a));
}

/// Sequencing `m` then `k1` then `k2` gives the outcomes of sequencing `m`
/// with the composition of `k1` and `k2`.
pub proof fn law_associative<S, A, B, C>(
    m: StateRel<S, A>,
    k1: spec_fn(A) -> StateRel<S, B>,
    k2: spec_fn(B) -> StateRel<S, C>,
)
    ensures
        bind_rel(bind_rel(m, k1), k2) == bind_rel(m, |a: A| bind_rel(k1(a), k2)),
{
    let lhs = bind_rel(bind_rel(m, k1), k2);
    let rhs = bind_rel(m, |a: A| bind_rel(k1(a), k2));
    assert forall|s: S, o: (C, S)| #[trigger] lhs(s, o) <==> rhs(s, o) by {
        if lhs(s, o) {
            let (b, s2) = choose|b: B, s2: S| #[trigger] bind_rel(m, k1)(s, (b, s2)) && k2(b)(s2, o);
            let (a, s1) = choose|a: A, s1: S| #[trigger] m(s, (a, s1)) && k1(a)(s1, (b, s2));
            assert(k1(a)(s1, (b, s2)) && k2(b)(s2, o));
            assert(bind_rel(k1(a), k2)(s1, o));
            assert(m(s, (a, s1)));
        }
        if rhs(s, o) {
            let (a, s1) = choose|a: A, s1: S| #[trigger] m(s, (a, s1)) && bind_rel(k1(a), k2)(s1, o);
            let (b, s2) = choose|b: B, s2: S| #[trigger] k1(a)(s1, (b, s2)) && k2(b)(s2, o);
            assert(m(s, (a, s1)) && k1(a)(s1, (b, s2)));
            assert(bind_rel(m, k1)(s, (b, s2)));
        }
    }
    assert(lhs =~= rhs);
}

/// Reading the state, replacing it by `x` and reading it again ends in the
/// state `x` with a clone of `x` as the value, whatever the initial state.
pub proof fn law_get_put_get<S: Clone>(s: S, x: S, o: (S, S))
    ensures
        bind_rel(get_rel::<S>(), |v: S| bind_rel(put_rel(x), |u: ()| get_rel::<S>()))(s, o)
            <==> (o.1 == x && cloned(x, o.0)),
{
    if o.1 == x && cloned(x, o.0) {
        assert(put_rel(x)(s, ((), x)));
        assert(bind_rel(put_rel(x), |u: ()| get_rel::<S>())(s, o));
        assert(get_rel::<S>()(s, (s, s)));
    }
}

} // verus!
