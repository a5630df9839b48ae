//! The state-first outcome shape: a state and an outcome are threaded through
//! the steps; a failure keeps the state that the failing step left and stops
//! the chain.
use vstd::prelude::*;
use crate::step::Step;

verus! {

/// What a computation of this shape may do: relates an initial state to a
/// (final state, outcome) pair.
pub type EitherRel<S, A, E> = spec_fn(S, (S, Result<A, E>)) -> bool;

/// Succeeds with `a` and leaves the state as it is.
pub open spec fn pure_either<S, A, E>(a: A) -> EitherRel<S, A, E> {
    |s: S, o: (S, Result<A, E>)| o == (s, Ok::<A, E>(a))
}

/// Runs `m`; where it fails, that failure with the state it left is the
/// outcome; where it succeeds, runs the computation that `k` gives for its
/// value on the state that `m` left.
pub open spec fn bind_either<S, A, B, E>(m: EitherRel<S, A, E>, k: spec_fn(A) -> EitherRel<S, B, E>) -> EitherRel<S, B, E> {
    |s: S, o: (S, Result<B, E>)|
        (exists|s1: S, e: E| #[trigger] m(s, (s1, Err::<A, E>(e))) && o == (s1, Err::<B, E>(e)))
        || (exists|a: A, s1: S| #[trigger] m(s, (s1, Ok::<A, E>(a))) && k(a)(s1, o))
}

/// Succeeds with a clone of the state and leaves the state as it is.
pub open spec fn get_either<S: Clone, E>() -> EitherRel<S, S, E> {
    |s: S, o: (S, Result<S, E>)| o.0 == s && match o.1 {
        Ok(v) => cloned(s, v),
        Err(_) => false,
    }
}

/// Replaces the state by `v` and succeeds.
pub open spec fn put_either<S, E>(v: S) -> EitherRel<S, (), E> {
    |s: S, o: (S, Result<(), E>)| o == (v, Ok::<(), E>(()))
}

/// Fails with `e` and keeps the state.
pub open spec fn throw_either<S, A, E>(e: E) -> EitherRel<S, A, E> {
    |s: S, o: (S, Result<A, E>)| o == (s, Err::<A, E>(e))
}

/// A computation of the state-first outcome shape, not yet run.
#[verifier::reject_recursive_types(S)]
#[verifier::reject_recursive_types(A)]
#[verifier::reject_recursive_types(E)]
pub struct StateEither<'a, S, A, E>(Box<dyn Step<S, (S, Result<A, E>)> + 'a>);

impl<'a, S, A, E> StateEither<'a, S, A, E> {
    /// The computation can be driven on any state.
    pub closed spec fn wf(&self) -> bool {
        self.0.ready()
    }

    /// The outcomes that driving the computation may give.
    pub closed spec fn rel(&self) -> EitherRel<S, A, E> {
        |s: S, o: (S, Result<A, E>)| self.0.yields(s, o)
    }
}

/// The outcomes of feeding `a` to the step constructor `f` and driving what
/// it built.
pub open spec fn cont_either<'a, S, A, B, E, F: FnOnce(A) -> StateEither<'a, S, B, E>>(f: F) -> spec_fn(A) -> EitherRel<S, B, E> {
    |a: A| |s: S, o: (S, Result<B, E>)| exists|m: StateEither<'a, S, B, E>| #[trigger] call_ensures(f, (a,), m) && m.rel()(s, o)
}

/// `f` accepts every value and builds computations that can be driven.
pub open spec fn builds_ready_either<'a, S, A, B, E, F: FnOnce(A) -> StateEither<'a, S, B, E>>(f: F) -> bool {
    &&& forall|a: A| call_requires(f, (a,))
    &&& forall|a: A, m: StateEither<'a, S, B, E>| #[trigger] call_ensures(f, (a,), m) ==> m.wf()
}

struct Lifted<A>(A);

impl<S, A, E> Step<S, (S, Result<A, E>)> for Lifted<A> {
    closed spec fn ready(&self) -> bool {
        true
    }

    closed spec fn yields(&self, s: S, o: (S, Result<A, E>)) -> bool {
        o == (s, Ok::<A, E>(self.0))
    }

    fn run_once(self: Box<Self>, s: S) -> (o: (S, Result<A, E>)) {
        (s, Ok(self.0))
    }
}

struct Get;

impl<S: Clone, E> Step<S, (S, Result<S, E>)> for Get {
    closed spec fn ready(&self) -> bool {
        true
    }

    closed spec fn yields(&self, s: S, o: (S, Result<S, E>)) -> bool {
        get_either()(s, o)
    }

    fn run_once(self: Box<Self>, s: S) -> (o: (S, Result<S, E>)) {
        let v = s.clone();
        (s, Ok(v))
    }
}

struct Put<S>(S);

impl<S, E> Step<S, (S, Result<(), E>)> for Put<S> {
    closed spec fn ready(&self) -> bool {
        true
    }

    closed spec fn yields(&self, s: S, o: (S, Result<(), E>)) -> bool {
        o == (self.0, Ok::<(), E>(()))
    }

    fn run_once(self: Box<Self>, s: S) -> (o: (S, Result<(), E>)) {
        (self.0, Ok(()))
    }
}

struct Throw<E>(E);

impl<S, A, E> Step<S, (S, Result<A, E>)> for Throw<E> {
    closed spec fn ready(&self) -> bool {
        true
    }

    closed spec fn yields(&self, s: S, o: (S, Result<A, E>)) -> bool {
        o == (s, Err::<A, E>(self.0))
    }

    fn run_once(self: Box<Self>, s: S) -> (o: (S, Result<A, E>)) {
        (s, Err(self.0))
    }
}

#[verifier::reject_recursive_types(S)]
#[verifier::reject_recursive_types(A)]
#[verifier::reject_recursive_types(E)]
struct Then<'a, S, A, E, F> {
    first: StateEither<'a, S, A, E>,
    next: F,
}

impl<'a, S, A, B, E, F: FnOnce(A) -> StateEither<'a, S, B, E>> Step<S, (S, Result<B, E>)> for Then<'a, S, A, E, F> {
    closed spec fn ready(&self) -> bool {
        self.first.wf() && builds_ready_either(self.next)
    }

    closed spec fn yields(&self, s: S, o: (S, Result<B, E>)) -> bool {
        bind_either(self.first.rel(), cont_either(self.next))(s, o)
    }

    fn run_once(self: Box<Self>, s: S) -> (o: (S, Result<B, E>)) {
        let Then { first, next } = *self;
        let ghost rel_first = first.rel();
        let (s1, r) = first.0.run_once(s);
        match r {
            Ok(a) => {
                assert(rel_first(s, (s1, Ok::<A, E>(a))));
                let m = next(a);
                let o = m.0.run_once(s1);
                assert(m.rel()(s1, o));
                assert(cont_either(next)(a)(s1, o));
                o
            },
            Err(e) => {
                assert(rel_first(s, (s1, Err::<A, E>(e))));
                (s1, Err(e))
            },
        }
    }
}

impl<'a, S, A: 'a, E> StateEither<'a, S, A, E> {
    /// A computation that succeeds with `a` and leaves the state as it is.
    pub fn lift(a: A) -> (r: Self)
        ensures
            r.wf(),
            r.rel() == pure_either::<S, A, E>(a),
    {
        let r = StateEither(Box::new(Lifted(a)));
        assert(r.rel() =~= pure_either::<S, A, E>(a));
        r
    }

    /// Runs this computation; where it fails, stops with its failure and
    /// state, and `f` is never called; where it succeeds, hands its value to
    /// `f` and runs what `f` builds on the state that this one left.
    pub fn and_then<B, F>(self, f: F) -> (r: StateEither<'a, S, B, E>)
        where
            F: FnOnce(A) -> StateEither<'a, S, B, E> + 'a,
            S: 'a,
            E: 'a,
        requires
            self.wf(),
            builds_ready_either(f),
        ensures
            r.wf(),
            r.rel() == bind_either(self.rel(), cont_either(f)),
    {
        let r = StateEither(Box::new(Then { first: self, next: f }));
        assert(r.rel() =~= bind_either(self.rel(), cont_either(f)));
        r
    }
}

/// A computation that succeeds with a clone of the state and leaves it as it
/// is.
pub fn getste<'a, S: Clone, E>() -> (r: StateEither<'a, S, S, E>)
    ensures
        r.wf(),
        r.rel() == get_either::<S, E>(),
{
    let r = StateEither(Box::new(Get));
    assert(r.rel() =~= get_either::<S, E>());
    r
}

/// A computation that replaces the state by `snew` and succeeds.
pub fn putste<'a, SNEW: 'a, E>(snew: SNEW) -> (r: StateEither<'a, SNEW, (), E>)
    ensures
        r.wf(),
        r.rel() == put_either::<SNEW, E>(snew),
{
    let ghost v = snew;
    let r = StateEither(Box::new(Put(snew)));
    assert(r.rel() =~= put_either::<SNEW, E>(v));
    r
}

/// A computation that fails with `e` and keeps the state.
pub fn throwste<'a, S, A, E: 'a>(e: E) -> (r: StateEither<'a, S, A, E>)
    ensures
        r.wf(),
        r.rel() == throw_either::<S, A, E>(e),
{
    let ghost v = e;
    let r = StateEither(Box::new(Throw(e)));
    assert(r.rel() =~= throw_either::<S, A, E>(v));
    r
}

/// Drives `ma` from the state `s`, giving the final state and the outcome.
pub fn run_state_either<'a, S, A, E>(s: S, ma: StateEither<'a, S, A, E>) -> (r: (S, Result<A, E>))
    requires
        ma.wf(),
    ensures
        ma.rel()(s, r),
{
    ma.0.run_once(s)
}


/// Sequencing a computation with the step that lifts its own value changes
/// no outcome.
pub proof fn law_right_identity<S, A, E>(m: EitherRel<S, A, E>)
    ensures
        bind_either(m, |a: A| pure_either::<S, A, E>(a)) == m,
{
    let lhs = bind_either(m, |a: A| pure_either::<S, A, E>(a));
    assert forall|s: S, o: (S, Result<A, E>)| #[trigger] lhs(s, o) <==> m(s, o) by {
        if m(s, o) {
            match o.1 {
                Ok(a) => assert(pure_either::<S, A, E>(a)(o.0, o)),
                Err(e) => assert(m(s, (o.0, Err::<A, E>(e)))),
            }
        }
    }
    assert(lhs =~= m);
}

/// Sequencing a lifted value with a step constructor is the computation that
/// the constructor builds from that value.
pub proof fn law_left_identity<S, A, B, E>(a: A, k: spec_fn(A) -> EitherRel<S, B, E>)
    ensures
        bind_either(pure_either::<S, A, E>(a), k) == k(a),
{
    let lhs = bind_either(pure_either::<S, A, E>(a), k);
    assert forall|s: S, o: (S, Result<B, E>)| #[trigger] lhs(s, o) <==> k(a)(s, o) by {
        assert(pure_either::<S, A, E>(a)(s, (s, Ok::<A, E>(a))));
    }
    assert(lhs =~= k(a));
}

/// Sequencing `m` then `k1` then `k2` gives the outcomes of sequencing `m`
/// with the composition of `k1` and `k2`.
pub proof fn law_associative<S, A, B, C, E>(
    m: EitherRel<S, A, E>,
    k1: spec_fn(A) -> EitherRel<S, B, E>,
    k2: spec_fn(B) -> EitherRel<S, C, E>,
)
    ensures
        bind_either(bind_either(m, k1), k2) == bind_either(m, |a: A| bind_either(k1(a), k2)),
{
    let mk1 = bind_either(m, k1);
    let lhs = bind_either(mk1, k2);
    let rhs = bind_either(m, |a: A| bind_either(k1(a), k2));
    assert forall|s: S, o: (S, Result<C, E>)| #[trigger] lhs(s, o) <==> rhs(s, o) by {
        if lhs(s, o) {
            if exists|s2: S, e: E| #[trigger] mk1(s, (s2, Err::<B, E>(e))) && o == (s2, Err::<C, E>(e)) {
                let (s2, e) = choose|s2: S, e: E| #[trigger] mk1(s, (s2, Err::<B, E>(e))) && o == (s2, Err::<C, E>(e));
                if exists|s1: S, e1: E| #[trigger] m(s, (s1, Err::<A, E>(e1))) && (s2, Err::<B, E>(e)) == (s1, Err::<B, E>(e1)) {
                    let (s1, e1) = choose|s1: S, e1: E| #[trigger] m(s, (s1, Err::<A, E>(e1))) && (s2, Err::<B, E>(e)) == (s1, Err::<B, E>(e1));
                    assert(m(s, (s2, Err::<A, E>(e))));
                } else {
                    let (a, s1) = choose|a: A, s1: S| #[trigger] m(s, (s1, Ok::<A, E>(a))) && k1(a)(s1, (s2, Err::<B, E>(e)));
                    assert(bind_either(k1(a), k2)(s1, o));
                }
            } else {
                let (b, s2) = choose|b: B, s2: S| #[trigger] mk1(s, (s2, Ok::<B, E>(b))) && k2(b)(s2, o);
                let (a, s1) = choose|a: A, s1: S| #[trigger] m(s, (s1, Ok::<A, E>(a))) && k1(a)(s1, (s2, Ok::<B, E>(b)));
                assert(bind_either(k1(a), k2)(s1, o));
            }
        }
        if rhs(s, o) {
            if exists|s1: S, e: E| #[trigger] m(s, (s1, Err::<A, E>(e))) && o == (s1, Err::<C, E>(e)) {
                let (s1, e) = choose|s1: S, e: E| #[trigger] m(s, (s1, Err::<A, E>(e))) && o == (s1, Err::<C, E>(e));
                assert(mk1(s, (s1, Err::<B, E>(e))));
            } else {
                let (a, s1) = choose|a: A, s1: S| #[trigger] m(s, (s1, Ok::<A, E>(a))) && bind_either(k1(a), k2)(s1, o);
                if exists|s2: S, e: E| #[trigger] k1(a)(s1, (s2, Err::<B, E>(e))) && o == (s2, Err::<C, E>(e)) {
                    let (s2, e) = choose|s2: S, e: E| #[trigger] k1(a)(s1, (s2, Err::<B, E>(e))) && o == (s2, Err::<C, E>(e));
                    assert(mk1(s, (s2, Err::<B, E>(e))));
                } else {
                    let (b, s2) = choose|b: B, s2: S| #[trigger] k1(a)(s1, (s2, Ok::<B, E>(b))) && k2(b)(s2, o);
                    assert(mk1(s, (s2, Ok::<B, E>(b))));
                }
            }
        }
    }
    assert(lhs =~= rhs);
}

/// Where every outcome of `m` from `s` is a failure, sequencing `m` with any
/// step constructor gives exactly those failures, with the state that `m`
/// left: the steps after it play no part.
pub proof fn law_short_circuit<S, A, B, E>(m: EitherRel<S, A, E>, k: spec_fn(A) -> EitherRel<S, B, E>, s: S, o: (S, Result<B, E>))
    requires
        forall|o1: (S, Result<A, E>)| #[trigger] m(s, o1) ==> o1.1 is Err,
    ensures
        bind_either(m, k)(s, o) <==> exists|e: E| #[trigger] m(s, (o.0, Err::<A, E>(e))) && o.1 == Err::<B, E>(e),
{
    if exists|a: A, s1: S| #[trigger] m(s, (s1, Ok::<A, E>(a))) && k(a)(s1, o) {
        let (a, s1) = choose|a: A, s1: S| #[trigger] m(s, (s1, Ok::<A, E>(a))) && k(a)(s1, o);
        assert(m(s, (s1, Ok::<A, E>(a))));
    }
    if exists|s1: S, e: E| #[trigger] m(s, (s1, Err::<A, E>(e))) && o == (s1, Err::<B, E>(e)) {
        let (s1, e) = choose|s1: S, e: E| #[trigger] m(s, (s1, Err::<A, E>(e))) && o == (s1, Err::<B, E>(e));
        assert(m(s, (o.0, Err::<A, E>(e))) && o.1 == Err::<B, E>(e));
    }
    if exists|e: E| #[trigger] m(s, (o.0, Err::<A, E>(e))) && o.1 == Err::<B, E>(e) {
        let e = choose|e: E| #[trigger] m(s, (o.0, Err::<A, E>(e))) && o.1 == Err::<B, E>(e);
        assert(m(s, (o.0, Err::<A, E>(e))) && o == (o.0, Err::<B, E>(e)));
    }
}

/// Reading the state, replacing it by `x` and reading it again succeeds in
/// the state `x` with a clone of `x` as the value, whatever the initial
/// state.
pub proof fn law_get_put_get<S: Clone, E>(s: S, x: S, o: (S, Result<S, E>))
    ensures
        bind_either(get_either::<S, E>(), |v: S| bind_either(put_either::<S, E>(x), |u: ()| get_either::<S, E>()))(s, o)
            <==> (o.0 == x && o.1 is Ok && cloned(x, o.1->Ok_0)),
{
    let after_get = |v: S| bind_either(put_either::<S, E>(x), |u: ()| get_either::<S, E>());
    let whole = bind_either(get_either::<S, E>(), after_get);
    if o.0 == x && o.1 is Ok && cloned(x, o.1->Ok_0) {
        assert(put_either::<S, E>(x)(s, (x, Ok::<(), E>(()))));
        assert(after_get(s)(s, o));
        assert(get_either::<S, E>()(s, (s, Ok::<S, E>(s))));
    }
    if whole(s, o) {
        let (a, s1) = choose|a: S, s1: S| #[trigger] get_either::<S, E>()(s, (s1, Ok::<S, E>(a))) && after_get(a)(s1, o);
        assert(after_get(a)(s1, o));
    }
}

} // verus!
