//! The result-wrapped shape: a state is threaded through the steps, and the
//! whole (state, value) pair sits in one outcome; a failure drops the state
//! and stops the chain.
use vstd::prelude::*;
use crate::step::Step;

verus! {

/// What a computation of this shape may do: relates an initial state to an
/// outcome that holds the final state and the value, or an error.
pub type ResultRel<S, A, E> = spec_fn(S, Result<(S, A), E>) -> bool;

/// Succeeds with `a` and leaves the state as it is.
pub open spec fn pure_result<S, A, E>(a: A) -> ResultRel<S, A, E> {
    |s: S, o: Result<(S, A), E>| o == Ok::<(S, A), E>((s, a))
}

/// Runs `m`; where it fails, that failure is the outcome; where it
/// succeeds, runs the computation that `k` gives for its value on the state
/// that `m` left.
pub open spec fn bind_result<S, A, B, E>(m: ResultRel<S, A, E>, k: spec_fn(A) -> ResultRel<S, B, E>) -> ResultRel<S, B, E> {
    |s: S, o: Result<(S, B), E>|
        (exists|e: E| #[trigger] m(s, Err::<(S, A), E>(e)) && o == Err::<(S, B), E>(e))
        || (exists|s1: S, a: A| #[trigger] m(s, Ok::<(S, A), E>((s1, a))) && k(a)(s1, o))
}

/// Succeeds with a clone of the state and leaves the state as it is.
pub open spec fn get_result<S: Clone, E>() -> ResultRel<S, S, E> {
    |s: S, o: Result<(S, S), E>| match o {
        Ok((s1, v)) => s1 == s && cloned(s, v),
        Err(_) => false,
    }
}

/// Replaces the state by `v` and succeeds.
pub open spec fn put_result<S, E>(v: S) -> ResultRel<S, (), E> {
    |s: S, o: Result<(S, ()), E>| o == Ok::<(S, ()), E>((v, ()))
}

/// Fails with `e`.
pub open spec fn throw_result<S, A, E>(e: E) -> ResultRel<S, A, E> {
    |s: S, o: Result<(S, A), E>| o == Err::<(S, A), E>(e)
}

/// A computation of the result-wrapped shape, not yet run.
#[verifier::reject_recursive_types(S)]
#[verifier::reject_recursive_types(A)]
#[verifier::reject_recursive_types(E)]
pub struct StateResult<'a, S, A, E>(Box<dyn Step<S, Result<(S, A), E>> + 'a>);

impl<'a, S, A, E> StateResult<'a, S, A, E> {
    /// The computation can be driven on any state.
    pub closed spec fn wf(&self) -> bool {
        self.0.ready()
    }

    /// The outcomes that driving the computation may give.
    pub closed spec fn rel(&self) -> ResultRel<S, A, E> {
        |s: S, o: Result<(S, A), E>| self.0.yields(s, o)
    }
}

/// The outcomes of feeding `a` to the step constructor `f` and driving what
/// it built.
pub open spec fn cont_result<'a, S, A, B, E, F: FnOnce(A) -> StateResult<'a, S, B, E>>(f: F) -> spec_fn(A) -> ResultRel<S, B, E> {
    |a: A| |s: S, o: Result<(S, B), E>| exists|m: StateResult<'a, S, B, E>| #[trigger] call_ensures(f, (a,), m) && m.rel()(s, o)
}

/// `f` accepts every value and builds computations that can be driven.
pub open spec fn builds_ready_result<'a, S, A, B, E, F: FnOnce(A) -> StateResult<'a, S, B, E>>(f: F) -> bool {
    &&& forall|a: A| call_requires(f, (a,))
    &&& forall|a: A, m: StateResult<'a, S, B, E>| #[trigger] call_ensures(f, (a,), m) ==> m.wf()
}

struct Lifted<A>(A);

impl<S, A, E> Step<S, Result<(S, A), E>> for Lifted<A> {
    closed spec fn ready(&self) -> bool {
        true
    }

    closed spec fn yields(&self, s: S, o: Result<(S, A), E>) -> bool {
        o == Ok::<(S, A), E>((s, self.0))
    }

    fn run_once(self: Box<Self>, s: S) -> (o: Result<(S, A), E>) {
        Ok((s, self.0))
    }
}

struct Get;

impl<S: Clone, E> Step<S, Result<(S, S), E>> for Get {
    closed spec fn ready(&self) -> bool {
        true
    }

    closed spec fn yields(&self, s: S, o: Result<(S, S), E>) -> bool {
        get_result()(s, o)
    }

    fn run_once(self: Box<Self>, s: S) -> (o: Result<(S, S), E>) {
        let v = s.clone();
        Ok((s, v))
    }
}

struct Put<S>(S);

impl<S, E> Step<S, Result<(S, ()), E>> for Put<S> {
    closed spec fn ready(&self) -> bool {
        true
    }

    closed spec fn yields(&self, s: S, o: Result<(S, ()), E>) -> bool {
        o == Ok::<(S, ()), E>((self.0, ()))
    }

    fn run_once(self: Box<Self>, s: S) -> (o: Result<(S, ()), E>) {
        Ok((self.0, ()))
    }
}

struct Throw<E>(E);

impl<S, A, E> Step<S, Result<(S, A), E>> for Throw<E> {
    closed spec fn ready(&self) -> bool {
        true
    }

    closed spec fn yields(&self, s: S, o: Result<(S, A), E>) -> bool {
        o == Err::<(S, A), E>(self.0)
    }

    fn run_once(self: Box<Self>, s: S) -> (o: Result<(S, A), E>) {
        Err(self.0)
    }
}

#[verifier::reject_recursive_types(S)]
#[verifier::reject_recursive_types(A)]
#[verifier::reject_recursive_types(E)]
struct Then<'a, S, A, E, F> {
    first: StateResult<'a, S, A, E>,
    next: F,
}

impl<'a, S, A, B, E, F: FnOnce(A) -> StateResult<'a, S, B, E>> Step<S, Result<(S, B), E>> for Then<'a, S, A, E, F> {
    closed spec fn ready(&self) -> bool {
        self.first.wf() && builds_ready_result(self.next)
    }

    closed spec fn yields(&self, s: S, o: Result<(S, B), E>) -> bool {
        bind_result(self.first.rel(), cont_result(self.next))(s, o)
    }

    fn run_once(self: Box<Self>, s: S) -> (o: Result<(S, B), E>) {
        let Then { first, next } = *self;
        let ghost rel_first = first.rel();
        match first.0.run_once(s) {
            Ok((s1, a)) => {
                assert(rel_first(s, Ok::<(S, A), E>((s1, a))));
                let m = next(a);
                let o = m.0.run_once(s1);
                assert(m.rel()(s1, o));
                assert(cont_result(next)(a)(s1, o));
                o
            },
            Err(e) => {
                assert(rel_first(s, Err::<(S, A), E>(e)));
                Err(e)
            },
        }
    }
}

impl<'a, S, A: 'a, E> StateResult<'a, S, A, E> {
    /// A computation that succeeds with `a` and leaves the state as it is.
    pub fn lift(a: A) -> (r: Self)
        ensures
            r.wf(),
            r.rel() == pure_result::<S, A, E>(a),
    {
        let r = StateResult(Box::new(Lifted(a)));
        assert(r.rel() =~= pure_result::<S, A, E>(a));
        r
    }

    /// Runs this computation; where it fails, stops with its error, and `f`
    /// is never called; where it succeeds, hands its value to `f` and runs
    /// what `f` builds on the state that this one left.
    pub fn and_then<B, F>(self, f: F) -> (r: StateResult<'a, S, B, E>)
        where
            F: FnOnce(A) -> StateResult<'a, S, B, E> + 'a,
            S: 'a,
            E: 'a,
        requires
            self.wf(),
            builds_ready_result(f),
        ensures
            r.wf(),
            r.rel() == bind_result(self.rel(), cont_result(f)),
    {
        let r = StateResult(Box::new(Then { first: self, next: f }));
        assert(r.rel() =~= bind_result(self.rel(), cont_result(f)));
        r
    }
}

/// A computation that succeeds with a clone of the state and leaves it as it
/// is.
pub fn getstres<'a, S: Clone, E>() -> (r: StateResult<'a, S, S, E>)
    ensures
        r.wf(),
        r.rel() == get_result::<S, E>(),
{
    let r = StateResult(Box::new(Get));
    assert(r.rel() =~= get_result::<S, E>());
    r
}

/// A computation that replaces the state by `snew` and succeeds.
pub fn putstres<'a, SNEW: 'a, E>(snew: SNEW) -> (r: StateResult<'a, SNEW, (), E>)
    ensures
        r.wf(),
        r.rel() == put_result::<SNEW, E>(snew),
{
    let ghost v = snew;
    let r = StateResult(Box::new(Put(snew)));
    assert(r.rel() =~= put_result::<SNEW, E>(v));
    r
}

/// A computation that fails with `e`, whatever the state.
pub fn throwstres<'a, S, A, E: 'a>(e: E) -> (r: StateResult<'a, S, A, E>)
    ensures
        r.wf(),
        r.rel() == throw_result::<S, A, E>(e),
{
    let ghost v = e;
    let r = StateResult(Box::new(Throw(e)));
    assert(r.rel() =~= throw_result::<S, A, E>(v));
    r
}

/// Drives `ma` from the state `s`, giving the final state and the value, or
/// the error.
pub fn run_state_result<'a, S, A, E>(s: S, ma: StateResult<'a, S, A, E>) -> (r: Result<(S, A), E>)
    requires
        ma.wf(),
    ensures
        ma.rel()(s, r),
{
    ma.0.run_once(s)
}

/// Sequencing a computation with the step that lifts its own value changes
/// no outcome.
pub proof fn law_right_identity<S, A, E>(m: ResultRel<S, A, E>)
    ensures
        bind_result(m, |a: A| pure_result::<S, A, E>(a)) == m,
{
    let lhs = bind_result(m, |a: A| pure_result::<S, A, E>(a));
    assert forall|s: S, o: Result<(S, A), E>| #[trigger] lhs(s, o) <==> m(s, o) by {
        if m(s, o) {
            match o {
                Ok((s1, a)) => assert(pure_result::<S, A, E>(a)(s1, o)),
                Err(e) => assert(m(s, Err::<(S, A), E>(e))),
            }
        }
    }
    assert(lhs =~= m);
}

/// Sequencing a lifted value with a step constructor is the computation that
/// the constructor builds from that value.
pub proof fn law_left_identity<S, A, B, E>(a: A, k: spec_fn(A) -> ResultRel<S, B, E>)
    ensures
        bind_result(pure_result::<S, A, E>(a), k) == k(a),
{
    let lhs = bind_result(pure_result::<S, A, E>(a), k);
    assert forall|s: S, o: Result<(S, B), E>| #[trigger] lhs(s, o) <==> k(a)(s, o) by {
        assert(pure_result::<S, A, E>(a)(s, Ok::<(S, A), E>((s, a))));
    }
    assert(lhs =~= k(a));
}

/// Sequencing `m` then `k1` then `k2` gives the outcomes of sequencing `m`
/// with the composition of `k1` and `k2`.
pub proof fn law_associative<S, A, B, C, E>(
    m: ResultRel<S, A, E>,
    k1: spec_fn(A) -> ResultRel<S, B, E>,
    k2: spec_fn(B) -> ResultRel<S, C, E>,
)
    ensures
        bind_result(bind_result(m, k1), k2) == bind_result(m, |a: A| bind_result(k1(a), k2)),
{
    let mk1 = bind_result(m, k1);
    let lhs = bind_result(mk1, k2);
    let rhs = bind_result(m, |a: A| bind_result(k1(a), k2));
    assert forall|s: S, o: Result<(S, C), E>| #[trigger] lhs(s, o) <==> rhs(s, o) by {
        if lhs(s, o) {
            if exists|e: E| #[trigger] mk1(s, Err::<(S, B), E>(e)) && o == Err::<(S, C), E>(e) {
                let e = choose|e: E| #[trigger] mk1(s, Err::<(S, B), E>(e)) && o == Err::<(S, C), E>(e);
                if exists|e1: E| #[trigger] m(s, Err::<(S, A), E>(e1)) && Err::<(S, B), E>(e) == Err::<(S, B), E>(e1) {
                    let e1 = choose|e1: E| #[trigger] m(s, Err::<(S, A), E>(e1)) && Err::<(S, B), E>(e) == Err::<(S, B), E>(e1);
                    assert(m(s, Err::<(S, A), E>(e)));
                } else {
                    let (s1, a) = choose|s1: S, a: A| #[trigger] m(s, Ok::<(S, A), E>((s1, a))) && k1(a)(s1, Err::<(S, B), E>(e));
                    assert(bind_result(k1(a), k2)(s1, o));
                }
            } else {
                let (s2, b) = choose|s2: S, b: B| #[trigger] mk1(s, Ok::<(S, B), E>((s2, b))) && k2(b)(s2, o);
                let (s1, a) = choose|s1: S, a: A| #[trigger] m(s, Ok::<(S, A), E>((s1, a))) && k1(a)(s1, Ok::<(S, B), E>((s2, b)));
                assert(bind_result(k1(a), k2)(s1, o));
            }
        }
        if rhs(s, o) {
            if exists|e: E| #[trigger] m(s, Err::<(S, A), E>(e)) && o == Err::<(S, C), E>(e) {
                let e = choose|e: E| #[trigger] m(s, Err::<(S, A), E>(e)) && o == Err::<(S, C), E>(e);
                assert(mk1(s, Err::<(S, B), E>(e)));
            } else {
                let (s1, a) = choose|s1: S, a: A| #[trigger] m(s, Ok::<(S, A), E>((s1, a))) && bind_result(k1(a), k2)(s1, o);
                if exists|e: E| #[trigger] k1(a)(s1, Err::<(S, B), E>(e)) && o == Err::<(S, C), E>(e) {
                    let e = choose|e: E| #[trigger] k1(a)(s1, Err::<(S, B), E>(e)) && o == Err::<(S, C), E>(e);
                    assert(mk1(s, Err::<(S, B), E>(e)));
                } else {
                    let (s2, b) = choose|s2: S, b: B| #[trigger] k1(a)(s1, Ok::<(S, B), E>((s2, b))) && k2(b)(s2, o);
                    assert(mk1(s, Ok::<(S, B), E>((s2, b))));
                }
            }
        }
    }
    assert(lhs =~= rhs);
}

/// Where every outcome of `m` from `s` is a failure, sequencing `m` with any
/// step constructor gives exactly those failures: the steps after it play no
/// part.
pub proof fn law_short_circuit<S, A, B, E>(m: ResultRel<S, A, E>, k: spec_fn(A) -> ResultRel<S, B, E>, s: S, o: Result<(S, B), E>)
    requires
        forall|o1: Result<(S, A), E>| #[trigger] m(s, o1) ==> o1 is Err,
    ensures
        bind_result(m, k)(s, o) <==> exists|e: E| #[trigger] m(s, Err::<(S, A), E>(e)) && o == Err::<(S, B), E>(e),
{
    if exists|s1: S, a: A| #[trigger] m(s, Ok::<(S, A), E>((s1, a))) && k(a)(s1, o) {
        let (s1, a) = choose|s1: S, a: A| #[trigger] m(s, Ok::<(S, A), E>((s1, a))) && k(a)(s1, o);
        assert(m(s, Ok::<(S, A), E>((s1, a))));
    }
}

/// Reading the state, replacing it by `x` and reading it again succeeds in
/// the state `x` with a clone of `x` as the value, whatever the initial
/// state.
pub proof fn law_get_put_get<S: Clone, E>(s: S, x: S, o: Result<(S, S), E>)
    ensures
        bind_result(get_result::<S, E>(), |v: S| bind_result(put_result::<S, E>(x), |u: ()| get_result::<S, E>()))(s, o)
            <==> (o is Ok && o->Ok_0.0 == x && cloned(x, o->Ok_0.1)),
{
    let after_get = |v: S| bind_result(put_result::<S, E>(x), |u: ()| get_result::<S, E>());
    let whole = bind_result(get_result::<S, E>(), after_get);
    if o is Ok && o->Ok_0.0 == x && cloned(x, o->Ok_0.1) {
        assert(put_result::<S, E>(x)(s, Ok::<(S, ()), E>((x, ()))));
        assert(after_get(s)(s, o));
        assert(get_result::<S, E>()(s, Ok::<(S, S), E>((s, s))));
    }
    if whole(s, o) {
        let (s1, a) = choose|s1: S, a: S| #[trigger] get_result::<S, E>()(s, Ok::<(S, S), E>((s1, a))) && after_get(a)(s1, o);
        assert(after_get(a)(s1, o));
    }
}

} // verus!
