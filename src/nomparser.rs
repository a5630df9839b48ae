//! The cursor shape: the remaining input is threaded through token-matching
//! steps of nom, and a match failure, with the input where it happened, ends
//! the chain.
//!
//! Its outcomes have the form of the result-wrapped shape with nom's error as
//! the error, so `bind_result` and `pure_result` describe its sequencing and
//! lifting, and the laws proved there hold of it too.
use vstd::prelude::*;
use crate::step::Step;
use crate::stateresult::{bind_result, pure_result, ResultRel};

verus! {

/// nom's parse failure, carried through unchanged.
#[verifier::external_type_specification]
#[verifier::external_body]
#[verifier::reject_recursive_types(E)]
pub struct ExNomErr<E>(nom::Err<E>);

/// nom's basic error: the input where matching failed and what failed.
#[verifier::external_type_specification]
#[verifier::external_body]
#[verifier::reject_recursive_types(I)]
pub struct ExNomError<I>(nom::error::Error<I>);

/// A computation of the cursor shape, not yet run.
#[verifier::reject_recursive_types(S)]
#[verifier::reject_recursive_types(A)]
#[verifier::reject_recursive_types(E)]
pub struct NomParser<'a, S, A, E = nom::error::Error<S>>(Box<dyn Step<S, nom::IResult<S, A, E>> + 'a>);

/// A computation of the cursor shape over string slices.
pub type NompStr<'a, A, S = &'a str, E = nom::error::Error<S>> = NomParser<'a, S, A, E>;

impl<'a, S, A, E> NomParser<'a, S, A, E> {
    /// The computation can be driven on any input.
    pub closed spec fn wf(&self) -> bool {
        self.0.ready()
    }

    /// The outcomes that driving the computation may give.
    pub closed spec fn rel(&self) -> ResultRel<S, A, nom::Err<E>> {
        |s: S, o: nom::IResult<S, A, E>| self.0.yields(s, o)
    }
}

/// The outcomes of running the matching primitive `f` on the input.
pub open spec fn primitive_rel<S, A, E, F: FnOnce(S) -> nom::IResult<S, A, E>>(f: F) -> ResultRel<S, A, nom::Err<E>> {
    |s: S, o: nom::IResult<S, A, E>| call_ensures(f, (s,), o)
}

/// The outcomes of feeding `a` to the step constructor `f` and driving what
/// it built.
pub open spec fn cont_nom<'a, S, A, B, E, F: FnOnce(A) -> NomParser<'a, S, B, E>>(f: F) -> spec_fn(A) -> ResultRel<S, B, nom::Err<E>> {
    |a: A| |s: S, o: nom::IResult<S, B, E>| exists|m: NomParser<'a, S, B, E>| #[trigger] call_ensures(f, (a,), m) && m.rel()(s, o)
}

/// `f` accepts every value and builds computations that can be driven.
pub open spec fn builds_ready_nom<'a, S, A, B, E, F: FnOnce(A) -> NomParser<'a, S, B, E>>(f: F) -> bool {
    &&& forall|a: A| call_requires(f, (a,))
    &&& forall|a: A, m: NomParser<'a, S, B, E>| #[trigger] call_ensures(f, (a,), m) ==> m.wf()
}

struct Lifted<A>(A);

impl<S, A, E> Step<S, nom::IResult<S, A, E>> for Lifted<A> {
    closed spec fn ready(&self) -> bool {
        true
    }

    closed spec fn yields(&self, s: S, o: nom::IResult<S, A, E>) -> bool {
        o == Ok::<(S, A), nom::Err<E>>((s, self.0))
    }

    fn run_once(self: Box<Self>, s: S) -> (o: nom::IResult<S, A, E>) {
        Ok((s, self.0))
    }
}

struct Primitive<F>(F);

impl<S, A, E, F: FnOnce(S) -> nom::IResult<S, A, E>> Step<S, nom::IResult<S, A, E>> for Primitive<F> {
    closed spec fn ready(&self) -> bool {
        forall|s: S| call_requires(self.0, (s,))
    }

    closed spec fn yields(&self, s: S, o: nom::IResult<S, A, E>) -> bool {
        call_ensures(self.0, (s,), o)
    }

    fn run_once(self: Box<Self>, s: S) -> (o: nom::IResult<S, A, E>) {
        let Primitive(f) = *self;
        f(s)
    }
}

#[verifier::reject_recursive_types(S)]
#[verifier::reject_recursive_types(A)]
#[verifier::reject_recursive_types(E)]
struct Then<'a, S, A, E, F> {
    first: NomParser<'a, S, A, E>,
    next: F,
}

impl<'a, S, A, B, E, F: FnOnce(A) -> NomParser<'a, S, B, E>> Step<S, nom::IResult<S, B, E>> for Then<'a, S, A, E, F> {
    closed spec fn ready(&self) -> bool {
        self.first.wf() && builds_ready_nom(self.next)
    }

    closed spec fn yields(&self, s: S, o: nom::IResult<S, B, E>) -> bool {
        bind_result(self.first.rel(), cont_nom(self.next))(s, o)
    }

    fn run_once(self: Box<Self>, s: S) -> (o: nom::IResult<S, B, E>) {
        let Then { first, next } = *self;
        let ghost rel_first = first.rel();
        match first.0.run_once(s) {
            Ok((s1, a)) => {
                assert(rel_first(s, Ok::<(S, A), nom::Err<E>>((s1, a))));
                let m = next(a);
                let o = m.0.run_once(s1);
                assert(m.rel()(s1, o));
                assert(cont_nom(next)(a)(s1, o));
                o
            },
            Err(e) => {
                assert(rel_first(s, Err::<(S, A), nom::Err<E>>(e)));
                Err(e)
            },
        }
    }
}

impl<'a, S, A: 'a, E> NomParser<'a, S, A, E> {
    /// A computation that succeeds with `a` and consumes no input.
    pub fn lift(a: A) -> (r: Self)
        ensures
            r.wf(),
            r.rel() == pure_result::<S, A, nom::Err<E>>(a),
    {
        let r = NomParser(Box::new(Lifted(a)));
        assert(r.rel() =~= pure_result::<S, A, nom::Err<E>>(a));
        r
    }

    /// Runs this computation; where it fails, stops with its failure, and
    /// `f` is never called; where it succeeds, hands its value to `f` and
    /// runs what `f` builds on the input that this one left.
    pub fn and_then<B, F>(self, f: F) -> (r: NomParser<'a, S, B, E>)
        where
            F: FnOnce(A) -> NomParser<'a, S, B, E> + 'a,
            A: 'a,
            E: 'a,
            S: 'a,
        requires
            self.wf(),
            builds_ready_nom(f),
        ensures
            r.wf(),
            r.rel() == bind_result(self.rel(), cont_nom(f)),
    {
        let r = NomParser(Box::new(Then { first: self, next: f }));
        assert(r.rel() =~= bind_result(self.rel(), cont_nom(f)));
        r
    }
}

/// Wraps the matching primitive `f`, which runs once, on the input that the
/// chain has reached, when the computation is driven.
pub fn nomp<'a, F, S, A, E>(f: F) -> (r: NomParser<'a, S, A, E>)
    where
        F: FnOnce(S) -> nom::IResult<S, A, E> + 'a,
    requires
        forall|s: S| call_requires(f, (s,)),
    ensures
        r.wf(),
        r.rel() == primitive_rel(f),
{
    let r = NomParser(Box::new(Primitive(f)));
    assert(r.rel() =~= primitive_rel(f));
    r
}

/// Drives `ma` on the input `s`, giving the remaining input and the value,
/// or the failure.
pub fn run_nomparser<'a, S, A, E>(s: S, ma: NomParser<'a, S, A, E>) -> (r: nom::IResult<S, A, E>)
    requires
        ma.wf(),
    ensures
        ma.rel()(s, r),
{
    ma.0.run_once(s)
}

} // verus!
