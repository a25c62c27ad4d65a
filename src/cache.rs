//! The caches of direct evaluation, both keyed by the literal text of an
//! expression: parsed expressions and results. They only grow.

use crate::evaluator::EvalError;
use crate::textmap::{lemma_lookup_upsert, lookup, upsert, TextMap};
use vstd::prelude::*;

verus! {

/// Parsed expressions of type `T` and results of type `V`, by literal text.
pub struct EvalCache<T, V> {
    trees: TextMap<T>,
    results: TextMap<V>,
}

impl<T, V> EvalCache<T, V> {
    pub closed spec fn trees(&self) -> Seq<(Seq<char>, T)> {
        self.trees.view()
    }

    pub closed spec fn results(&self) -> Seq<(Seq<char>, V)> {
        self.results.view()
    }

    pub closed spec fn wf(&self) -> bool {
        self.trees.wf() && self.results.wf()
    }

    pub fn new() -> (r: Self)
        ensures
            r.wf(),
            r.trees() == Seq::<(Seq<char>, T)>::empty(),
            r.results() == Seq::<(Seq<char>, V)>::empty(),
    {
        EvalCache { trees: TextMap::new(), results: TextMap::new() }
    }

    /// The result stored for `text`.
    pub fn cached_result(&self, text: &str) -> (r: Option<&V>)
        ensures
            r matches Some(v) ==> lookup(self.results(), text@) == Some(*v),
            r is None ==> lookup(self.results(), text@) is None,
    {
        self.results.get(text)
    }

    /// The parsed expression stored for `text`.
    pub fn cached_tree(&self, text: &str) -> (r: Option<&T>)
        ensures
            r matches Some(t) ==> lookup(self.trees(), text@) == Some(*t),
            r is None ==> lookup(self.trees(), text@) is None,
    {
        self.trees.get(text)
    }

    /// Stores the parsed expression of `text`.
    pub fn store_tree(&mut self, text: String, t: T)
        requires
            old(self).wf(),
        ensures
            final(self).wf(),
            final(self).trees() == upsert(old(self).trees(), text@, t),
            final(self).results() == old(self).results(),
    {
        self.trees.insert(text, t);
    }

    /// Stores the result of `text`.
    pub fn store_result(&mut self, text: String, v: V)
        requires
            old(self).wf(),
        ensures
            final(self).wf(),
            final(self).results() == upsert(old(self).results(), text@, v),
            final(self).trees() == old(self).trees(),
    {
        self.results.insert(text, v);
    }
}

/// What an evaluation of `text` through the caches `before` leaves: a stored
/// result is returned with the caches unchanged; a new result is stored;
/// a failure leaves the results as they were.
pub open spec fn evaluation_post<T, V>(
    before: EvalCache<T, V>,
    text: Seq<char>,
    r: Result<V, EvalError>,
    after: EvalCache<T, V>,
) -> bool {
    &&& lookup(before.results(), text) matches Some(v) ==> r == Ok::<V, EvalError>(v)
        && after.results() == before.results() && after.trees() == before.trees()
    &&& r matches Ok(v) ==> lookup(after.results(), text) == Some(v)
    &&& r is Err ==> after.results() == before.results()
}

impl<T, V: Copy> EvalCache<T, V> {
    /// Evaluates `text` through the caches: a stored result is returned as it
    /// is; otherwise the stored parse of `text` is used, or `text` is parsed
    /// with `parse` and the parse stored, and the result of `eval` on it is
    /// stored when it succeeds. Failures are not stored.
    pub fn evaluate_with<P, E>(&mut self, text: &str, parse: P, eval: E) -> (r: Result<V, EvalError>)
        where
            P: Fn(&str) -> Result<T, EvalError>,
            E: Fn(&T) -> Result<V, EvalError>,
        requires
            old(self).wf(),
            forall|s: &str| parse.requires((s,)),
            forall|t: &T| eval.requires((t,)),
        ensures
            final(self).wf(),
            evaluation_post(*old(self), text@, r, *final(self)),
            lookup(old(self).results(), text@) is None ==> {
                &&& r matches Ok(v) ==> final(self).results() == upsert(
                    old(self).results(),
                    text@,
                    v,
                )
                &&& match lookup(old(self).trees(), text@) {
                    Some(t) => eval.ensures((&t,), r) && final(self).trees() == old(self).trees(),
                    None => exists|p: Result<T, EvalError>| #[trigger]
                        parse.ensures((text,), p) && match p {
                            Ok(t) => eval.ensures((&t,), r) && final(self).trees() == upsert(
                                old(self).trees(),
                                text@,
                                t,
                            ),
                            Err(e) => r == Err::<V, EvalError>(e) && final(self).trees()
                                == old(self).trees(),
                        },
                }
            },
    {
        if let Some(v) = self.cached_result(text) {
            return Ok(*v);
        }
        let v = match self.cached_tree(text) {
            Some(t) => eval(t)?,
            None => {
                let p = parse(text);
                let t = match p {
                    Ok(t) => t,
                    Err(e) => return Err(e),
                };
                let e = eval(&t);
                self.store_tree(text.to_owned(), t);
                e?
            },
        };
        self.store_result(text.to_owned(), v);
        proof {
            lemma_lookup_upsert(old(self).results(), text@, v);
        }
        Ok(v)
    }
}

/// Evaluating the same text twice in a row gives the same value both times
/// when the first succeeds, and the second leaves both caches as they were:
/// it neither parses nor evaluates again.
pub proof fn lemma_repeat_evaluation<T, V>(
    c0: EvalCache<T, V>,
    c1: EvalCache<T, V>,
    c2: EvalCache<T, V>,
    text: Seq<char>,
    r1: Result<V, EvalError>,
    r2: Result<V, EvalError>,
)
    requires
        evaluation_post(c0, text, r1, c1),
        evaluation_post(c1, text, r2, c2),
        r1 is Ok,
    ensures
        r2 == r1,
        c2.results() == c1.results(),
        c2.trees() == c1.trees(),
{
}

} // verus!
