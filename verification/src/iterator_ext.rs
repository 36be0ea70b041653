//! Collecting results: all the values when every result is a value, else a
//! report for every error.

use vstd::prelude::*;
use crate::hooks::Hooks;
use crate::hooks::builtin_hooks::location::Location;
use crate::into_report::IntoReport;
use crate::report::{ReportCollection, hooks_value};

verus! {

/// The values among `s`, in order.
pub open spec fn oks<A, E>(s: Seq<Result<A, E>>) -> Seq<A>
    decreases s.len(),
{
    if s.len() == 0 {
        Seq::empty()
    } else {
        match s.last() {
            Ok(v) => oks(s.drop_last()).push(v),
            Err(_) => oks(s.drop_last()),
        }
    }
}

/// The errors among `s`, in order.
pub open spec fn errs<A, E>(s: Seq<Result<A, E>>) -> Seq<E>
    decreases s.len(),
{
    if s.len() == 0 {
        Seq::empty()
    } else {
        match s.last() {
            Ok(_) => errs(s.drop_last()),
            Err(e) => errs(s.drop_last()).push(e),
        }
    }
}

/// Collecting a sequence of results.
pub trait IteratorExt<A, E>: Sized {
    /// All the values, in order, when there is no error; else the reports
    /// that the errors become, in order.
    fn collect_reports_vec(self, hooks: Option<&Hooks>, location: Location) -> Result<Vec<A>, ReportCollection>
        where
            E: IntoReport,
    ;
}

impl<A, E> IteratorExt<A, E> for Vec<Result<A, E>> {
    fn collect_reports_vec(self, hooks: Option<&Hooks>, location: Location) -> (res: Result<Vec<A>, ReportCollection>)
        where
            E: IntoReport,
        ensures
            match res {
                Ok(v) => errs(self@).len() == 0 && v@ == oks(self@),
                Err(c) => {
                    &&& errs(self@).len() > 0
                    &&& c@.len() == errs(self@).len()
                    &&& forall|i: int|
                        0 <= i < c@.len() ==> #[trigger] errs(self@)[i].spec_into_report(
                            hooks_value(hooks),
                            location,
                            c@[i],
                        )
                },
            },
    {
        let ghost s = self@;
        let n = self.len();
        let mut items = self;
        let mut rev: Vec<Result<A, E>> = Vec::new();
        while items.len() > 0
            invariant
                items@.len() + rev@.len() == n,
                n == s.len(),
                forall|i: int| 0 <= i < items@.len() ==> #[trigger] items@[i] == s[i],
                forall|i: int| 0 <= i < rev@.len() ==> #[trigger] rev@[i] == s[n - 1 - i],
            decreases items@.len(),
        {
            let x = items.pop().unwrap();
            rev.push(x);
        }
        let mut out: Vec<A> = Vec::new();
        let mut errors: Option<ReportCollection> = None;
        let mut j: usize = 0;
        while j < n
            invariant
                j <= n,
                n == s.len(),
                rev@.len() == n - j,
                forall|i: int| 0 <= i < rev@.len() ==> #[trigger] rev@[i] == s[n - 1 - i],
                match errors {
                    None => errs(s.take(j as int)).len() == 0 && out@ == oks(s.take(j as int)),
                    Some(c) => {
                        &&& errs(s.take(j as int)).len() > 0
                        &&& c@.len() == errs(s.take(j as int)).len()
                        &&& forall|i: int|
                            0 <= i < c@.len() ==> #[trigger] errs(s.take(j as int))[i].spec_into_report(
                                hooks_value(hooks),
                                location,
                                c@[i],
                            )
                    },
                },
            decreases n - j,
        {
            let x = rev.pop().unwrap();
            proof {
                assert(x == s[j as int]);
                assert(s.take(j + 1).drop_last() =~= s.take(j as int));
                assert(s.take(j + 1).last() == s[j as int]);
            }
            match x {
                Ok(v) => {
                    if errors.is_none() {
                        out.push(v);
                    }
                },
                Err(e) => {
                    let ghost prev = errs(s.take(j as int));
                    let ghost ev = e;
                    let r = e.into_report(hooks, location);
                    let ghost rv = r@;
                    match errors {
                        Some(mut c) => {
                            let ghost cv = c@;
                            c.push(r);
                            proof {
                                assert forall|i: int| 0 <= i < c@.len() implies #[trigger] errs(s.take(j + 1))[i].spec_into_report(
                                    hooks_value(hooks),
                                    location,
                                    c@[i],
                                ) by {
                                    if i < cv.len() {
                                        assert(c@[i] == cv[i]);
                                        assert(errs(s.take(j + 1))[i] == prev[i]);
                                    } else {
                                        assert(c@[i] == rv);
                                        assert(errs(s.take(j + 1))[i] == ev);
                                    }
                                }
                            }
                            errors = Some(c);
                        },
                        None => {
                            let mut c = ReportCollection::new();
                            c.push(r);
                            proof {
                                assert(prev.len() == 0);
                                assert(errs(s.take(j + 1)) =~= seq![ev]);
                                assert(c@ =~= seq![rv]);
                            }
                            errors = Some(c);
                        },
                    }
                },
            }
            j = j + 1;
        }
        assert(s.take(n as int) =~= s);
        match errors {
            Some(c) => Err(c),
            None => Ok(out),
        }
    }
}

} // verus!
