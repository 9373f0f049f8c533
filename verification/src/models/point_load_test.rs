//! Point Load Test data: depth-tagged rock-strength samples, one sequence per
//! borehole, and the reduction of several boreholes into one idealized
//! profile. Depths are in thousandths of a metre, strength indices in
//! thousandths of a megapascal, diameters in thousandths of a millimetre.
use vstd::prelude::*;

use crate::aggregate::{
    insert_sorted, lemma_sample_index_props, lemma_sample_skip, lemma_sorted_unique_eq,
    lemma_reduce_singleton, lemma_sample_index_own_key, lemma_policy_order, reduce, reduce_values,
    sample_index, strictly_increasing, MAX_DIMENSION, MAX_VALUE,
};
use crate::enums::SelectionMethod;
use crate::text::str_eq;
use crate::validation::{
    field_error, field_views, first_field_error, lemma_first_error_skip, validate_field,
    ValidationError,
};

verus! {

/// Represents an individual Point Load Test sample for determining rock strength.
///
/// # Fields
/// * `depth` - Depth of the sample in meters.
/// * `sample_no` - Optional identifier number for the tested sample.
/// * `p` - Optional applied load at failure in kiloNewtons (kN).
/// * `is` - Optional point load strength index in MegaPascals (MPa).
/// * `f` - Optional size correction factor.
/// * `is50` - Corrected point load strength index to 50 mm diameter in MegaPascals (MPa).
/// * `l` - Optional distance between load application points in millimeters (mm).
/// * `d` - Equivalent core diameter in millimeters (mm).
#[derive(Debug, Clone, Copy)]
pub struct PointLoadSample {
    pub depth: Option<i64>,
    pub sample_no: Option<u32>,
    pub p: Option<i64>,
    pub is: Option<i64>,
    pub f: Option<i64>,
    pub is50: Option<i64>,
    pub l: Option<i64>,
    pub d: Option<i64>,
}

/// The error that validating one named field of a `PointLoadSample` reports.
pub open spec fn pl_sample_field_error(s: PointLoadSample, f: Seq<char>) -> Option<
    (Seq<char>, Seq<char>),
> {
    if f == "depth"@ {
        field_error(f, s.depth, Some(0), None, "point_load_test"@)
    } else if f == "sample_no"@ {
        field_error(
            f,
            match s.sample_no {
                Some(n) => Some(n as i64),
                None => None,
            },
            Some(0),
            None,
            "point_load_test"@,
        )
    } else if f == "p"@ {
        field_error(f, s.p, Some(1), None, "point_load_test"@)
    } else if f == "is"@ {
        field_error(f, s.is, Some(1), None, "point_load_test"@)
    } else if f == "f"@ {
        field_error(f, s.f, Some(1), None, "point_load_test"@)
    } else if f == "is50"@ {
        field_error(f, s.is50, Some(1), None, "point_load_test"@)
    } else if f == "l"@ {
        field_error(f, s.l, Some(1), None, "point_load_test"@)
    } else if f == "d"@ {
        field_error(f, s.d, Some(1), None, "point_load_test"@)
    } else {
        Some(
            (
                "point_load_test.invalid_field"@,
                "Field '"@ + f + "' is not valid for Point Load Test."@,
            ),
        )
    }
}

impl PointLoadSample {
    /// A sample holding the corrected strength index and core diameter at a
    /// depth, with every other field absent.
    pub fn new(depth: i64, is50: i64, d: i64) -> (r: PointLoadSample)
        ensures
            r == (PointLoadSample {
                depth: Some(depth),
                sample_no: None,
                p: None,
                is: None,
                f: None,
                is50: Some(is50),
                l: None,
                d: Some(d),
            }),
    {
        PointLoadSample {
            depth: Some(depth),
            sample_no: None,
            p: None,
            is: None,
            f: None,
            is50: Some(is50),
            l: None,
            d: Some(d),
        }
    }

    /// Validates specific fields of the PointLoadSample using field names.
    ///
    /// # Arguments
    /// * `fields` - A slice of field names to validate.
    ///
    /// # Returns
    /// Ok(()) if all fields are valid, or the first error found.
    pub fn validate(&self, fields: &[&str]) -> (r: Result<(), ValidationError>)
        ensures
            ({
                let e = first_field_error(
                    field_views(fields@),
                    |f: Seq<char>| pl_sample_field_error(*self, f),
                );
                &&& r is Ok <==> e is None
                &&& r is Err ==> e == Some((r->Err_0.code@, r->Err_0.message@))
            }),
    {
        let ghost check = |f: Seq<char>| pl_sample_field_error(*self, f);
        let ghost views = field_views(fields@);
        let mut i: usize = 0;
        while i < fields.len()
            invariant
                0 <= i <= fields@.len(),
                views == field_views(fields@),
                check == (|f: Seq<char>| pl_sample_field_error(*self, f)),
                forall|j: int| 0 <= j < i ==> check(#[trigger] views[j]) is None,
            decreases fields@.len() - i,
        {
            let field = fields[i];
            let result: Result<(), ValidationError> = if str_eq(field, "depth") {
                validate_field("depth", self.depth, Some(0), None, "point_load_test")
            } else if str_eq(field, "sample_no") {
                let no: Option<i64> = match self.sample_no {
                    Some(n) => Some(n as i64),
                    None => None,
                };
                validate_field("sample_no", no, Some(0), None, "point_load_test")
            } else if str_eq(field, "p") {
                validate_field("p", self.p, Some(1), None, "point_load_test")
            } else if str_eq(field, "is") {
                validate_field("is", self.is, Some(1), None, "point_load_test")
            } else if str_eq(field, "f") {
                validate_field("f", self.f, Some(1), None, "point_load_test")
            } else if str_eq(field, "is50") {
                validate_field("is50", self.is50, Some(1), None, "point_load_test")
            } else if str_eq(field, "l") {
                validate_field("l", self.l, Some(1), None, "point_load_test")
            } else if str_eq(field, "d") {
                validate_field("d", self.d, Some(1), None, "point_load_test")
            } else {
                let mut msg = String::from_str("Field '");
                msg.append(field);
                msg.append("' is not valid for Point Load Test.");
                proof {
                    assert(msg@ =~= "Field '"@ + field@ + "' is not valid for Point Load Test."@);
                }
                Err(
                    ValidationError {
                        code: String::from_str("point_load_test.invalid_field"),
                        message: msg,
                    },
                )
            };
            proof {
                assert(views[i as int] == field@);
            }
            match result {
                Ok(()) => {},
                Err(e) => {
                    proof {
                        lemma_first_error_skip(views, check, i as int);
                        assert(views.skip(i as int)[0] == views[i as int]);
                    }
                    return Err(e);
                },
            }
            i = i + 1;
        }
        proof {
            lemma_first_error_skip(views, check, fields@.len() as int);
            assert(views.skip(views.len() as int) =~= Seq::<Seq<char>>::empty());
        }
        Ok(())
    }
}

/// Represents a single borehole containing multiple Point Load Test samples.
///
/// # Fields
/// * `borehole_id` - Identifier for the borehole.
/// * `samples` - Collection of Point Load Test samples taken from the borehole.
#[derive(Debug, Clone)]
pub struct PointLoadExp {
    pub borehole_id: String,
    pub samples: Vec<PointLoadSample>,
}

impl PointLoadExp {
    /// The depth of each sample, in order.
    pub open spec fn depth_keys(&self) -> Seq<i64> {
        self.samples@.map_values(|s: PointLoadSample| s.depth->0)
    }

    /// At least one sample, each with a depth.
    pub open spec fn depths_present(&self) -> bool {
        &&& self.samples@.len() > 0
        &&& forall|i: int| 0 <= i < self.samples@.len() ==> (#[trigger] self.samples@[i]).depth
            is Some
    }

    /// Samples complete and in range, as the idealization engine reads them.
    pub open spec fn records_wf(&self) -> bool {
        &&& self.depths_present()
        &&& forall|i: int| 0 <= i < self.samples@.len() ==> {
            let s = #[trigger] self.samples@[i];
            &&& 0 <= s.depth->0 <= MAX_DIMENSION
            &&& s.is50 is Some && 0 <= s.is50->0 <= MAX_VALUE
            &&& s.d is Some && 0 <= s.d->0 <= MAX_VALUE
        }
    }

    pub fn new(borehole_id: String, samples: Vec<PointLoadSample>) -> (r: PointLoadExp)
        ensures
            r.borehole_id == borehole_id,
            r.samples == samples,
    {
        PointLoadExp { borehole_id, samples }
    }

    pub fn add_sample(&mut self, sample: PointLoadSample)
        ensures
            final(self).samples@ == old(self).samples@.push(sample),
            final(self).borehole_id == old(self).borehole_id,
    {
        self.samples.push(sample);
    }

    /// Retrieves the sample at the specified depth.
    ///
    /// This function finds the first sample whose depth is greater than or equal to the given `depth`.
    /// If no such sample is found, it returns the last sample in the list.
    ///
    /// # Arguments
    /// * `depth` - The depth at which to search for an experiment sample.
    ///
    /// # Returns
    /// A reference to the matching `PointLoadSample`.
    pub fn get_sample_at_depth(&self, depth: i64) -> (r: &PointLoadSample)
        requires
            self.depths_present(),
        ensures
            *r == self.samples@[sample_index(self.depth_keys(), depth)],
    {
        let ghost keys = self.depth_keys();
        let n = self.samples.len();
        let mut i: usize = 0;
        while i < n - 1 && self.samples[i].depth.unwrap() < depth
            invariant
                n == self.samples@.len(),
                n > 0,
                self.depths_present(),
                keys == self.depth_keys(),
                0 <= i <= n - 1,
                forall|j: int| 0 <= j < i ==> keys[j] < depth,
            decreases n - i,
        {
            i = i + 1;
        }
        proof {
            lemma_sample_skip(keys, depth, i as int);
            assert(keys[i as int] == self.samples@[i as int].depth->0);
        }
        &self.samples[i]
    }

    /// The condition under which `validate` accepts the borehole: at least one
    /// sample, every named field of every sample valid.
    pub open spec fn spec_validate_ok(&self, views: Seq<Seq<char>>) -> bool {
        &&& self.samples@.len() > 0
        &&& forall|i: int| 0 <= i < self.samples@.len() ==> first_field_error(
            views,
            |f: Seq<char>| pl_sample_field_error(#[trigger] self.samples@[i], f),
        ) is None
    }

    /// Validates specific fields of every sample of the PointLoadExp,
    /// rejecting a borehole without samples.
    ///
    /// # Arguments
    /// * `fields` - A slice of field names to validate.
    ///
    /// # Returns
    /// Ok(()) if all fields of all samples are valid, or the first error found.
    pub fn validate(&self, fields: &[&str]) -> (r: Result<(), ValidationError>)
        ensures
            self.samples@.len() == 0 ==> r is Err && r->Err_0.code@
                == "point_load_test.empty_samples"@ && r->Err_0.message@
                == "No samples provided for Point Load Experiment."@,
            r is Ok <==> self.spec_validate_ok(field_views(fields@)),
            self.samples@.len() > 0 && r is Err ==> exists|i: int| 0 <= i < self.samples@.len()
                && first_field_error(
                field_views(fields@),
                |f: Seq<char>| pl_sample_field_error(#[trigger] self.samples@[i], f),
            ) == Some((r->Err_0.code@, r->Err_0.message@)),
    {
        if self.samples.len() == 0 {
            return Err(
                ValidationError {
                    code: String::from_str("point_load_test.empty_samples"),
                    message: String::from_str("No samples provided for Point Load Experiment."),
                },
            );
        }
        let mut i: usize = 0;
        while i < self.samples.len()
            invariant
                0 <= i <= self.samples@.len(),
                forall|j: int| 0 <= j < i ==> first_field_error(
                    field_views(fields@),
                    |f: Seq<char>| pl_sample_field_error(#[trigger] self.samples@[j], f),
                ) is None,
            decreases self.samples@.len() - i,
        {
            let sample = self.samples[i];
            match sample.validate(fields) {
                Ok(()) => {},
                Err(e) => {
                    return Err(e);
                },
            }
            i = i + 1;
        }
        Ok(())
    }
}

/// Some sample of some borehole sits exactly at depth `d`.
pub open spec fn pl_union_has(exps: Seq<PointLoadExp>, d: i64) -> bool {
    exists|a: int, b: int|
        0 <= a < exps.len() && 0 <= b < exps[a].samples@.len() && exps[a].samples@[b].depth
            == Some(d)
}

/// Some sample of boreholes strictly before position `(i, j)` sits exactly at
/// depth `d`.
pub open spec fn pl_union_has_upto(exps: Seq<PointLoadExp>, i: int, j: int, d: i64) -> bool {
    exists|a: int, b: int|
        {
            &&& 0 <= a < exps.len()
            &&& 0 <= b < exps[a].samples@.len()
            &&& (a < i || (a == i && b < j))
            &&& exps[a].samples@[b].depth == Some(d)
        }
}

/// The strength index that borehole `e` reports for depth `d` under its own
/// nearest-depth lookup.
pub open spec fn is50_sample(e: PointLoadExp, d: i64) -> i64 {
    e.samples@[sample_index(e.depth_keys(), d)].is50->0
}

/// The core diameter that borehole `e` reports for depth `d`.
pub open spec fn d_sample(e: PointLoadExp, d: i64) -> i64 {
    e.samples@[sample_index(e.depth_keys(), d)].d->0
}

/// The strength indices that all boreholes report for depth `d`.
pub open spec fn is50_samples(exps: Seq<PointLoadExp>, d: i64) -> Seq<i64> {
    Seq::new(exps.len(), |i: int| is50_sample(exps[i], d))
}

/// The core diameters that all boreholes report for depth `d`.
pub open spec fn d_samples(exps: Seq<PointLoadExp>, d: i64) -> Seq<i64> {
    Seq::new(exps.len(), |i: int| d_sample(exps[i], d))
}

/// Represents the entire Point Load Test comprising multiple boreholes.
///
/// # Fields
/// * `exps` - Collection of borehole tests included in the overall test campaign.
/// * `idealization_method` - Method used for idealizing the test results.
#[derive(Debug, Clone)]
pub struct PointLoadTest {
    pub exps: Vec<PointLoadExp>,
    pub idealization_method: SelectionMethod,
}

impl PointLoadTest {
    /// Every borehole of the collection is complete enough to sample.
    pub open spec fn collection_wf(&self) -> bool {
        forall|i: int| 0 <= i < self.exps@.len() ==> (#[trigger] self.exps@[i]).records_wf()
    }

    pub fn new(exps: Vec<PointLoadExp>, idealization_method: SelectionMethod) -> (r:
        PointLoadTest)
        ensures
            r.exps == exps,
            r.idealization_method == idealization_method,
    {
        PointLoadTest { exps, idealization_method }
    }

    pub fn add_borehole(&mut self, exp: PointLoadExp)
        ensures
            final(self).exps@ == old(self).exps@.push(exp),
            final(self).idealization_method == old(self).idealization_method,
    {
        self.exps.push(exp);
    }

    /// Creates an idealized experiment: its depths are exactly the distinct
    /// depths appearing across all boreholes, in ascending order, and at each
    /// such depth the strength index and the core diameter are each reduced,
    /// under the collection's policy, over the value each borehole reports for
    /// that depth by its own nearest-depth lookup. An empty collection yields
    /// an empty, named experiment.
    ///
    /// # Arguments
    /// * `name` - Name of the idealized experiment
    ///
    /// # Returns
    /// * `PointLoadExp` - Idealized experiment
    pub fn get_idealized_exp(&self, name: String) -> (r: PointLoadExp)
        requires
            self.collection_wf(),
        ensures
            r.borehole_id == name,
            self.exps@.len() == 0 ==> r.samples@.len() == 0,
            self.exps@.len() > 0 ==> {
                &&& strictly_increasing(r.depth_keys())
                &&& forall|d: i64| r.depth_keys().contains(d) <==> pl_union_has(self.exps@, d)
                &&& forall|k: int| 0 <= k < r.samples@.len() ==> {
                    let s = #[trigger] r.samples@[k];
                    let d = s.depth->0;
                    let mode = self.idealization_method;
                    &&& s == (PointLoadSample {
                        depth: Some(d),
                        sample_no: None,
                        p: None,
                        is: None,
                        f: None,
                        is50: Some(reduce(mode, is50_samples(self.exps@, d)) as i64),
                        l: None,
                        d: Some(reduce(mode, d_samples(self.exps@, d)) as i64),
                    })
                }
            },
    {
        if self.exps.len() == 0 {
            let empty: Vec<PointLoadSample> = Vec::new();
            return PointLoadExp::new(name, empty);
        }
        let mode = self.idealization_method;
        let ghost exps = self.exps@;

        // 1. Collect unique depths across all boreholes, in ascending order.
        let mut depths: Vec<i64> = Vec::new();
        let mut i: usize = 0;
        while i < self.exps.len()
            invariant
                self.collection_wf(),
                exps == self.exps@,
                0 <= i <= exps.len(),
                strictly_increasing(depths@),
                forall|d: i64| depths@.contains(d) <==> pl_union_has_upto(exps, i as int, 0, d),
            decreases exps.len() - i,
        {
            let nl = self.exps[i].samples.len();
            let mut j: usize = 0;
            while j < nl
                invariant
                    self.collection_wf(),
                    exps == self.exps@,
                    0 <= i < exps.len(),
                    nl == exps[i as int].samples@.len(),
                    0 <= j <= nl,
                    strictly_increasing(depths@),
                    forall|d: i64| depths@.contains(d) <==> pl_union_has_upto(
                        exps,
                        i as int,
                        j as int,
                        d,
                    ),
                decreases nl - j,
            {
                let ghost before = depths@;
                insert_sorted(&mut depths, self.exps[i].samples[j].depth.unwrap());
                proof {
                    let dij = exps[i as int].samples@[j as int].depth->0;
                    assert forall|d: i64| depths@.contains(d) implies pl_union_has_upto(
                        exps,
                        i as int,
                        j + 1,
                        d,
                    ) by {
                        if before.contains(d) {
                            let (a, b) = choose|a: int, b: int|
                                {
                                    &&& 0 <= a < exps.len()
                                    &&& 0 <= b < exps[a].samples@.len()
                                    &&& (a < i as int || (a == i as int && b < j as int))
                                    &&& exps[a].samples@[b].depth == Some(d)
                                };
                            assert(pl_union_has_upto(exps, i as int, j + 1, d));
                        } else {
                            assert(d == dij);
                            assert(exps[i as int].samples@[j as int].depth == Some(d));
                        }
                    }
                    assert forall|d: i64| pl_union_has_upto(exps, i as int, j + 1, d) implies
                        depths@.contains(d) by {
                        let (a, b) = choose|a: int, b: int|
                            {
                                &&& 0 <= a < exps.len()
                                &&& 0 <= b < exps[a].samples@.len()
                                &&& (a < i as int || (a == i as int && b < j + 1))
                                &&& exps[a].samples@[b].depth == Some(d)
                            };
                        if a == i as int && b == j as int {
                            assert(d == dij);
                        } else {
                            assert(pl_union_has_upto(exps, i as int, j as int, d));
                            assert(before.contains(d));
                        }
                    }
                }
                j = j + 1;
            }
            proof {
                assert forall|d: i64| pl_union_has_upto(exps, i as int, nl as int, d)
                    <==> pl_union_has_upto(exps, i + 1, 0, d) by {
                    if pl_union_has_upto(exps, i as int, nl as int, d) {
                        let (a, b) = choose|a: int, b: int|
                            {
                                &&& 0 <= a < exps.len()
                                &&& 0 <= b < exps[a].samples@.len()
                                &&& (a < i as int || (a == i as int && b < nl as int))
                                &&& exps[a].samples@[b].depth == Some(d)
                            };
                        assert(a < i + 1);
                        assert(pl_union_has_upto(exps, i + 1, 0, d));
                    }
                    if pl_union_has_upto(exps, i + 1, 0, d) {
                        let (a, b) = choose|a: int, b: int|
                            {
                                &&& 0 <= a < exps.len()
                                &&& 0 <= b < exps[a].samples@.len()
                                &&& (a < i + 1 || (a == i + 1 && b < 0))
                                &&& exps[a].samples@[b].depth == Some(d)
                            };
                        if a == i as int {
                            assert(b < exps[i as int].samples@.len());
                        }
                        assert(pl_union_has_upto(exps, i as int, nl as int, d));
                    }
                }
            }
            i = i + 1;
        }

        // 2. Sample every borehole at each depth and reduce per field.
        let mut samples: Vec<PointLoadSample> = Vec::new();
        let mut k: usize = 0;
        while k < depths.len()
            invariant
                self.collection_wf(),
                exps == self.exps@,
                exps.len() > 0,
                mode == self.idealization_method,
                strictly_increasing(depths@),
                forall|d: i64| depths@.contains(d) <==> pl_union_has(exps, d),
                0 <= k <= depths@.len(),
                samples@.len() == k,
                forall|m: int| 0 <= m < k ==> #[trigger] samples@[m] == (PointLoadSample {
                    depth: Some(depths@[m]),
                    sample_no: None,
                    p: None,
                    is: None,
                    f: None,
                    is50: Some(reduce(mode, is50_samples(exps, depths@[m])) as i64),
                    l: None,
                    d: Some(reduce(mode, d_samples(exps, depths@[m])) as i64),
                }),
            decreases depths@.len() - k,
        {
            let dq = depths[k];
            let mut vi: Vec<i64> = Vec::new();
            let mut vd: Vec<i64> = Vec::new();
            let mut e: usize = 0;
            while e < self.exps.len()
                invariant
                    self.collection_wf(),
                    exps == self.exps@,
                    0 <= e <= exps.len(),
                    vi@.len() == e && vd@.len() == e,
                    forall|m: int| 0 <= m < e ==> #[trigger] vi@[m] == is50_sample(exps[m], dq),
                    forall|m: int| 0 <= m < e ==> #[trigger] vd@[m] == d_sample(exps[m], dq),
                decreases exps.len() - e,
            {
                let exp = &self.exps[e];
                proof {
                    lemma_sample_index_props(exp.depth_keys(), dq);
                }
                let sample = exp.get_sample_at_depth(dq);
                vi.push(sample.is50.unwrap());
                vd.push(sample.d.unwrap());
                e = e + 1;
            }
            proof {
                assert(vi@ =~= is50_samples(exps, dq));
                assert(vd@ =~= d_samples(exps, dq));
                assert forall|m: int| 0 <= m < vi@.len() implies 0 <= #[trigger] vi@[m]
                    <= MAX_VALUE by {
                    lemma_sample_index_props(exps[m].depth_keys(), dq);
                }
                assert forall|m: int| 0 <= m < vd@.len() implies 0 <= #[trigger] vd@[m]
                    <= MAX_VALUE by {
                    lemma_sample_index_props(exps[m].depth_keys(), dq);
                }
            }
            let is50 = reduce_values(mode, &vi);
            let dval = reduce_values(mode, &vd);
            samples.push(PointLoadSample::new(dq, is50, dval));
            k = k + 1;
        }
        let r = PointLoadExp::new(name, samples);
        proof {
            assert(r.depth_keys() =~= depths@);
        }
        r
    }

    /// Identity law: any result meeting `get_idealized_exp`'s contract for a
    /// collection of exactly one borehole with strictly ascending depths
    /// carries that borehole's depths, strength indices and diameters
    /// unchanged, for Min, Avg and Max alike.
    pub proof fn lemma_idealize_singleton_identity(
        exps: Seq<PointLoadExp>,
        r: PointLoadExp,
        mode: SelectionMethod,
    )
        requires
            exps.len() == 1,
            exps[0].records_wf(),
            strictly_increasing(exps[0].depth_keys()),
            strictly_increasing(r.depth_keys()),
            forall|d: i64| r.depth_keys().contains(d) <==> pl_union_has(exps, d),
            forall|k: int| 0 <= k < r.samples@.len() ==> {
                let s = #[trigger] r.samples@[k];
                let d = s.depth->0;
                &&& s.depth is Some
                &&& s.is50 == Some(reduce(mode, is50_samples(exps, d)) as i64)
                &&& s.d == Some(reduce(mode, d_samples(exps, d)) as i64)
            },
        ensures
            r.depth_keys() == exps[0].depth_keys(),
            r.samples@.len() == exps[0].samples@.len(),
            forall|k: int| 0 <= k < r.samples@.len() ==> {
                let s = #[trigger] r.samples@[k];
                let o = exps[0].samples@[k];
                &&& s.depth == o.depth
                &&& s.is50 == o.is50
                &&& s.d == o.d
            },
    {
        let e = exps[0];
        let skeys = e.depth_keys();
        assert forall|d: i64| skeys.contains(d) implies r.depth_keys().contains(d) by {
            let b = choose|b: int| 0 <= b < skeys.len() && skeys[b] == d;
            assert(e.samples@[b].depth == Some(d));
            assert(pl_union_has(exps, d));
        }
        assert forall|d: i64| r.depth_keys().contains(d) implies skeys.contains(d) by {
            assert(pl_union_has(exps, d));
            let (a, b) = choose|a: int, b: int|
                {
                    &&& 0 <= a < exps.len()
                    &&& 0 <= b < exps[a].samples@.len()
                    &&& exps[a].samples@[b].depth == Some(d)
                };
            assert(a == 0);
            assert(skeys[b] == d);
            assert(skeys.contains(d));
        }
        lemma_sorted_unique_eq(r.depth_keys(), skeys);
        assert forall|k: int| 0 <= k < r.samples@.len() implies {
            let s = #[trigger] r.samples@[k];
            let o = exps[0].samples@[k];
            &&& s.depth == o.depth
            &&& s.is50 == o.is50
            &&& s.d == o.d
        } by {
            let d = r.depth_keys()[k];
            assert(r.samples@[k].depth->0 == d);
            lemma_sample_index_own_key(skeys, k);
            lemma_reduce_singleton(mode, is50_samples(exps, d));
            lemma_reduce_singleton(mode, d_samples(exps, d));
            assert(is50_samples(exps, d)[0] == is50_sample(e, d));
            assert(d_samples(exps, d)[0] == d_sample(e, d));
        }
    }

    /// Policy-order law: per field and per depth, the Max-policy value is at
    /// least the Avg-policy value, which is at least the Min-policy value.
    pub proof fn lemma_idealize_policy_order(exps: Seq<PointLoadExp>, d: i64)
        requires
            exps.len() > 0,
        ensures
            reduce(SelectionMethod::Min, is50_samples(exps, d)) <= reduce(
                SelectionMethod::Avg,
                is50_samples(exps, d),
            ) <= reduce(SelectionMethod::Max, is50_samples(exps, d)),
            reduce(SelectionMethod::Min, d_samples(exps, d)) <= reduce(
                SelectionMethod::Avg,
                d_samples(exps, d),
            ) <= reduce(SelectionMethod::Max, d_samples(exps, d)),
    {
        lemma_policy_order(is50_samples(exps, d));
        lemma_policy_order(d_samples(exps, d));
    }

    /// Validates specific fields of every borehole of the campaign, rejecting
    /// an empty collection.
    ///
    /// # Arguments
    /// * `fields` - A slice of field names to validate.
    ///
    /// # Returns
    /// Ok(()) if all fields are valid, or the first error found.
    pub fn validate(&self, fields: &[&str]) -> (r: Result<(), ValidationError>)
        ensures
            self.exps@.len() == 0 ==> r is Err && r->Err_0.code@ == "point_load_test.empty_exps"@
                && r->Err_0.message@ == "No experiments provided for Point Load Test."@,
            r is Ok <==> self.exps@.len() > 0 && forall|i: int| 0 <= i < self.exps@.len() ==> (
            #[trigger] self.exps@[i]).spec_validate_ok(field_views(fields@)),
    {
        if self.exps.len() == 0 {
            return Err(
                ValidationError {
                    code: String::from_str("point_load_test.empty_exps"),
                    message: String::from_str("No experiments provided for Point Load Test."),
                },
            );
        }
        let mut i: usize = 0;
        while i < self.exps.len()
            invariant
                0 <= i <= self.exps@.len(),
                forall|j: int| 0 <= j < i ==> (#[trigger] self.exps@[j]).spec_validate_ok(
                    field_views(fields@),
                ),
            decreases self.exps@.len() - i,
        {
            let exp = &self.exps[i];
            match exp.validate(fields) {
                Ok(()) => {},
                Err(e) => {
                    return Err(e);
                },
            }
            i = i + 1;
        }
        Ok(())
    }
}

} // verus!
