//! CPT (Cone Penetration Test) data: depth-tagged point records, one sequence
//! per sounding, and the reduction of several soundings into one idealized
//! profile. Depths are in thousandths of a metre, resistances and pressures in
//! thousandths of a megapascal, the friction ratio in thousandths of a percent.
use vstd::prelude::*;

use crate::aggregate::{
    div_round_half_up, insert_sorted, lemma_sample_index_props, lemma_sample_skip, reduce,
    reduce_values, rounded_div, sample_index, strictly_increasing, MAX_DIMENSION, MAX_VALUE,
};
use crate::enums::SelectionMethod;
use crate::text::str_eq;
use crate::validation::{
    field_error, field_views, first_field_error, lemma_first_error_skip, validate_field,
    ValidationError,
};

verus! {

/// Represents a single CPT (Cone Penetration Test) data point.
///
/// Each `CPTLayer` instance holds a `depth` value and the quantities measured
/// there.
#[derive(Debug, Clone, Copy)]
pub struct CPTLayer {
    pub depth: Option<i64>,  // Depth in meters
    pub cone_resistance: Option<i64>,  // Cone resistance (qc) in MPa
    pub sleeve_friction: Option<i64>,  // Sleeve friction (fs) in MPa
    pub pore_pressure: Option<i64>,  // Pore pressure (u2) in MPa
    pub friction_ratio: Option<i64>,  // Friction ratio (Rf) in percentage
}

impl Default for CPTLayer {
    fn default() -> (r: CPTLayer)
        ensures
            r == (CPTLayer {
                depth: Some(0),
                cone_resistance: Some(0),
                sleeve_friction: Some(0),
                pore_pressure: None,
                friction_ratio: None,
            }),
    {
        CPTLayer {
            depth: Some(0),
            cone_resistance: Some(0),
            sleeve_friction: Some(0),
            pore_pressure: None,
            friction_ratio: None,
        }
    }
}

/// The friction ratio, in thousandths of a percent: the ratio of sleeve
/// friction to cone resistance, as a percentage, rounded to the scale.
pub open spec fn friction_ratio_of(fs: int, qc: int) -> int {
    rounded_div(fs * 100_000, qc)
}

/// The error that validating one named field of a `CPTLayer` reports.
pub open spec fn cpt_layer_field_error(l: CPTLayer, f: Seq<char>) -> Option<(Seq<char>, Seq<char>)> {
    if f == "depth"@ {
        field_error(f, l.depth, Some(0), None, "cpt"@)
    } else if f == "cone_resistance"@ {
        field_error(f, l.cone_resistance, Some(0), None, "cpt"@)
    } else if f == "sleeve_friction"@ {
        field_error(f, l.sleeve_friction, Some(0), None, "cpt"@)
    } else if f == "pore_pressure"@ {
        field_error(f, l.pore_pressure, Some(0), None, "cpt"@)
    } else if f == "friction_ratio"@ {
        field_error(f, l.friction_ratio, Some(0), None, "cpt"@)
    } else {
        Some(("cpt.invalid_field"@, "Field '"@ + f + "' is not valid for CPT."@))
    }
}

impl CPTLayer {
    /// Creates a new `CPTLayer` instance.
    ///
    /// # Arguments
    /// * `depth` - The depth of the CPT data point.
    /// * `qc` - The cone resistance of the CPT data point.
    /// * `fs` - The sleeve friction of the CPT data point.
    /// * `u2` - The pore pressure of the CPT data point, when measured.
    pub fn new(depth: i64, qc: i64, fs: i64, u2: Option<i64>) -> (r: CPTLayer)
        ensures
            r == (CPTLayer {
                depth: Some(depth),
                cone_resistance: Some(qc),
                sleeve_friction: Some(fs),
                pore_pressure: u2,
                friction_ratio: None,
            }),
    {
        CPTLayer {
            depth: Some(depth),
            cone_resistance: Some(qc),
            sleeve_friction: Some(fs),
            pore_pressure: u2,
            friction_ratio: None,
        }
    }

    /// Calculates the friction ratio (Rf) for the CPT data point as the ratio
    /// of sleeve friction to cone resistance, expressed as a percentage. When
    /// the cone resistance is zero the record is left unchanged.
    pub fn calc_friction_ratio(&mut self)
        requires
            old(self).cone_resistance is Some,
            0 <= old(self).cone_resistance->0 <= MAX_VALUE,
            old(self).cone_resistance->0 != 0 ==> old(self).sleeve_friction is Some && 0 <= old(
                self,
            ).sleeve_friction->0 <= MAX_VALUE,
        ensures
            old(self).cone_resistance->0 == 0 ==> *final(self) == *old(self),
            old(self).cone_resistance->0 != 0 ==> *final(self) == (CPTLayer {
                friction_ratio: Some(
                    friction_ratio_of(
                        old(self).sleeve_friction->0 as int,
                        old(self).cone_resistance->0 as int,
                    ) as i64,
                ),
                ..*old(self)
            }),
    {
        let qc = self.cone_resistance.unwrap();
        if qc != 0 {
            let fs = self.sleeve_friction.unwrap();
            let rf = div_round_half_up(fs * 100_000, qc);
            self.friction_ratio = Some(rf);
        }
    }

    /// Validates specific fields of the CPTLayer using field names.
    ///
    /// # Arguments
    /// * `fields` - A slice of field names to validate.
    ///
    /// # Returns
    /// Ok(()) if all fields are valid, or the first error found.
    pub fn validate(&self, fields: &[&str]) -> (r: Result<(), ValidationError>)
        ensures
            ({
                let e = first_field_error(
                    field_views(fields@),
                    |f: Seq<char>| cpt_layer_field_error(*self, f),
                );
                &&& r is Ok <==> e is None
                &&& r is Err ==> e == Some((r->Err_0.code@, r->Err_0.message@))
            }),
    {
        let ghost check = |f: Seq<char>| cpt_layer_field_error(*self, f);
        let ghost views = field_views(fields@);
        let mut i: usize = 0;
        while i < fields.len()
            invariant
                0 <= i <= fields@.len(),
                views == field_views(fields@),
                check == (|f: Seq<char>| cpt_layer_field_error(*self, f)),
                forall|j: int| 0 <= j < i ==> check(#[trigger] views[j]) is None,
            decreases fields@.len() - i,
        {
            let field = fields[i];
            let result: Result<(), ValidationError> = if str_eq(field, "depth") {
                validate_field("depth", self.depth, Some(0), None, "cpt")
            } else if str_eq(field, "cone_resistance") {
                validate_field("cone_resistance", self.cone_resistance, Some(0), None, "cpt")
            } else if str_eq(field, "sleeve_friction") {
                validate_field("sleeve_friction", self.sleeve_friction, Some(0), None, "cpt")
            } else if str_eq(field, "pore_pressure") {
                validate_field("pore_pressure", self.pore_pressure, Some(0), None, "cpt")
            } else if str_eq(field, "friction_ratio") {
                validate_field("friction_ratio", self.friction_ratio, Some(0), None, "cpt")
            } else {
                let mut msg = String::from_str("Field '");
                msg.append(field);
                msg.append("' is not valid for CPT.");
                proof {
                    assert(msg@ =~= "Field '"@ + field@ + "' is not valid for CPT."@);
                }
                Err(ValidationError { code: String::from_str("cpt.invalid_field"), message: msg })
            };
            proof {
                assert(views[i as int] == field@);
            }
            match result {
                Ok(()) => {},
                Err(e) => {
                    proof {
                        lemma_first_error_skip(views, check, i as int);
                        assert(views.skip(i as int)[0] == views[i as int]);
                    }
                    return Err(e);
                },
            }
            i = i + 1;
        }
        proof {
            lemma_first_error_skip(views, check, fields@.len() as int);
            assert(views.skip(views.len() as int) =~= Seq::<Seq<char>>::empty());
        }
        Ok(())
    }
}

/// Represents a collection of CPT data points.
///
/// A `CPTExp` struct contains multiple `CPTLayer` instances, forming a complete CPT profile.
#[derive(Debug, Clone)]
pub struct CPTExp {
    pub layers: Vec<CPTLayer>,
    pub name: String,
}

impl CPTExp {
    /// The depth of each record, in order.
    pub open spec fn depth_keys(&self) -> Seq<i64> {
        self.layers@.map_values(|l: CPTLayer| l.depth->0)
    }

    /// At least one record, each with a depth.
    pub open spec fn depths_present(&self) -> bool {
        &&& self.layers@.len() > 0
        &&& forall|i: int| 0 <= i < self.layers@.len() ==> (#[trigger] self.layers@[i]).depth
            is Some
    }

    /// Records complete and in range, as the idealization engine samples them.
    pub open spec fn records_wf(&self) -> bool {
        &&& self.depths_present()
        &&& forall|i: int| 0 <= i < self.layers@.len() ==> {
            let l = #[trigger] self.layers@[i];
            &&& 0 <= l.depth->0 <= MAX_DIMENSION
            &&& l.cone_resistance is Some && 0 <= l.cone_resistance->0 <= MAX_VALUE
            &&& l.sleeve_friction is Some && 0 <= l.sleeve_friction->0 <= MAX_VALUE
            &&& (l.pore_pressure is Some ==> 0 <= l.pore_pressure->0 <= MAX_VALUE)
        }
    }

    /// Creates a new `CPTExp` instance.
    ///
    /// # Arguments
    /// * `layers` - A vector of `CPTLayer` instances.
    /// * `name` - The name of the CPT profile.
    pub fn new(layers: Vec<CPTLayer>, name: String) -> (r: CPTExp)
        ensures
            r.layers == layers,
            r.name == name,
    {
        CPTExp { layers, name }
    }

    /// Adds a new `CPTLayer` instance to the `CPTExp` collection.
    ///
    /// # Arguments
    /// * `layer` - The `CPTLayer` instance to add to the collection.
    pub fn add_layer(&mut self, layer: CPTLayer)
        ensures
            final(self).layers@ == old(self).layers@.push(layer),
            final(self).name == old(self).name,
    {
        self.layers.push(layer);
    }

    /// Retrieves the CPT layer corresponding to a given depth.
    ///
    /// This function finds the first layer whose depth is greater than or equal to the given `depth`.
    /// If no such layer is found, it returns the last layer in the list.
    ///
    /// # Arguments
    /// * `depth` - The depth at which to search for a CPT layer.
    ///
    /// # Returns
    /// A reference to the matching `CPTLayer`.
    pub fn get_layer_at_depth(&self, depth: i64) -> (r: &CPTLayer)
        requires
            self.depths_present(),
        ensures
            *r == self.layers@[sample_index(self.depth_keys(), depth)],
    {
        let ghost keys = self.depth_keys();
        let n = self.layers.len();
        let mut i: usize = 0;
        while i < n - 1 && self.layers[i].depth.unwrap() < depth
            invariant
                n == self.layers@.len(),
                n > 0,
                self.depths_present(),
                keys == self.depth_keys(),
                0 <= i <= n - 1,
                forall|j: int| 0 <= j < i ==> keys[j] < depth,
            decreases n - i,
        {
            i = i + 1;
        }
        proof {
            lemma_sample_skip(keys, depth, i as int);
            assert(keys[i as int] == self.layers@[i as int].depth->0);
        }
        &self.layers[i]
    }

    /// The condition under which `validate` accepts the experiment: at least
    /// one record, every named field of every record valid.
    pub open spec fn spec_validate_ok(&self, views: Seq<Seq<char>>) -> bool {
        &&& self.layers@.len() > 0
        &&& forall|i: int| 0 <= i < self.layers@.len() ==> first_field_error(
            views,
            |f: Seq<char>| cpt_layer_field_error(#[trigger] self.layers@[i], f),
        ) is None
    }

    /// Validates specific fields of every record of the CPTExp, rejecting an
    /// experiment without records.
    ///
    /// # Arguments
    /// * `fields` - A slice of field names to validate.
    ///
    /// # Returns
    /// Ok(()) if all fields of all records are valid, or the first error found.
    pub fn validate(&self, fields: &[&str]) -> (r: Result<(), ValidationError>)
        ensures
            self.layers@.len() == 0 ==> r is Err && r->Err_0.code@ == "cpt.empty_layers"@
                && r->Err_0.message@ == "No layers provided for CPTExp."@,
            r is Ok <==> self.spec_validate_ok(field_views(fields@)),
            self.layers@.len() > 0 && r is Err ==> exists|i: int| 0 <= i < self.layers@.len()
                && first_field_error(
                field_views(fields@),
                |f: Seq<char>| cpt_layer_field_error(#[trigger] self.layers@[i], f),
            ) == Some((r->Err_0.code@, r->Err_0.message@)),
    {
        if self.layers.len() == 0 {
            return Err(
                ValidationError {
                    code: String::from_str("cpt.empty_layers"),
                    message: String::from_str("No layers provided for CPTExp."),
                },
            );
        }
        let mut i: usize = 0;
        while i < self.layers.len()
            invariant
                0 <= i <= self.layers@.len(),
                forall|j: int| 0 <= j < i ==> first_field_error(
                    field_views(fields@),
                    |f: Seq<char>| cpt_layer_field_error(#[trigger] self.layers@[j], f),
                ) is None,
            decreases self.layers@.len() - i,
        {
            let layer = self.layers[i];
            match layer.validate(fields) {
                Ok(()) => {},
                Err(e) => {
                    return Err(e);
                },
            }
            i = i + 1;
        }
        Ok(())
    }
}

/// Some record of some experiment sits exactly at depth `d`.
pub open spec fn cpt_union_has(exps: Seq<CPTExp>, d: i64) -> bool {
    exists|a: int, b: int|
        0 <= a < exps.len() && 0 <= b < exps[a].layers@.len() && exps[a].layers@[b].depth == Some(d)
}

/// Some record of experiments strictly before position `(i, j)` (experiment
/// `i`, record `j`) sits exactly at depth `d`.
pub open spec fn cpt_union_has_upto(exps: Seq<CPTExp>, i: int, j: int, d: i64) -> bool {
    exists|a: int, b: int|
        {
            &&& 0 <= a < exps.len()
            &&& 0 <= b < exps[a].layers@.len()
            &&& (a < i || (a == i && b < j))
            &&& exps[a].layers@[b].depth == Some(d)
        }
}

/// The cone resistance that experiment `e` reports for depth `d` under its own
/// nearest-depth lookup.
pub open spec fn qc_sample(e: CPTExp, d: i64) -> i64 {
    e.layers@[sample_index(e.depth_keys(), d)].cone_resistance->0
}

/// The sleeve friction that experiment `e` reports for depth `d`.
pub open spec fn fs_sample(e: CPTExp, d: i64) -> i64 {
    e.layers@[sample_index(e.depth_keys(), d)].sleeve_friction->0
}

/// The pore pressure that experiment `e` reports for depth `d`, an absent
/// measurement reading as zero.
pub open spec fn u2_sample(e: CPTExp, d: i64) -> i64 {
    let l = e.layers@[sample_index(e.depth_keys(), d)];
    if l.pore_pressure is Some {
        l.pore_pressure->0
    } else {
        0
    }
}

/// The cone resistances that all experiments report for depth `d`.
pub open spec fn qc_samples(exps: Seq<CPTExp>, d: i64) -> Seq<i64> {
    Seq::new(exps.len(), |i: int| qc_sample(exps[i], d))
}

/// The sleeve frictions that all experiments report for depth `d`.
pub open spec fn fs_samples(exps: Seq<CPTExp>, d: i64) -> Seq<i64> {
    Seq::new(exps.len(), |i: int| fs_sample(exps[i], d))
}

/// The pore pressures that all experiments report for depth `d`.
pub open spec fn u2_samples(exps: Seq<CPTExp>, d: i64) -> Seq<i64> {
    Seq::new(exps.len(), |i: int| u2_sample(exps[i], d))
}

/// Represents a collection of CPT tests.
///
/// A `CPT` struct contains multiple `CPTExp` instances, each representing a single CPT profile.
#[derive(Debug, Clone)]
pub struct CPT {
    pub exps: Vec<CPTExp>,
    pub idealization_method: SelectionMethod,
}

impl CPT {
    /// Every experiment of the collection is complete enough to sample.
    pub open spec fn collection_wf(&self) -> bool {
        forall|i: int| 0 <= i < self.exps@.len() ==> (#[trigger] self.exps@[i]).records_wf()
    }

    /// Creates a new `CPT` instance.
    ///
    /// # Arguments
    /// * `exps` - A vector of `CPTExp` instances.
    /// * `idealization_method` - The method used for idealization.
    pub fn new(exps: Vec<CPTExp>, idealization_method: SelectionMethod) -> (r: CPT)
        ensures
            r.exps == exps,
            r.idealization_method == idealization_method,
    {
        CPT { exps, idealization_method }
    }

    /// Adds a new `CPTExp` instance to the `CPT` collection.
    ///
    /// # Arguments
    /// * `exp` - The `CPTExp` instance to add to the collection.
    pub fn add_exp(&mut self, exp: CPTExp)
        ensures
            final(self).exps@ == old(self).exps@.push(exp),
            final(self).idealization_method == old(self).idealization_method,
    {
        self.exps.push(exp);
    }

    /// Creates an idealized CPT experiment: its depths are exactly the distinct
    /// depths appearing across all experiments, in ascending order, and at each
    /// such depth every measured field is reduced, under the collection's
    /// policy, over the value each experiment reports for that depth by its own
    /// nearest-depth lookup. An empty collection yields an empty, named
    /// experiment.
    ///
    /// # Arguments
    /// * `name` - The name of the idealized experiment.
    ///
    /// # Returns
    /// A new `CPTExp` instance representing the idealized experiment.
    pub fn get_idealized_exp(&self, name: String) -> (r: CPTExp)
        requires
            self.collection_wf(),
        ensures
            r.name == name,
            self.exps@.len() == 0 ==> r.layers@.len() == 0,
            self.exps@.len() > 0 ==> {
                &&& strictly_increasing(r.depth_keys())
                &&& forall|d: i64| r.depth_keys().contains(d) <==> cpt_union_has(self.exps@, d)
                &&& forall|k: int| 0 <= k < r.layers@.len() ==> {
                    let l = #[trigger] r.layers@[k];
                    let d = l.depth->0;
                    let mode = self.idealization_method;
                    &&& l.depth is Some
                    &&& l.cone_resistance == Some(
                        reduce(mode, qc_samples(self.exps@, d)) as i64,
                    )
                    &&& l.sleeve_friction == Some(reduce(mode, fs_samples(self.exps@, d)) as i64)
                    &&& l.pore_pressure == Some(reduce(mode, u2_samples(self.exps@, d)) as i64)
                    &&& l.friction_ratio is None
                }
            },
    {
        if self.exps.len() == 0 {
            let empty: Vec<CPTLayer> = Vec::new();
            return CPTExp::new(empty, name);
        }
        let mode = self.idealization_method;
        let ghost exps = self.exps@;

        // 1. Collect unique depths across all experiments, in ascending order.
        let mut depths: Vec<i64> = Vec::new();
        let mut i: usize = 0;
        while i < self.exps.len()
            invariant
                self.collection_wf(),
                exps == self.exps@,
                0 <= i <= exps.len(),
                strictly_increasing(depths@),
                forall|d: i64| depths@.contains(d) <==> cpt_union_has_upto(exps, i as int, 0, d),
            decreases exps.len() - i,
        {
            let nl = self.exps[i].layers.len();
            let mut j: usize = 0;
            while j < nl
                invariant
                    self.collection_wf(),
                    exps == self.exps@,
                    0 <= i < exps.len(),
                    nl == exps[i as int].layers@.len(),
                    0 <= j <= nl,
                    strictly_increasing(depths@),
                    forall|d: i64| depths@.contains(d) <==> cpt_union_has_upto(
                        exps,
                        i as int,
                        j as int,
                        d,
                    ),
                decreases nl - j,
            {
                let ghost before = depths@;
                insert_sorted(&mut depths, self.exps[i].layers[j].depth.unwrap());
                proof {
                    let dij = exps[i as int].layers@[j as int].depth->0;
                    assert forall|d: i64| depths@.contains(d) implies cpt_union_has_upto(
                        exps,
                        i as int,
                        j + 1,
                        d,
                    ) by {
                        if before.contains(d) {
                            let (a, b) = choose|a: int, b: int|
                                {
                                    &&& 0 <= a < exps.len()
                                    &&& 0 <= b < exps[a].layers@.len()
                                    &&& (a < i as int || (a == i as int && b < j as int))
                                    &&& exps[a].layers@[b].depth == Some(d)
                                };
                            assert(cpt_union_has_upto(exps, i as int, j + 1, d));
                        } else {
                            assert(d == dij);
                            assert(exps[i as int].layers@[j as int].depth == Some(d));
                        }
                    }
                    assert forall|d: i64| cpt_union_has_upto(exps, i as int, j + 1, d) implies
                        depths@.contains(d) by {
                        let (a, b) = choose|a: int, b: int|
                            {
                                &&& 0 <= a < exps.len()
                                &&& 0 <= b < exps[a].layers@.len()
                                &&& (a < i as int || (a == i as int && b < j + 1))
                                &&& exps[a].layers@[b].depth == Some(d)
                            };
                        if a == i as int && b == j as int {
                            assert(d == dij);
                        } else {
                            assert(cpt_union_has_upto(exps, i as int, j as int, d));
                            assert(before.contains(d));
                        }
                    }
                }
                j = j + 1;
            }
            proof {
                assert forall|d: i64| cpt_union_has_upto(exps, i as int, nl as int, d)
                    <==> cpt_union_has_upto(exps, i + 1, 0, d) by {
                    if cpt_union_has_upto(exps, i as int, nl as int, d) {
                        let (a, b) = choose|a: int, b: int|
                            {
                                &&& 0 <= a < exps.len()
                                &&& 0 <= b < exps[a].layers@.len()
                                &&& (a < i as int || (a == i as int && b < nl as int))
                                &&& exps[a].layers@[b].depth == Some(d)
                            };
                        assert(a < i + 1);
                        assert(cpt_union_has_upto(exps, i + 1, 0, d));
                    }
                    if cpt_union_has_upto(exps, i + 1, 0, d) {
                        let (a, b) = choose|a: int, b: int|
                            {
                                &&& 0 <= a < exps.len()
                                &&& 0 <= b < exps[a].layers@.len()
                                &&& (a < i + 1 || (a == i + 1 && b < 0))
                                &&& exps[a].layers@[b].depth == Some(d)
                            };
                        if a == i as int {
                            assert(b < exps[i as int].layers@.len());
                        }
                        assert(cpt_union_has_upto(exps, i as int, nl as int, d));
                    }
                }
            }
            i = i + 1;
        }
        proof {
            assert forall|d: i64| cpt_union_has_upto(exps, exps.len() as int, 0, d)
                <==> cpt_union_has(exps, d) by {}
        }

        // 2. Sample every experiment at each depth and reduce per field.
        let mut layers: Vec<CPTLayer> = Vec::new();
        let mut k: usize = 0;
        while k < depths.len()
            invariant
                self.collection_wf(),
                exps == self.exps@,
                exps.len() > 0,
                mode == self.idealization_method,
                strictly_increasing(depths@),
                forall|d: i64| depths@.contains(d) <==> cpt_union_has(exps, d),
                0 <= k <= depths@.len(),
                layers@.len() == k,
                forall|m: int| 0 <= m < k ==> #[trigger] layers@[m] == (CPTLayer {
                    depth: Some(depths@[m]),
                    cone_resistance: Some(reduce(mode, qc_samples(exps, depths@[m])) as i64),
                    sleeve_friction: Some(reduce(mode, fs_samples(exps, depths@[m])) as i64),
                    pore_pressure: Some(reduce(mode, u2_samples(exps, depths@[m])) as i64),
                    friction_ratio: None,
                }),
            decreases depths@.len() - k,
        {
            let d = depths[k];
            let mut vq: Vec<i64> = Vec::new();
            let mut vf: Vec<i64> = Vec::new();
            let mut vu: Vec<i64> = Vec::new();
            let mut e: usize = 0;
            while e < self.exps.len()
                invariant
                    self.collection_wf(),
                    exps == self.exps@,
                    0 <= e <= exps.len(),
                    vq@.len() == e && vf@.len() == e && vu@.len() == e,
                    forall|m: int| 0 <= m < e ==> #[trigger] vq@[m] == qc_sample(exps[m], d),
                    forall|m: int| 0 <= m < e ==> #[trigger] vf@[m] == fs_sample(exps[m], d),
                    forall|m: int| 0 <= m < e ==> #[trigger] vu@[m] == u2_sample(exps[m], d),
                decreases exps.len() - e,
            {
                let exp = &self.exps[e];
                proof {
                    lemma_sample_index_props(exp.depth_keys(), d);
                }
                let layer = exp.get_layer_at_depth(d);
                vq.push(layer.cone_resistance.unwrap());
                vf.push(layer.sleeve_friction.unwrap());
                let u2 = match layer.pore_pressure {
                    Some(u) => u,
                    None => 0,
                };
                vu.push(u2);
                e = e + 1;
            }
            proof {
                assert(vq@ =~= qc_samples(exps, d));
                assert(vf@ =~= fs_samples(exps, d));
                assert(vu@ =~= u2_samples(exps, d));
                assert forall|m: int| 0 <= m < vq@.len() implies 0 <= #[trigger] vq@[m]
                    <= MAX_VALUE by {
                    lemma_sample_index_props(exps[m].depth_keys(), d);
                }
                assert forall|m: int| 0 <= m < vf@.len() implies 0 <= #[trigger] vf@[m]
                    <= MAX_VALUE by {
                    lemma_sample_index_props(exps[m].depth_keys(), d);
                }
                assert forall|m: int| 0 <= m < vu@.len() implies 0 <= #[trigger] vu@[m]
                    <= MAX_VALUE by {
                    lemma_sample_index_props(exps[m].depth_keys(), d);
                }
            }
            let qc = reduce_values(mode, &vq);
            let fs = reduce_values(mode, &vf);
            let u2 = reduce_values(mode, &vu);
            layers.push(CPTLayer::new(d, qc, fs, Some(u2)));
            k = k + 1;
        }
        let r = CPTExp::new(layers, name);
        proof {
            assert(r.depth_keys() =~= depths@);
        }
        r
    }

    /// Identity law: any result meeting `get_idealized_exp`'s contract for a
    /// collection of exactly one experiment with strictly ascending depths
    /// carries that experiment's depths and measured values unchanged, for
    /// Min, Avg and Max alike. (A pore pressure the source did not measure is
    /// reported as zero, so that field is unchanged where the source has it.)
    pub proof fn lemma_idealize_singleton_identity(exps: Seq<CPTExp>, r: CPTExp, mode: SelectionMethod)
        requires
            exps.len() == 1,
            exps[0].records_wf(),
            strictly_increasing(exps[0].depth_keys()),
            strictly_increasing(r.depth_keys()),
            forall|d: i64| r.depth_keys().contains(d) <==> cpt_union_has(exps, d),
            forall|k: int| 0 <= k < r.layers@.len() ==> {
                let l = #[trigger] r.layers@[k];
                let d = l.depth->0;
                &&& l.depth is Some
                &&& l.cone_resistance == Some(reduce(mode, qc_samples(exps, d)) as i64)
                &&& l.sleeve_friction == Some(reduce(mode, fs_samples(exps, d)) as i64)
                &&& l.pore_pressure == Some(reduce(mode, u2_samples(exps, d)) as i64)
            },
        ensures
            r.depth_keys() == exps[0].depth_keys(),
            r.layers@.len() == exps[0].layers@.len(),
            forall|k: int| 0 <= k < r.layers@.len() ==> {
                let l = #[trigger] r.layers@[k];
                let s = exps[0].layers@[k];
                &&& l.depth == s.depth
                &&& l.cone_resistance == s.cone_resistance
                &&& l.sleeve_friction == s.sleeve_friction
                &&& (s.pore_pressure is Some ==> l.pore_pressure == s.pore_pressure)
            },
    {
        let e = exps[0];
        let skeys = e.depth_keys();
        assert forall|d: i64| skeys.contains(d) implies r.depth_keys().contains(d) by {
            let b = choose|b: int| 0 <= b < skeys.len() && skeys[b] == d;
            assert(e.layers@[b].depth == Some(d));
            assert(cpt_union_has(exps, d));
        }
        assert forall|d: i64| r.depth_keys().contains(d) implies skeys.contains(d) by {
            assert(cpt_union_has(exps, d));
            let (a, b) = choose|a: int, b: int|
                {
                    &&& 0 <= a < exps.len()
                    &&& 0 <= b < exps[a].layers@.len()
                    &&& exps[a].layers@[b].depth == Some(d)
                };
            assert(a == 0);
            assert(skeys[b] == d);
            assert(skeys.contains(d));
        }
        crate::aggregate::lemma_sorted_unique_eq(r.depth_keys(), skeys);
        assert forall|k: int| 0 <= k < r.layers@.len() implies {
            let l = #[trigger] r.layers@[k];
            let s = exps[0].layers@[k];
            &&& l.depth == s.depth
            &&& l.cone_resistance == s.cone_resistance
            &&& l.sleeve_friction == s.sleeve_friction
            &&& (s.pore_pressure is Some ==> l.pore_pressure == s.pore_pressure)
        } by {
            let d = r.depth_keys()[k];
            assert(r.layers@[k].depth->0 == d);
            crate::aggregate::lemma_sample_index_own_key(skeys, k);
            crate::aggregate::lemma_reduce_singleton(mode, qc_samples(exps, d));
            crate::aggregate::lemma_reduce_singleton(mode, fs_samples(exps, d));
            crate::aggregate::lemma_reduce_singleton(mode, u2_samples(exps, d));
            assert(qc_samples(exps, d)[0] == qc_sample(e, d));
            assert(fs_samples(exps, d)[0] == fs_sample(e, d));
            assert(u2_samples(exps, d)[0] == u2_sample(e, d));
        }
    }

    /// Policy-order law: per measured field and per depth, the Max-policy
    /// value is at least the Avg-policy value, which is at least the
    /// Min-policy value. `get_idealized_exp`'s contract reduces each field at
    /// each depth with exactly these reductions, so the law orders the three
    /// idealized experiments pointwise.
    pub proof fn lemma_idealize_policy_order(exps: Seq<CPTExp>, d: i64)
        requires
            exps.len() > 0,
        ensures
            reduce(SelectionMethod::Min, qc_samples(exps, d)) <= reduce(
                SelectionMethod::Avg,
                qc_samples(exps, d),
            ) <= reduce(SelectionMethod::Max, qc_samples(exps, d)),
            reduce(SelectionMethod::Min, fs_samples(exps, d)) <= reduce(
                SelectionMethod::Avg,
                fs_samples(exps, d),
            ) <= reduce(SelectionMethod::Max, fs_samples(exps, d)),
            reduce(SelectionMethod::Min, u2_samples(exps, d)) <= reduce(
                SelectionMethod::Avg,
                u2_samples(exps, d),
            ) <= reduce(SelectionMethod::Max, u2_samples(exps, d)),
    {
        crate::aggregate::lemma_policy_order(qc_samples(exps, d));
        crate::aggregate::lemma_policy_order(fs_samples(exps, d));
        crate::aggregate::lemma_policy_order(u2_samples(exps, d));
    }

    /// Validates specific fields of every experiment of the CPT, rejecting an
    /// empty collection.
    ///
    /// # Arguments
    /// * `fields` - A slice of field names to validate.
    ///
    /// # Returns
    /// Ok(()) if all fields are valid, or the first error found.
    pub fn validate(&self, fields: &[&str]) -> (r: Result<(), ValidationError>)
        ensures
            self.exps@.len() == 0 ==> r is Err && r->Err_0.code@ == "cpt.empty_exps"@
                && r->Err_0.message@ == "No experiments found in CPT."@,
            r is Ok <==> self.exps@.len() > 0 && forall|i: int| 0 <= i < self.exps@.len() ==> (
            #[trigger] self.exps@[i]).spec_validate_ok(field_views(fields@)),
    {
        if self.exps.len() == 0 {
            return Err(
                ValidationError {
                    code: String::from_str("cpt.empty_exps"),
                    message: String::from_str("No experiments found in CPT."),
                },
            );
        }
        let mut i: usize = 0;
        while i < self.exps.len()
            invariant
                0 <= i <= self.exps@.len(),
                forall|j: int| 0 <= j < i ==> (#[trigger] self.exps@[j]).spec_validate_ok(
                    field_views(fields@),
                ),
            decreases self.exps@.len() - i,
        {
            let exp = &self.exps[i];
            match exp.validate(fields) {
                Ok(()) => {},
                Err(e) => {
                    return Err(e);
                },
            }
            i = i + 1;
        }
        Ok(())
    }
}

} // verus!
