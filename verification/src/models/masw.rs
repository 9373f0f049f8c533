//! MASW (Multichannel Analysis of Surface Waves) data: contiguous layers
//! defined by thickness from the surface, one sequence per survey line, and
//! the reduction of several lines into one idealized profile. Lengths are in
//! thousandths of a metre, wave velocities in thousandths of a metre per
//! second.
use vstd::prelude::*;

use crate::aggregate::{
    insert_sorted, lemma_sample_index_props, lemma_sample_skip, reduce, reduce_values,
    sample_index, strictly_increasing, MAX_DIMENSION, MAX_VALUE,
};
use crate::enums::SelectionMethod;
use crate::text::str_eq;
use crate::validation::{
    field_error, field_views, first_field_error, lemma_first_error_skip, validate_field,
    ValidationError,
};

verus! {

/// Represents an individual MASW experiment layer.
///
/// # Fields
///
/// * `thickness` - The thickness of the layer.
/// * `vs` - The shear wave velocity of the layer.
/// * `vp` - The compressional wave velocity of the layer.
/// * `depth` - The cumulative bottom depth of the layer.
#[derive(Debug, Clone, Copy)]
pub struct MaswLayer {
    pub thickness: Option<i64>,
    pub vs: Option<i64>,
    pub vp: Option<i64>,
    pub depth: Option<i64>,
}

/// The error that validating one named field of a `MaswLayer` reports.
pub open spec fn masw_layer_field_error(l: MaswLayer, f: Seq<char>) -> Option<
    (Seq<char>, Seq<char>),
> {
    if f == "depth"@ {
        field_error(f, l.depth, Some(0), None, "masw"@)
    } else if f == "thickness"@ {
        field_error(f, l.thickness, Some(1), None, "masw"@)
    } else if f == "vs"@ {
        field_error(f, l.vs, Some(0), None, "masw"@)
    } else if f == "vp"@ {
        field_error(f, l.vp, Some(0), None, "masw"@)
    } else {
        Some(("masw.invalid_field"@, "Field '"@ + f + "' is not valid for Loads."@))
    }
}

impl MaswLayer {
    /// A layer of the given thickness and wave velocities, its depth not yet
    /// computed.
    pub fn new(thickness: i64, vs: i64, vp: i64) -> (r: MaswLayer)
        ensures
            r == (MaswLayer {
                thickness: Some(thickness),
                vs: Some(vs),
                vp: Some(vp),
                depth: None,
            }),
    {
        MaswLayer { thickness: Some(thickness), vs: Some(vs), vp: Some(vp), depth: None }
    }

    /// Validates specific fields of the MaswLayer using field names.
    ///
    /// # Arguments
    /// * `fields` - A slice of field names to validate.
    ///
    /// # Returns
    /// Ok(()) if all fields are valid, or the first error found.
    pub fn validate(&self, fields: &[&str]) -> (r: Result<(), ValidationError>)
        ensures
            ({
                let e = first_field_error(
                    field_views(fields@),
                    |f: Seq<char>| masw_layer_field_error(*self, f),
                );
                &&& r is Ok <==> e is None
                &&& r is Err ==> e == Some((r->Err_0.code@, r->Err_0.message@))
            }),
    {
        let ghost check = |f: Seq<char>| masw_layer_field_error(*self, f);
        let ghost views = field_views(fields@);
        let mut i: usize = 0;
        while i < fields.len()
            invariant
                0 <= i <= fields@.len(),
                views == field_views(fields@),
                check == (|f: Seq<char>| masw_layer_field_error(*self, f)),
                forall|j: int| 0 <= j < i ==> check(#[trigger] views[j]) is None,
            decreases fields@.len() - i,
        {
            let field = fields[i];
            let result: Result<(), ValidationError> = if str_eq(field, "depth") {
                validate_field("depth", self.depth, Some(0), None, "masw")
            } else if str_eq(field, "thickness") {
                validate_field("thickness", self.thickness, Some(1), None, "masw")
            } else if str_eq(field, "vs") {
                validate_field("vs", self.vs, Some(0), None, "masw")
            } else if str_eq(field, "vp") {
                validate_field("vp", self.vp, Some(0), None, "masw")
            } else {
                let mut msg = String::from_str("Field '");
                msg.append(field);
                msg.append("' is not valid for Loads.");
                proof {
                    assert(msg@ =~= "Field '"@ + field@ + "' is not valid for Loads."@);
                }
                Err(ValidationError { code: String::from_str("masw.invalid_field"), message: msg })
            };
            proof {
                assert(views[i as int] == field@);
            }
            match result {
                Ok(()) => {},
                Err(e) => {
                    proof {
                        lemma_first_error_skip(views, check, i as int);
                        assert(views.skip(i as int)[0] == views[i as int]);
                    }
                    return Err(e);
                },
            }
            i = i + 1;
        }
        proof {
            lemma_first_error_skip(views, check, fields@.len() as int);
            assert(views.skip(views.len() as int) =~= Seq::<Seq<char>>::empty());
        }
        Ok(())
    }
}

/// The layer's thickness, an absent field reading as zero.
pub open spec fn masw_thick0(l: MaswLayer) -> int {
    if l.thickness is Some {
        l.thickness->0 as int
    } else {
        0
    }
}

/// Cumulative thickness of the first `i` layers.
pub open spec fn masw_prefix_depth(layers: Seq<MaswLayer>, i: int) -> int
    decreases i,
{
    if i <= 0 {
        0
    } else {
        masw_prefix_depth(layers, i - 1) + masw_thick0(layers[i - 1])
    }
}

/// With non-negative thicknesses, cumulative depths are non-decreasing.
pub proof fn lemma_masw_prefix_mono(layers: Seq<MaswLayer>, i: int, j: int)
    requires
        forall|k: int| 0 <= k < layers.len() ==> masw_thick0(#[trigger] layers[k]) >= 0,
        0 <= i <= j <= layers.len(),
    ensures
        masw_prefix_depth(layers, i) <= masw_prefix_depth(layers, j),
    decreases j - i,
{
    if i < j {
        lemma_masw_prefix_mono(layers, i, j - 1);
    }
}

/// Represents a MASW experiment: one survey line's layers under a name.
#[derive(Debug, Clone)]
pub struct MaswExp {
    pub layers: Vec<MaswLayer>,
    pub name: String,
}

impl MaswExp {
    /// The cumulative bottom depth of each layer, in order.
    pub open spec fn depth_keys(&self) -> Seq<i64> {
        self.layers@.map_values(|l: MaswLayer| l.depth->0)
    }

    /// At least one layer, each with a depth.
    pub open spec fn depths_present(&self) -> bool {
        &&& self.layers@.len() > 0
        &&& forall|i: int| 0 <= i < self.layers@.len() ==> (#[trigger] self.layers@[i]).depth
            is Some
    }

    /// Thicknesses present, positive and within range.
    pub open spec fn thicknesses_wf(&self) -> bool {
        &&& forall|i: int| 0 <= i < self.layers@.len() ==> (#[trigger] self.layers@[i]).thickness
            is Some && masw_thick0(self.layers@[i]) > 0
        &&& masw_prefix_depth(self.layers@, self.layers@.len() as int) <= MAX_DIMENSION as int
    }

    /// Layers complete and in range, as the idealization engine samples them,
    /// with their depths computed from the thicknesses.
    pub open spec fn records_wf(&self) -> bool {
        &&& self.layers@.len() > 0
        &&& self.thicknesses_wf()
        &&& self.depths_computed()
        &&& forall|i: int| 0 <= i < self.layers@.len() ==> {
            let l = #[trigger] self.layers@[i];
            &&& l.vs is Some && 0 <= l.vs->0 <= MAX_VALUE
            &&& l.vp is Some && 0 <= l.vp->0 <= MAX_VALUE
        }
    }

    /// Each layer's `depth` field is its cumulative bottom depth.
    pub open spec fn depths_computed(&self) -> bool {
        forall|i: int| 0 <= i < self.layers@.len() ==> {
            let l = #[trigger] self.layers@[i];
            &&& l.depth is Some
            &&& l.depth->0 as int == masw_prefix_depth(self.layers@, i + 1)
        }
    }

    /// A new experiment with the depths of its layers computed.
    pub fn new(layers: Vec<MaswLayer>, name: String) -> (r: MaswExp)
        requires
            forall|i: int| 0 <= i < layers@.len() ==> (#[trigger] layers@[i]).thickness is Some
                && masw_thick0(layers@[i]) > 0,
            masw_prefix_depth(layers@, layers@.len() as int) <= MAX_DIMENSION as int,
        ensures
            r.name == name,
            r.layers@.len() == layers@.len(),
            forall|i: int| 0 <= i < layers@.len() ==> r.layers@[i] == (MaswLayer {
                depth: Some((masw_prefix_depth(layers@, i + 1)) as i64),
                ..layers@[i]
            }),
            r.depths_computed(),
            r.thicknesses_wf(),
    {
        let mut instance = MaswExp { layers, name };
        instance.calc_depths();
        instance
    }

    /// Calculates and updates the depth of each MASW experiment layer.
    ///
    /// Depth is calculated as a cumulative sum of layer thicknesses:
    /// - The first layer's depth is equal to its thickness.
    /// - Each subsequent layer's depth is the sum of all previous layers' thicknesses.
    pub fn calc_depths(&mut self)
        requires
            forall|i: int| 0 <= i < old(self).layers@.len() ==> (#[trigger] old(
                self,
            ).layers@[i]).thickness is Some && masw_thick0(old(self).layers@[i]) > 0,
            masw_prefix_depth(old(self).layers@, old(self).layers@.len() as int)
                <= MAX_DIMENSION as int,
        ensures
            final(self).name == old(self).name,
            final(self).layers@.len() == old(self).layers@.len(),
            forall|i: int| 0 <= i < old(self).layers@.len() ==> final(self).layers@[i]
                == (MaswLayer {
                depth: Some((masw_prefix_depth(old(self).layers@, i + 1)) as i64),
                ..old(self).layers@[i]
            }),
            final(self).depths_computed(),
            final(self).thicknesses_wf(),
    {
        let ghost orig = self.layers@;
        let n = self.layers.len();
        let mut out: Vec<MaswLayer> = Vec::new();
        let mut bottom: i64 = 0;
        let mut i: usize = 0;
        while i < n
            invariant
                n == self.layers@.len(),
                self.layers@ == orig,
                forall|k: int| 0 <= k < n ==> (#[trigger] orig[k]).thickness is Some
                    && masw_thick0(orig[k]) > 0,
                masw_prefix_depth(orig, n as int) <= MAX_DIMENSION as int,
                0 <= i <= n,
                out@.len() == i,
                bottom as int == masw_prefix_depth(orig, i as int),
                forall|k: int| 0 <= k < i ==> out@[k] == (MaswLayer {
                    depth: Some((masw_prefix_depth(orig, k + 1)) as i64),
                    ..orig[k]
                }),
            decreases n - i,
        {
            proof {
                lemma_masw_prefix_mono(orig, 0, i as int);
                lemma_masw_prefix_mono(orig, i + 1, n as int);
            }
            let mut layer = self.layers[i];
            let t = layer.thickness.unwrap();
            bottom = bottom + t;
            layer.depth = Some(bottom);
            out.push(layer);
            i = i + 1;
        }
        self.layers = out;
        proof {
            assert forall|k: int| 0 <= k < self.layers@.len() implies {
                let l = #[trigger] self.layers@[k];
                &&& l.depth is Some
                &&& l.depth->0 as int == masw_prefix_depth(self.layers@, k + 1)
                &&& l.thickness is Some
                &&& masw_thick0(l) > 0
            } by {
                lemma_masw_prefix_same(orig, self.layers@, k + 1);
                lemma_masw_prefix_mono(orig, 0, k);
                lemma_masw_prefix_mono(orig, k + 1, n as int);
            }
            lemma_masw_prefix_same(orig, self.layers@, n as int);
        }
    }

    /// Retrieves the MASW experiment layer corresponding to a given depth.
    ///
    /// This function finds the first layer whose depth is greater than or equal to the given `depth`.
    /// If no such layer is found, it returns the last layer in the list.
    ///
    /// # Arguments
    ///
    /// * `depth` - The depth at which to search for an experiment layer.
    ///
    /// # Returns
    ///
    /// A reference to the matching `MaswLayer` layer.
    pub fn get_layer_at_depth(&self, depth: i64) -> (r: &MaswLayer)
        requires
            self.depths_present(),
        ensures
            *r == self.layers@[sample_index(self.depth_keys(), depth)],
    {
        let ghost keys = self.depth_keys();
        let n = self.layers.len();
        let mut i: usize = 0;
        while i < n - 1 && self.layers[i].depth.unwrap() < depth
            invariant
                n == self.layers@.len(),
                n > 0,
                self.depths_present(),
                keys == self.depth_keys(),
                0 <= i <= n - 1,
                forall|j: int| 0 <= j < i ==> keys[j] < depth,
            decreases n - i,
        {
            i = i + 1;
        }
        proof {
            lemma_sample_skip(keys, depth, i as int);
            assert(keys[i as int] == self.layers@[i as int].depth->0);
        }
        &self.layers[i]
    }

    /// The condition under which `validate` accepts the line: at least one
    /// layer, every named field of every layer valid.
    pub open spec fn spec_validate_ok(&self, views: Seq<Seq<char>>) -> bool {
        &&& self.layers@.len() > 0
        &&& forall|i: int| 0 <= i < self.layers@.len() ==> first_field_error(
            views,
            |f: Seq<char>| masw_layer_field_error(#[trigger] self.layers@[i], f),
        ) is None
    }

    /// Validates specific fields of every layer of the MaswExp, rejecting an
    /// experiment without layers.
    ///
    /// # Arguments
    /// * `fields` - A slice of field names to validate.
    ///
    /// # Returns
    /// Ok(()) if all fields of all layers are valid, or the first error found.
    pub fn validate(&self, fields: &[&str]) -> (r: Result<(), ValidationError>)
        ensures
            self.layers@.len() == 0 ==> r is Err && r->Err_0.code@ == "masw.empty_layers"@
                && r->Err_0.message@ == "No layers provided for MaswExp."@,
            r is Ok <==> self.spec_validate_ok(field_views(fields@)),
            self.layers@.len() > 0 && r is Err ==> exists|i: int| 0 <= i < self.layers@.len()
                && first_field_error(
                field_views(fields@),
                |f: Seq<char>| masw_layer_field_error(#[trigger] self.layers@[i], f),
            ) == Some((r->Err_0.code@, r->Err_0.message@)),
    {
        if self.layers.len() == 0 {
            return Err(
                ValidationError {
                    code: String::from_str("masw.empty_layers"),
                    message: String::from_str("No layers provided for MaswExp."),
                },
            );
        }
        let mut i: usize = 0;
        while i < self.layers.len()
            invariant
                0 <= i <= self.layers@.len(),
                forall|j: int| 0 <= j < i ==> first_field_error(
                    field_views(fields@),
                    |f: Seq<char>| masw_layer_field_error(#[trigger] self.layers@[j], f),
                ) is None,
            decreases self.layers@.len() - i,
        {
            let layer = self.layers[i];
            match layer.validate(fields) {
                Ok(()) => {},
                Err(e) => {
                    return Err(e);
                },
            }
            i = i + 1;
        }
        Ok(())
    }
}

/// Cumulative depths depend only on thicknesses.
proof fn lemma_masw_prefix_same(a: Seq<MaswLayer>, b: Seq<MaswLayer>, i: int)
    requires
        a.len() == b.len(),
        forall|k: int| 0 <= k < a.len() ==> masw_thick0(#[trigger] b[k]) == masw_thick0(a[k]),
        i <= a.len(),
    ensures
        masw_prefix_depth(b, i) == masw_prefix_depth(a, i),
    decreases i,
{
    if i > 0 {
        lemma_masw_prefix_same(a, b, i - 1);
    }
}

/// When each layer's thickness is the delta between consecutive boundaries
/// starting at the surface, the cumulative depths are the boundaries.
proof fn lemma_masw_boundary_prefix_upto(layers: Seq<MaswLayer>, bounds: Seq<i64>, i: int)
    requires
        bounds.len() == layers.len() + 1,
        bounds[0] == 0i64,
        forall|m: int| 0 <= m < layers.len() ==> masw_thick0(#[trigger] layers[m]) == bounds[m + 1]
            - bounds[m],
        0 <= i <= layers.len(),
    ensures
        masw_prefix_depth(layers, i) == bounds[i] as int,
    decreases i,
{
    if i > 0 {
        lemma_masw_boundary_prefix_upto(layers, bounds, i - 1);
    }
}

/// Appending a layer leaves the cumulative depths of the earlier ones alone.
proof fn lemma_masw_prefix_push(layers: Seq<MaswLayer>, l: MaswLayer, i: int)
    requires
        0 <= i <= layers.len(),
    ensures
        masw_prefix_depth(layers.push(l), i) == masw_prefix_depth(layers, i),
    decreases i,
{
    if i > 0 {
        lemma_masw_prefix_push(layers, l, i - 1);
        assert(layers.push(l)[i - 1] == layers[i - 1]);
    }
}

proof fn lemma_masw_boundary_prefix(layers: Seq<MaswLayer>, bounds: Seq<i64>)
    requires
        bounds.len() == layers.len() + 1,
        bounds[0] == 0i64,
        forall|m: int| 0 <= m < layers.len() ==> masw_thick0(#[trigger] layers[m]) == bounds[m + 1]
            - bounds[m],
    ensures
        masw_prefix_depth(layers, layers.len() as int) == bounds[layers.len() as int] as int,
{
    lemma_masw_boundary_prefix_upto(layers, bounds, layers.len() as int);
}

/// Some layer of some survey line has its bottom exactly at depth `d`.
pub open spec fn masw_union_has(exps: Seq<MaswExp>, d: i64) -> bool {
    exists|a: int, b: int|
        0 <= a < exps.len() && 0 <= b < exps[a].layers@.len() && exps[a].layers@[b].depth == Some(d)
}

/// Some layer of survey lines strictly before position `(i, j)` has its bottom
/// exactly at depth `d`.
pub open spec fn masw_union_has_upto(exps: Seq<MaswExp>, i: int, j: int, d: i64) -> bool {
    exists|a: int, b: int|
        {
            &&& 0 <= a < exps.len()
            &&& 0 <= b < exps[a].layers@.len()
            &&& (a < i || (a == i && b < j))
            &&& exps[a].layers@[b].depth == Some(d)
        }
}

/// The shear wave velocity that line `e` reports for the interval ending at
/// `bottom`: sampling at the interval's midpoint by nearest-depth lookup
/// selects, because interval boundaries are consecutive distinct source
/// depths, exactly the first layer whose bottom is at least the interval's
/// own bottom.
pub open spec fn vs_sample(e: MaswExp, bottom: i64) -> i64 {
    e.layers@[sample_index(e.depth_keys(), bottom)].vs->0
}

/// The compressional wave velocity that line `e` reports for the interval
/// ending at `bottom`.
pub open spec fn vp_sample(e: MaswExp, bottom: i64) -> i64 {
    e.layers@[sample_index(e.depth_keys(), bottom)].vp->0
}

/// The shear wave velocities that all lines report for the interval ending at
/// `bottom`.
pub open spec fn vs_samples(exps: Seq<MaswExp>, bottom: i64) -> Seq<i64> {
    Seq::new(exps.len(), |i: int| vs_sample(exps[i], bottom))
}

/// The compressional wave velocities that all lines report for the interval
/// ending at `bottom`.
pub open spec fn vp_samples(exps: Seq<MaswExp>, bottom: i64) -> Seq<i64> {
    Seq::new(exps.len(), |i: int| vp_sample(exps[i], bottom))
}

/// Represents a MASW model: the survey lines and the policy used to reduce
/// them into one idealized experiment.
#[derive(Debug, Clone)]
pub struct Masw {
    pub exps: Vec<MaswExp>,
    pub idealization_method: SelectionMethod,
}

impl Masw {
    /// Every line of the collection is complete enough to sample.
    pub open spec fn collection_wf(&self) -> bool {
        forall|i: int| 0 <= i < self.exps@.len() ==> (#[trigger] self.exps@[i]).records_wf()
    }

    /// Creates a new `Masw` instance, computing the depths of every line.
    ///
    /// # Arguments
    /// * `exps` - A vector of `MaswExp` instances.
    /// * `idealization_method` - The method used for idealization.
    ///
    /// # Returns
    /// A new `Masw` instance.
    pub fn new(exps: Vec<MaswExp>, idealization_method: SelectionMethod) -> (r: Masw)
        requires
            forall|i: int| 0 <= i < exps@.len() ==> {
                let e = #[trigger] exps@[i];
                &&& forall|j: int| 0 <= j < e.layers@.len() ==> (#[trigger] e.layers@[j]).thickness
                    is Some && masw_thick0(e.layers@[j]) > 0
                &&& masw_prefix_depth(e.layers@, e.layers@.len() as int) <= MAX_DIMENSION as int
            },
        ensures
            r.idealization_method == idealization_method,
            r.exps@.len() == exps@.len(),
            forall|i: int| 0 <= i < exps@.len() ==> {
                let e = #[trigger] r.exps@[i];
                &&& e.name == exps@[i].name
                &&& e.layers@.len() == exps@[i].layers@.len()
                &&& e.depths_computed()
                &&& e.thicknesses_wf()
                &&& forall|j: int| 0 <= j < e.layers@.len() ==> #[trigger] e.layers@[j]
                    == (MaswLayer {
                    depth: Some((masw_prefix_depth(exps@[i].layers@, j + 1)) as i64),
                    ..exps@[i].layers@[j]
                })
            },
    {
        let mut m = Masw { exps, idealization_method };
        m.calc_depths();
        m
    }

    /// Creates an idealized MASW experiment. The distinct cumulative depths
    /// across all lines, together with the surface at depth zero, cut the
    /// ground into consecutive intervals; each interval becomes one idealized
    /// layer whose thickness is the depth delta and whose velocities are
    /// reduced, under the collection's policy, over the value each line
    /// reports for the interval's midpoint by nearest-depth lookup — which,
    /// the boundaries being consecutive distinct source depths, is the first
    /// layer whose bottom is at least the interval's own bottom. Depths are
    /// recomputed on the emitted layers. An empty collection yields an empty,
    /// named experiment.
    ///
    /// # Arguments
    /// * `name` - The name of the idealized experiment.
    ///
    /// # Returns
    /// A new `MaswExp` instance representing the idealized experiment.
    #[verifier::rlimit(60)]
    pub fn get_idealized_exp(&mut self, name: String) -> (r: MaswExp)
        requires
            forall|i: int| 0 <= i < old(self).exps@.len() ==> {
                let e = #[trigger] old(self).exps@[i];
                &&& e.layers@.len() > 0
                &&& forall|j: int| 0 <= j < e.layers@.len() ==> {
                    let l = #[trigger] e.layers@[j];
                    &&& l.thickness is Some && masw_thick0(l) > 0
                    &&& l.vs is Some && 0 <= l.vs->0 <= MAX_VALUE
                    &&& l.vp is Some && 0 <= l.vp->0 <= MAX_VALUE
                }
                &&& masw_prefix_depth(e.layers@, e.layers@.len() as int) <= MAX_DIMENSION as int
            },
        ensures
            r.name == name,
            final(self).idealization_method == old(self).idealization_method,
            final(self).exps@.len() == old(self).exps@.len(),
            final(self).collection_wf(),
            forall|i: int| 0 <= i < old(self).exps@.len() ==> {
                let e = #[trigger] final(self).exps@[i];
                &&& e.name == old(self).exps@[i].name
                &&& e.layers@.len() == old(self).exps@[i].layers@.len()
                &&& forall|j: int| 0 <= j < e.layers@.len() ==> #[trigger] e.layers@[j]
                    == (MaswLayer {
                    depth: Some((masw_prefix_depth(old(self).exps@[i].layers@, j + 1)) as i64),
                    ..old(self).exps@[i].layers@[j]
                })
            },
            old(self).exps@.len() == 0 ==> r.layers@.len() == 0,
            old(self).exps@.len() > 0 ==> {
                &&& strictly_increasing(r.depth_keys())
                &&& r.depths_computed()
                &&& forall|d: i64| r.depth_keys().contains(d) <==> masw_union_has(
                    final(self).exps@,
                    d,
                )
                &&& forall|k: int| 0 <= k < r.layers@.len() ==> {
                    let l = #[trigger] r.layers@[k];
                    let bottom = r.depth_keys()[k];
                    let top: int = if k == 0 {
                        0
                    } else {
                        r.depth_keys()[k - 1] as int
                    };
                    let mode = final(self).idealization_method;
                    &&& l.thickness == Some((bottom - top) as i64)
                    &&& l.vs == Some(reduce(mode, vs_samples(final(self).exps@, bottom)) as i64)
                    &&& l.vp == Some(reduce(mode, vp_samples(final(self).exps@, bottom)) as i64)
                }
            },
    {
        self.calc_depths();
        if self.exps.len() == 0 {
            let empty: Vec<MaswLayer> = Vec::new();
            return MaswExp::new(empty, name);
        }
        let mode = self.idealization_method;
        let ghost exps = self.exps@;
        proof {
            assert forall|i: int| 0 <= i < exps.len() implies (#[trigger] exps[i]).records_wf()
                by {}
            assert forall|i: int, j: int|
                0 <= i < exps.len() && 0 <= j < exps[i].layers@.len() implies 0 < (#[trigger]
            exps[i].layers@[j]).depth->0 <= MAX_DIMENSION by {
                lemma_masw_prefix_mono(exps[i].layers@, j + 1, exps[i].layers@.len() as int);
                lemma_masw_prefix_mono(exps[i].layers@, j, j + 1);
                lemma_masw_prefix_mono(exps[i].layers@, 0, j);
            }
        }

        // 1. Collect the distinct depths across all lines, with the surface.
        let mut depths: Vec<i64> = Vec::new();
        depths.push(0);
        proof {
            assert forall|d: i64| depths@.contains(d) implies d == 0 by {
                let x = choose|x: int| 0 <= x < depths@.len() && depths@[x] == d;
            }
            assert(depths@[0] == 0i64);
        }
        let mut i: usize = 0;
        while i < self.exps.len()
            invariant
                forall|k: int| 0 <= k < exps.len() ==> (#[trigger] exps[k]).records_wf(),
                exps == self.exps@,
                0 <= i <= exps.len(),
                strictly_increasing(depths@),
                forall|d: i64| depths@.contains(d) <==> (d == 0 || masw_union_has_upto(
                    exps,
                    i as int,
                    0,
                    d,
                )),
            decreases exps.len() - i,
        {
            let nl = self.exps[i].layers.len();
            let mut j: usize = 0;
            while j < nl
                invariant
                    forall|k: int| 0 <= k < exps.len() ==> (#[trigger] exps[k]).records_wf(),
                    exps == self.exps@,
                    0 <= i < exps.len(),
                    nl == exps[i as int].layers@.len(),
                    0 <= j <= nl,
                    strictly_increasing(depths@),
                    forall|d: i64| depths@.contains(d) <==> (d == 0 || masw_union_has_upto(
                        exps,
                        i as int,
                        j as int,
                        d,
                    )),
                decreases nl - j,
            {
                let ghost before = depths@;
                insert_sorted(&mut depths, self.exps[i].layers[j].depth.unwrap());
                proof {
                    let dij = exps[i as int].layers@[j as int].depth->0;
                    assert forall|d: i64| depths@.contains(d) implies (d == 0
                        || masw_union_has_upto(exps, i as int, j + 1, d)) by {
                        if before.contains(d) {
                            if d != 0 {
                                let (a, b) = choose|a: int, b: int|
                                    {
                                        &&& 0 <= a < exps.len()
                                        &&& 0 <= b < exps[a].layers@.len()
                                        &&& (a < i as int || (a == i as int && b < j as int))
                                        &&& exps[a].layers@[b].depth == Some(d)
                                    };
                                assert(masw_union_has_upto(exps, i as int, j + 1, d));
                            }
                        } else {
                            assert(d == dij);
                            assert(exps[i as int].layers@[j as int].depth == Some(d));
                        }
                    }
                    assert forall|d: i64| (d == 0 || masw_union_has_upto(exps, i as int, j + 1, d))
                        implies depths@.contains(d) by {
                        if d != 0 && masw_union_has_upto(exps, i as int, j + 1, d) {
                            let (a, b) = choose|a: int, b: int|
                                {
                                    &&& 0 <= a < exps.len()
                                    &&& 0 <= b < exps[a].layers@.len()
                                    &&& (a < i as int || (a == i as int && b < j + 1))
                                    &&& exps[a].layers@[b].depth == Some(d)
                                };
                            if a == i as int && b == j as int {
                                assert(d == dij);
                            } else {
                                assert(masw_union_has_upto(exps, i as int, j as int, d));
                                assert(before.contains(d));
                            }
                        }
                    }
                }
                j = j + 1;
            }
            proof {
                assert forall|d: i64| masw_union_has_upto(exps, i as int, nl as int, d)
                    <==> masw_union_has_upto(exps, i + 1, 0, d) by {
                    if masw_union_has_upto(exps, i as int, nl as int, d) {
                        let (a, b) = choose|a: int, b: int|
                            {
                                &&& 0 <= a < exps.len()
                                &&& 0 <= b < exps[a].layers@.len()
                                &&& (a < i as int || (a == i as int && b < nl as int))
                                &&& exps[a].layers@[b].depth == Some(d)
                            };
                        assert(a < i + 1);
                        assert(masw_union_has_upto(exps, i + 1, 0, d));
                    }
                    if masw_union_has_upto(exps, i + 1, 0, d) {
                        let (a, b) = choose|a: int, b: int|
                            {
                                &&& 0 <= a < exps.len()
                                &&& 0 <= b < exps[a].layers@.len()
                                &&& (a < i + 1 || (a == i + 1 && b < 0))
                                &&& exps[a].layers@[b].depth == Some(d)
                            };
                        if a == i as int {
                            assert(b < exps[i as int].layers@.len());
                        }
                        assert(masw_union_has_upto(exps, i as int, nl as int, d));
                    }
                }
            }
            i = i + 1;
        }
        proof {
            // every boundary is in range, and the surface is the first
            assert forall|x: int| 0 <= x < depths@.len() implies 0 <= #[trigger] depths@[x]
                <= MAX_DIMENSION by {
                assert(depths@.contains(depths@[x]));
                if depths@[x] != 0 {
                    let (a, b) = choose|a: int, b: int|
                        {
                            &&& 0 <= a < exps.len()
                            &&& 0 <= b < exps[a].layers@.len()
                            &&& exps[a].layers@[b].depth == Some(depths@[x])
                        };
                }
            }
            assert(depths@.contains(0i64));
            let z = choose|z: int| 0 <= z < depths@.len() && depths@[z] == 0i64;
            assert(depths@[0] == 0i64) by {
                if z > 0 {
                    assert(depths@[0] < depths@[z]);
                }
            }
        }

        // 2. Form one layer per interval between consecutive boundaries.
        let mut layers: Vec<MaswLayer> = Vec::new();
        let nb = depths.len();
        let mut k: usize = 0;
        while k < nb - 1
            invariant
                forall|x: int| 0 <= x < exps.len() ==> (#[trigger] exps[x]).records_wf(),
                exps == self.exps@,
                exps.len() > 0,
                mode == self.idealization_method,
                nb == depths@.len(),
                nb >= 1,
                strictly_increasing(depths@),
                depths@[0] == 0i64,
                forall|x: int| 0 <= x < nb ==> 0 <= #[trigger] depths@[x] <= MAX_DIMENSION,
                0 <= k <= nb - 1,
                layers@.len() == k,
                masw_prefix_depth(layers@, k as int) == depths@[k as int] as int,
                forall|m: int| 0 <= m < k ==> #[trigger] layers@[m] == (MaswLayer {
                    thickness: Some((depths@[m + 1] - depths@[m]) as i64),
                    vs: Some(reduce(mode, vs_samples(exps, depths@[m + 1])) as i64),
                    vp: Some(reduce(mode, vp_samples(exps, depths@[m + 1])) as i64),
                    depth: None,
                }),
            decreases nb - 1 - k,
        {
            let top = depths[k];
            let bottom = depths[k + 1];
            let thickness = bottom - top;
            let mut vvs: Vec<i64> = Vec::new();
            let mut vvp: Vec<i64> = Vec::new();
            let mut e: usize = 0;
            while e < self.exps.len()
                invariant
                    forall|x: int| 0 <= x < exps.len() ==> (#[trigger] exps[x]).records_wf(),
                    exps == self.exps@,
                    0 <= e <= exps.len(),
                    vvs@.len() == e && vvp@.len() == e,
                    forall|m: int| 0 <= m < e ==> #[trigger] vvs@[m] == vs_sample(exps[m], bottom),
                    forall|m: int| 0 <= m < e ==> #[trigger] vvp@[m] == vp_sample(exps[m], bottom),
                decreases exps.len() - e,
            {
                let exp = &self.exps[e];
                proof {
                    lemma_sample_index_props(exp.depth_keys(), bottom);
                }
                let layer = exp.get_layer_at_depth(bottom);
                vvs.push(layer.vs.unwrap());
                vvp.push(layer.vp.unwrap());
                e = e + 1;
            }
            proof {
                assert(vvs@ =~= vs_samples(exps, bottom));
                assert(vvp@ =~= vp_samples(exps, bottom));
                assert forall|m: int| 0 <= m < vvs@.len() implies 0 <= #[trigger] vvs@[m]
                    <= MAX_VALUE by {
                    lemma_sample_index_props(exps[m].depth_keys(), bottom);
                }
                assert forall|m: int| 0 <= m < vvp@.len() implies 0 <= #[trigger] vvp@[m]
                    <= MAX_VALUE by {
                    lemma_sample_index_props(exps[m].depth_keys(), bottom);
                }
            }
            let vs = reduce_values(mode, &vvs);
            let vp = reduce_values(mode, &vvp);
            let ghost prev_layers = layers@;
            layers.push(MaswLayer::new(thickness, vs, vp));
            proof {
                lemma_masw_prefix_push(prev_layers, layers@.last(), k as int);
                assert(masw_prefix_depth(layers@, k + 1) == masw_prefix_depth(layers@, k as int)
                    + masw_thick0(layers@[k as int]));
            }
            k = k + 1;
        }
        proof {
            assert forall|m: int| 0 <= m < layers@.len() implies (#[trigger]
            layers@[m]).thickness is Some && masw_thick0(layers@[m]) > 0 by {}
            lemma_masw_boundary_prefix(layers@, depths@);
        }
        let r = MaswExp::new(layers, name);
        proof {
            let keys = r.depth_keys();
            assert forall|x: int| 0 <= x < keys.len() implies #[trigger] keys[x] == depths@[x + 1]
                by {
                lemma_masw_boundary_prefix_upto(r.layers@, depths@, x + 1);
                assert(keys[x] == r.layers@[x].depth->0);
            }
            assert forall|d: i64| keys.contains(d) implies masw_union_has(exps, d) by {
                let x = choose|x: int| 0 <= x < keys.len() && keys[x] == d;
                assert(depths@[x + 1] == d);
                assert(depths@.contains(d));
                assert(depths@[0] < depths@[x + 1]);
            }
            assert forall|d: i64| masw_union_has(exps, d) implies keys.contains(d) by {
                let (a, b) = choose|a: int, b: int|
                    {
                        &&& 0 <= a < exps.len()
                        &&& 0 <= b < exps[a].layers@.len()
                        &&& exps[a].layers@[b].depth == Some(d)
                    };
                assert(depths@.contains(d));
                let x = choose|x: int| 0 <= x < depths@.len() && depths@[x] == d;
                assert(d as int > 0);
                assert(x != 0);
                assert(keys[x - 1] == d);
            }
        }
        r
    }

    /// Identity law: any result meeting `get_idealized_exp`'s contract for a
    /// collection of exactly one line carries that line's thicknesses and wave
    /// velocities unchanged, for Min, Avg and Max alike.
    pub proof fn lemma_idealize_singleton_identity(
        exps: Seq<MaswExp>,
        r: MaswExp,
        mode: SelectionMethod,
    )
        requires
            exps.len() == 1,
            exps[0].records_wf(),
            strictly_increasing(r.depth_keys()),
            forall|d: i64| r.depth_keys().contains(d) <==> masw_union_has(exps, d),
            forall|k: int| 0 <= k < r.layers@.len() ==> {
                let l = #[trigger] r.layers@[k];
                let bottom = r.depth_keys()[k];
                let top: int = if k == 0 {
                    0
                } else {
                    r.depth_keys()[k - 1] as int
                };
                &&& l.thickness == Some((bottom - top) as i64)
                &&& l.vs == Some(reduce(mode, vs_samples(exps, bottom)) as i64)
                &&& l.vp == Some(reduce(mode, vp_samples(exps, bottom)) as i64)
            },
        ensures
            r.depth_keys() == exps[0].depth_keys(),
            r.layers@.len() == exps[0].layers@.len(),
            forall|k: int| 0 <= k < r.layers@.len() ==> {
                let l = #[trigger] r.layers@[k];
                let s = exps[0].layers@[k];
                &&& l.thickness == s.thickness
                &&& l.vs == s.vs
                &&& l.vp == s.vp
            },
    {
        let e = exps[0];
        let skeys = e.depth_keys();
        assert forall|p: int, q: int| 0 <= p < q < skeys.len() implies skeys[p] < skeys[q] by {
            lemma_masw_prefix_mono(e.layers@, p + 1, q);
            assert(skeys[p] as int == masw_prefix_depth(e.layers@, p + 1));
            assert(skeys[q] as int == masw_prefix_depth(e.layers@, q + 1));
            assert(masw_prefix_depth(e.layers@, q + 1) == masw_prefix_depth(e.layers@, q)
                + masw_thick0(e.layers@[q]));
        }
        assert(strictly_increasing(skeys));
        assert forall|d: i64| skeys.contains(d) implies r.depth_keys().contains(d) by {
            let b = choose|b: int| 0 <= b < skeys.len() && skeys[b] == d;
            assert(e.layers@[b].depth == Some(d));
            assert(masw_union_has(exps, d));
        }
        assert forall|d: i64| r.depth_keys().contains(d) implies skeys.contains(d) by {
            assert(masw_union_has(exps, d));
            let (a, b) = choose|a: int, b: int|
                {
                    &&& 0 <= a < exps.len()
                    &&& 0 <= b < exps[a].layers@.len()
                    &&& exps[a].layers@[b].depth == Some(d)
                };
            assert(a == 0);
            assert(skeys[b] == d);
            assert(skeys.contains(d));
        }
        crate::aggregate::lemma_sorted_unique_eq(r.depth_keys(), skeys);
        assert forall|k: int| 0 <= k < r.layers@.len() implies {
            let l = #[trigger] r.layers@[k];
            let s = exps[0].layers@[k];
            &&& l.thickness == s.thickness
            &&& l.vs == s.vs
            &&& l.vp == s.vp
        } by {
            let d = r.depth_keys()[k];
            crate::aggregate::lemma_sample_index_own_key(skeys, k);
            crate::aggregate::lemma_reduce_singleton(mode, vs_samples(exps, d));
            crate::aggregate::lemma_reduce_singleton(mode, vp_samples(exps, d));
            assert(vs_samples(exps, d)[0] == vs_sample(e, d));
            assert(vp_samples(exps, d)[0] == vp_sample(e, d));
            assert(skeys[k] as int == masw_prefix_depth(e.layers@, k + 1));
            if k > 0 {
                assert(skeys[k - 1] as int == masw_prefix_depth(e.layers@, k));
            }
            assert(masw_prefix_depth(e.layers@, k + 1) == masw_prefix_depth(e.layers@, k)
                + masw_thick0(e.layers@[k]));
        }
    }

    /// Policy-order law: per velocity field and per interval, the Max-policy
    /// value is at least the Avg-policy value, which is at least the
    /// Min-policy value.
    pub proof fn lemma_idealize_policy_order(exps: Seq<MaswExp>, bottom: i64)
        requires
            exps.len() > 0,
        ensures
            reduce(SelectionMethod::Min, vs_samples(exps, bottom)) <= reduce(
                SelectionMethod::Avg,
                vs_samples(exps, bottom),
            ) <= reduce(SelectionMethod::Max, vs_samples(exps, bottom)),
            reduce(SelectionMethod::Min, vp_samples(exps, bottom)) <= reduce(
                SelectionMethod::Avg,
                vp_samples(exps, bottom),
            ) <= reduce(SelectionMethod::Max, vp_samples(exps, bottom)),
    {
        crate::aggregate::lemma_policy_order(vs_samples(exps, bottom));
        crate::aggregate::lemma_policy_order(vp_samples(exps, bottom));
    }

    /// Partition law: an idealized experiment's intervals tile the ground from
    /// the surface down to the deepest source depth — each layer starts where
    /// the previous one ends, and the last ends at the deepest depth any
    /// source line reaches.
    pub proof fn lemma_idealize_partition(exps: Seq<MaswExp>, r: MaswExp)
        requires
            r.layers@.len() > 0,
            strictly_increasing(r.depth_keys()),
            r.depths_computed(),
            forall|d: i64| r.depth_keys().contains(d) <==> masw_union_has(exps, d),
        ensures
            masw_union_has(exps, r.depth_keys()[r.depth_keys().len() - 1]),
            forall|d: i64| masw_union_has(exps, d) ==> d <= r.depth_keys()[r.depth_keys().len()
                - 1],
            forall|k: int| 0 <= k < r.layers@.len() ==> #[trigger] r.depth_keys()[k] as int
                == (if k == 0 {
                0int
            } else {
                r.depth_keys()[k - 1] as int
            }) + masw_thick0(r.layers@[k]),
    {
        let keys = r.depth_keys();
        assert(keys.contains(keys[keys.len() - 1]));
        assert forall|d: i64| masw_union_has(exps, d) implies d <= keys[keys.len() - 1] by {
            assert(keys.contains(d));
            crate::aggregate::lemma_sorted_le_last(keys, d);
        }
        assert forall|k: int| 0 <= k < r.layers@.len() implies #[trigger] keys[k] as int == (if k
            == 0 {
            0int
        } else {
            keys[k - 1] as int
        }) + masw_thick0(r.layers@[k]) by {
            assert(keys[k] == r.layers@[k].depth->0);
            assert(keys[k] as int == masw_prefix_depth(r.layers@, k + 1));
            if k > 0 {
                assert(keys[k - 1] == r.layers@[k - 1].depth->0);
                assert(keys[k - 1] as int == masw_prefix_depth(r.layers@, k));
            }
            assert(masw_prefix_depth(r.layers@, k + 1) == masw_prefix_depth(r.layers@, k)
                + masw_thick0(r.layers@[k]));
        }
    }

    /// Adds a new `MaswExp` instance to the `Masw` collection.
    ///
    /// # Arguments
    /// * `exp` - The `MaswExp` instance to add to the collection.
    pub fn add_exp(&mut self, exp: MaswExp)
        ensures
            final(self).exps@ == old(self).exps@.push(exp),
            final(self).idealization_method == old(self).idealization_method,
    {
        self.exps.push(exp);
    }

    /// Validates specific fields of every line of the model, rejecting an
    /// empty collection.
    ///
    /// # Arguments
    /// * `fields` - A slice of field names to validate.
    ///
    /// # Returns
    /// Ok(()) if all fields are valid, or the first error found.
    pub fn validate(&self, fields: &[&str]) -> (r: Result<(), ValidationError>)
        ensures
            self.exps@.len() == 0 ==> r is Err && r->Err_0.code@ == "masw.empty_exps"@
                && r->Err_0.message@ == "No experiments provided for Masw."@,
            r is Ok <==> self.exps@.len() > 0 && forall|i: int| 0 <= i < self.exps@.len() ==> (
            #[trigger] self.exps@[i]).spec_validate_ok(field_views(fields@)),
    {
        if self.exps.len() == 0 {
            return Err(
                ValidationError {
                    code: String::from_str("masw.empty_exps"),
                    message: String::from_str("No experiments provided for Masw."),
                },
            );
        }
        let mut i: usize = 0;
        while i < self.exps.len()
            invariant
                0 <= i <= self.exps@.len(),
                forall|j: int| 0 <= j < i ==> (#[trigger] self.exps@[j]).spec_validate_ok(
                    field_views(fields@),
                ),
            decreases self.exps@.len() - i,
        {
            let exp = &self.exps[i];
            match exp.validate(fields) {
                Ok(()) => {},
                Err(e) => {
                    return Err(e);
                },
            }
            i = i + 1;
        }
        Ok(())
    }

    /// Calculates and updates the depth of each layer of each line.
    pub fn calc_depths(&mut self)
        requires
            forall|i: int| 0 <= i < old(self).exps@.len() ==> {
                let e = #[trigger] old(self).exps@[i];
                &&& forall|j: int| 0 <= j < e.layers@.len() ==> (#[trigger] e.layers@[j]).thickness
                    is Some && masw_thick0(e.layers@[j]) > 0
                &&& masw_prefix_depth(e.layers@, e.layers@.len() as int) <= MAX_DIMENSION as int
            },
        ensures
            final(self).idealization_method == old(self).idealization_method,
            final(self).exps@.len() == old(self).exps@.len(),
            forall|i: int| 0 <= i < old(self).exps@.len() ==> {
                let e = #[trigger] final(self).exps@[i];
                &&& e.name == old(self).exps@[i].name
                &&& e.layers@.len() == old(self).exps@[i].layers@.len()
                &&& e.depths_computed()
                &&& e.thicknesses_wf()
                &&& forall|j: int| 0 <= j < e.layers@.len() ==> #[trigger] e.layers@[j]
                    == (MaswLayer {
                    depth: Some((masw_prefix_depth(old(self).exps@[i].layers@, j + 1)) as i64),
                    ..old(self).exps@[i].layers@[j]
                })
            },
    {
        let ghost orig = old(self).exps@;
        let n = self.exps.len();
        let mut out: Vec<MaswExp> = Vec::new();
        while self.exps.len() > 0
            invariant
                orig.len() == n,
                self.idealization_method == old(self).idealization_method,
                out@.len() + self.exps@.len() == n,
                self.exps@ == orig.skip(out@.len() as int),
                forall|k: int| 0 <= k < n ==> {
                    let e = #[trigger] orig[k];
                    &&& forall|j: int| 0 <= j < e.layers@.len() ==> (#[trigger]
                    e.layers@[j]).thickness is Some && masw_thick0(e.layers@[j]) > 0
                    &&& masw_prefix_depth(e.layers@, e.layers@.len() as int)
                        <= MAX_DIMENSION as int
                },
                forall|k: int| 0 <= k < out@.len() ==> {
                    let e = #[trigger] out@[k];
                    &&& e.name == orig[k].name
                    &&& e.layers@.len() == orig[k].layers@.len()
                    &&& e.depths_computed()
                    &&& e.thicknesses_wf()
                    &&& forall|j: int| 0 <= j < e.layers@.len() ==> #[trigger] e.layers@[j]
                        == (MaswLayer {
                        depth: Some((masw_prefix_depth(orig[k].layers@, j + 1)) as i64),
                        ..orig[k].layers@[j]
                    })
                },
            decreases self.exps@.len(),
        {
            let ghost k = out@.len() as int;
            let mut e = self.exps.remove(0);
            proof {
                assert(e == orig.skip(k)[0]);
                assert(e == orig[k]);
                assert(orig.skip(k).remove(0) =~= orig.skip(k + 1));
            }
            e.calc_depths();
            out.push(e);
        }
        self.exps = out;
        proof {
            assert(self.exps@.len() == orig.len());
        }
    }
}

} // verus!
