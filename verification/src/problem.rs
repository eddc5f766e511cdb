//! The optimisation problem and its builder.
//!
//! A `Problem` binds a caller-supplied objective to a configuration
//! map of named scalar hyperparameters and ordered parameter names,
//! with an optional default optimiser.  The builder accumulates those
//! pieces and is consumed by `build`, which fails (with an error
//! value, never a panic) when no objective was supplied.

use vstd::prelude::*;

use crate::fixed::Scalar;
use crate::nelder_mead::NelderMead;
use crate::objective::Objective;
use crate::results::OptimisationResults;

verus! {

/// Failure of `Builder::build`.
#[derive(Clone, Copy, PartialEq, Eq, Structural, Debug)]
pub enum BuildError {
    /// No objective was supplied before building.
    MissingObjective,
}

impl BuildError {
    /// A human-readable description of the failure.
    pub fn message(&self) -> (m: &'static str) {
        match self {
            BuildError::MissingObjective => "at least one objective must be provided",
        }
    }
}

/// The configuration entries seen as a map; a later entry for the same
/// key wins.
pub open spec fn config_map(entries: Seq<(String, Scalar)>) -> Map<Seq<char>, int>
    decreases entries.len(),
{
    if entries.len() == 0 {
        Map::empty()
    } else {
        config_map(entries.drop_last()).insert(entries.last().0@, entries.last().1.raw as int)
    }
}

proof fn lemma_config_map_found(entries: Seq<(String, Scalar)>, i: int, k: Seq<char>)
    requires
        0 <= i < entries.len(),
        entries[i].0@ == k,
        forall|j: int| i < j < entries.len() ==> (#[trigger] entries[j]).0@ != k,
    ensures
        config_map(entries).contains_key(k),
        config_map(entries)[k] == entries[i].1.raw as int,
    decreases entries.len(),
{
    if i == entries.len() - 1 {
    } else {
        lemma_config_map_found(entries.drop_last(), i, k);
    }
}

proof fn lemma_config_map_absent(entries: Seq<(String, Scalar)>, k: Seq<char>)
    requires
        forall|j: int| 0 <= j < entries.len() ==> (#[trigger] entries[j]).0@ != k,
    ensures
        !config_map(entries).contains_key(k),
    decreases entries.len(),
{
    if entries.len() == 0 {
    } else {
        lemma_config_map_absent(entries.drop_last(), k);
    }
}

/// Accumulates the parts of a `Problem`.  Every call returns the
/// updated builder by value; `build` consumes it.
pub struct Builder<O> {
    /// The objective to minimise, once supplied.
    pub objective: Option<O>,
    /// Named scalar hyperparameters, in insertion order.
    pub config: Vec<(String, Scalar)>,
    /// Ordered parameter names; the problem's dimension.
    pub parameter_names: Vec<String>,
    /// The optimiser used when `optimize` receives none.
    pub default_optimiser: Option<NelderMead>,
}

impl<O: Objective> Builder<O> {
    /// An empty builder.
    pub fn new() -> (r: Builder<O>)
        ensures
            r.objective is None,
            r.config@.len() == 0,
            r.parameter_names@.len() == 0,
            r.default_optimiser is None,
    {
        Builder {
            objective: None,
            config: Vec::new(),
            parameter_names: Vec::new(),
            default_optimiser: None,
        }
    }

    /// Supplies the objective; a later call replaces an earlier one.
    pub fn with_objective(self, objective: O) -> (r: Builder<O>)
        ensures
            r.objective == Some(objective),
            r.config@ == self.config@,
            r.parameter_names@ == self.parameter_names@,
            r.default_optimiser == self.default_optimiser,
    {
        Builder { objective: Some(objective), ..self }
    }

    /// Records a named scalar; the last write for a key wins.
    pub fn with_config(self, key: String, value: Scalar) -> (r: Builder<O>)
        ensures
            r.config@ == self.config@.push((key, value)),
            config_map(r.config@) == config_map(self.config@).insert(key@, value.raw as int),
            r.objective == self.objective,
            r.parameter_names@ == self.parameter_names@,
            r.default_optimiser == self.default_optimiser,
    {
        let mut b = self;
        let ghost old_entries = b.config@;
        b.config.push((key, value));
        proof {
            assert(b.config@.drop_last() =~= old_entries);
        }
        b
    }

    /// Appends a parameter name, growing the problem's dimension.
    pub fn add_parameter(self, name: String) -> (r: Builder<O>)
        ensures
            r.parameter_names@ == self.parameter_names@.push(name),
            r.objective == self.objective,
            r.config@ == self.config@,
            r.default_optimiser == self.default_optimiser,
    {
        let mut b = self;
        b.parameter_names.push(name);
        b
    }

    /// Chooses the optimiser that `optimize` falls back to.
    pub fn set_optimiser(self, optimiser: NelderMead) -> (r: Builder<O>)
        ensures
            r.default_optimiser == Some(optimiser),
            r.objective == self.objective,
            r.config@ == self.config@,
            r.parameter_names@ == self.parameter_names@,
    {
        Builder { default_optimiser: Some(optimiser), ..self }
    }

    /// Consumes the builder.  Succeeds exactly when an objective was
    /// supplied, carrying every accumulated part into the problem.
    pub fn build(self) -> (res: Result<Problem<O>, BuildError>)
        ensures
            match res {
                Ok(p) => self.objective == Some(p.objective) && p.config@ == self.config@
                    && p.parameter_names@ == self.parameter_names@ && p.default_optimiser
                    == self.default_optimiser,
                Err(e) => self.objective is None && e == BuildError::MissingObjective,
            },
    {
        match self.objective {
            Some(obj) => Ok(
                Problem {
                    objective: obj,
                    config: self.config,
                    parameter_names: self.parameter_names,
                    default_optimiser: self.default_optimiser,
                },
            ),
            None => Err(BuildError::MissingObjective),
        }
    }
}

impl<O: Objective> Default for Builder<O> {
    /// An empty builder, exactly as `new`.
    fn default() -> (r: Builder<O>)
        ensures
            r.objective is None,
            r.config@.len() == 0,
            r.parameter_names@.len() == 0,
            r.default_optimiser is None,
    {
        Builder::new()
    }
}

/// An immutable optimisation problem: an objective, named scalar
/// hyperparameters, ordered parameter names and an optional default
/// optimiser.
pub struct Problem<O> {
    /// The objective to minimise.
    pub objective: O,
    /// Named scalar hyperparameters, in insertion order.
    pub config: Vec<(String, Scalar)>,
    /// Ordered parameter names.
    pub parameter_names: Vec<String>,
    /// The optimiser used when `optimize` receives none.
    pub default_optimiser: Option<NelderMead>,
}

impl<O: Objective> Problem<O> {
    /// Invokes the stored objective directly; no caching, since the
    /// objective may be stochastic or externally stateful.  Nothing
    /// can be promised of the returned value.
    pub fn evaluate(&self, x: &Vec<Scalar>) -> Scalar {
        self.objective.value(x)
    }

    /// Evaluates the objective together with its analytical gradient,
    /// when the objective carries one; `None` otherwise.  Nothing can
    /// be promised of the returned values themselves.
    pub fn evaluate_with_gradient(&self, x: &Vec<Scalar>) -> Option<(Scalar, Vec<Scalar>)> {
        match self.objective.gradient(x) {
            Some(g) => Some((self.objective.value(x), g)),
            None => None,
        }
    }

    /// Looks up a named hyperparameter: the value under the key in the
    /// configuration map, where the last write for a key wins.
    pub fn get_config(&self, key: &String) -> (r: Option<Scalar>)
        ensures
            match r {
                Some(v) => config_map(self.config@).contains_key(key@) && v.raw as int
                    == config_map(self.config@)[key@],
                None => !config_map(self.config@).contains_key(key@),
            },
    {
        let mut i: usize = self.config.len();
        while i > 0
            invariant
                i <= self.config@.len(),
                forall|j: int|
                    i <= j < self.config@.len() ==> (#[trigger] self.config@[j]).0@ != key@,
            decreases i,
        {
            i = i - 1;
            let hit = self.config[i].0 == *key;
            if hit {
                proof {
                    lemma_config_map_found(self.config@, i as int, key@);
                }
                return Some(self.config[i].1);
            }
        }
        proof {
            lemma_config_map_absent(self.config@, key@);
        }
        None
    }

    /// The configuration entries, in insertion order.
    pub fn config(&self) -> (r: &Vec<(String, Scalar)>)
        ensures
            r@ == self.config@,
    {
        &self.config
    }

    /// The number of registered parameters; zero when no names were
    /// registered, in which case callers supply an explicit initial
    /// vector of the size they intend.
    pub fn dimension(&self) -> (r: usize)
        ensures
            r == self.parameter_names@.len(),
    {
        self.parameter_names.len()
    }

    /// Runs an optimiser on this problem.  The optimiser is, in
    /// order: the explicit argument, else the problem's default, else
    /// Nelder-Mead with built-in defaults.  A missing initial vector
    /// defaults to the zero vector of the problem's dimension.  The
    /// result's point keeps that dimension.
    pub fn optimize(
        &self,
        initial: Option<Vec<Scalar>>,
        optimiser: Option<&crate::optimiser::AnyOptimiser>,
    ) -> (res: Result<OptimisationResults, crate::results::OptimiseError>)
        requires
            (match initial {
                Some(v) => v@.len(),
                None => self.parameter_names@.len(),
            }) < 0x4000000000000000,
            match optimiser {
                Some(o) => o matches crate::optimiser::AnyOptimiser::Adam(a) ==> a.wf(),
                None => true,
            },
        ensures
            match res {
                Ok(r) => r.x@.len() == (match initial {
                    Some(v) => v@.len(),
                    None => self.parameter_names@.len(),
                }) && r.nit <= (match optimiser {
                    Some(o) => o.spec_max_iter(),
                    None => match self.default_optimiser {
                        Some(nm) => nm.max_iter,
                        None => crate::nelder_mead::DEFAULT_MAX_ITER,
                    },
                }) && (!r.success ==> r.nit == (match optimiser {
                    Some(o) => o.spec_max_iter(),
                    None => match self.default_optimiser {
                        Some(nm) => nm.max_iter,
                        None => crate::nelder_mead::DEFAULT_MAX_ITER,
                    },
                })),
                Err(_) => match optimiser {
                    Some(o) => o is Adam,
                    None => false,
                },
            },
    {
        let x0 = match initial {
            Some(v) => v,
            None => crate::vecops::vec_zero(self.parameter_names.len()),
        };
        match optimiser {
            Some(o) => o.run(self, x0),
            None => {
                match &self.default_optimiser {
                    Some(nm) => Ok(nm.run(self, x0)),
                    None => Ok(NelderMead::new().run(self, x0)),
                }
            },
        }
    }
}

} // verus!
