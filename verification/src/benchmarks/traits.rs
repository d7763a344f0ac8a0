//! Benchmark problems: bounds and dimension that can be set, a builder that
//! refuses to build without them, and what a local step has to decide.
//!
//! A local step draws noise until it is accepted, which may take any number
//! of draws. The draws are the caller's; what is done with each draw is
//! `local_attempt`.

use crate::order::{
    adds, below, comparable, divides, is_below, minus, over, plus, subtracts, Number,
};
use crate::problem_definitions::{copy_of, ratio, HasNumbers, ProblemDomain};
use vstd::prelude::*;

verus! {

/// A problem whose bounds and dimension are settings.
pub trait Benchmark: Sized {
    /// The numbers that the problem is stated over.
    type Value: Number;

    fn get_min(&self) -> Self::Value;

    fn get_max(&self) -> Self::Value;

    fn get_dim(&self) -> usize;

    /// The lowest cost that the problem is known to have, if it is known.
    fn get_expected_min(&self) -> Option<Self::Value>;

    /// A point at which the problem has its lowest cost, if one is known.
    fn get_expected_min_coords(&self) -> Option<&[Self::Value]>;

    fn set_min(self, value: Self::Value) -> Self;

    fn set_max(self, value: Self::Value) -> Self;

    fn set_dim(self, value: usize) -> Self;

    fn set_expected_min(self, value: Option<Self::Value>) -> Self;

    fn set_expected_min_coords(self, value: Option<Vec<Self::Value>>) -> Self;

    fn cost_function(&self, input: &[Self::Value]) -> Self::Value;
}

/// A benchmark is a problem: its bounds, its dimension and its costs are the
/// problem's.
impl<T> ProblemDomain for T where T: Benchmark {
    type Item = T::Value;

    fn get_minimum(&self) -> (r: Self::Item)
        ensures
            call_ensures(T::get_min, (self,), r),
    {
        self.get_min()
    }

    fn get_maximum(&self) -> (r: Self::Item)
        ensures
            call_ensures(T::get_max, (self,), r),
    {
        self.get_max()
    }

    fn get_dimensions(&self) -> (r: usize)
        ensures
            call_ensures(T::get_dim, (self,), r),
    {
        self.get_dim()
    }

    fn cost_function(&self, input: &[Self::Item]) -> (r: Self::Item)
        ensures
            call_ensures(<T as Benchmark>::cost_function, (self, input), r),
    {
        Benchmark::cost_function(self, input)
    }
}

/// What a builder can miss.
#[derive(Debug)]
pub enum BuilderError {
    NoMin,
    NoMax,
    NoDim,
}

impl BuilderError {
    /// The error in words.
    pub fn message(&self) -> (r: String)
        ensures
            r@ == match self {
                BuilderError::NoMin => "Error while building object: Minimum is missing"@,
                BuilderError::NoMax => "Error while building object: Maximum is missing"@,
                BuilderError::NoDim => {
                    "Error while building object: Number of dimensions is missing"@
                },
            },
    {
        match self {
            BuilderError::NoMin => "Error while building object: Minimum is missing".to_owned(),
            BuilderError::NoMax => "Error while building object: Maximum is missing".to_owned(),
            BuilderError::NoDim => {
                "Error while building object: Number of dimensions is missing".to_owned()
            },
        }
    }
}

/// Collects the settings of a benchmark.
pub struct BenchmarkBuilder<T> where T: Benchmark + Default {
    min: Option<T::Value>,
    max: Option<T::Value>,
    dim: Option<usize>,
    expected_min: Option<T::Value>,
    expected_min_coords: Option<Vec<T::Value>>,
}

/// What a builder holds.
pub ghost struct Settings<S> {
    pub min: Option<S>,
    pub max: Option<S>,
    pub dim: Option<usize>,
    pub expected_min: Option<S>,
    pub expected_min_coords: Option<Seq<S>>,
}

/// The view of coordinates that may be there.
pub open spec fn coords_view<S>(coords: Option<Vec<S>>) -> Option<Seq<S>> {
    match coords {
        Some(v) => Some(v@),
        None => None,
    }
}

impl<T> View for BenchmarkBuilder<T> where T: Benchmark + Default {
    type V = Settings<T::Value>;

    closed spec fn view(&self) -> Settings<T::Value> {
        Settings {
            min: self.min,
            max: self.max,
            dim: self.dim,
            expected_min: self.expected_min,
            expected_min_coords: coords_view(self.expected_min_coords),
        }
    }
}

/// A type that offers a builder for itself.
pub trait HasBuilder<T> where T: Benchmark + Default {
    /// A builder that holds no setting yet.
    fn builder() -> (r: BenchmarkBuilder<T>)
        ensures
            r@ == (Settings::<T::Value> {
                min: None,
                max: None,
                dim: None,
                expected_min: None,
                expected_min_coords: None,
            }),
    {
        BenchmarkBuilder {
            min: None,
            max: None,
            dim: None,
            expected_min: None,
            expected_min_coords: None,
        }
    }
}

/// `built` is what the setters of `T` can make of its default value when
/// they are handed, in this order, the expected minimum, the coordinates
/// expected for it, the minimum, the maximum and the dimension.
pub open spec fn assembles<T: Benchmark + Default>(
    blank: T,
    expecting: T,
    located: T,
    floored: T,
    capped: T,
    coords: Option<Vec<T::Value>>,
    settings: Settings<T::Value>,
    built: T,
) -> bool {
    &&& settings.min is Some
    &&& settings.max is Some
    &&& settings.dim is Some
    &&& coords_view(coords) == settings.expected_min_coords
    &&& call_ensures(T::default, (), blank)
    &&& call_ensures(T::set_expected_min, (blank, settings.expected_min), expecting)
    &&& call_ensures(T::set_expected_min_coords, (expecting, coords), located)
    &&& call_ensures(T::set_min, (located, settings.min->0), floored)
    &&& call_ensures(T::set_max, (floored, settings.max->0), capped)
    &&& call_ensures(T::set_dim, (capped, settings.dim->0), built)
}

/// `built` can be the benchmark that is built from `settings`.
pub open spec fn assembled<T: Benchmark + Default>(settings: Settings<T::Value>, built: T) -> bool {
    exists|
        blank: T,
        expecting: T,
        located: T,
        floored: T,
        capped: T,
        coords: Option<Vec<T::Value>>,
    | #[trigger]
        assembles(blank, expecting, located, floored, capped, coords, settings, built)
}

/// What `build` answers to `settings`: the first of minimum, maximum and
/// dimension that is missing, or nothing where none is.
pub open spec fn missing<S>(settings: Settings<S>) -> Option<BuilderError> {
    if settings.min is None {
        Some(BuilderError::NoMin)
    } else if settings.max is None {
        Some(BuilderError::NoMax)
    } else if settings.dim is None {
        Some(BuilderError::NoDim)
    } else {
        None
    }
}

impl<T> BenchmarkBuilder<T> where T: Benchmark + Default {
    pub fn minimum(&mut self, minimum: T::Value) -> (r: &mut Self)
        ensures
            r@ == (Settings { min: Some(minimum), ..old(self)@ }),
            *final(self) == *final(r),
    {
        self.min = Some(minimum);
        self
    }

    pub fn maximum(&mut self, maximum: T::Value) -> (r: &mut Self)
        ensures
            r@ == (Settings { max: Some(maximum), ..old(self)@ }),
            *final(self) == *final(r),
    {
        self.max = Some(maximum);
        self
    }

    pub fn dimensions(&mut self, dimensions: usize) -> (r: &mut Self)
        ensures
            r@ == (Settings { dim: Some(dimensions), ..old(self)@ }),
            *final(self) == *final(r),
    {
        self.dim = Some(dimensions);
        self
    }

    pub fn expected_min(&mut self, expected_minimum: T::Value) -> (r: &mut Self)
        ensures
            r@ == (Settings { expected_min: Some(expected_minimum), ..old(self)@ }),
            *final(self) == *final(r),
    {
        self.expected_min = Some(expected_minimum);
        self
    }

    pub fn expected_min_coords(&mut self, expected_minimum_coords: Vec<T::Value>) -> (r: &mut Self)
        ensures
            r@ == (Settings {
                expected_min_coords: Some(expected_minimum_coords@),
                ..old(self)@
            }),
            *final(self) == *final(r),
    {
        self.expected_min_coords = Some(expected_minimum_coords);
        self
    }

    /// Builds the benchmark, or says which of minimum, maximum and dimension
    /// is missing, in this order. The expected minimum and its coordinates
    /// may be missing.
    pub fn build(&self) -> (r: Result<T, BuilderError>)
        ensures
            match r {
                Ok(built) => missing(self@) is None && assembled(self@, built),
                Err(error) => missing(self@) == Some(error),
            },
    {
        let coords = match &self.expected_min_coords {
            Some(v) => Some(copy_of(v.as_slice())),
            None => None,
        };
        let blank = T::default();
        let expecting = blank.set_expected_min(self.expected_min);
        let located = expecting.set_expected_min_coords(coords);
        let floored = match self.min {
            Some(min) => located.set_min(min),
            None => {
                return Err(BuilderError::NoMin);
            },
        };
        let capped = match self.max {
            Some(max) => floored.set_max(max),
            None => {
                return Err(BuilderError::NoMax);
            },
        };
        let built = match self.dim {
            Some(dim) => capped.set_dim(dim),
            None => {
                return Err(BuilderError::NoDim);
            },
        };
        assert(assembles(blank, expecting, located, floored, capped, coords, self@, built));
        Ok(built)
    }
}

/// `value` lies in the closed interval from `min` to `max`.
pub open spec fn within<S: Number>(min: S, max: S, value: S) -> bool {
    !below(value, min) && !below(max, value)
}

/// Does `value` lie in the closed interval from `min` to `max`?
pub fn is_within<S: Number>(min: S, max: S, value: S) -> (r: bool)
    requires
        comparable::<S>(),
    ensures
        r == within(min, max, value),
{
    !(is_below(value, min) || is_below(max, value))
}

/// One attempt at a local step along one coordinate: `base` displaced by
/// `noise` where that lies within the bounds, and nothing where it does not,
/// which asks for another draw of noise.
pub fn displace<S: Number>(base: S, noise: S, min: S, max: S) -> (r: Option<S>)
    requires
        comparable::<S>(),
        adds::<S>(),
    ensures
        r == if within(min, max, plus(base, noise)) {
            Some(plus(base, noise))
        } else {
            None
        },
        r is Some ==> within(min, max, r->0),
{
    let displaced = base + noise;
    if is_within(min, max, displaced) {
        Some(displaced)
    } else {
        None
    }
}

/// `value` is `base` displaced by `noise`.
pub open spec fn displaced<S: Number>(base: S, noise: S, value: S) -> bool {
    value == plus(base, noise)
}

/// `accepted` can be the first coordinates of a local step from `input`
/// between the bounds `min` and `max`: each lies within the bounds and is the
/// coordinate of `input` at its place, displaced by some noise. With as many
/// coordinates as `input` has, it is a whole step.
pub open spec fn locally_stepped<S: Number>(
    input: Seq<S>,
    min: S,
    max: S,
    accepted: Seq<S>,
) -> bool {
    &&& accepted.len() <= input.len()
    &&& forall|k: int|
        0 <= k < accepted.len() ==> within(min, max, #[trigger] accepted[k]) && exists|noise: S|
            #[trigger] displaced(input[k], noise, accepted[k])
}

/// One attempt at the next coordinate of a local step from `input`, of which
/// `accepted` holds the coordinates found so far. The coordinate of `input`
/// at the next place is displaced by `noise`; it joins `accepted` where it
/// lies within the bounds, and else nothing changes, which asks for another
/// draw of noise. The answer says whether the step is whole.
pub fn local_attempt<S: Number>(
    input: &[S],
    accepted: &mut Vec<S>,
    noise: S,
    min: S,
    max: S,
) -> (whole: bool)
    requires
        comparable::<S>(),
        adds::<S>(),
        locally_stepped(input@, min, max, old(accepted)@),
    ensures
        locally_stepped(input@, min, max, final(accepted)@),
        final(accepted)@ == if old(accepted)@.len() < input@.len() && within(
            min,
            max,
            plus(input@[old(accepted)@.len() as int], noise),
        ) {
            old(accepted)@.push(plus(input@[old(accepted)@.len() as int], noise))
        } else {
            old(accepted)@
        },
        whole == (final(accepted)@.len() == input@.len()),
{
    let place = accepted.len();
    if place < input.len() {
        match displace(input[place], noise, min, max) {
            Some(value) => {
                accepted.push(value);
                assert(displaced(input@[place as int], noise, value));
            },
            None => {},
        }
    }
    accepted.len() == input.len()
}

/// A whole local step stays in the box: every coordinate of it lies within
/// the bounds, whatever the coordinates of `input` are, and is the
/// coordinate of `input` at its place displaced by some noise.
pub proof fn lemma_local_step_is_within<S: Number>(
    input: Seq<S>,
    min: S,
    max: S,
    accepted: Seq<S>,
    k: int,
)
    requires
        locally_stepped(input, min, max, accepted),
        accepted.len() == input.len(),
        0 <= k < input.len(),
    ensures
        within(min, max, accepted[k]),
        exists|noise: S| #[trigger] displaced(input[k], noise, accepted[k]),
{
}

/// `deviation` is the standard deviation of the noise of a local step between
/// the bounds `min` and `max`: a tenth of the range, divided by six, with the
/// constants `ten` and `six` as the problem names them.
pub open spec fn deviates<T: ProblemDomain + HasNumbers>(
    problem: &T,
    min: T::Item,
    max: T::Item,
    ten: T::Item,
    six: T::Item,
    deviation: T::Item,
) -> bool {
    &&& call_ensures(T::get_minimum, (problem,), min)
    &&& call_ensures(T::get_maximum, (problem,), max)
    &&& ratio(problem, 10, 1, ten)
    &&& ratio(problem, 6, 1, six)
    &&& deviation == over(over(minus(max, min), ten), six)
}

/// The standard deviation of the noise of a local step of `problem`.
pub fn local_deviation<T: ProblemDomain + HasNumbers>(problem: &T) -> (r: T::Item)
    requires
        subtracts::<T::Item>(),
        divides::<T::Item>(),
    ensures
        exists|min: T::Item, max: T::Item, ten: T::Item, six: T::Item| #[trigger]
            deviates(problem, min, max, ten, six, r),
{
    let max = problem.get_maximum();
    let min = problem.get_minimum();
    let ten = problem.get_ratio(10, 1);
    let six = problem.get_ratio(6, 1);
    let bounds = (max - min) / ten;
    let r = bounds / six;
    assert(deviates(problem, min, max, ten, six, r));
    r
}

} // verus!
