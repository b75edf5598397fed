//! Circuit-configuration assembly: the fail-fast pipeline that pairs a
//! loaded R1CS shape with a witness-engine handle.
//!
//! Loading the engine module and parsing the shape file are the work of
//! external collaborators; the pipeline here fixes the order of the steps
//! and the error attributed to each. It is strictly fail-fast: the first
//! failure short-circuits construction. The steps are driven as a typestate
//! chain — [`EnginePending::start`], then [`EnginePending::engine_loaded`],
//! then [`ShapePending::shape_loaded`] — so that a later step cannot even be
//! reached once an earlier one has failed: in particular, a shape load can
//! only be supplied after the engine loaded successfully.

use vstd::prelude::*;

use crate::r1cs::R1CS;

verus! {

/// Which path argument of the construction pipeline an error refers to.
#[derive(Clone, Copy, Debug, PartialEq, Eq, Structural)]
pub enum PathKind {
    /// The path to the witness-engine module.
    Engine,
    /// The path to the R1CS shape file.
    Shape,
}

/// A failure of circuit-configuration construction.
#[derive(Debug, PartialEq, Eq)]
pub enum CircomConfigError {
    /// A supplied path was not representable as text.
    FilenameError { which: PathKind },
    /// Loading the witness engine failed; carries the offending path and the
    /// underlying cause.
    WitnessCalculatorInstantiationError { path: String, source: String },
    /// Loading or parsing the R1CS shape failed; carries the offending path
    /// and the underlying cause.
    LoadR1CSError { path: String, source: String },
}

/// The assembled configuration: circuit shape, witness-engine handle and the
/// sanity-check policy flag.
///
/// `W` is the caller's witness-engine handle. The engine is a stateful
/// external capability that must not be called concurrently; the handle is
/// expected to serialize access (a mutual-exclusion lock around the engine
/// is sufficient). The shape is immutable after construction and may be read
/// freely.
#[derive(Debug)]
pub struct CircomConfig<W> {
    pub r1cs: R1CS,
    pub wtns: W,
    pub sanity_check: bool,
}

impl<W> CircomConfig<W> {
    /// Assembles a configuration from an engine handle and a loaded shape.
    /// The sanity-check policy starts disabled; the owner may flip it at any
    /// time.
    pub fn new(wtns: W, r1cs: R1CS) -> (r: Self)
        ensures
            r.wtns == wtns,
            r.r1cs == r1cs,
            !r.sanity_check,
    {
        CircomConfig { r1cs, wtns, sanity_check: false }
    }
}

/// Construction state: the paths were accepted, the engine is not loaded yet.
pub struct EnginePending {
    pub wtns_path: String,
    pub r1cs_path: String,
}

/// Construction state: the engine is loaded, the shape is not.
pub struct ShapePending<W> {
    pub wtns: W,
    pub r1cs_path: String,
}

impl EnginePending {
    /// First step of construction: both paths must be representable as
    /// text. A caller converts each path and passes `None` where the
    /// conversion failed; the first unrepresentable path fails the build
    /// with a filename error naming that argument.
    pub fn start(wtns_path: Option<String>, r1cs_path: Option<String>) -> (r: Result<
        EnginePending,
        CircomConfigError,
    >)
        ensures
            wtns_path is None ==> r == Result::<EnginePending, CircomConfigError>::Err(
                CircomConfigError::FilenameError { which: PathKind::Engine },
            ),
            wtns_path is Some && r1cs_path is None ==> r == Result::<
                EnginePending,
                CircomConfigError,
            >::Err(CircomConfigError::FilenameError { which: PathKind::Shape }),
            wtns_path matches Some(w) ==> (r1cs_path matches Some(c) ==> (r matches Ok(p)
                && p.wtns_path == w && p.r1cs_path == c)),
    {
        match (wtns_path, r1cs_path) {
            (None, _) => Err(CircomConfigError::FilenameError { which: PathKind::Engine }),
            (Some(_), None) => Err(CircomConfigError::FilenameError { which: PathKind::Shape }),
            (Some(w), Some(c)) => Ok(EnginePending { wtns_path: w, r1cs_path: c }),
        }
    }

    /// Second step: record the outcome of loading the witness engine from
    /// the engine path. A failure is wrapped, together with that path, into
    /// an engine-instantiation error and ends the build — the shape-load
    /// step can no longer be reached.
    pub fn engine_loaded<W>(self, outcome: Result<W, String>) -> (r: Result<
        ShapePending<W>,
        CircomConfigError,
    >)
        ensures
            outcome matches Ok(w) ==> (r matches Ok(p) && p.wtns == w && p.r1cs_path
                == self.r1cs_path),
            outcome matches Err(e) ==> (r matches Err(err) && err matches
                CircomConfigError::WitnessCalculatorInstantiationError { path, source } && path
                == self.wtns_path && source == e),
    {
        match outcome {
            Ok(wtns) => Ok(ShapePending { wtns, r1cs_path: self.r1cs_path }),
            Err(source) => Err(
                CircomConfigError::WitnessCalculatorInstantiationError {
                    path: self.wtns_path,
                    source,
                },
            ),
        }
    }
}

impl<W> ShapePending<W> {
    /// Final step: record the outcome of loading the R1CS shape from the
    /// shape path. A failure is wrapped, together with that path, into a
    /// shape-load error; on success the configuration is assembled with the
    /// sanity check disabled.
    pub fn shape_loaded(self, outcome: Result<R1CS, String>) -> (r: Result<
        CircomConfig<W>,
        CircomConfigError,
    >)
        ensures
            outcome matches Ok(shape) ==> (r matches Ok(c) && c.r1cs == shape && c.wtns
                == self.wtns && !c.sanity_check),
            outcome matches Err(e) ==> (r matches Err(err) && err matches
                CircomConfigError::LoadR1CSError { path, source } && path == self.r1cs_path
                && source == e),
    {
        match outcome {
            Ok(r1cs) => Ok(CircomConfig::new(self.wtns, r1cs)),
            Err(source) => Err(
                CircomConfigError::LoadR1CSError { path: self.r1cs_path, source },
            ),
        }
    }
}

} // verus!
