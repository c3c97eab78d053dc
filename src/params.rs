use vstd::prelude::*;
use crate::error::KeyError;

verus! {

/// The parameters of one participant: threshold `t`, count `n` and own index `i`.
#[derive(Clone, Copy, Debug, PartialEq, Eq, Structural)]
pub struct ThresholdParams {
    pub t: u16,
    pub n: u16,
    pub i: u16,
}

/// A threshold `t` of `n` participants that can be met: 1 <= t <= n.
pub open spec fn valid_threshold(t: u16, n: u16) -> bool {
    1 <= t && t <= n
}

impl ThresholdParams {
    pub open spec fn wf(&self) -> bool {
        valid_threshold(self.t, self.n) && 1 <= self.i && self.i <= self.n
    }

    /// Parameters for participant `i` of `n`, with threshold `t`.
    pub fn new(t: u16, n: u16, i: u16) -> (r: Result<ThresholdParams, KeyError>)
        ensures
            r matches Ok(p) ==> p == (ThresholdParams { t, n, i }),
            r is Ok <==> (ThresholdParams { t, n, i }).wf(),
            r is Err ==> r == Err::<ThresholdParams, KeyError>(KeyError::Config),
    {
        if 1 <= t && t <= n && 1 <= i && i <= n {
            Ok(ThresholdParams { t, n, i })
        } else {
            Err(KeyError::Config)
        }
    }
}

/// What one run does.
#[derive(Clone, Copy, Debug, PartialEq, Eq, Structural)]
pub enum Mode {
    /// Generate fresh shares of a `t`-of-`n` key.
    Generate { t: u16, n: u16 },
    /// Recover the key from the shares already written.
    Recover,
}

/// The command line: threshold, count, the keys directory, and whether to load.
#[derive(Clone, Debug)]
pub struct Cli {
    pub t: Option<u16>,
    pub n: Option<u16>,
    pub path: String,
    pub load: bool,
}

/// The mode a run takes, given its arguments and whether the target path exists.
pub open spec fn mode_of(t: Option<u16>, n: Option<u16>, load: bool, path_exists: bool) -> Result<
    Mode,
    KeyError,
> {
    if load {
        if path_exists {
            Ok(Mode::Recover)
        } else {
            Err(KeyError::PathState)
        }
    } else {
        match (t, n) {
            (Some(t), Some(n)) => {
                if path_exists {
                    Err(KeyError::PathState)
                } else if !valid_threshold(t, n) {
                    Err(KeyError::Config)
                } else {
                    Ok(Mode::Generate { t, n })
                }
            },
            _ => Err(KeyError::Config),
        }
    }
}

impl Cli {
    /// Checks the arguments and the state of the target path: generation needs `t` and
    /// `n`, then a path that does not exist yet, then 1 <= t <= n; recovery needs an
    /// existing path.
    pub fn mode(&self, path_exists: bool) -> (r: Result<Mode, KeyError>)
        ensures
            r == mode_of(self.t, self.n, self.load, path_exists),
    {
        if self.load {
            if path_exists {
                Ok(Mode::Recover)
            } else {
                Err(KeyError::PathState)
            }
        } else {
            match (self.t, self.n) {
                (Some(t), Some(n)) => {
                    if path_exists {
                        Err(KeyError::PathState)
                    } else if !(1 <= t && t <= n) {
                        Err(KeyError::Config)
                    } else {
                        Ok(Mode::Generate { t, n })
                    }
                },
                _ => Err(KeyError::Config),
            }
        }
    }
}

/// Generation never starts over an existing path, and recovery never reads a missing
/// one.
pub proof fn lemma_path_preconditions(t: Option<u16>, n: Option<u16>, load: bool, path_exists: bool)
    ensures
        mode_of(t, n, load, path_exists) matches Ok(Mode::Generate { .. }) ==> !path_exists,
        mode_of(t, n, load, path_exists) == Ok::<Mode, KeyError>(Mode::Recover) ==> path_exists,
        path_exists && !load ==> mode_of(t, n, load, path_exists) is Err,
        path_exists && !load && t is Some && n is Some ==> mode_of(t, n, load, path_exists)
            == Err::<Mode, KeyError>(KeyError::PathState),
        !path_exists && load ==> mode_of(t, n, load, path_exists) == Err::<Mode, KeyError>(
            KeyError::PathState,
        ),
{
}

} // verus!
