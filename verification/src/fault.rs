use vstd::prelude::*;
use crate::error::Chip8Error;

verus! {

/// The slot through which any loop of a run tells all the others to stop.
/// It is empty while the run is sound and holds the first error reported
/// once something has failed.
pub struct FaultCell {
    pub error: Option<Chip8Error>,
}

impl FaultCell {
    /// An empty cell: nothing has failed.
    pub fn new() -> (cell: FaultCell)
        ensures
            cell.error is None,
    {
        FaultCell { error: None }
    }

    /// Whether the run may go on: no error has been recorded.
    pub fn is_ok(&self) -> (ok: bool)
        ensures
            ok == self.error is None,
    {
        self.error.is_none()
    }

    /// Records an error. The first error recorded stays; later ones are dropped.
    pub fn record(&mut self, error: Chip8Error)
        ensures
            final(self).error == match old(self).error {
                Some(first) => Some(first),
                None => Some(error),
            },
    {
        if self.error.is_none() {
            self.error = Some(error);
        }
    }

    /// Records the error of a loop's tick, if it failed, and says whether the
    /// loop may go on.
    pub fn settle(&mut self, outcome: Result<(), Chip8Error>) -> (go_on: bool)
        ensures
            final(self).error == match (old(self).error, outcome) {
                (Some(first), _) => Some(first),
                (None, Err(e)) => Some(e),
                (None, Ok(())) => None,
            },
            go_on == final(self).error is None,
    {
        match outcome {
            Ok(()) => {},
            Err(e) => {
                self.record(e);
            },
        }
        self.is_ok()
    }

    /// The outcome of the run once every loop has ended: the error recorded,
    /// but that a stop requested by the user counts as success.
    pub fn into_result(self) -> (res: Result<(), Chip8Error>)
        ensures
            res == match self.error {
                None => Ok::<(), Chip8Error>(()),
                Some(Chip8Error::Interrupt) => Ok(()),
                Some(e) => Err(e),
            },
    {
        match self.error {
            None => Ok(()),
            Some(Chip8Error::Interrupt) => Ok(()),
            Some(e) => Err(e),
        }
    }
}

} // verus!
