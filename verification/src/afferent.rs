//! Admission of senses into the afferent pathway, which can be shut.
use vstd::prelude::*;

verus! {

#[derive(Debug, Clone, Copy, PartialEq, Eq, Structural)]
pub enum AfferentPathwayErrorKind {
    Closed,
    QueueClosed,
}

/// Why a sense was refused.
#[derive(Debug)]
pub struct AfferentPathwayError {
    pub kind: AfferentPathwayErrorKind,
    pub message: String,
}

impl AfferentPathwayError {
    /// The pathway is shut.
    pub fn closed() -> (e: AfferentPathwayError)
        ensures
            e.kind == AfferentPathwayErrorKind::Closed,
            e.message@ == "sense afferent pathway gate is closed"@,
    {
        AfferentPathwayError {
            kind: AfferentPathwayErrorKind::Closed,
            message: String::from_str("sense afferent pathway gate is closed"),
        }
    }

    /// The queue's receiver is gone.
    pub fn queue_closed() -> (e: AfferentPathwayError)
        ensures
            e.kind == AfferentPathwayErrorKind::QueueClosed,
            e.message@ == "sense afferent pathway queue receiver is closed"@,
    {
        AfferentPathwayError {
            kind: AfferentPathwayErrorKind::QueueClosed,
            message: String::from_str("sense afferent pathway queue receiver is closed"),
        }
    }

    /// The message, as `Display` writes it.
    pub fn to_display_string(&self) -> (s: String)
        ensures
            s@ == self.message@,
    {
        self.message.clone()
    }
}

/// The capacity of the sense queue: at least one.
pub fn queue_capacity(requested: usize) -> (r: usize)
    ensures
        r == if requested == 0 {
            1
        } else {
            requested
        },
{
    if requested == 0 {
        1
    } else {
        requested
    }
}

/// Whether the pathway is open; shutting it is final.
#[derive(Debug)]
pub struct AfferentGate {
    open: bool,
}

impl AfferentGate {
    pub closed spec fn is_open_spec(&self) -> bool {
        self.open
    }

    pub fn new() -> (g: AfferentGate)
        ensures
            g.is_open_spec(),
    {
        AfferentGate { open: true }
    }

    pub fn is_open(&self) -> (r: bool)
        ensures
            r == self.is_open_spec(),
    {
        self.open
    }

    pub fn close_gate(&mut self)
        ensures
            !final(self).is_open_spec(),
    {
        self.open = false;
    }

    /// Whether a sense may be sent now; a shut pathway refuses it.
    pub fn admit_send(&self) -> (r: Result<(), AfferentPathwayError>)
        ensures
            self.is_open_spec() ==> r is Ok,
            !self.is_open_spec() ==> (r matches Err(e) && e.kind == AfferentPathwayErrorKind::Closed
                && e.message@ == "sense afferent pathway gate is closed"@),
    {
        if !self.open {
            return Err(AfferentPathwayError::closed());
        }
        Ok(())
    }
}

} // verus!
