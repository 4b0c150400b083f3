use vstd::prelude::*;

use crate::Error;

verus! {

/// The longest scarf the game knows.
pub const MAX_LENGTH: u32 = 30;

/// Length after growing a scarf of length `length` by one, or why it cannot grow.
pub open spec fn lengthened(length: u32) -> Result<u32, Error> {
    if length < MAX_LENGTH {
        Ok((length + 1) as u32)
    } else {
        Err(Error::ScarfMaxLength)
    }
}

/// Length after shortening a scarf of length `length` by one, or why it cannot shrink.
pub open spec fn shortened(length: u32) -> Result<u32, Error> {
    if length > 0 {
        Ok((length - 1) as u32)
    } else {
        Err(Error::ScarfMinLength)
    }
}

/// Every valid length can grow except the maximum, and shrink except zero.
pub proof fn lemma_length_steps(length: u32)
    requires
        length <= MAX_LENGTH,
    ensures
        lengthened(length) is Ok <==> length < MAX_LENGTH,
        shortened(length) is Ok <==> length > 0,
        length == MAX_LENGTH ==> lengthened(length) == Err::<u32, Error>(Error::ScarfMaxLength),
        length == 0 ==> shortened(length) == Err::<u32, Error>(Error::ScarfMinLength),
{
}

/// Length of the traveler's scarf, always within `0..=MAX_LENGTH`.
#[derive(Debug, Clone, Copy)]
pub struct Scarf {
    length: u32,
}

impl View for Scarf {
    type V = u32;

    closed spec fn view(&self) -> u32 {
        self.length
    }
}

impl Scarf {
    #[verifier::type_invariant]
    spec fn inv(self) -> bool {
        self.length <= MAX_LENGTH
    }

    /// A scarf of the given length, if the game allows it.
    pub fn new(length: u32) -> (r: Option<Scarf>)
        ensures
            r is Some <==> length <= MAX_LENGTH,
            r matches Some(s) ==> s@ == length,
    {
        if length > MAX_LENGTH {
            None
        } else {
            Some(Scarf { length })
        }
    }

    /// The current length.
    pub fn length(&self) -> (r: u32)
        ensures
            r == self@,
            r <= MAX_LENGTH,
    {
        proof {
            use_type_invariant(self);
        }
        self.length
    }

    /// Sets the length; fails, leaving the scarf as it was, above the maximum.
    pub fn set_length(&mut self, length: u32) -> (r: Result<(), Error>)
        ensures
            length <= MAX_LENGTH ==> r is Ok && final(self)@ == length,
            length > MAX_LENGTH ==> r == Err::<(), Error>(Error::ScarfTooLong) && final(self)@ == old(self)@,
    {
        if length > MAX_LENGTH {
            return Err(Error::ScarfTooLong);
        }
        self.length = length;
        Ok(())
    }

    /// Grows the scarf by one; fails once it has reached its maximum.
    pub fn increase_length(&mut self) -> (r: Result<(), Error>)
        ensures
            match lengthened(old(self)@) {
                Ok(n) => r is Ok && final(self)@ == n,
                Err(e) => r == Err::<(), Error>(e) && final(self)@ == old(self)@,
            },
    {
        proof {
            use_type_invariant(&*self);
        }
        let length = self.length + 1;
        if length > MAX_LENGTH {
            return Err(Error::ScarfMaxLength);
        }
        self.length = length;
        Ok(())
    }

    /// Shortens the scarf by one; fails when it is already empty.
    pub fn decrease_length(&mut self) -> (r: Result<(), Error>)
        ensures
            match shortened(old(self)@) {
                Ok(n) => r is Ok && final(self)@ == n,
                Err(e) => r == Err::<(), Error>(e) && final(self)@ == old(self)@,
            },
    {
        proof {
            use_type_invariant(&*self);
        }
        if self.length == 0 {
            return Err(Error::ScarfMinLength);
        }
        self.length = self.length - 1;
        Ok(())
    }
}

} // verus!
