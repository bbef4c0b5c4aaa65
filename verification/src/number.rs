//! Integers that are never zero.

use vstd::prelude::*;

verus! {

/// A sixteen-bit number other than zero.
#[derive(Clone, Copy, Debug, Eq, Hash, PartialEq, Structural)]
pub struct NonZeroU16 {
    value: u16,
}

/// A thirty-two-bit number other than zero.
#[derive(Clone, Copy, Debug, Eq, Hash, PartialEq, Structural)]
pub struct NonZeroU32 {
    value: u32,
}

impl DeepView for NonZeroU16 {
    type V = NonZeroU16;

    open spec fn deep_view(&self) -> NonZeroU16 {
        *self
    }
}

impl DeepView for NonZeroU32 {
    type V = NonZeroU32;

    open spec fn deep_view(&self) -> NonZeroU32 {
        *self
    }
}

impl NonZeroU16 {
    #[verifier::type_invariant]
    closed spec fn is_not_zero(self) -> bool {
        self.value != 0
    }

    /// The number itself.
    pub closed spec fn number(self) -> u16 {
        self.value
    }

    /// The value of this type that holds a given number.
    pub closed spec fn of_number(value: u16) -> NonZeroU16 {
        NonZeroU16 { value }
    }

    /// The value that holds a number has that number, and no other value has it.
    pub proof fn lemma_of_number(value: u16)
        ensures
            NonZeroU16::of_number(value).number() == value,
            forall|other: NonZeroU16| #[trigger]
                other.number() == value ==> other == NonZeroU16::of_number(value),
    {
    }

    pub fn new(value: u16) -> (result: Option<NonZeroU16>)
        ensures
            result == (if value != 0 {
                Some(NonZeroU16::of_number(value))
            } else {
                None::<NonZeroU16>
            }),
            result matches Some(number) ==> number.number() == value,
    {
        if value == 0 {
            None
        } else {
            Some(NonZeroU16 { value })
        }
    }

    pub fn get(self) -> (result: u16)
        ensures
            result == self.number(),
            result != 0,
    {
        proof {
            use_type_invariant(&self);
        }
        self.value
    }
}

impl NonZeroU32 {
    #[verifier::type_invariant]
    closed spec fn is_not_zero(self) -> bool {
        self.value != 0
    }

    /// The number itself.
    pub closed spec fn number(self) -> u32 {
        self.value
    }

    /// The value of this type that holds a given number.
    pub closed spec fn of_number(value: u32) -> NonZeroU32 {
        NonZeroU32 { value }
    }

    /// The value that holds a number has that number, and no other value has it.
    pub proof fn lemma_of_number(value: u32)
        ensures
            NonZeroU32::of_number(value).number() == value,
            forall|other: NonZeroU32| #[trigger]
                other.number() == value ==> other == NonZeroU32::of_number(value),
    {
    }

    pub fn new(value: u32) -> (result: Option<NonZeroU32>)
        ensures
            result == (if value != 0 {
                Some(NonZeroU32::of_number(value))
            } else {
                None::<NonZeroU32>
            }),
            result matches Some(number) ==> number.number() == value,
    {
        if value == 0 {
            None
        } else {
            Some(NonZeroU32 { value })
        }
    }

    pub fn get(self) -> (result: u32)
        ensures
            result == self.number(),
            result != 0,
    {
        proof {
            use_type_invariant(&self);
        }
        self.value
    }
}

} // verus!
