//! Strings and vectors whose size is bounded by a constant of their type.
use vstd::prelude::*;
use vstd::utf8::encode_utf8;

verus! {

/// The length in bytes of the UTF-8 encoding of `s`, as `str::len` returns it.
pub open spec fn byte_len(s: Seq<char>) -> usize {
    encode_utf8(s).len() as usize
}

#[derive(Debug, Clone, Copy, PartialEq, Eq)]
pub struct BoundedStringError {
    pub max: usize,
    pub actual: usize,
}

/// A string whose UTF-8 encoding holds at most `MAX` bytes.
#[derive(Debug, PartialEq, Eq, PartialOrd, Ord, Hash)]
pub struct BoundedString<const MAX: usize>(String);

impl<const MAX: usize> View for BoundedString<MAX> {
    type V = Seq<char>;

    closed spec fn view(&self) -> Seq<char> {
        self.0@
    }
}

impl<const MAX: usize> BoundedString<MAX> {
    #[verifier::type_invariant]
    closed spec fn within_bound(self) -> bool {
        byte_len(self.0@) <= MAX
    }

    /// Accepts `value` when its UTF-8 encoding fits in `MAX` bytes.
    pub fn new(value: String) -> (r: Result<Self, BoundedStringError>)
        ensures
            match r {
                Ok(b) => b@ == value@ && byte_len(value@) <= MAX,
                Err(e) => byte_len(value@) > MAX && e.max == MAX && e.actual == byte_len(
                    value@,
                ),
            },
    {
        let actual = value.as_str().len();
        if actual > MAX {
            return Err(BoundedStringError { max: MAX, actual });
        }
        Ok(Self(value))
    }

    pub fn as_str(&self) -> (r: &str)
        ensures
            r@ == self@,
            byte_len(r@) <= MAX,
    {
        proof {
            use_type_invariant(self);
        }
        self.0.as_str()
    }

    pub fn into_string(self) -> (r: String)
        ensures
            r@ == self@,
            byte_len(r@) <= MAX,
    {
        proof {
            use_type_invariant(&self);
        }
        self.0
    }

}

impl<const MAX: usize> Clone for BoundedString<MAX> {
    fn clone(&self) -> (r: Self)
        ensures
            r == *self,
    {
        proof {
            use_type_invariant(self);
        }
        Self(self.0.clone())
    }
}

#[derive(Debug, Clone, Copy, PartialEq, Eq)]
pub struct BoundedVecError {
    pub max: usize,
    pub actual: usize,
}

/// A vector holding at most `MAX` items.
#[derive(Debug, PartialEq, Eq)]
pub struct BoundedVec<T, const MAX: usize>(Vec<T>);

impl<T, const MAX: usize> View for BoundedVec<T, MAX> {
    type V = Seq<T>;

    closed spec fn view(&self) -> Seq<T> {
        self.0@
    }
}

impl<T, const MAX: usize> BoundedVec<T, MAX> {
    #[verifier::type_invariant]
    closed spec fn within_bound(self) -> bool {
        self.0@.len() <= MAX
    }

    /// Accepts `values` when it holds at most `MAX` items.
    pub fn new(values: Vec<T>) -> (r: Result<Self, BoundedVecError>)
        ensures
            match r {
                Ok(b) => b@ == values@ && values@.len() <= MAX,
                Err(e) => values@.len() > MAX && e.max == MAX && e.actual == values@.len(),
            },
    {
        let actual = values.len();
        if actual > MAX {
            return Err(BoundedVecError { max: MAX, actual });
        }
        Ok(Self(values))
    }

    pub fn as_slice(&self) -> (r: &[T])
        ensures
            r@ == self@,
            r@.len() <= MAX,
    {
        proof {
            use_type_invariant(self);
        }
        self.0.as_slice()
    }

    pub fn into_vec(self) -> (r: Vec<T>)
        ensures
            r@ == self@,
            r@.len() <= MAX,
    {
        proof {
            use_type_invariant(&self);
        }
        self.0
    }
}

impl<T: Clone, const MAX: usize> Clone for BoundedVec<T, MAX> {
    fn clone(&self) -> (r: Self)
        ensures
            r@.len() == self@.len(),
    {
        proof {
            use_type_invariant(self);
        }
        Self(self.0.clone())
    }
}

} // verus!
