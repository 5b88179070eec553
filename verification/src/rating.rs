//! A single survey answer: a value from 0 to 10 with an optional comment.
//!
//! Two ratings are equal, and are ordered, by their values alone. The comment
//! travels with the rating and takes no part in either.

use std::cmp::Ordering;
use vstd::prelude::*;
use vstd::std_specs::cmp::PartialEqSpec;
use vstd::std_specs::cmp::PartialOrdSpec;

verus! {

/// The largest value a rating can have.
pub const MAX_RATING: u8 = 10;

/// The error for a value that lies outside `0..=10`.
#[derive(Debug, Clone, Copy, PartialEq, Eq, Structural)]
pub struct InvalidRating {
    /// The value that was refused.
    pub value: u8,
}

/// What a rating is, mathematically.
pub ghost struct RatingView {
    pub value: nat,
    pub comment: Option<Seq<char>>,
}

/// One answer to the survey question.
///
/// The fields are private: every rating in a running program has been through
/// [`Rating::new`] or [`Rating::with_comment`], so its value is at most ten.
#[derive(Debug)]
pub struct Rating {
    value: u8,
    comment: Option<&'static str>,
}

impl View for Rating {
    type V = RatingView;

    closed spec fn view(&self) -> RatingView {
        RatingView {
            value: self.value as nat,
            comment: match self.comment {
                Some(c) => Some(c@),
                None => None,
            },
        }
    }
}

impl Rating {
    /// Holds of every rating that executable code can hold.
    #[verifier::type_invariant]
    pub open spec fn well_formed(&self) -> bool {
        self@.value <= MAX_RATING
    }

    /// A rating without a comment, or the error when `value` is above ten.
    pub fn new(value: u8) -> (r: Result<Rating, InvalidRating>)
        ensures
            match r {
                Ok(rating) => value <= MAX_RATING && rating@ == (RatingView {
                    value: value as nat,
                    comment: None,
                }),
                Err(e) => value > MAX_RATING && e == (InvalidRating { value }),
            },
    {
        if value <= MAX_RATING {
            Ok(Rating { value, comment: None })
        } else {
            Err(InvalidRating { value })
        }
    }

    /// A rating that carries `comment`, or the error when `value` is above ten.
    pub fn with_comment(value: u8, comment: &'static str) -> (r: Result<Rating, InvalidRating>)
        ensures
            match r {
                Ok(rating) => value <= MAX_RATING && rating@ == (RatingView {
                    value: value as nat,
                    comment: Some(comment@),
                }),
                Err(e) => value > MAX_RATING && e == (InvalidRating { value }),
            },
    {
        if value <= MAX_RATING {
            Ok(Rating { value, comment: Some(comment) })
        } else {
            Err(InvalidRating { value })
        }
    }

    /// The value, which is never above ten.
    pub fn value(&self) -> (v: u8)
        ensures
            v == self@.value,
            v <= MAX_RATING,
    {
        proof {
            use_type_invariant(self);
        }
        self.value
    }

    /// The comment, if the rating was made with one.
    pub fn comment(&self) -> (c: Option<&'static str>)
        ensures
            self@.comment == match c {
                Some(text) => Some(text@),
                None => None,
            },
    {
        self.comment
    }

    /// The total order on ratings: that of their values. The comments are
    /// not looked at.
    pub fn cmp(&self, other: &Rating) -> (r: Ordering)
        ensures
            r == order_of_values(self@.value, other@.value),
    {
        self.value.cmp(&other.value)
    }
}

impl Clone for Rating {
    fn clone(&self) -> (r: Rating)
        ensures
            r == *self,
    {
        *self
    }
}

impl Copy for Rating {

}

impl PartialEq for Rating {
    /// Compares the values; the comments are not looked at.
    fn eq(&self, other: &Rating) -> (r: bool) {
        self.value == other.value
    }
}

impl vstd::std_specs::cmp::PartialEqSpecImpl for Rating {
    open spec fn obeys_eq_spec() -> bool {
        true
    }

    open spec fn eq_spec(&self, other: &Rating) -> bool {
        self@.value == other@.value
    }
}

impl Eq for Rating {

}

impl PartialOrd for Rating {
    /// Orders by the values; the comments are not looked at.
    fn partial_cmp(&self, other: &Rating) -> (r: Option<Ordering>) {
        self.value.partial_cmp(&other.value)
    }
}

impl vstd::std_specs::cmp::PartialOrdSpecImpl for Rating {
    open spec fn obeys_partial_cmp_spec() -> bool {
        true
    }

    open spec fn partial_cmp_spec(&self, other: &Rating) -> Option<Ordering> {
        Some(order_of_values(self@.value, other@.value))
    }
}

/// How two values stand to each other.
pub open spec fn order_of_values(a: nat, b: nat) -> Ordering {
    if a < b {
        Ordering::Less
    } else if a == b {
        Ordering::Equal
    } else {
        Ordering::Greater
    }
}

/// Equality looks at the values alone: two ratings with the same value are
/// equal whatever their comments are, and two with different values are not.
pub proof fn lemma_equality_ignores_comments(a: Rating, b: Rating)
    ensures
        a@.value == b@.value ==> a.eq_spec(&b),
        a@.value != b@.value ==> !a.eq_spec(&b),
{
}

/// The order looks at the values alone: the rating with the smaller value is
/// the smaller rating whatever the comments are, and two ratings with the same
/// value compare as equal.
pub proof fn lemma_order_follows_values(a: Rating, b: Rating)
    ensures
        a@.value < b@.value ==> a.partial_cmp_spec(&b) == Some(Ordering::Less),
        a@.value == b@.value ==> a.partial_cmp_spec(&b) == Some(Ordering::Equal),
        a@.value > b@.value ==> a.partial_cmp_spec(&b) == Some(Ordering::Greater),
{
}

} // verus!
