use vstd::prelude::*;

verus! {

/// One piece of the difference between an old and a new text.
#[derive(Debug)]
pub enum DiffSegment {
    /// Text that both sides share.
    Equal(String),
    /// Text that only the old side has.
    Deleted(String),
    /// Text that only the new side has.
    Inserted(String),
}

impl DiffSegment {
    pub open spec fn text(self) -> Seq<char> {
        match self {
            DiffSegment::Equal(t) => t@,
            DiffSegment::Deleted(t) => t@,
            DiffSegment::Inserted(t) => t@,
        }
    }

    pub open spec fn is_equal(self) -> bool {
        self is Equal
    }

    /// The part of the old text that the segment stands for.
    pub open spec fn old_part(self) -> Seq<char> {
        match self {
            DiffSegment::Inserted(_) => Seq::empty(),
            _ => self.text(),
        }
    }

    /// The part of the new text that the segment stands for.
    pub open spec fn new_part(self) -> Seq<char> {
        match self {
            DiffSegment::Deleted(_) => Seq::empty(),
            _ => self.text(),
        }
    }
}

/// The old text that a sequence of segments describes: Equal and Deleted parts, in order.
pub open spec fn old_side(segs: Seq<DiffSegment>) -> Seq<char>
    decreases segs.len(),
{
    if segs.len() == 0 {
        Seq::empty()
    } else {
        old_side(segs.drop_last()) + segs.last().old_part()
    }
}

/// The new text that a sequence of segments describes: Equal and Inserted parts, in order.
pub open spec fn new_side(segs: Seq<DiffSegment>) -> Seq<char>
    decreases segs.len(),
{
    if segs.len() == 0 {
        Seq::empty()
    } else {
        new_side(segs.drop_last()) + segs.last().new_part()
    }
}

pub open spec fn all_equal(segs: Seq<DiffSegment>) -> bool {
    forall|i: int| 0 <= i < segs.len() ==> (#[trigger] segs[i]).is_equal()
}

/// Relies on dissimilar::diff: its chunks cut both inputs, left to right, with no gap
/// or overlap, so Equal and Delete chunks give back the first text, Equal and Insert
/// chunks the second; on two equal texts it strips the whole common prefix and finds
/// nothing to delete or insert.
#[verifier::external_body]
fn dissimilar_diff(old: &str, new: &str) -> (r: Vec<DiffSegment>)
    ensures
        old_side(r@) == old@,
        new_side(r@) == new@,
        old@ == new@ ==> all_equal(r@),
{
    dissimilar::diff(old, new).into_iter().map(|chunk| match chunk {
        dissimilar::Chunk::Equal(t) => DiffSegment::Equal(t.to_string()),
        dissimilar::Chunk::Delete(t) => DiffSegment::Deleted(t.to_string()),
        dissimilar::Chunk::Insert(t) => DiffSegment::Inserted(t.to_string()),
    }).collect()
}

/// The segments that turn `old` into `new`.
pub fn diff(old: &str, new: &str) -> (r: Vec<DiffSegment>)
    ensures
        old_side(r@) == old@,
        new_side(r@) == new@,
        old@ == new@ ==> all_equal(r@),
{
    dissimilar_diff(old, new)
}

} // verus!
