//! The window of a listing that a caller asks for.
use vstd::prelude::*;

verus! {

/// The `start` and `end` indices, both inclusive, of the page to show.
/// Both are given, or neither.
#[derive(Debug, Clone, Copy, PartialEq, Eq)]
pub struct PaginationParams {
    /// Index of the first item of the page.
    pub start: Option<usize>,
    /// Index of the last item of the page.
    pub end: Option<usize>,
}

/// Why a window was refused.
#[derive(Debug, Clone, Copy, PartialEq, Eq, Structural)]
pub enum PaginationError {
    /// Only one end was given, or the window starts past the end of the
    /// listing or past its own end.
    InvalidRange,
}

/// The half-open index range `[lo, hi)` that `start` and `end` select from a
/// listing of `n` items, or `None` where the window is invalid.
pub open spec fn window(n: int, start: Option<usize>, end: Option<usize>) -> Option<(int, int)> {
    match (start, end) {
        (None, None) => Some((0, n)),
        (Some(s), Some(e)) => {
            let hi = e + 1;
            if s > hi || s > n {
                None
            } else {
                Some((s as int, if hi < n { hi } else { n }))
            }
        },
        _ => None,
    }
}

/// The index range that `params` selects from a listing of `len` items.
pub fn page_bounds(len: usize, params: &PaginationParams) -> (r: Result<(usize, usize), PaginationError>)
    ensures
        match window(len as int, params.start, params.end) {
            Some((lo, hi)) => r == Ok::<(usize, usize), PaginationError>((lo as usize, hi as usize)),
            None => r == Err::<(usize, usize), PaginationError>(PaginationError::InvalidRange),
        },
{
    match (params.start, params.end) {
        (None, None) => Ok((0, len)),
        (Some(s), Some(e)) => {
            if e < s && s - e > 1 {
                Err(PaginationError::InvalidRange)
            } else if s > len {
                Err(PaginationError::InvalidRange)
            } else if e >= len {
                Ok((s, len))
            } else {
                Ok((s, e + 1))
            }
        },
        _ => Err(PaginationError::InvalidRange),
    }
}

/// The items of `items` that `params` selects, in their order.
pub fn paginate<T>(mut items: Vec<T>, params: &PaginationParams) -> (r: Result<Vec<T>, PaginationError>)
    ensures
        match window(items@.len() as int, params.start, params.end) {
            Some((lo, hi)) => r is Ok && r->Ok_0@ == items@.subrange(lo, hi),
            None => r is Err && r->Err_0 == PaginationError::InvalidRange,
        },
{
    let ghost all = items@;
    match page_bounds(items.len(), params) {
        Err(e) => Err(e),
        Ok((lo, hi)) => {
            let mut page = items.split_off(lo);
            page.truncate(hi - lo);
            assert(page@ =~= all.subrange(lo as int, hi as int));
            Ok(page)
        },
    }
}

} // verus!
