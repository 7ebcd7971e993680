//! The closed catalog of status codes that a fixed-slot union has slots for.

use vstd::prelude::*;

verus! {

/// The supported status codes, in slot order: the registered 1xx to 5xx codes.
pub open spec fn catalog() -> Seq<u16> {
    seq![
        100u16, 101, 102,
        200, 201, 202, 203, 204, 205, 206, 207, 208, 226,
        300, 301, 302, 303, 304, 305, 307, 308,
        400, 401, 402, 403, 404, 405, 406, 407, 408, 409, 410, 411, 412, 413,
        414, 415, 416, 417, 418, 421, 422, 423, 424, 426, 428, 429, 431, 451,
        500, 501, 502, 503, 504, 505, 506, 507, 508, 510, 511,
    ]
}

/// A status code that a single typed response may carry: three digits.
pub open spec fn in_status_range(status: u16) -> bool {
    100 <= status < 1000
}

/// The catalog, as a vector.
pub fn support_status() -> (r: Vec<u16>)
    ensures
        r@ == catalog(),
{
    let r: Vec<u16> = vec![
        100u16, 101, 102,
        200, 201, 202, 203, 204, 205, 206, 207, 208, 226,
        300, 301, 302, 303, 304, 305, 307, 308,
        400, 401, 402, 403, 404, 405, 406, 407, 408, 409, 410, 411, 412, 413,
        414, 415, 416, 417, 418, 421, 422, 423, 424, 426, 428, 429, 431, 451,
        500, 501, 502, 503, 504, 505, 506, 507, 508, 510, 511,
    ];
    assert(r@ =~= catalog());
    r
}

/// Whether `status` has a slot in the catalog.
pub fn is_supported_status(status: u16) -> (r: bool)
    ensures
        r == catalog().contains(status),
{
    let all = support_status();
    let mut i: usize = 0;
    while i < all.len()
        invariant
            all@ == catalog(),
            0 <= i <= all@.len(),
            forall|j: int| 0 <= j < i ==> all@[j] != status,
        decreases all@.len() - i,
    {
        if all[i] == status {
            return true;
        }
        i += 1;
    }
    false
}

/// Whether `status` has three digits, the form every typed response must use.
pub fn is_valid_status(status: u16) -> (r: bool)
    ensures
        r == in_status_range(status),
{
    100 <= status && status < 1000
}

} // verus!
