//! Pagination helpers shared by every listing endpoint.

use vstd::prelude::*;
use vstd::arithmetic::div_mod::lemma_fundamental_div_mod;
use vstd::arithmetic::div_mod::lemma_fundamental_div_mod_converse;
use vstd::string::StringExecFns;

verus! {

/// Number of pages needed to show `total` rows at `limit` rows per page,
/// rounded up.
pub fn total_pages(total: i64, limit: i64) -> (pages: i64)
    requires
        total >= 0,
        limit > 0,
    ensures
        pages == (total + limit - 1) / (limit as int),
{
    let q = total / limit;
    let r = total % limit;
    proof {
        lemma_fundamental_div_mod(total as int, limit as int);
        if r != 0 {
            assert(limit * q >= q) by (nonlinear_arith)
                requires
                    limit >= 1,
                    q >= 0,
            ;
            assert(total + limit - 1 == limit * (q + 1) + (r - 1)) by (nonlinear_arith)
                requires
                    total == limit * q + r,
            ;
            lemma_fundamental_div_mod_converse(
                total + limit - 1,
                limit as int,
                q + 1,
                r - 1,
            );
        } else {
            lemma_fundamental_div_mod_converse(
                total + limit - 1,
                limit as int,
                q as int,
                limit - 1,
            );
        }
    }
    if r != 0 {
        q + 1
    } else {
        q
    }
}

/// Fills in the defaults for an absent or out-of-range page and limit:
/// pages count from 1, and an absent limit means "everything".
pub fn extract_page_and_limit(page: Option<i64>, limit: Option<i64>) -> (r: (i64, i64))
    ensures
        r.0 == match page {
            Some(p) => if p <= 0 { 1int } else { p as int },
            None => 1int,
        },
        r.1 == match limit {
            Some(l) => l as int,
            None => 9999int,
        },
{
    let mut page: i64 = match page {
        Some(p) => p,
        None => 1,
    };
    if page <= 0 {
        page = 1;
    }
    let limit: i64 = match limit {
        Some(l) => l,
        None => 9999,
    };
    (page, limit)
}

/// The window `[from, to]` (both inclusive) of a listing, cut down to the
/// listing's length.
pub open spec fn page_of<T>(s: Seq<T>, from: int, to: int) -> Seq<T> {
    let lo = if from < s.len() {
        from
    } else {
        s.len() as int
    };
    let hi = if to + 1 < s.len() {
        to + 1
    } else {
        s.len() as int
    };
    if lo <= hi {
        s.subrange(lo, hi)
    } else {
        Seq::empty()
    }
}

/// First and last row index (both inclusive) of the given page.
pub fn get_query_from_to(page: i64, limit: i64) -> (r: Result<(i64, i64), crate::error::AppError>)
    ensures
        r is Ok <==> page > 0 && limit > 0 && page * limit - 1 <= i64::MAX,
        r matches Ok(w) ==> w.0 == (page - 1) * limit && w.1 == page * limit - 1,
{
    if page <= 0 || limit <= 0 {
        return Err(crate::error::AppError::new(String::from_str(
            "page and limit must greater than 0.",
        )));
    }
    proof {
        assert((page as int) * (limit as int) < 0x4000_0000_0000_0000_0000_0000_0000_0000int)
            by (nonlinear_arith)
            requires
                0 < page <= 0x7fff_ffff_ffff_ffffi64,
                0 < limit <= 0x7fff_ffff_ffff_ffffi64,
        ;
        assert((page as int) * (limit as int) >= 1) by (nonlinear_arith)
            requires
                page >= 1,
                limit >= 1,
        ;
    }
    let last: i128 = (page as i128) * (limit as i128) - 1;
    if last > i64::MAX as i128 {
        return Err(crate::error::AppError::new(String::from_str(
            "page and limit must greater than 0.",
        )));
    }
    proof {
        assert((page - 1) * (limit as int) == page * (limit as int) - limit) by (nonlinear_arith);
    }
    let from_index: i64 = ((page as i128 - 1) * (limit as i128)) as i64;
    let to_index: i64 = last as i64;
    Ok((from_index, to_index))
}

} // verus!
