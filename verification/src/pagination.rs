//! Index-based pagination: how a page request and a total result count turn
//! into an effective limit, a page size, and start and end offsets.

use vstd::prelude::*;
use crate::error::ContractError;

verus! {

/// The page size used when a query names none.
pub const DEFAULT_LIMIT: u32 = 10;

/// The largest page size a query may ask for.
pub const MAX_LIMIT: u32 = 100;

/// The resolved shape of one requested page: offsets into the filtered
/// result vector, the page index, and the total result count.
#[derive(Clone, Copy, Debug, PartialEq, Eq, Structural)]
pub struct PageParams {
    pub start: u64,
    pub end: u64,
    pub page: u32,
    pub total: u128,
}

/// The page size actually used: the whole result set where it is smaller
/// than the request, else the request clamped to `[DEFAULT_LIMIT,
/// MAX_LIMIT]`.
pub open spec fn spec_effective_limit(limit: Option<u32>, total: u32) -> u32 {
    let l0 = match limit {
        Some(l) => l,
        None => DEFAULT_LIMIT,
    };
    if total < l0 {
        total
    } else if l0 < DEFAULT_LIMIT {
        DEFAULT_LIMIT
    } else if l0 > MAX_LIMIT {
        MAX_LIMIT
    } else {
        l0
    }
}

/// The resolved page: the last page carries the remainder of the results
/// where the division is not exact, every other page carries the full
/// limit; the page's slice starts at `page * limit`.
pub open spec fn spec_page_params(page: Option<u32>, limit: Option<u32>, total: u32) -> PageParams {
    let p = match page {
        Some(x) => x,
        None => 0u32,
    };
    let l = spec_effective_limit(limit, total);
    let modulo: int = if total > 0 {
        (total as int) % (l as int)
    } else {
        0
    };
    let last: int = if total == 0 {
        0
    } else if modulo > 0 {
        (total as int) / (l as int)
    } else {
        (total as int) / (l as int) - 1
    };
    let size: int = if p == last {
        if modulo == 0 {
            l as int
        } else {
            modulo
        }
    } else {
        l as int
    };
    PageParams {
        start: (p as int * l as int) as u64,
        end: (p as int * l as int + size) as u64,
        page: p,
        total: total as u128,
    }
}

/// A resolved page's offsets are ordered: the end never precedes the start.
pub proof fn lemma_page_params_bounds(page: Option<u32>, limit: Option<u32>, total: u32)
    ensures
        spec_page_params(page, limit, total).start <= spec_page_params(page, limit, total).end,
{
    let p = (match page {
        Some(x) => x,
        None => 0u32,
    }) as int;
    let l = spec_effective_limit(limit, total) as int;
    assert(0 <= p <= 0xFFFF_FFFF);
    assert(0 <= l <= 0xFFFF_FFFF);
    assert(p * l <= 0xFFFF_FFFF * 0xFFFF_FFFF) by (nonlinear_arith)
        requires
            0 <= p <= 0xFFFF_FFFF && 0 <= l <= 0xFFFF_FFFF,
    ;
    assert(0 <= p * l) by (nonlinear_arith)
        requires
            p >= 0 && l >= 0,
    ;
    if total > 0 {
        assert(l > 0);
        vstd::arithmetic::div_mod::lemma_mod_pos_bound(total as int, l);
    }
}

/// Resolves a page request against a total result count.
pub fn calculate_page_params(page: Option<u32>, limit: Option<u32>, total_results: u32) -> (r:
    Result<PageParams, ContractError>)
    ensures
        r == Ok::<PageParams, ContractError>(spec_page_params(page, limit, total_results)),
{
    let page_u: u32 = if page.is_some() {
        page.unwrap()
    } else {
        0
    };
    let mut limit_e: u32 = if limit.is_some() {
        limit.unwrap()
    } else {
        DEFAULT_LIMIT
    };
    if total_results < limit_e {
        limit_e = total_results;
    } else if limit_e < DEFAULT_LIMIT {
        limit_e = DEFAULT_LIMIT;
    } else if limit_e > MAX_LIMIT {
        limit_e = MAX_LIMIT;
    }
    let modulo: u32 = if total_results > 0 {
        total_results % limit_e
    } else {
        0
    };
    proof {
        if total_results > 0 && modulo == 0 {
            vstd::arithmetic::div_mod::lemma_fundamental_div_mod(
                total_results as int,
                limit_e as int,
            );
            vstd::arithmetic::div_mod::lemma_div_pos_is_pos(total_results as int, limit_e as int);
            if (total_results as int) / (limit_e as int) == 0 {
                assert((limit_e as int) * 0 == 0) by (nonlinear_arith);
                assert(false);
            }
        }
    }
    let last_page: u32 = if total_results == 0 {
        0
    } else if modulo > 0 {
        total_results / limit_e
    } else {
        total_results / limit_e - 1
    };
    let page_size: u32 = if page_u == last_page {
        if modulo == 0 {
            limit_e
        } else {
            modulo
        }
    } else {
        limit_e
    };
    proof {
        assert(page_u as int * limit_e as int <= 0xFFFF_FFFF * 0xFFFF_FFFF) by (nonlinear_arith)
            requires
                page_u <= 0xFFFF_FFFFu32 && limit_e <= 0xFFFF_FFFFu32,
        ;
        assert(page_u as int * limit_e as int >= 0) by (nonlinear_arith)
            requires
                page_u >= 0 && limit_e >= 0,
        ;
    }
    let start: u64 = (page_u as u64) * (limit_e as u64);
    let end: u64 = start + (page_size as u64);
    Ok(PageParams { start, end, page: page_u, total: total_results as u128 })
}

} // verus!
