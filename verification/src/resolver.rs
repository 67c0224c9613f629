//! Resolving which of the discovered choices to use: auto-select a lone
//! candidate, or parse and validate one line of menu input.

use vstd::prelude::*;

use crate::digits::all_digits;
use crate::digits::dec_value;
use crate::digits::dec_value_capped;
use crate::digits::is_digit_exec;
use crate::errors::LoginError;
use crate::text::trim_line;
use crate::text::trimmed;

verus! {

/// The selection an input line denotes among `n` candidates: the value of the
/// trimmed line read as a decimal number, provided it is in range; anything
/// else (empty, non-numeric, negative-looking, out of range) denotes nothing.
pub open spec fn selection_of(s: Seq<char>, n: nat) -> Option<nat> {
    let t = trimmed(s);
    if t.len() > 0 && all_digits(t) && dec_value(t) < n {
        Some(dec_value(t))
    } else {
        None
    }
}

/// With exactly one candidate it is selected without consuming any input;
/// with more, input is required.
pub fn auto_selection(n: usize) -> (r: Option<usize>)
    requires
        n >= 1,
    ensures
        n == 1 ==> r == Some(0usize),
        n > 1 ==> r is None,
{
    if n == 1 {
        Some(0)
    } else {
        None
    }
}

/// One round of the disambiguation loop: parse an input line as an index into
/// the `n` candidates.  `Err(InvalidUserSelection)` asks the caller to
/// re-prompt; it is returned exactly when the line denotes no selection.
pub fn parse_selection(input: &str, n: usize) -> (r: Result<usize, LoginError>)
    requires
        n >= 1,
    ensures
        match r {
            Ok(i) => selection_of(input@, n as nat) == Some(i as nat) && i < n,
            Err(e) => e == LoginError::InvalidUserSelection && selection_of(
                input@,
                n as nat,
            ) is None,
        },
{
    let t = trim_line(input);
    let ts = t.as_str();
    let len = ts.unicode_len();
    if len == 0 {
        return Err(LoginError::InvalidUserSelection);
    }
    let mut k: usize = 0;
    while k < len
        invariant
            k <= len == ts@.len(),
            ts@ == trimmed(input@),
            forall|i: int| 0 <= i < k ==> crate::digits::is_digit(#[trigger] ts@[i]),
        decreases len - k,
    {
        if !is_digit_exec(ts.get_char(k)) {
            return Err(LoginError::InvalidUserSelection);
        }
        k = k + 1;
    }
    proof {
        assert(ts@.subrange(0, len as int) =~= ts@);
    }
    match dec_value_capped(ts, 0, len, n - 1) {
        Some(v) => Ok(v),
        None => Err(LoginError::InvalidUserSelection),
    }
}

} // verus!
