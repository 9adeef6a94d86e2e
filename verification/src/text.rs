//! Text helpers: comparison, suffix stripping, splitting and decimal notation.
use vstd::prelude::*;
use crate::model;

verus! {

/// The decimal digit `d`.
pub open spec fn digit(d: nat) -> char {
    (48 + d) as char
}

/// Decimal notation of `n`, without leading zeros.
pub open spec fn decimal(n: nat) -> Seq<char>
    decreases n,
{
    if n < 10 {
        seq![digit(n)]
    } else {
        decimal(n / 10).push(digit(n % 10))
    }
}

/// Decimal notation of `n`, with a leading minus sign where `n` is negative.
pub open spec fn signed_decimal(n: int) -> Seq<char> {
    if n < 0 {
        seq!['-'] + decimal((-n) as nat)
    } else {
        decimal(n as nat)
    }
}

/// Whether `s` ends in `suffix`.
pub open spec fn ends_in(s: Seq<char>, suffix: Seq<char>) -> bool {
    &&& suffix.len() <= s.len()
    &&& s.skip(s.len() - suffix.len()) == suffix
}

/// The quoted and escaped form that `{:?}` gives a string.
pub uninterp spec fn debug_text(s: Seq<char>) -> Seq<char>;

/// Wraps the `Debug` formatting of `str`.  Its result is a function of the
/// text alone; the escaping rules themselves are left unsaid.
#[verifier::external_body]
pub(crate) fn debug(s: &str) -> (r: String)
    ensures
        r@ == debug_text(s@),
{
    format!("{s:?}")
}

/// Whether two texts are the same.
pub fn same(a: &str, b: &str) -> (r: bool)
    ensures
        r == (a@ == b@),
{
    a.to_string() == b.to_string()
}

/// `s` without `suffix` at its end, where it ends so.
pub fn strip_suffix<'a>(s: &'a str, suffix: &str) -> (r: Option<&'a str>)
    ensures
        match r {
            Some(rest) => ends_in(s@, suffix@) && rest@ == s@.take(s@.len() - suffix@.len()),
            None => !ends_in(s@, suffix@),
        },
{
    let n: usize = s.unicode_len();
    let m: usize = suffix.unicode_len();
    if m <= n && same(s.substring_char(n - m, n), suffix) {
        Some(s.substring_char(0, n - m))
    } else {
        None
    }
}

/// The texts before and after the first `sep` in `s`, where there is one.
pub fn split_once<'a>(s: &'a str, sep: char) -> (r: Option<(&'a str, &'a str)>)
    ensures
        match r {
            Some((before, after)) => {
                &&& !before@.contains(sep)
                &&& s@ == before@ + seq![sep] + after@
            },
            None => !s@.contains(sep),
        },
{
    let n: usize = s.unicode_len();
    let mut i: usize = 0;
    while i < n
        invariant
            i <= n,
            n == s@.len(),
            forall|j: int| 0 <= j < i ==> s@[j] != sep,
        decreases n - i,
    {
        if s.get_char(i) == sep {
            let before = s.substring_char(0, i);
            let after = s.substring_char(i + 1, n);
            assert(s@ =~= before@ + seq![sep] + after@);
            return Some((before, after));
        }
        i = i + 1;
    }
    None
}

/// A copy of an optional string.
pub fn copy_opt(s: &Option<String>) -> (r: Option<String>)
    ensures
        model::opt_view(r) == model::opt_view(*s),
{
    match s {
        Some(t) => Some(t.clone()),
        None => None,
    }
}

} // verus!
