//! Class vectors and attributes shared by several conversions.
use crate::into_r::is_str_vector;
use crate::sexp::Sexp;
use crate::text::string_of;
use vstd::prelude::*;

verus! {

/// A fresh character vector holding the given strings, none `NA`.
fn strings_sexp(v: &[&str]) -> (r: Sexp)
    ensures
        is_str_vector(r, v@.map_values(|t: &str| Some(t@))),
{
    let mut elems: Vec<Option<String>> = Vec::new();
    let mut i: usize = 0;
    while i < v.len()
        invariant
            i <= v@.len(),
            elems@.len() == i,
            forall|k: int| 0 <= k < i ==> crate::sexp::opt_str_view(#[trigger] elems@[k]) == Some(v@[k]@),
        decreases v@.len() - i,
    {
        elems.push(Some(string_of(v[i])));
        i = i + 1;
    }
    let r = Sexp::character(elems);
    proof {
        assert(r.strs() =~= v@.map_values(|t: &str| Some(t@)));
    }
    r
}

/// The class vector of a date-time: `c("POSIXct", "POSIXt")`.
pub fn posixct_class_sexp() -> (r: Sexp)
    ensures
        is_str_vector(r, seq![Some("POSIXct"@), Some("POSIXt"@)]),
{
    let v: [&str; 2] = ["POSIXct", "POSIXt"];
    let r = strings_sexp(v.as_slice());
    proof {
        assert(v@.map_values(|t: &str| Some(t@)) =~= seq![Some("POSIXct"@), Some("POSIXt"@)]);
    }
    r
}

/// The class vector of a date: `"Date"`.
pub fn date_class_sexp() -> (r: Sexp)
    ensures
        is_str_vector(r, seq![Some("Date"@)]),
{
    let v: [&str; 1] = ["Date"];
    let r = strings_sexp(v.as_slice());
    proof {
        assert(v@.map_values(|t: &str| Some(t@)) =~= seq![Some("Date"@)]);
    }
    r
}

/// The class vector of a data frame: `"data.frame"`.
pub fn data_frame_class_sexp() -> (r: Sexp)
    ensures
        is_str_vector(r, seq![Some("data.frame"@)]),
{
    let v: [&str; 1] = ["data.frame"];
    let r = strings_sexp(v.as_slice());
    proof {
        assert(v@.map_values(|t: &str| Some(t@)) =~= seq![Some("data.frame"@)]);
    }
    r
}

/// The class of a tagged condition value: `"rust_condition_value"`.
pub fn rust_condition_class_sexp() -> (r: Sexp)
    ensures
        is_str_vector(r, seq![Some("rust_condition_value"@)]),
{
    let v: [&str; 1] = ["rust_condition_value"];
    let r = strings_sexp(v.as_slice());
    proof {
        assert(v@.map_values(|t: &str| Some(t@)) =~= seq![Some("rust_condition_value"@)]);
    }
    r
}

/// The slot names of a tagged condition value:
/// `c("error", "kind", "class", "call", "data")`.
pub fn condition_names_sexp() -> (r: Sexp)
    ensures
        is_str_vector(
            r,
            seq![Some("error"@), Some("kind"@), Some("class"@), Some("call"@), Some("data"@)],
        ),
{
    let v: [&str; 5] = ["error", "kind", "class", "call", "data"];
    let r = strings_sexp(v.as_slice());
    proof {
        assert(v@.map_values(|t: &str| Some(t@)) =~= seq![
            Some("error"@),
            Some("kind"@),
            Some("class"@),
            Some("call"@),
            Some("data"@),
        ]);
    }
    r
}

/// Mark `sexp` as a UTC date-time: class `c("POSIXct", "POSIXt")` and
/// `tzone = "UTC"`.
pub fn set_posixct_utc(sexp: &mut Sexp)
    ensures
        final(sexp).same_payload(*old(sexp)),
        final(sexp).attr("class"@) matches Some(c) && is_str_vector(
            c,
            seq![Some("POSIXct"@), Some("POSIXt"@)],
        ),
        final(sexp).attr("tzone"@) matches Some(t) && is_str_vector(t, seq![Some("UTC"@)]),
        forall|n: Seq<char>|
            n != "class"@ && n != "tzone"@ ==> #[trigger] final(sexp).attr(n) == old(sexp).attr(n),
{
    set_posixct_tz(sexp, "UTC");
}

/// Mark `sexp` as a date-time in the time zone `iana`: class
/// `c("POSIXct", "POSIXt")` and `tzone = iana`.
pub fn set_posixct_tz(sexp: &mut Sexp, iana: &str)
    ensures
        final(sexp).same_payload(*old(sexp)),
        final(sexp).attr("class"@) matches Some(c) && is_str_vector(
            c,
            seq![Some("POSIXct"@), Some("POSIXt"@)],
        ),
        final(sexp).attr("tzone"@) matches Some(t) && is_str_vector(t, seq![Some(iana@)]),
        forall|n: Seq<char>|
            n != "class"@ && n != "tzone"@ ==> #[trigger] final(sexp).attr(n) == old(sexp).attr(n),
{
    let class = posixct_class_sexp();
    sexp.set_attr("class", class);
    let tz = Sexp::scalar_string(Some(string_of(iana)));
    proof {
        reveal_strlit("class");
        reveal_strlit("tzone");
        assert("class"@ != "tzone"@) by {
            assert("class"@[0] != "tzone"@[0]);
        }
    }
    sexp.set_attr("tzone", tz);
}

} // verus!
