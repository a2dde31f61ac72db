//! Encoding and locale state: the snapshot of R's locale flags, and the
//! check that R runs in a UTF-8 locale, read from the list that
//! `l10n_info()` returns.
use crate::sexp::{name_at, Sexp, SEXPTYPE};
use crate::text::{str_eq, string_of};
use vstd::prelude::*;

verus! {

/// A snapshot of R's locale flags.
#[derive(Debug, Clone)]
pub struct REncodingInfo {
    /// Whether R thinks the current locale is UTF-8.
    pub utf8_locale: Option<bool>,
    /// Whether the current locale is multi-byte.
    pub mbcs_locale: Option<bool>,
    /// Whether R treats strings of unknown encoding as Latin-1.
    pub known_to_be_latin1: Option<bool>,
}

impl REncodingInfo {
    /// The snapshot of R's `Rboolean` locale flags (`0` is false, anything
    /// else true).
    pub fn from_locale_flags(utf8locale: i32, mbcslocale: i32, known_to_be_latin1: i32) -> (r:
        REncodingInfo)
        ensures
            r.utf8_locale == Some(utf8locale != 0),
            r.mbcs_locale == Some(mbcslocale != 0),
            r.known_to_be_latin1 == Some(known_to_be_latin1 != 0),
    {
        REncodingInfo {
            utf8_locale: Some(utf8locale != 0),
            mbcs_locale: Some(mbcslocale != 0),
            known_to_be_latin1: Some(known_to_be_latin1 != 0),
        }
    }
}

/// What a session outside a UTF-8 locale is told.
pub open spec fn non_utf8_locale_text() -> Seq<char> {
    "miniextendr requires a UTF-8 locale (R >= 4.2.0 uses UTF-8 by default)"@
}

/// Element `i` of `info` is the first one named `"UTF-8"`.
pub open spec fn first_utf8_entry(info: Sexp, i: int) -> bool {
    &&& 0 <= i < info.elems().len()
    &&& name_at(info, i) == Some("UTF-8"@)
    &&& forall|k: int| 0 <= k < i ==> name_at(info, k) != Some("UTF-8"@)
}

/// The `"UTF-8"` entry of `info`, where there is one, is a logical vector
/// with a first element (what `l10n_info()` gives).
pub open spec fn utf8_entry_readable(info: Sexp) -> bool {
    forall|i: int|
        first_utf8_entry(info, i) ==> {
            let e = #[trigger] info.elems()[i];
            e.stype() == SEXPTYPE::LGLSXP && e.ints().len() > 0
        }
}

/// `l10n_info()` reports a UTF-8 locale: its first `"UTF-8"` entry is a
/// true logical.
pub open spec fn reports_utf8(info: Sexp) -> bool {
    exists|i: int| first_utf8_entry(info, i) && (#[trigger] info.elems()[i]).ints()[0] != 0
}

/// Whether the result of `l10n_info()` reports a UTF-8 locale.
pub fn locale_info_is_utf8(info: &Sexp) -> (r: bool)
    requires
        info.stype() == SEXPTYPE::VECSXP,
        utf8_entry_readable(*info),
    ensures
        r == reports_utf8(*info),
{
    proof {
        info.lemma_type_consistent();
    }
    let elems = info.elem_slice();
    let mut i: usize = 0;
    while i < elems.len()
        invariant
            elems@ == info.elems(),
            i <= elems@.len(),
            utf8_entry_readable(*info),
            forall|k: int| 0 <= k < i ==> name_at(*info, k) != Some("UTF-8"@),
        decreases elems@.len() - i,
    {
        match info.elem_name(i) {
            Some(t) => {
                if str_eq(t.as_str(), "UTF-8") {
                    proof {
                        assert(first_utf8_entry(*info, i as int));
                        assert(info.elems()[i as int].stype() == SEXPTYPE::LGLSXP);
                        info.elems()[i as int].lemma_type_consistent();
                    }
                    let e = &elems[i];
                    let flags = e.int_slice();
                    let b = flags[0] != 0;
                    proof {
                        if !b {
                            assert forall|j: int|
                                first_utf8_entry(*info, j) implies !((#[trigger] info.elems()[j]).ints()[0]
                                != 0) by {
                                if j < i {
                                } else if j > i {
                                    assert(name_at(*info, i as int) == Some("UTF-8"@));
                                }
                            }
                        }
                    }
                    return b;
                }
            },
            None => {},
        }
        i = i + 1;
    }
    false
}

/// Whether R runs in a UTF-8 locale, judged from the result of
/// `l10n_info()`: the error message when it does not.
pub fn miniextendr_assert_utf8_locale_from(info: &Sexp) -> (r: Result<(), String>)
    requires
        info.stype() == SEXPTYPE::VECSXP,
        utf8_entry_readable(*info),
    ensures
        r is Ok <==> reports_utf8(*info),
        r matches Err(m) ==> m@ == non_utf8_locale_text(),
{
    if locale_info_is_utf8(info) {
        Ok(())
    } else {
        Err(string_of("miniextendr requires a UTF-8 locale (R >= 4.2.0 uses UTF-8 by default)"))
    }
}

} // verus!
