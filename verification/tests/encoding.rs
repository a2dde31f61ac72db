use miniextendr_api::encoding::{
    locale_info_is_utf8, miniextendr_assert_utf8_locale_from, REncodingInfo,
};
use miniextendr_api::list::List;
use miniextendr_api::sexp::Sexp;

fn l10n(utf8: i32) -> Sexp {
    List::from_raw_pairs(vec![
        ("MBCS".to_string(), Sexp::scalar_logical(1)),
        ("UTF-8".to_string(), Sexp::scalar_logical(utf8)),
        ("Latin-1".to_string(), Sexp::scalar_logical(0)),
        ("codeset".to_string(), Sexp::character(vec![Some("UTF-8".to_string())])),
    ])
    .into_sexp()
}

#[test]
fn locale_flags_snapshot() {
    let info = REncodingInfo::from_locale_flags(1, 0, 2);
    assert_eq!(info.utf8_locale, Some(true));
    assert_eq!(info.mbcs_locale, Some(false));
    assert_eq!(info.known_to_be_latin1, Some(true));
}

#[test]
fn utf8_locale_is_read_from_l10n_info() {
    assert!(locale_info_is_utf8(&l10n(1)));
    assert!(!locale_info_is_utf8(&l10n(0)));
    assert!(miniextendr_assert_utf8_locale_from(&l10n(1)).is_ok());
    assert_eq!(
        miniextendr_assert_utf8_locale_from(&l10n(0)).unwrap_err(),
        "miniextendr requires a UTF-8 locale (R >= 4.2.0 uses UTF-8 by default)"
    );
}

#[test]
fn missing_utf8_entry_counts_as_not_utf8() {
    let info = List::from_raw_pairs(vec![("MBCS".to_string(), Sexp::scalar_logical(1))]).into_sexp();
    assert!(!locale_info_is_utf8(&info));
    let unnamed = Sexp::list(vec![Sexp::scalar_logical(1)]);
    assert!(!locale_info_is_utf8(&unnamed));
}
