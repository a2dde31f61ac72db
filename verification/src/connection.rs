//! R connections: the decisions around custom connections (API version,
//! mode flags, item arithmetic of reads and writes), the capabilities of a
//! connection, console output, and the null connection's state.
use crate::from_r::{rv, SexpError, SexpErrorView};
use crate::sexp::{no_nul_text, Sexp};
use crate::text::{
    debug_str, debug_string, decimal_int, i64_to_string, push_str, str_eq, string_of,
};
use vstd::prelude::*;

verus! {

/// The R connections API version this module is written for.
pub const EXPECTED_CONNECTIONS_VERSION: i32 = 1;

/// The connections API version of the R headers the bindings come from.
pub const R_CONNECTIONS_VERSION: i32 = 1;

/// What a connections API version mismatch says.
pub open spec fn version_mismatch_text(found: i32) -> Seq<char> {
    "R_CONNECTIONS_VERSION mismatch: expected 1, got "@ + decimal_int(found as int)
        + ". The R connections API may have changed incompatibly."@
}

/// Compare a connections API version with [`EXPECTED_CONNECTIONS_VERSION`].
pub fn check_connections_version_of(found: i32) -> (r: Result<(), String>)
    ensures
        r is Ok <==> found == EXPECTED_CONNECTIONS_VERSION,
        r matches Err(m) ==> m@ == version_mismatch_text(found),
{
    if found == EXPECTED_CONNECTIONS_VERSION {
        return Ok(());
    }
    let mut m = string_of("R_CONNECTIONS_VERSION mismatch: expected 1, got ");
    let f = i64_to_string(found as i64);
    push_str(&mut m, f.as_str());
    push_str(&mut m, ". The R connections API may have changed incompatibly.");
    Err(m)
}

/// Static check that the headers' connections API version is the one this
/// module is written for.
pub fn check_connections_version() -> (r: bool)
    ensures
        r == (R_CONNECTIONS_VERSION == EXPECTED_CONNECTIONS_VERSION),
        r,
{
    check_connections_version_of(R_CONNECTIONS_VERSION).is_ok()
}

/// The value of a decimal numeral (digits only).
pub open spec fn numeral_value(s: Seq<char>) -> int
    decreases s.len(),
{
    if s.len() == 0 {
        0
    } else {
        numeral_value(s.drop_last()) * 10 + (s.last() as int - '0' as int)
    }
}

/// A non-empty run of decimal digits.
pub open spec fn is_numeral(s: Seq<char>) -> bool {
    s.len() > 0 && forall|i: int| 0 <= i < s.len() ==> '0' <= #[trigger] s[i] <= '9'
}

/// The text before the first `.` (all of it without one).
pub open spec fn before_dot(s: Seq<char>) -> Seq<char> {
    if exists|i: int| 0 <= i < s.len() && s[i] == '.' {
        let i = choose|i: int|
            0 <= i < s.len() && s[i] == '.' && forall|k: int| 0 <= k < i ==> s[k] != '.';
        s.subrange(0, i)
    } else {
        s
    }
}

/// Custom connections need R 4.3.0 or later.
pub open spec fn supports_custom_connections(major: int, minor: int) -> bool {
    major > 4 || (major == 4 && minor >= 3)
}

/// What an R too old for custom connections is told.
pub open spec fn old_r_text(major: int, minor: int) -> Seq<char> {
    "Custom connections require R >= 4.3.0, but running R "@ + decimal_int(major) + "."@
        + decimal_int(minor)
}

/// The value of a numeral that fits an `i32`.
fn parse_numeral(s: &str) -> (r: Option<i32>)
    ensures
        r matches Some(v) ==> is_numeral(s@) && v == numeral_value(s@),
        r is None ==> !is_numeral(s@) || numeral_value(s@) > i32::MAX,
{
    let n = s.unicode_len();
    if n == 0 {
        return None;
    }
    let mut v: i64 = 0;
    let mut i: usize = 0;
    while i < n
        invariant
            n == s@.len(),
            i <= n,
            forall|k: int| 0 <= k < i ==> '0' <= #[trigger] s@[k] <= '9',
            v == numeral_value(s@.subrange(0, i as int)),
            0 <= v <= i32::MAX,
        decreases n - i,
    {
        let c = s.get_char(i);
        if !('0' <= c && c <= '9') {
            return None;
        }
        proof {
            assert(s@.subrange(0, i + 1).drop_last() =~= s@.subrange(0, i as int));
        }
        let d = (c as u32 - '0' as u32) as i64;
        if v > (i32::MAX as i64 - d) / 10 {
            proof {
                let w = s@.subrange(0, i + 1);
                assert(numeral_value(w) == v * 10 + d);
                assert(v * 10 + d > i32::MAX) by (nonlinear_arith)
                    requires
                        v > (i32::MAX - d) / 10,
                        0 <= d <= 9,
                ;
                if is_numeral(s@) {
                    lemma_numeral_grows(s@, i + 1);
                }
            }
            return None;
        }
        v = v * 10 + d;
        i = i + 1;
    }
    proof {
        assert(s@.subrange(0, n as int) =~= s@);
    }
    Some(v as i32)
}

/// A numeral's value never falls as digits are appended.
proof fn lemma_numeral_grows(s: Seq<char>, k: int)
    requires
        0 <= k <= s.len(),
        forall|i: int| 0 <= i < s.len() ==> '0' <= #[trigger] s[i] <= '9',
    ensures
        numeral_value(s.subrange(0, k)) <= numeral_value(s),
    decreases s.len() - k,
{
    if k < s.len() {
        lemma_numeral_grows(s, k + 1);
        assert(s.subrange(0, k + 1).drop_last() =~= s.subrange(0, k));
        assert(numeral_value(s.subrange(0, k)) >= 0) by {
            lemma_numeral_nonneg(s.subrange(0, k));
        }
    } else {
        assert(s.subrange(0, k) =~= s);
    }
}

/// A numeral's value is not negative.
proof fn lemma_numeral_nonneg(s: Seq<char>)
    requires
        forall|i: int| 0 <= i < s.len() ==> '0' <= #[trigger] s[i] <= '9',
    ensures
        numeral_value(s) >= 0,
    decreases s.len(),
{
    if s.len() > 0 {
        lemma_numeral_nonneg(s.drop_last());
    }
}

/// The text before the first `.` of `s`.
fn strip_from_dot(s: &str) -> (r: String)
    ensures
        r@ == before_dot(s@),
{
    let n = s.unicode_len();
    let mut out = String::new();
    let mut i: usize = 0;
    while i < n
        invariant
            n == s@.len(),
            i <= n,
            out@ == s@.subrange(0, i as int),
            forall|k: int| 0 <= k < i ==> s@[k] != '.',
        decreases n - i,
    {
        let c = s.get_char(i);
        if c == '.' {
            proof {
                let j = choose|j: int|
                    0 <= j < s@.len() && s@[j] == '.' && forall|k: int| 0 <= k < j ==> s@[k] != '.';
                assert(j == i) by {
                    if j < i {
                        assert(s@[j] != '.');
                    } else if j > i {
                        assert(s@[i as int] != '.');
                    }
                }
            }
            return out;
        }
        crate::text::push_char(&mut out, c);
        proof {
            assert(s@.subrange(0, i + 1) =~= s@.subrange(0, i as int).push(c));
        }
        i = i + 1;
    }
    proof {
        assert(s@.subrange(0, n as int) =~= s@);
    }
    out
}

/// The runtime check of custom-connection support from `R.Version()`'s
/// `major` and `minor` fields (`minor` like `"3.1"`: the part before the
/// dot counts). Custom connections need R 4.3.0 or later.
pub fn check_connections_runtime_from(major: &str, minor: &str) -> (r: Result<(), String>)
    requires
        is_numeral(major@) && numeral_value(major@) <= i32::MAX,
        is_numeral(before_dot(minor@)) && numeral_value(before_dot(minor@)) <= i32::MAX,
    ensures
        r is Ok <==> supports_custom_connections(
            numeral_value(major@),
            numeral_value(before_dot(minor@)),
        ),
        r matches Err(m) ==> m@ == old_r_text(numeral_value(major@), numeral_value(before_dot(minor@))),
{
    let maj = match parse_numeral(major) {
        Some(v) => v,
        None => {
            return Ok(());
        },
    };
    let minor_head = strip_from_dot(minor);
    let min = match parse_numeral(minor_head.as_str()) {
        Some(v) => v,
        None => {
            return Ok(());
        },
    };
    if maj > 4 || (maj == 4 && min >= 3) {
        Ok(())
    } else {
        let mut m = string_of("Custom connections require R >= 4.3.0, but running R ");
        let a = i64_to_string(maj as i64);
        push_str(&mut m, a.as_str());
        push_str(&mut m, ".");
        let b = i64_to_string(min as i64);
        push_str(&mut m, b.as_str());
        Err(m)
    }
}

/// Capabilities and state of an R connection.
#[derive(Debug, Clone)]
pub struct ConnectionCapabilities {
    /// Whether the connection supports reading.
    pub can_read: bool,
    /// Whether the connection supports writing.
    pub can_write: bool,
    /// Whether the connection supports seeking.
    pub can_seek: bool,
    /// Whether the connection is in text mode (vs binary).
    pub is_text: bool,
    /// Whether the connection is currently open.
    pub is_open: bool,
    /// Whether the connection is blocking.
    pub is_blocking: bool,
}

impl ConnectionCapabilities {
    /// The capabilities from the connection's flag fields (`Rboolean`
    /// values, anything but `FALSE` counting as set).
    pub fn from_flags(
        canread: u32,
        canwrite: u32,
        canseek: u32,
        text: u32,
        isopen: u32,
        blocking: u32,
    ) -> (r: ConnectionCapabilities)
        ensures
            r.can_read == (canread != 0),
            r.can_write == (canwrite != 0),
            r.can_seek == (canseek != 0),
            r.is_text == (text != 0),
            r.is_open == (isopen != 0),
            r.is_blocking == (blocking != 0),
    {
        ConnectionCapabilities {
            can_read: canread != 0,
            can_write: canwrite != 0,
            can_seek: canseek != 0,
            is_text: text != 0,
            is_open: isopen != 0,
            is_blocking: blocking != 0,
        }
    }
}

/// A mode string is binary when it contains `b` (`"rb"`, `"r+b"`, ...).
pub open spec fn mode_is_binary(mode: Seq<char>) -> bool {
    exists|i: int| 0 <= i < mode.len() && mode[i] == 'b'
}

/// Whether a connection mode is binary.
pub fn is_binary_mode(mode: &str) -> (r: bool)
    ensures
        r == mode_is_binary(mode@),
{
    let n = mode.unicode_len();
    let mut i: usize = 0;
    while i < n
        invariant
            n == mode@.len(),
            i <= n,
            forall|k: int| 0 <= k < i ==> mode@[k] != 'b',
        decreases n - i,
    {
        if mode.get_char(i) == 'b' {
            return true;
        }
        i = i + 1;
    }
    false
}

/// Builder for a custom R connection: its description, mode, class and the
/// flags it sets.
pub struct RCustomConnection {
    description: String,
    mode: String,
    class_name: String,
    text: Option<bool>,
    can_read: Option<bool>,
    can_write: Option<bool>,
    can_seek: Option<bool>,
    blocking: Option<bool>,
}

/// The settings a custom connection is created with.
pub struct ConnectionSettings {
    /// Description shown by `summary()`.
    pub description: String,
    /// Mode string.
    pub mode: String,
    /// Class name.
    pub class_name: String,
    /// Text (`true`) or binary (`false`) mode.
    pub text: bool,
    /// Readability, when set (R infers it from the mode otherwise).
    pub can_read: Option<bool>,
    /// Writability, when set (R infers it from the mode otherwise).
    pub can_write: Option<bool>,
    /// Seekability, when set.
    pub can_seek: Option<bool>,
    /// Blocking mode.
    pub blocking: bool,
}

impl RCustomConnection {
    #[verifier::type_invariant]
    closed spec fn inv(self) -> bool {
        no_nul_text(self.description@) && no_nul_text(self.mode@) && no_nul_text(self.class_name@)
            && vstd::utf8::encode_utf8(self.mode@).len() <= 4
    }

    /// The description.
    pub closed spec fn description_view(&self) -> Seq<char> {
        self.description@
    }

    /// The mode.
    pub closed spec fn mode_view(&self) -> Seq<char> {
        self.mode@
    }

    /// The class name.
    pub closed spec fn class_view(&self) -> Seq<char> {
        self.class_name@
    }

    /// The flags set so far: text, read, write, seek, blocking.
    pub closed spec fn flags(&self) -> (Option<bool>, Option<bool>, Option<bool>, Option<bool>, Option<bool>) {
        (self.text, self.can_read, self.can_write, self.can_seek, self.blocking)
    }

    /// A builder with the defaults: description `"custom connection"`, mode
    /// `"r"`, class `"customConnection"`, no flag set.
    pub fn new() -> (r: RCustomConnection)
        ensures
            r.description_view() == "custom connection"@,
            r.mode_view() == "r"@,
            r.class_view() == "customConnection"@,
            r.flags() == (None::<bool>, None::<bool>, None::<bool>, None::<bool>, None::<bool>),
    {
        proof {
            reveal_strlit("custom connection");
            reveal_strlit("r");
            reveal_strlit("customConnection");
            vstd::utf8::is_ascii_chars_encode_utf8("r"@);
        }
        RCustomConnection {
            description: string_of("custom connection"),
            mode: string_of("r"),
            class_name: string_of("customConnection"),
            text: None,
            can_read: None,
            can_write: None,
            can_seek: None,
            blocking: None,
        }
    }

    /// Set the description.
    pub fn description(self, desc: &str) -> (r: RCustomConnection)
        requires
            no_nul_text(desc@),
        ensures
            r.description_view() == desc@,
            r.mode_view() == self.mode_view(),
            r.class_view() == self.class_view(),
            r.flags() == self.flags(),
    {
        proof {
            use_type_invariant(&self);
        }
        RCustomConnection { description: string_of(desc), ..self }
    }

    /// Set the mode (at most 4 bytes).
    pub fn mode(self, mode: &str) -> (r: RCustomConnection)
        requires
            vstd::utf8::encode_utf8(mode@).len() <= 4,
            no_nul_text(mode@),
        ensures
            r.mode_view() == mode@,
            r.description_view() == self.description_view(),
            r.class_view() == self.class_view(),
            r.flags() == self.flags(),
    {
        proof {
            use_type_invariant(&self);
        }
        RCustomConnection { mode: string_of(mode), ..self }
    }

    /// Set the class name.
    pub fn class_name(self, name: &str) -> (r: RCustomConnection)
        requires
            no_nul_text(name@),
        ensures
            r.class_view() == name@,
            r.description_view() == self.description_view(),
            r.mode_view() == self.mode_view(),
            r.flags() == self.flags(),
    {
        proof {
            use_type_invariant(&self);
        }
        RCustomConnection { class_name: string_of(name), ..self }
    }

    /// Set text (vs binary) mode.
    pub fn text(self, is_text: bool) -> (r: RCustomConnection)
        ensures
            r.flags() == (Some(is_text), self.flags().1, self.flags().2, self.flags().3, self.flags().4),
            r.description_view() == self.description_view(),
            r.mode_view() == self.mode_view(),
            r.class_view() == self.class_view(),
    {
        proof {
            use_type_invariant(&self);
        }
        RCustomConnection { text: Some(is_text), ..self }
    }

    /// Set readability.
    pub fn can_read(self, can_read: bool) -> (r: RCustomConnection)
        ensures
            r.flags() == (self.flags().0, Some(can_read), self.flags().2, self.flags().3, self.flags().4),
            r.description_view() == self.description_view(),
            r.mode_view() == self.mode_view(),
            r.class_view() == self.class_view(),
    {
        proof {
            use_type_invariant(&self);
        }
        RCustomConnection { can_read: Some(can_read), ..self }
    }

    /// Set writability.
    pub fn can_write(self, can_write: bool) -> (r: RCustomConnection)
        ensures
            r.flags() == (self.flags().0, self.flags().1, Some(can_write), self.flags().3, self.flags().4),
            r.description_view() == self.description_view(),
            r.mode_view() == self.mode_view(),
            r.class_view() == self.class_view(),
    {
        proof {
            use_type_invariant(&self);
        }
        RCustomConnection { can_write: Some(can_write), ..self }
    }

    /// Set seekability.
    pub fn can_seek(self, can_seek: bool) -> (r: RCustomConnection)
        ensures
            r.flags() == (self.flags().0, self.flags().1, self.flags().2, Some(can_seek), self.flags().4),
            r.description_view() == self.description_view(),
            r.mode_view() == self.mode_view(),
            r.class_view() == self.class_view(),
    {
        proof {
            use_type_invariant(&self);
        }
        RCustomConnection { can_seek: Some(can_seek), ..self }
    }

    /// Set blocking mode.
    pub fn blocking(self, blocking: bool) -> (r: RCustomConnection)
        ensures
            r.flags() == (self.flags().0, self.flags().1, self.flags().2, self.flags().3, Some(blocking)),
            r.description_view() == self.description_view(),
            r.mode_view() == self.mode_view(),
            r.class_view() == self.class_view(),
    {
        proof {
            use_type_invariant(&self);
        }
        RCustomConnection { blocking: Some(blocking), ..self }
    }

    /// The settings the connection is created with: text mode unless set
    /// otherwise or the mode is binary; blocking unless set otherwise; read,
    /// write and seek as set. Whoever creates the R connection from them
    /// then runs the `open` callback once and does what [`after_open`] says.
    pub fn settings(self) -> (r: ConnectionSettings)
        ensures
            r.description@ == self.description_view(),
            r.mode@ == self.mode_view(),
            r.class_name@ == self.class_view(),
            r.text == match self.flags().0 {
                Some(t) => t,
                None => !mode_is_binary(self.mode_view()),
            },
            r.can_read == self.flags().1,
            r.can_write == self.flags().2,
            r.can_seek == self.flags().3,
            r.blocking == match self.flags().4 {
                Some(b) => b,
                None => true,
            },
    {
        let text = match self.text {
            Some(t) => t,
            None => !is_binary_mode(self.mode.as_str()),
        };
        let blocking = match self.blocking {
            Some(b) => b,
            None => true,
        };
        ConnectionSettings {
            description: self.description,
            mode: self.mode,
            class_name: self.class_name,
            text,
            can_read: self.can_read,
            can_write: self.can_write,
            can_seek: self.can_seek,
            blocking,
        }
    }
}

impl Default for RCustomConnection {
    fn default() -> (r: RCustomConnection)
        ensures
            r.description_view() == "custom connection"@,
            r.mode_view() == "r"@,
            r.class_view() == "customConnection"@,
    {
        RCustomConnection::new()
    }
}

/// What building a connection ends with, once its `open` callback has run.
#[derive(Debug, Clone, Copy, PartialEq, Eq, Structural)]
pub enum BuildOutcome {
    /// The connection opened: return it.
    ReturnConnection,
    /// It did not: tear the state down through `destroy` (which drops it)
    /// and return `NULL`.
    DestroyAndReturnNil,
}

/// The end of building a connection, from whether its `open` callback (run
/// exactly once, before returning) succeeded.
pub fn after_open(opened: bool) -> (r: BuildOutcome)
    ensures
        r == (if opened {
            BuildOutcome::ReturnConnection
        } else {
            BuildOutcome::DestroyAndReturnNil
        }),
{
    if opened {
        BuildOutcome::ReturnConnection
    } else {
        BuildOutcome::DestroyAndReturnNil
    }
}

/// Bytes moved by a transfer of `nitems` items of `size` bytes: `0` when
/// the product does not fit a `usize`.
pub open spec fn bytes_for(size: int, nitems: int) -> int {
    if size * nitems <= usize::MAX {
        size * nitems
    } else {
        0
    }
}

/// Whole items of `size` bytes in `bytes` bytes (`0` for size 0).
pub open spec fn items_in(bytes: int, size: int) -> int {
    if size > 0 {
        bytes / size
    } else {
        0
    }
}

/// Counting the items in the bytes that a transfer of `nitems` items of
/// `size` bytes moves gives back `nitems`, where that byte count fits.
pub proof fn lemma_items_of_transfer(size: usize, nitems: usize)
    requires
        size > 0,
        size * nitems <= usize::MAX,
    ensures
        items_in(bytes_for(size as int, nitems as int), size as int) == nitems,
{
    assert((size as int * nitems as int) / (size as int) == nitems as int) by (nonlinear_arith)
        requires
            size > 0,
    ;
}

/// Bytes a read or write of `nitems` items of `size` bytes moves: `0` when
/// the product overflows.
pub fn transfer_bytes(size: usize, nitems: usize) -> (r: usize)
    ensures
        r == bytes_for(size as int, nitems as int),
{
    match size.checked_mul(nitems) {
        Some(n) => n,
        None => 0,
    }
}

/// Whole items in `bytes` bytes of items of `size` bytes (`0` for size 0).
pub fn items_transferred(bytes: usize, size: usize) -> (r: usize)
    ensures
        r == items_in(bytes as int, size as int),
{
    match bytes.checked_div(size) {
        Some(n) => n,
        None => 0,
    }
}

/// R's standard input connection.
#[derive(Debug, Clone, Copy)]
pub struct RStdin;

/// R's standard output (console output).
#[derive(Debug, Clone, Copy)]
pub struct RStdout;

/// R's standard error (console messages).
#[derive(Debug, Clone, Copy)]
pub struct RStderr;

/// A connection field that may be missing, read as text (missing reads
/// as empty).
pub open spec fn field_or_empty(f: Option<Seq<char>>) -> Seq<char> {
    match f {
        Some(t) => t,
        None => Seq::empty(),
    }
}

/// The text of an optional string slice.
pub open spec fn opt_text(f: Option<&str>) -> Option<Seq<char>> {
    match f {
        Some(t) => Some(t@),
        None => None,
    }
}

/// What checking a connection for being the terminal connection
/// `expected` gives, from its description and class: the description must
/// be `expected` and the class `"terminal"`.
pub open spec fn terminal_check(
    description: Option<Seq<char>>,
    class: Option<Seq<char>>,
    expected: Seq<char>,
) -> Result<(), SexpErrorView> {
    let d = field_or_empty(description);
    let c = field_or_empty(class);
    if d != expected {
        Err(
            SexpErrorView::InvalidValue(
                "expected terminal connection with description "@ + debug_str(expected) + ", got "@
                    + debug_str(d),
            ),
        )
    } else if c != "terminal"@ {
        Err(SexpErrorView::InvalidValue("expected class \"terminal\", got "@ + debug_str(c)))
    } else {
        Ok(())
    }
}

/// Check that a connection, given by its description and class, is the
/// terminal connection `expected`.
pub fn validate_terminal(description: Option<&str>, class: Option<&str>, expected: &str) -> (r:
    Result<(), SexpError>)
    ensures
        rv(r) == terminal_check(opt_text(description), opt_text(class), expected@),
{
    let d: &str = match description {
        Some(t) => t,
        None => {
            proof {
                reveal_strlit("");
            }
            ""
        },
    };
    proof {
        assert(d@ == field_or_empty(opt_text(description)));
    }
    if !str_eq(d, expected) {
        let mut m = string_of("expected terminal connection with description ");
        let e = debug_string(expected);
        push_str(&mut m, e.as_str());
        push_str(&mut m, ", got ");
        let g = debug_string(d);
        push_str(&mut m, g.as_str());
        return Err(SexpError::InvalidValue(m));
    }
    let c: &str = match class {
        Some(t) => t,
        None => {
            proof {
                reveal_strlit("");
            }
            ""
        },
    };
    proof {
        assert(c@ == field_or_empty(opt_text(class)));
    }
    if !str_eq(c, "terminal") {
        let mut m = string_of("expected class \"terminal\", got ");
        let g = debug_string(c);
        push_str(&mut m, g.as_str());
        return Err(SexpError::InvalidValue(m));
    }
    Ok(())
}

impl RStdin {
    /// The standard input, from a connection's description and class: it
    /// must be the terminal connection `"stdin"`.
    pub fn try_from_connection(description: Option<&str>, class: Option<&str>) -> (r: Result<
        RStdin,
        SexpError,
    >)
        ensures
            r is Ok <==> terminal_check(opt_text(description), opt_text(class), "stdin"@) is Ok,
            r matches Err(e) ==> terminal_check(opt_text(description), opt_text(class), "stdin"@)
                == Err::<(), SexpErrorView>(e@),
    {
        match validate_terminal(description, class, "stdin") {
            Ok(()) => Ok(RStdin),
            Err(e) => Err(e),
        }
    }
}

impl RStdout {
    /// The standard output, from a connection's description and class: it
    /// must be the terminal connection `"stdout"`.
    pub fn try_from_connection(description: Option<&str>, class: Option<&str>) -> (r: Result<
        RStdout,
        SexpError,
    >)
        ensures
            r is Ok <==> terminal_check(opt_text(description), opt_text(class), "stdout"@) is Ok,
            r matches Err(e) ==> terminal_check(opt_text(description), opt_text(class), "stdout"@)
                == Err::<(), SexpErrorView>(e@),
    {
        match validate_terminal(description, class, "stdout") {
            Ok(()) => Ok(RStdout),
            Err(e) => Err(e),
        }
    }
}

impl RStderr {
    /// The standard error, from a connection's description and class: it
    /// must be the terminal connection `"stderr"`.
    pub fn try_from_connection(description: Option<&str>, class: Option<&str>) -> (r: Result<
        RStderr,
        SexpError,
    >)
        ensures
            r is Ok <==> terminal_check(opt_text(description), opt_text(class), "stderr"@) is Ok,
            r matches Err(e) ==> terminal_check(opt_text(description), opt_text(class), "stderr"@)
                == Err::<(), SexpErrorView>(e@),
    {
        match validate_terminal(description, class, "stderr") {
            Ok(()) => Ok(RStderr),
            Err(e) => Err(e),
        }
    }
}

/// The bytes before the first NUL (all of them without one).
pub open spec fn before_nul(buf: Seq<u8>) -> Seq<u8> {
    if exists|i: int| 0 <= i < buf.len() && buf[i] == 0 {
        let i = choose|i: int|
            0 <= i < buf.len() && buf[i] == 0 && forall|k: int| 0 <= k < i ==> buf[k] != 0;
        buf.subrange(0, i)
    } else {
        buf
    }
}

/// Position of the first NUL byte, the length without one.
fn first_nul(buf: &[u8]) -> (r: usize)
    ensures
        r <= buf@.len(),
        buf@.subrange(0, r as int) == before_nul(buf@),
{
    let mut i: usize = 0;
    while i < buf.len()
        invariant
            i <= buf@.len(),
            forall|k: int| 0 <= k < i ==> buf@[k] != 0,
        decreases buf@.len() - i,
    {
        if buf[i] == 0 {
            proof {
                let j = choose|j: int|
                    0 <= j < buf@.len() && buf@[j] == 0 && forall|k: int| 0 <= k < j ==> buf@[k] != 0;
                assert(j == i) by {
                    if j < i {
                        assert(buf@[j] != 0);
                    } else if j > i {
                        assert(buf@[i as int] != 0);
                    }
                }
            }
            return i;
        }
        i = i + 1;
    }
    proof {
        assert(buf@.subrange(0, i as int) =~= buf@);
    }
    i
}

/// What writing `buf` to the console prints and reports: nothing is printed
/// for an empty buffer, off the main thread, or when the buffer starts with
/// NUL; otherwise the bytes before the first NUL, NUL-terminated for
/// `%s`. The count is `0` for an empty buffer or off the main thread, the
/// whole buffer otherwise.
pub fn console_write_plan(buf: &[u8], on_main_thread: bool) -> (r: (Option<Vec<u8>>, usize))
    ensures
        buf@.len() == 0 || !on_main_thread ==> r.0 is None && r.1 == 0,
        buf@.len() > 0 && on_main_thread ==> r.1 == buf@.len(),
        buf@.len() > 0 && on_main_thread && before_nul(buf@).len() == 0 ==> r.0 is None,
        buf@.len() > 0 && on_main_thread && before_nul(buf@).len() > 0 ==> (r.0 matches Some(t)
            && t@ == before_nul(buf@).push(0u8)),
{
    if buf.len() == 0 || !on_main_thread {
        return (None, 0);
    }
    let end = first_nul(buf);
    let mut out: Vec<u8> = Vec::new();
    let mut i: usize = 0;
    while i < end
        invariant
            end <= buf@.len(),
            i <= end,
            out@ == buf@.subrange(0, i as int),
        decreases end - i,
    {
        out.push(buf[i]);
        proof {
            assert(buf@.subrange(0, i + 1) =~= buf@.subrange(0, i as int).push(buf@[i as int]));
        }
        i = i + 1;
    }
    if out.len() == 0 {
        return (None, buf.len());
    }
    out.push(0u8);
    (Some(out), buf.len())
}

/// A connection writing to the platform's null device: what it keeps is
/// the connection object and whether it is still open.
pub struct RNullConnection {
    sexp: Sexp,
    open: bool,
}

impl RNullConnection {
    /// The connection object.
    pub closed spec fn sexp_view(&self) -> Sexp {
        self.sexp
    }

    /// Whether the connection is open.
    pub closed spec fn is_open(&self) -> bool {
        self.open
    }

    /// An open null connection over the (preserved) connection object.
    pub fn from_preserved_sexp(sexp: Sexp) -> (r: RNullConnection)
        ensures
            r.sexp_view() == sexp,
            r.is_open(),
    {
        RNullConnection { sexp, open: true }
    }

    /// A null connection over a connection object, which must be open and
    /// able to write (any such connection is accepted, not only the null
    /// device).
    pub fn try_from_connection(sexp: Sexp, is_open: bool, can_write: bool) -> (r: Result<
        RNullConnection,
        SexpError,
    >)
        ensures
            r is Ok <==> is_open && can_write,
            r matches Ok(c) ==> c.sexp_view() == sexp && c.is_open(),
            r matches Err(e) ==> e@ == (if !is_open {
                SexpErrorView::InvalidValue("expected an open connection"@)
            } else {
                SexpErrorView::InvalidValue("expected a write-capable connection"@)
            }),
    {
        if !is_open {
            return Err(SexpError::InvalidValue(string_of("expected an open connection")));
        }
        if !can_write {
            return Err(SexpError::InvalidValue(string_of("expected a write-capable connection")));
        }
        Ok(RNullConnection::from_preserved_sexp(sexp))
    }

    /// The connection object.
    pub fn sexp(&self) -> (r: &Sexp)
        ensures
            *r == self.sexp_view(),
    {
        &self.sexp
    }

    /// Whether the connection is open.
    pub fn open(&self) -> (r: bool)
        ensures
            r == self.is_open(),
    {
        self.open
    }

    /// Close the connection. Returns whether R's `close()` is due now (the
    /// first close); closing again does nothing.
    pub fn close(&mut self) -> (r: bool)
        ensures
            r == old(self).is_open(),
            !final(self).is_open(),
            final(self).sexp_view() == old(self).sexp_view(),
    {
        if self.open {
            self.open = false;
            true
        } else {
            false
        }
    }

    /// Whether a write may go through: a closed connection refuses it
    /// (`"RNullConnection is closed"`).
    pub fn check_writable(&self) -> (r: Result<(), String>)
        ensures
            r is Ok <==> self.is_open(),
            r matches Err(m) ==> m@ == "RNullConnection is closed"@,
    {
        if self.open {
            Ok(())
        } else {
            Err(string_of("RNullConnection is closed"))
        }
    }
}

/// Version `(major, minor)` is at least `(lo_major, lo_minor)`, compared
/// major first.
pub open spec fn version_at_least(major: int, minor: int, lo_major: int, lo_minor: int) -> bool {
    major > lo_major || (major == lo_major && minor >= lo_minor)
}

/// Custom-connection support is monotone in the R version: a version at
/// least as new as a supported one is supported, one no newer than an
/// unsupported one is not; and the oldest supported version is 4.3.
pub proof fn lemma_runtime_check_monotone(a_major: int, a_minor: int, b_major: int, b_minor: int)
    ensures
        supports_custom_connections(a_major, a_minor) && version_at_least(b_major, b_minor, a_major, a_minor)
            ==> supports_custom_connections(b_major, b_minor),
        supports_custom_connections(a_major, a_minor) <==> version_at_least(a_major, a_minor, 4, 3),
        supports_custom_connections(4, 3),
        !supports_custom_connections(4, 2),
{
}
} // verus!
