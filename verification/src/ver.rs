//! Version constraints: a comparison operator applied to a version pattern
//! `MAJOR[.MINOR[.PATCH]]` in which minor and patch may be wildcards, and
//! its evaluation against concrete `(major, minor, patch)` triples.

use vstd::prelude::*;
use vstd::string::StrSliceExecFns;
use vstd::string::StringExecFns;

use crate::strutil::dec_chars;
use crate::strutil::lemma_dec_chars_val;
use crate::strutil::lemma_dec_chars_wf;
use crate::strutil::lemma_split_no_sep;
use crate::strutil::lemma_split_prepend;
use crate::strutil::parse_u64;
use crate::strutil::parse_u64_chars;
use crate::strutil::split_chars;
use crate::strutil::split_str;
use crate::strutil::str_eq;
use crate::strutil::u64_to_dec;

verus! {

/// A version pattern: a fixed major number and optional minor and patch
/// numbers; a missing component is a wildcard.
#[derive(Clone, Copy, Debug)]
pub struct VerSpec {
    pub major: u64,
    pub minor: Option<u64>,
    pub patch: Option<u64>,
}

/// The comparison applied to a version pattern.
#[derive(Clone, Copy, Debug)]
pub enum CompareOp {
    Not,
    Eq,
    Greater,
    GreaterEqual,
    Less,
    LessEqual,
}

/// A full version constraint: an operator and a pattern.
#[derive(Clone, Copy, Debug)]
pub struct Spec(pub CompareOp, pub VerSpec);

/// Why a version pattern failed to parse.
#[derive(Clone, Debug)]
pub enum ParseVerSpecError {
    EmptyString,
    Trailing(String),
    MajorNotNumber(String),
    MinorNotValid(String),
    PatchNotValid(String),
}

/// Why a full constraint failed to parse.
#[derive(Clone, Debug)]
pub enum ParseSpecError {
    EmptyString,
    MissingVersion,
    Trailing(String),
    InvalidOp(String),
    InvalidVersion(ParseVerSpecError),
}

/// The pattern matches the triple exactly; wildcard components match
/// every value.
pub open spec fn spec_eq(v: VerSpec, major: u64, minor: u64, patch: u64) -> bool {
    &&& major == v.major
    &&& match v.minor {
        Some(m) => minor == m,
        None => true,
    }
    &&& match v.patch {
        Some(p) => patch == p,
        None => true,
    }
}

/// The triple exceeds the pattern. A wildcard component stops the
/// comparison at that depth: a pattern wildcarded in its minor can never
/// be exceeded within the same major.
pub open spec fn spec_greater(v: VerSpec, major: u64, minor: u64, patch: u64) -> bool {
    if major > v.major {
        true
    } else if major < v.major {
        false
    } else {
        match (v.minor, v.patch) {
            (None, _) => false,
            (Some(vm), None) => minor > vm,
            (Some(vm), Some(vp)) => minor > vm || (minor == vm && patch > vp),
        }
    }
}

/// The constraint holds of the triple; the derived operators are defined
/// from exact match and strict exceedance.
pub open spec fn spec_fullfill(s: Spec, major: u64, minor: u64, patch: u64) -> bool {
    match s.0 {
        CompareOp::Eq => spec_eq(s.1, major, minor, patch),
        CompareOp::Not => !spec_eq(s.1, major, minor, patch),
        CompareOp::GreaterEqual => spec_eq(s.1, major, minor, patch) || spec_greater(
            s.1,
            major,
            minor,
            patch,
        ),
        CompareOp::LessEqual => spec_eq(s.1, major, minor, patch) || !spec_greater(
            s.1,
            major,
            minor,
            patch,
        ),
        CompareOp::Greater => spec_greater(s.1, major, minor, patch),
        CompareOp::Less => !spec_greater(s.1, major, minor, patch) && !spec_eq(
            s.1,
            major,
            minor,
            patch,
        ),
    }
}

/// Exact match of a concrete triple against the pattern.
pub fn eq(v: &VerSpec, major: u64, minor: u64, patch: u64) -> (r: bool)
    ensures
        r == spec_eq(*v, major, minor, patch),
{
    let minor_ok = match v.minor {
        Some(m) => minor == m,
        None => true,
    };
    let patch_ok = match v.patch {
        Some(p) => patch == p,
        None => true,
    };
    major == v.major && minor_ok && patch_ok
}

/// Strict exceedance of a concrete triple over the pattern.
pub fn greater(v: &VerSpec, major: u64, minor: u64, patch: u64) -> (r: bool)
    ensures
        r == spec_greater(*v, major, minor, patch),
{
    if major > v.major {
        return true;
    }
    if major < v.major {
        return false;
    }
    match (v.minor, v.patch) {
        (None, None) => false,
        (None, Some(_)) => false,
        (Some(v_minor), None) => minor > v_minor,
        (Some(v_minor), Some(v_patch)) => minor > v_minor || (minor == v_minor && patch > v_patch),
    }
}

impl Spec {
    /// Evaluates the constraint against a concrete version triple.
    pub fn fullfill(&self, major: u64, minor: u64, patch: u64) -> (r: bool)
        ensures
            r == spec_fullfill(*self, major, minor, patch),
    {
        match self.0 {
            CompareOp::Eq => eq(&self.1, major, minor, patch),
            CompareOp::Not => !eq(&self.1, major, minor, patch),
            CompareOp::GreaterEqual => {
                eq(&self.1, major, minor, patch) || greater(&self.1, major, minor, patch)
            },
            CompareOp::LessEqual => {
                eq(&self.1, major, minor, patch) || !greater(&self.1, major, minor, patch)
            },
            CompareOp::Greater => greater(&self.1, major, minor, patch),
            CompareOp::Less => {
                !greater(&self.1, major, minor, patch) && !eq(&self.1, major, minor, patch)
            },
        }
    }
}

/// Law: the derived operators agree with their defining identities, for
/// all patterns and all triples: at-least is exact-or-exceeds, at-most is
/// exact-or-not-exceeds, below is neither-exceeds-nor-exact, and the
/// negated operator is the complement of exact match.
pub proof fn lemma_fullfill_identities(v: VerSpec, major: u64, minor: u64, patch: u64)
    ensures
        spec_fullfill(Spec(CompareOp::GreaterEqual, v), major, minor, patch) == (spec_fullfill(
            Spec(CompareOp::Eq, v),
            major,
            minor,
            patch,
        ) || spec_fullfill(Spec(CompareOp::Greater, v), major, minor, patch)),
        spec_fullfill(Spec(CompareOp::LessEqual, v), major, minor, patch) == (spec_fullfill(
            Spec(CompareOp::Eq, v),
            major,
            minor,
            patch,
        ) || !spec_fullfill(Spec(CompareOp::Greater, v), major, minor, patch)),
        spec_fullfill(Spec(CompareOp::Less, v), major, minor, patch) == (!spec_fullfill(
            Spec(CompareOp::Greater, v),
            major,
            minor,
            patch,
        ) && !spec_fullfill(Spec(CompareOp::Eq, v), major, minor, patch)),
        spec_fullfill(Spec(CompareOp::Not, v), major, minor, patch) == !spec_fullfill(
            Spec(CompareOp::Eq, v),
            major,
            minor,
            patch,
        ),
{
}

/// The wildcard rule of strict exceedance, stated on its own: a pattern
/// whose minor is a wildcard is never exceeded by any version sharing
/// its major, whatever that version's minor and patch; likewise, under a
/// fixed minor, a wildcard patch is never exceeded at equal minor.
pub proof fn lemma_greater_wildcard_stops(v: VerSpec, minor: u64, patch: u64)
    ensures
        v.minor is None ==> !spec_greater(v, v.major, minor, patch),
        v.minor is Some && v.patch is None && minor == v.minor->0 ==> !spec_greater(
            v,
            v.major,
            minor,
            patch,
        ),
{
}

/// The rendering of an operator.
pub open spec fn op_chars(op: CompareOp) -> Seq<char> {
    match op {
        CompareOp::Not => seq!['~'],
        CompareOp::Eq => seq!['='],
        CompareOp::Greater => seq!['>'],
        CompareOp::GreaterEqual => seq!['>', '='],
        CompareOp::Less => seq!['<'],
        CompareOp::LessEqual => seq!['<', '='],
    }
}

/// The rendering of an optional component: its number, or `*`.
pub open spec fn comp_chars(c: Option<u64>) -> Seq<char> {
    match c {
        None => seq!['*'],
        Some(n) => dec_chars(n as nat),
    }
}

/// The rendering of a version pattern, `major.minor.patch` with `*` for
/// wildcards.
pub open spec fn verspec_chars(v: VerSpec) -> Seq<char> {
    dec_chars(v.major as nat) + seq!['.'] + comp_chars(v.minor) + seq!['.'] + comp_chars(v.patch)
}

/// The rendering of a full constraint, operator and pattern separated by
/// one space.
pub open spec fn spec_display_chars(s: Spec) -> Seq<char> {
    op_chars(s.0) + seq![' '] + verspec_chars(s.1)
}

impl CompareOp {
    /// Renders the operator symbol.
    pub fn to_display_string(&self) -> (s: String)
        ensures
            s@ == op_chars(*self),
    {
        proof {
            reveal_strlit("~");
            reveal_strlit("=");
            reveal_strlit(">");
            reveal_strlit(">=");
            reveal_strlit("<");
            reveal_strlit("<=");
        }
        let r = match self {
            CompareOp::Not => "~",
            CompareOp::Eq => "=",
            CompareOp::Greater => ">",
            CompareOp::GreaterEqual => ">=",
            CompareOp::Less => "<",
            CompareOp::LessEqual => "<=",
        };
        proof {
            assert(r@ =~= op_chars(*self));
        }
        r.to_owned()
    }
}

/// Renders an optional component.
fn comp_to_string(c: &Option<u64>) -> (s: String)
    ensures
        s@ == comp_chars(*c),
{
    match c {
        None => {
            proof {
                reveal_strlit("*");
            }
            let s = "*".to_owned();
            proof {
                assert(s@ =~= comp_chars(*c));
            }
            s
        },
        Some(n) => u64_to_dec(*n),
    }
}

impl VerSpec {
    /// Renders the pattern as `major.minor.patch`, `*` for wildcards.
    pub fn to_display_string(&self) -> (s: String)
        ensures
            s@ == verspec_chars(*self),
    {
        proof {
            reveal_strlit(".");
        }
        let mut s = u64_to_dec(self.major);
        s.append(".");
        let minor = comp_to_string(&self.minor);
        s.append(minor.as_str());
        s.append(".");
        let patch = comp_to_string(&self.patch);
        s.append(patch.as_str());
        proof {
            assert(s@ =~= verspec_chars(*self));
        }
        s
    }
}

impl Spec {
    /// Renders the constraint: operator, one space, pattern.
    pub fn to_display_string(&self) -> (s: String)
        ensures
            s@ == spec_display_chars(*self),
    {
        proof {
            reveal_strlit(" ");
        }
        let mut s = self.0.to_display_string();
        s.append(" ");
        let v = self.1.to_display_string();
        s.append(v.as_str());
        proof {
            assert(s@ =~= spec_display_chars(*self));
        }
        s
    }
}

/// What parsing an operator token yields.
pub open spec fn parse_op_chars(s: Seq<char>) -> Option<CompareOp> {
    if s == op_chars(CompareOp::GreaterEqual) {
        Some(CompareOp::GreaterEqual)
    } else if s == op_chars(CompareOp::Greater) {
        Some(CompareOp::Greater)
    } else if s == op_chars(CompareOp::LessEqual) {
        Some(CompareOp::LessEqual)
    } else if s == op_chars(CompareOp::Less) {
        Some(CompareOp::Less)
    } else if s == op_chars(CompareOp::Eq) {
        Some(CompareOp::Eq)
    } else if s == op_chars(CompareOp::Not) {
        Some(CompareOp::Not)
    } else {
        None
    }
}

/// The token standing for component `k` of a dot-split pattern: the part
/// at `k` if present, a wildcard if omitted.
pub open spec fn comp_of_parts(parts: Seq<Seq<char>>, k: int) -> Seq<char> {
    if parts.len() > k {
        parts[k]
    } else {
        seq!['*']
    }
}

/// What parsing one component token yields: a wildcard, a number, or a
/// failure.
pub open spec fn parse_comp_chars(s: Seq<char>) -> Option<Option<u64>> {
    if s == seq!['*'] {
        Some(None)
    } else {
        match parse_u64_chars(s) {
            None => None,
            Some(n) => Some(Some(n)),
        }
    }
}

/// What parsing a version pattern yields, when it succeeds: the input is
/// nonempty, has at most three dot-separated parts, a numeric major, and
/// numeric-or-wildcard minor and patch (omitted parts are wildcards).
pub open spec fn spec_parse_verspec(s: Seq<char>) -> Option<VerSpec> {
    let parts = split_chars(s, '.');
    if s.len() == 0 || parts.len() > 3 {
        None
    } else {
        match (parse_u64_chars(parts[0]), parse_comp_chars(comp_of_parts(parts, 1)), parse_comp_chars(
            comp_of_parts(parts, 2),
        )) {
            (Some(major), Some(minor), Some(patch)) => Some(
                VerSpec { major, minor, patch },
            ),
            _ => None,
        }
    }
}

/// What parsing a full constraint yields, when it succeeds: exactly two
/// space-separated tokens, a known operator and a valid pattern.
pub open spec fn spec_parse_spec(s: Seq<char>) -> Option<Spec> {
    let parts = split_chars(s, ' ');
    if s.len() == 0 || parts.len() != 2 {
        None
    } else {
        match (parse_op_chars(parts[0]), spec_parse_verspec(parts[1])) {
            (Some(op), Some(v)) => Some(Spec(op, v)),
            _ => None,
        }
    }
}

impl CompareOp {
    /// Parses an operator token; the error carries the offending token.
    pub fn parse(s: &str) -> (r: Result<CompareOp, String>)
        ensures
            match r {
                Ok(op) => parse_op_chars(s@) == Some(op),
                Err(t) => parse_op_chars(s@) is None && t@ == s@,
            },
    {
        proof {
            reveal_strlit("~");
            reveal_strlit("=");
            reveal_strlit(">");
            reveal_strlit(">=");
            reveal_strlit("<");
            reveal_strlit("<=");
            assert("~"@ =~= seq!['~']);
            assert("="@ =~= seq!['=']);
            assert(">"@ =~= seq!['>']);
            assert(">="@ =~= seq!['>', '=']);
            assert("<"@ =~= seq!['<']);
            assert("<="@ =~= seq!['<', '=']);
        }
        if str_eq(s, ">=") {
            Ok(CompareOp::GreaterEqual)
        } else if str_eq(s, ">") {
            Ok(CompareOp::Greater)
        } else if str_eq(s, "<=") {
            Ok(CompareOp::LessEqual)
        } else if str_eq(s, "<") {
            Ok(CompareOp::Less)
        } else if str_eq(s, "=") {
            Ok(CompareOp::Eq)
        } else if str_eq(s, "~") {
            Ok(CompareOp::Not)
        } else {
            Err(s.to_owned())
        }
    }
}

/// Parses one component token against the wildcard-or-number grammar.
fn parse_comp(s: &str) -> (r: Option<Option<u64>>)
    ensures
        r == parse_comp_chars(s@),
{
    proof {
        reveal_strlit("*");
        assert("*"@ =~= seq!['*']);
    }
    if str_eq(s, "*") {
        Some(None)
    } else {
        match parse_u64(s) {
            Some(n) => Some(Some(n)),
            None => None,
        }
    }
}

/// The error a version-pattern parse reports is the right one for its
/// input: each variant holds exactly on the inputs whose parse fails at
/// that stage, and carries the offending token.
pub open spec fn verspec_error_ok(s: Seq<char>, e: ParseVerSpecError) -> bool {
    let parts = split_chars(s, '.');
    match e {
        ParseVerSpecError::EmptyString => s.len() == 0,
        ParseVerSpecError::Trailing(t) => s.len() > 0 && parts.len() > 3 && t@ == parts[3],
        ParseVerSpecError::MajorNotNumber(t) => s.len() > 0 && parts.len() <= 3 && parse_u64_chars(
            parts[0],
        ) is None && t@ == parts[0],
        ParseVerSpecError::MinorNotValid(t) => s.len() > 0 && parts.len() <= 3 && parse_u64_chars(
            parts[0],
        ) is Some && parse_comp_chars(comp_of_parts(parts, 1)) is None && t@ == parts[1],
        ParseVerSpecError::PatchNotValid(t) => s.len() > 0 && parts.len() <= 3 && parse_u64_chars(
            parts[0],
        ) is Some && parse_comp_chars(comp_of_parts(parts, 1)) is Some && parse_comp_chars(
            comp_of_parts(parts, 2),
        ) is None && t@ == parts[2],
    }
}

impl VerSpec {
    /// Parses a version pattern. Success and the parsed value follow
    /// [`spec_parse_verspec`]; each error names the stage that failed and
    /// carries the offending token.
    pub fn parse(s: &str) -> (r: Result<VerSpec, ParseVerSpecError>)
        ensures
            r is Ok <==> spec_parse_verspec(s@) is Some,
            match r {
                Ok(v) => spec_parse_verspec(s@) == Some(v),
                Err(e) => verspec_error_ok(s@, e),
            },
    {
        if s.unicode_len() == 0 {
            return Err(ParseVerSpecError::EmptyString);
        }
        let parts = split_str(s, '.');
        proof {
            assert(split_chars(s@, '.').len() >= 1);
            assert forall|k: int| 0 <= k < parts@.len() implies parts@[k]@ == split_chars(
                s@,
                '.',
            )[k] by {
                assert(parts.deep_view()[k] == parts@[k]@);
            }
        }
        if parts.len() > 3 {
            return Err(ParseVerSpecError::Trailing(parts[3].clone()));
        }
        let major = match parse_u64(parts[0].as_str()) {
            Some(m) => m,
            None => {
                return Err(ParseVerSpecError::MajorNotNumber(parts[0].clone()));
            },
        };
        let minor = if parts.len() >= 2 {
            match parse_comp(parts[1].as_str()) {
                Some(c) => c,
                None => {
                    return Err(ParseVerSpecError::MinorNotValid(parts[1].clone()));
                },
            }
        } else {
            proof {
                reveal_strlit("*");
                assert(parse_comp_chars(comp_of_parts(split_chars(s@, '.'), 1)) == Some(
                    None::<u64>,
                ));
            }
            None
        };
        let patch = if parts.len() >= 3 {
            match parse_comp(parts[2].as_str()) {
                Some(c) => c,
                None => {
                    return Err(ParseVerSpecError::PatchNotValid(parts[2].clone()));
                },
            }
        } else {
            proof {
                assert(parse_comp_chars(comp_of_parts(split_chars(s@, '.'), 2)) == Some(
                    None::<u64>,
                ));
            }
            None
        };
        Ok(VerSpec { major, minor, patch })
    }
}

impl Spec {
    /// Parses a full constraint: operator, one space, pattern. Success
    /// and the parsed value follow [`spec_parse_spec`]; each error names
    /// the stage that failed.
    pub fn parse(s: &str) -> (r: Result<Spec, ParseSpecError>)
        ensures
            r is Ok <==> spec_parse_spec(s@) is Some,
            ({
                let parts = split_chars(s@, ' ');
                match r {
                    Ok(sp) => spec_parse_spec(s@) == Some(sp),
                    Err(e) => match e {
                        ParseSpecError::EmptyString => s@.len() == 0,
                        ParseSpecError::MissingVersion => s@.len() > 0 && parts.len() == 1,
                        ParseSpecError::Trailing(t) => s@.len() > 0 && parts.len() > 2 && t@
                            == parts[2],
                        ParseSpecError::InvalidOp(t) => s@.len() > 0 && parts.len() == 2
                            && parse_op_chars(parts[0]) is None && t@ == parts[0],
                        ParseSpecError::InvalidVersion(inner) => s@.len() > 0 && parts.len()
                            == 2 && parse_op_chars(parts[0]) is Some && spec_parse_verspec(
                            parts[1],
                        ) is None && verspec_error_ok(parts[1], inner),
                    },
                }
            }),
    {
        if s.unicode_len() == 0 {
            return Err(ParseSpecError::EmptyString);
        }
        let parts = split_str(s, ' ');
        proof {
            assert(split_chars(s@, ' ').len() >= 1);
            assert forall|k: int| 0 <= k < parts@.len() implies parts@[k]@ == split_chars(
                s@,
                ' ',
            )[k] by {
                assert(parts.deep_view()[k] == parts@[k]@);
            }
        }
        if parts.len() == 1 {
            return Err(ParseSpecError::MissingVersion);
        }
        if parts.len() > 2 {
            return Err(ParseSpecError::Trailing(parts[2].clone()));
        }
        let op = match CompareOp::parse(parts[0].as_str()) {
            Ok(op) => op,
            Err(t) => {
                return Err(ParseSpecError::InvalidOp(t));
            },
        };
        let ver = match VerSpec::parse(parts[1].as_str()) {
            Ok(v) => v,
            Err(e) => {
                return Err(ParseSpecError::InvalidVersion(e));
            },
        };
        Ok(Spec(op, ver))
    }
}

/// An optional component renders without dots or spaces and parses back
/// to itself.
proof fn lemma_comp_roundtrip(c: Option<u64>)
    ensures
        comp_chars(c).len() >= 1,
        forall|j: int| 0 <= j < comp_chars(c).len() ==> comp_chars(c)[j] != '.' && comp_chars(c)[j]
            != ' ',
        parse_comp_chars(comp_chars(c)) == Some(c),
{
    match c {
        None => {
            assert(comp_chars(c) =~= seq!['*']);
        },
        Some(n) => {
            lemma_dec_chars_wf(n as nat);
            lemma_dec_chars_val(n as nat);
            assert(comp_chars(c)[0] != '*');
            assert(comp_chars(c) != seq!['*']);
            assert(parse_u64_chars(dec_chars(n as nat)) == Some(n));
        },
    }
}

/// Law: rendering a version pattern and parsing the rendering yields the
/// same pattern; the rendering is nonempty and free of spaces.
pub proof fn lemma_verspec_display_roundtrip(v: VerSpec)
    ensures
        spec_parse_verspec(verspec_chars(v)) == Some(v),
        verspec_chars(v).len() >= 1,
        forall|j: int| 0 <= j < verspec_chars(v).len() ==> verspec_chars(v)[j] != ' ',
{
    let a = dec_chars(v.major as nat);
    let b = comp_chars(v.minor);
    let c = comp_chars(v.patch);
    let s = verspec_chars(v);
    lemma_dec_chars_wf(v.major as nat);
    lemma_dec_chars_val(v.major as nat);
    lemma_comp_roundtrip(v.minor);
    lemma_comp_roundtrip(v.patch);
    assert(s =~= a + seq!['.'] + (b + seq!['.'] + c));
    lemma_split_prepend(a, b + seq!['.'] + c, '.');
    assert(b + seq!['.'] + c =~= b + seq!['.'] + c);
    lemma_split_prepend(b, c, '.');
    lemma_split_no_sep(c, '.');
    let parts = split_chars(s, '.');
    assert(parts =~= seq![a, b, c]);
    assert(parts[0] == a && parts[1] == b && parts[2] == c);
    assert(parse_u64_chars(a) == Some(v.major));
    assert(comp_of_parts(parts, 1) == b);
    assert(comp_of_parts(parts, 2) == c);
}

/// Law: rendering an operator and parsing the rendering yields the same
/// operator; the rendering is free of spaces.
pub proof fn lemma_op_display_roundtrip(op: CompareOp)
    ensures
        parse_op_chars(op_chars(op)) == Some(op),
        op_chars(op).len() >= 1,
        forall|j: int| 0 <= j < op_chars(op).len() ==> op_chars(op)[j] != ' ',
{
    assert(op_chars(CompareOp::Not).len() == 1 && op_chars(CompareOp::Not)[0] == '~');
    assert(op_chars(CompareOp::Eq).len() == 1 && op_chars(CompareOp::Eq)[0] == '=');
    assert(op_chars(CompareOp::Greater).len() == 1 && op_chars(CompareOp::Greater)[0] == '>');
    assert(op_chars(CompareOp::Less).len() == 1 && op_chars(CompareOp::Less)[0] == '<');
    assert(op_chars(CompareOp::GreaterEqual).len() == 2 && op_chars(CompareOp::GreaterEqual)[0]
        == '>' && op_chars(CompareOp::GreaterEqual)[1] == '=');
    assert(op_chars(CompareOp::LessEqual).len() == 2 && op_chars(CompareOp::LessEqual)[0] == '<'
        && op_chars(CompareOp::LessEqual)[1] == '=');
}

/// Law: rendering a full constraint and parsing the rendering yields the
/// same constraint — the display form round-trips.
pub proof fn lemma_spec_display_roundtrip(sp: Spec)
    ensures
        spec_parse_spec(spec_display_chars(sp)) == Some(sp),
{
    let a = op_chars(sp.0);
    let b = verspec_chars(sp.1);
    let s = spec_display_chars(sp);
    lemma_op_display_roundtrip(sp.0);
    lemma_verspec_display_roundtrip(sp.1);
    assert(s =~= a + seq![' '] + b);
    lemma_split_prepend(a, b, ' ');
    lemma_split_no_sep(b, ' ');
    let parts = split_chars(s, ' ');
    assert(parts =~= seq![a, b]);
    assert(parts[0] == a && parts[1] == b);
    assert(s.len() > 0);
}

} // verus!
