//! Failures of a conversion: what went wrong, and where in the notebook.

use vstd::prelude::*;
use vstd::string::StringExecFns;

verus! {

/// The six shapes a JSON value can take.
#[derive(Clone, Copy, Debug, PartialEq, Eq)]
pub enum JsonShape {
    Null,
    Bool,
    Number,
    Str,
    Array,
    Object,
}

/// A value of the wrong shape, or no value at all, where the notebook
/// format asks for one.
#[derive(Clone, Copy, Debug, PartialEq, Eq)]
pub struct UnexpectedValue {
    /// The shape that the format asks for.
    pub expected: JsonShape,
    /// The shape that was found; `None` where the field is absent.
    pub found: Option<JsonShape>,
}

/// The kinds of failure.
#[derive(Clone, Debug, PartialEq, Eq)]
pub enum J2TErrorKind {
    /// A required field is absent or has the wrong shape.
    Json(UnexpectedValue),
    /// The notebook text is not a JSON document; the parser's message.
    Syntax(String),
    /// The Markdown parser rejected a cell's source; the parser's message.
    Md(String),
    /// A file could not be read or written; the system's message.
    Io(String),
    /// The source of a code cell holds a backtick, which the code fence of
    /// the generated markup cannot carry.
    Backtick,
    Unknown,
}

/// A failure of the conversion. Every failure ends the whole run.
#[derive(Clone, Debug, PartialEq, Eq)]
pub struct J2TError {
    pub kind: J2TErrorKind,
    /// For a `Json` failure, the name of the offending field.
    pub msg: Option<String>,
}

/// What a [`J2TErrorKind`] holds, as mathematics.
pub enum J2TErrorKindView {
    Json(UnexpectedValue),
    Syntax(Seq<char>),
    Md(Seq<char>),
    Io(Seq<char>),
    Backtick,
    Unknown,
}

/// What a [`J2TError`] holds, as mathematics.
pub struct J2TErrorView {
    pub kind: J2TErrorKindView,
    pub msg: Option<Seq<char>>,
}

impl View for J2TErrorKind {
    type V = J2TErrorKindView;

    open spec fn view(&self) -> J2TErrorKindView {
        match self {
            J2TErrorKind::Json(u) => J2TErrorKindView::Json(*u),
            J2TErrorKind::Syntax(m) => J2TErrorKindView::Syntax(m@),
            J2TErrorKind::Md(m) => J2TErrorKindView::Md(m@),
            J2TErrorKind::Io(m) => J2TErrorKindView::Io(m@),
            J2TErrorKind::Backtick => J2TErrorKindView::Backtick,
            J2TErrorKind::Unknown => J2TErrorKindView::Unknown,
        }
    }
}

impl View for J2TError {
    type V = J2TErrorView;

    open spec fn view(&self) -> J2TErrorView {
        J2TErrorView {
            kind: self.kind@,
            msg: match self.msg {
                Some(m) => Some(m@),
                None => None,
            },
        }
    }
}

/// The failure for a field named `field` that should have the shape
/// `expected` and has the shape `found`, or is absent.
pub open spec fn unexpected(
    field: Seq<char>,
    expected: JsonShape,
    found: Option<JsonShape>,
) -> J2TErrorView {
    J2TErrorView {
        kind: J2TErrorKindView::Json(UnexpectedValue { expected, found }),
        msg: Some(field),
    }
}

/// A failure of the given kind that names no field.
pub open spec fn failure(kind: J2TErrorKindView) -> J2TErrorView {
    J2TErrorView { kind, msg: None }
}

/// What a fallible step of the conversion yields, as mathematics.
pub open spec fn text_result(r: Result<String, J2TError>) -> Result<Seq<char>, J2TErrorView> {
    match r {
        Ok(text) => Ok(text@),
        Err(e) => Err(e@),
    }
}

/// The form in which `Debug` prints a string: between double quotes, with
/// the characters that cannot stand there as they are written as escapes.
pub uninterp spec fn debug_form(text: Seq<char>) -> Seq<char>;

/// The name of a shape, as `Debug` prints it.
pub open spec fn shape_name(shape: JsonShape) -> Seq<char> {
    match shape {
        JsonShape::Null => "Null"@,
        JsonShape::Bool => "Bool"@,
        JsonShape::Number => "Number"@,
        JsonShape::Str => "Str"@,
        JsonShape::Array => "Array"@,
        JsonShape::Object => "Object"@,
    }
}

/// A variant with one field, as `Debug` prints it: the name, then the
/// field in round brackets.
pub open spec fn variant_form(name: Seq<char>, field: Seq<char>) -> Seq<char> {
    name + "("@ + field + ")"@
}

/// An unexpected value, as `Debug` prints it.
pub open spec fn unexpected_form(u: UnexpectedValue) -> Seq<char> {
    "UnexpectedValue { expected: "@ + shape_name(u.expected) + ", found: "@ + (match u.found {
        Some(shape) => variant_form("Some"@, shape_name(shape)),
        None => "None"@,
    }) + " }"@
}

/// A kind of failure, as `Debug` prints it: `Md("..")` holds its message in
/// the form in which `Debug` prints a string.
pub open spec fn kind_text(kind: J2TErrorKindView) -> Seq<char> {
    match kind {
        J2TErrorKindView::Json(u) => variant_form("Json"@, unexpected_form(u)),
        J2TErrorKindView::Syntax(m) => variant_form("Syntax"@, debug_form(m)),
        J2TErrorKindView::Md(m) => variant_form("Md"@, debug_form(m)),
        J2TErrorKindView::Io(m) => variant_form("Io"@, debug_form(m)),
        J2TErrorKindView::Backtick => "Backtick"@,
        J2TErrorKindView::Unknown => "Unknown"@,
    }
}

/// The message of a failure: the field it names, if any, then a space and
/// the kind, as `Debug` prints it, in round brackets.
pub open spec fn message_text(e: J2TErrorView) -> Seq<char> {
    (match e.msg {
        Some(m) => m,
        None => Seq::<char>::empty(),
    }) + " ("@ + kind_text(e.kind) + ")"@
}

/// Calls std's `Debug` for `str` through `format!`. The contract only
/// names the outcome: the quoted and escaped form that this text has, each
/// time it is printed.
#[verifier::external_body]
pub(crate) fn debug_string(text: &str) -> (r: String)
    ensures
        r@ == debug_form(text@),
{
    format!("{:?}", text)
}

/// Writes a variant with one field as `Debug` prints it: the name, then
/// the field in round brackets.
pub fn variant_text(name: &str, field: &str) -> (r: String)
    ensures
        r@ == variant_form(name@, field@),
{
    let mut r = String::from_str(name);
    r.append("(");
    r.append(field);
    r.append(")");
    r
}

impl JsonShape {
    /// The name of the shape, as `Debug` prints it.
    pub fn name(self) -> (r: &'static str)
        ensures
            r@ == shape_name(self),
    {
        match self {
            JsonShape::Null => "Null",
            JsonShape::Bool => "Bool",
            JsonShape::Number => "Number",
            JsonShape::Str => "Str",
            JsonShape::Array => "Array",
            JsonShape::Object => "Object",
        }
    }
}

impl UnexpectedValue {
    /// The value as `Debug` prints it.
    pub fn text(&self) -> (r: String)
        ensures
            r@ == unexpected_form(*self),
    {
        let mut r = String::from_str("UnexpectedValue { expected: ");
        r.append(self.expected.name());
        r.append(", found: ");
        match self.found {
            Some(shape) => {
                let found = variant_text("Some", shape.name());
                r.append(found.as_str());
            },
            None => r.append("None"),
        }
        r.append(" }");
        r
    }
}

impl J2TErrorKind {
    /// The kind as `Debug` prints it.
    pub fn text(&self) -> (r: String)
        ensures
            r@ == kind_text(self@),
    {
        match self {
            J2TErrorKind::Json(u) => variant_text("Json", u.text().as_str()),
            J2TErrorKind::Syntax(m) => variant_text("Syntax", debug_string(m.as_str()).as_str()),
            J2TErrorKind::Md(m) => variant_text("Md", debug_string(m.as_str()).as_str()),
            J2TErrorKind::Io(m) => variant_text("Io", debug_string(m.as_str()).as_str()),
            J2TErrorKind::Backtick => String::from_str("Backtick"),
            J2TErrorKind::Unknown => String::from_str("Unknown"),
        }
    }
}

impl J2TError {
    /// The failure for a field named `field` that should have the shape
    /// `expected` and has the shape `found`, or is absent.
    pub fn unexpected(field: &str, expected: JsonShape, found: Option<JsonShape>) -> (e: J2TError)
        ensures
            e@ == unexpected(field@, expected, found),
    {
        J2TError {
            kind: J2TErrorKind::Json(UnexpectedValue { expected, found }),
            msg: Some(String::from_str(field)),
        }
    }

    /// A failure of the given kind that names no field.
    pub fn of_kind(kind: J2TErrorKind) -> (e: J2TError)
        ensures
            e@ == failure(kind@),
    {
        J2TError { kind, msg: None }
    }

    /// The message shown to the user: the field the failure names, if any,
    /// then a space and the kind of failure, as `Debug` prints it, in round
    /// brackets.
    pub fn message(&self) -> (r: String)
        ensures
            r@ == message_text(self@),
    {
        let mut r = match &self.msg {
            Some(m) => m.clone(),
            None => String::new(),
        };
        r.append(" (");
        let kind = self.kind.text();
        r.append(kind.as_str());
        r.append(")");
        r
    }
}

impl Default for J2TError {
    fn default() -> (e: J2TError)
        ensures
            e@ == failure(J2TErrorKindView::Unknown),
    {
        J2TError { kind: J2TErrorKind::Unknown, msg: None }
    }
}

impl From<String> for J2TError {
    /// A message of the Markdown parser becomes a `Md` failure.
    fn from(s: String) -> (e: J2TError) {
        J2TError { kind: J2TErrorKind::Md(s), msg: None }
    }
}

impl vstd::std_specs::convert::FromSpecImpl<String> for J2TError {
    open spec fn obeys_from_spec() -> bool {
        true
    }

    open spec fn from_spec(s: String) -> J2TError {
        J2TError { kind: J2TErrorKind::Md(s), msg: None }
    }
}

impl From<UnexpectedValue> for J2TError {
    /// A value of the wrong shape becomes a `Json` failure that names no
    /// field.
    fn from(u: UnexpectedValue) -> (e: J2TError) {
        J2TError { kind: J2TErrorKind::Json(u), msg: None }
    }
}

impl vstd::std_specs::convert::FromSpecImpl<UnexpectedValue> for J2TError {
    open spec fn obeys_from_spec() -> bool {
        true
    }

    open spec fn from_spec(u: UnexpectedValue) -> J2TError {
        J2TError { kind: J2TErrorKind::Json(u), msg: None }
    }
}

} // verus!
