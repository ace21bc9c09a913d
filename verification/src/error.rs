//! The errors of the application, and the mark on a failure that no retry mends.

use vstd::prelude::*;

verus! {

/// The error of a database call.
#[verifier::external_type_specification]
#[verifier::external_body]
pub struct ExSqlxError(sqlx::Error);

/// An error with its context.
#[verifier::external_type_specification]
#[verifier::external_body]
pub struct ExAnyhowError(anyhow::Error);

/// The sink that a value writes itself to.
#[verifier::external_type_specification]
#[verifier::external_body]
pub struct ExFormatter<'a>(core::fmt::Formatter<'a>);

/// The failure of such a sink.
#[verifier::external_type_specification]
#[verifier::external_body]
pub struct ExFmtError(core::fmt::Error);

#[derive(Debug)]
pub enum AppError {
    NotFound,
    Unauthorized,
    Forbidden,
    Conflict(String),
    Validation(String),
    /// A validation error with a stable code. The message is the plain English
    /// sentence for clients that do not localise; an interface looks the code
    /// up.
    Invalid {
        code: &'static str,
        message: String,
        /// What a machine adds, such as the report of a parser.
        detail: Option<String>,
    },
    Db(sqlx::Error),
    Other(anyhow::Error),
}

pub type AppResult<T> = Result<T, AppError>;

impl AppError {
    pub fn invalid(code: &'static str, message: &str) -> (r: AppError)
        ensures
            r matches AppError::Invalid { code: c, message: m, detail: d } && c@ == code@ && m@
                == message@ && d is None,
    {
        AppError::Invalid { code, message: message.to_owned(), detail: None }
    }

    pub fn invalid_detail(code: &'static str, message: &str, detail: &str) -> (r: AppError)
        ensures
            r matches AppError::Invalid { code: c, message: m, detail: Some(d) } && c@ == code@
                && m@ == message@ && d@ == detail@,
    {
        AppError::Invalid { code, message: message.to_owned(), detail: Some(detail.to_owned()) }
    }

    /// What the error says in its own words; an error that came from outside
    /// speaks for itself.
    pub open spec fn words(self) -> Option<Seq<char>> {
        match self {
            AppError::NotFound => Some("Not found"@),
            AppError::Unauthorized => Some("Not signed in or invalid credentials"@),
            AppError::Forbidden => Some("You don't have permission to do that"@),
            AppError::Conflict(s) => Some(s@),
            AppError::Validation(s) => Some(s@),
            AppError::Invalid { code, message, detail } => Some(message@),
            AppError::Db(_) => None,
            AppError::Other(_) => None,
        }
    }

    /// What the error says: its own words, or those of the error from outside,
    /// of which nothing is known here.
    pub fn message(&self) -> (r: String)
        ensures
            self.words() matches Some(w) ==> r@ == w,
    {
        match self {
            AppError::NotFound => "Not found".to_owned(),
            AppError::Unauthorized => "Not signed in or invalid credentials".to_owned(),
            AppError::Forbidden => "You don't have permission to do that".to_owned(),
            AppError::Conflict(s) => s.clone(),
            AppError::Validation(s) => s.clone(),
            AppError::Invalid { code, message, detail } => message.clone(),
            AppError::Db(e) => db_error_text(e),
            AppError::Other(e) => other_error_text(e),
        }
    }
}

/// The `Display` text of a `sqlx::Error`. Nothing is claimed of it: the error may
/// hold any other error, which writes whatever it likes.
#[verifier::external_body]
fn db_error_text(e: &sqlx::Error) -> (r: String) {
    e.to_string()
}

/// The `Display` text of an `anyhow::Error`. Nothing is claimed of it: it is that of
/// any error or context at all.
#[verifier::external_body]
fn other_error_text(e: &anyhow::Error) -> (r: String) {
    e.to_string()
}

impl From<sqlx::Error> for AppError {
    fn from(e: sqlx::Error) -> (r: AppError) {
        AppError::Db(e)
    }
}

impl vstd::std_specs::convert::FromSpecImpl<sqlx::Error> for AppError {
    open spec fn obeys_from_spec() -> bool {
        true
    }

    open spec fn from_spec(e: sqlx::Error) -> AppError {
        AppError::Db(e)
    }
}

impl From<anyhow::Error> for AppError {
    fn from(e: anyhow::Error) -> (r: AppError) {
        AppError::Other(e)
    }
}

impl vstd::std_specs::convert::FromSpecImpl<anyhow::Error> for AppError {
    open spec fn obeys_from_spec() -> bool {
        true
    }

    open spec fn from_spec(e: anyhow::Error) -> AppError {
        AppError::Other(e)
    }
}

/// An error of the application says what it was given to say, or the sentence of
/// its kind; the code and the detail of an invalid request stay out of it.
pub proof fn law_an_error_speaks_for_itself(e: AppError)
    ensures
        e is NotFound ==> e.words() == Some("Not found"@),
        e is Unauthorized ==> e.words() == Some("Not signed in or invalid credentials"@),
        e is Forbidden ==> e.words() == Some("You don't have permission to do that"@),
        e matches AppError::Conflict(s) ==> e.words() == Some(s@),
        e matches AppError::Validation(s) ==> e.words() == Some(s@),
        e matches AppError::Invalid { message, .. } ==> e.words() == Some(message@),
        e is Db || e is Other ==> e.words() is None,
{
}

// ---- Failures that no retry mends ----

/// The mark on a failure that **does not get better by retrying**.
///
/// A queue assumes that waiting helps, and most failures are like that: an
/// endpoint stumbles, a database is busy, a limit passes in a minute. An
/// exhausted balance is not. What is beyond help is known to the handler, so the
/// handler attaches the mark and the queue asks only whether it is there.
#[derive(Debug, Clone, Copy)]
pub struct Terminal;

impl core::fmt::Display for Terminal {
    /// `Formatter::write_str` with the sentence for the log. Nothing is claimed
    /// of the sink.
    #[verifier::external_body]
    fn fmt(&self, f: &mut core::fmt::Formatter<'_>) -> core::fmt::Result {
        f.write_str("will not recover by retrying")
    }
}

impl std::error::Error for Terminal {

}

/// The error carries the mark, as its root or in any layer of its context.
pub uninterp spec fn carries_terminal(err: anyhow::Error) -> bool;

/// `anyhow::Error::is::<Terminal>`, which looks at the error and at every
/// context around it. The answer depends on the error alone.
#[verifier::external_body]
fn holds_terminal(err: &anyhow::Error) -> (r: bool)
    ensures
        r == carries_terminal(*err),
{
    err.is::<Terminal>()
}

/// The text that was said last of the error, where a `String` was.
pub uninterp spec fn last_text(err: anyhow::Error) -> Option<Seq<char>>;

/// `anyhow::Error::downcast_ref::<String>`, which gives the outermost `String`
/// among the contexts and the root. The answer depends on the error alone.
#[verifier::external_body]
fn outermost_text(err: &anyhow::Error) -> (r: Option<String>)
    ensures
        r.deep_view() == last_text(*err),
{
    err.downcast_ref::<String>().cloned()
}

/// `anyhow::Error::context` with the mark: `is` then finds the mark in the
/// outermost layer, and a search for a text goes on to the error beneath it.
#[verifier::external_body]
fn attach_terminal(err: anyhow::Error) -> (r: anyhow::Error)
    ensures
        carries_terminal(r),
        last_text(r) == last_text(err),
{
    err.context(Terminal)
}

/// `anyhow::Error::new` of the mark: `is` then finds it as the root, and there is
/// no text.
#[verifier::external_body]
fn terminal_root() -> (r: anyhow::Error)
    ensures
        carries_terminal(r),
        last_text(r) is None,
{
    anyhow::Error::new(Terminal)
}

/// `anyhow::Error::context` with a text: the text is the outermost layer, and `is`
/// goes on to the error beneath it in search of the mark.
#[verifier::external_body]
fn attach_text(err: anyhow::Error, text: String) -> (r: anyhow::Error)
    ensures
        carries_terminal(r) == carries_terminal(err),
        last_text(r) == Some(text@),
{
    err.context(text)
}

/// `anyhow::Error::msg` of a text: the error holds the text and nothing else.
#[verifier::external_body]
fn text_root(text: String) -> (r: anyhow::Error)
    ensures
        !carries_terminal(r),
        last_text(r) == Some(text@),
{
    anyhow::Error::msg(text)
}

/// A failure that says something; a retry may mend it.
pub fn failure(text: &str) -> (r: anyhow::Error)
    ensures
        !carries_terminal(r),
        last_text(r) == Some(text@),
{
    text_root(text.to_owned())
}

/// A failure that is the mark and nothing else.
pub fn terminal_failure() -> (r: anyhow::Error)
    ensures
        carries_terminal(r),
        last_text(r) is None,
{
    terminal_root()
}

/// Attaches the mark to a failure; what was said of it stays.
pub fn mark_terminal(err: anyhow::Error) -> (r: anyhow::Error)
    ensures
        carries_terminal(r),
        last_text(r) == last_text(err),
{
    attach_terminal(err)
}

/// Says more about a failure; a mark stays visible beneath, and none appears.
pub fn add_context(err: anyhow::Error, text: &str) -> (r: anyhow::Error)
    ensures
        carries_terminal(r) == carries_terminal(err),
        last_text(r) == Some(text@),
{
    attach_text(err, text.to_owned())
}

/// What was said last of the failure.
pub fn said_of(err: &anyhow::Error) -> (r: Option<String>)
    ensures
        r.deep_view() == last_text(*err),
{
    outermost_text(err)
}

/// Was this failure marked as one that no retry mends? The mark is seen as the
/// root, as the context, and beneath more context.
pub fn is_terminal(err: &anyhow::Error) -> (r: bool)
    ensures
        r == carries_terminal(*err),
{
    holds_terminal(err)
}

} // verus!
