use vstd::prelude::*;

verus! {

/// A failure anywhere in the generation pipeline, carrying a human-readable
/// message that layers context over the underlying cause.
#[derive(Debug)]
pub struct Error {
    msg: String,
}

impl View for Error {
    type V = Seq<char>;

    closed spec fn view(&self) -> Seq<char> {
        self.msg@
    }
}

impl Error {
    pub fn new(msg: String) -> (e: Error)
        ensures
            e@ == msg@,
    {
        Error { msg }
    }

    /// The message carried by this error.
    pub fn message(&self) -> (m: &String)
        ensures
            m@ == self@,
    {
        &self.msg
    }
}

/// Turns an underlying failure text into an [`Error`], either as it stands
/// (`wrap`) or with a context line layered in front (`context`).
pub trait ErrorExt: Sized {
    spec fn err_text(&self) -> Seq<char>;

    fn wrap(self) -> (e: Error)
        ensures
            e@ == self.err_text(),
    ;

    fn context(self, ctx: &str) -> (e: Error)
        ensures
            e@ == ctx@ + ": "@ + self.err_text(),
    ;
}

impl ErrorExt for String {
    open spec fn err_text(&self) -> Seq<char> {
        self@
    }

    fn wrap(self) -> (e: Error) {
        Error { msg: self }
    }

    fn context(self, ctx: &str) -> (e: Error) {
        let mut m = String::from_str(ctx);
        m.append(": ");
        m.append(self.as_str());
        Error { msg: m }
    }
}

/// Maps the error side of a `Result` into [`Error`], as [`ErrorExt`] does for
/// the error value itself.
pub trait ResultExt<T>: Sized {
    spec fn ok_of(&self) -> Option<T>;

    spec fn res_err_text(&self) -> Seq<char>;

    fn wrap(self) -> (r: Result<T, Error>)
        ensures
            self.ok_of() matches Some(v) ==> (r matches Ok(w) && w == v),
            self.ok_of() is None ==> (r matches Err(e) && e@ == self.res_err_text()),
    ;

    fn context(self, ctx: &str) -> (r: Result<T, Error>)
        ensures
            self.ok_of() matches Some(v) ==> (r matches Ok(w) && w == v),
            self.ok_of() is None ==> (r matches Err(e) && e@ == ctx@ + ": "@ + self.res_err_text()),
    ;
}

impl<T> ResultExt<T> for Result<T, String> {
    open spec fn ok_of(&self) -> Option<T> {
        match self {
            Ok(v) => Some(*v),
            Err(_) => None,
        }
    }

    open spec fn res_err_text(&self) -> Seq<char> {
        match self {
            Ok(_) => Seq::empty(),
            Err(m) => m@,
        }
    }

    fn wrap(self) -> (r: Result<T, Error>) {
        match self {
            Ok(v) => Ok(v),
            Err(m) => Err(ErrorExt::wrap(m)),
        }
    }

    fn context(self, ctx: &str) -> (r: Result<T, Error>) {
        match self {
            Ok(v) => Ok(v),
            Err(m) => Err(ErrorExt::context(m, ctx)),
        }
    }
}

} // verus!
