//! Structs that are served directly: their errors and the paths in them.

use crate::constants::ErrorCode;
use crate::path::starts_with_slash;
use crate::text::{concat2, concat3};
use serde_json::Value;
use vstd::prelude::*;

verus! {

/// Why a struct did not serve a request.
#[derive(Debug)]
pub enum StructError {
    InvalidPath { path: String },
    InvalidSubpath { path: String },
    BodyExpected { path: String },
    BodyUnexpected { path: String },
    Serialize { path: String, source: String },
    Deserialize { path: String, source: String },
    Execution { path: String, message: String },
}

/// What a [`StructError`] says.
pub enum StructFault {
    InvalidPath { path: Seq<char> },
    InvalidSubpath { path: Seq<char> },
    BodyExpected { path: Seq<char> },
    BodyUnexpected { path: Seq<char> },
    Serialize { path: Seq<char>, source: Seq<char> },
    Deserialize { path: Seq<char>, source: Seq<char> },
    Execution { path: Seq<char>, message: Seq<char> },
}

impl View for StructError {
    type V = StructFault;

    open spec fn view(&self) -> StructFault {
        match *self {
            StructError::InvalidPath { path } => StructFault::InvalidPath { path: path@ },
            StructError::InvalidSubpath { path } => StructFault::InvalidSubpath { path: path@ },
            StructError::BodyExpected { path } => StructFault::BodyExpected { path: path@ },
            StructError::BodyUnexpected { path } => StructFault::BodyUnexpected { path: path@ },
            StructError::Serialize { path, source } => StructFault::Serialize {
                path: path@,
                source: source@,
            },
            StructError::Deserialize { path, source } => StructFault::Deserialize {
                path: path@,
                source: source@,
            },
            StructError::Execution { path, message } => StructFault::Execution {
                path: path@,
                message: message@,
            },
        }
    }
}

impl StructFault {
    /// The code that reports the error: a path that leads nowhere is a missing
    /// method, a value that does not fit is a bad body, and a method that failed
    /// is a parse error.
    pub open spec fn error_code(self) -> ErrorCode {
        match self {
            StructFault::InvalidPath { .. } => ErrorCode::MethodNotFound,
            StructFault::InvalidSubpath { .. } => ErrorCode::MethodNotFound,
            StructFault::BodyExpected { .. } => ErrorCode::InvalidBody,
            StructFault::BodyUnexpected { .. } => ErrorCode::InvalidBody,
            StructFault::Serialize { .. } => ErrorCode::InvalidBody,
            StructFault::Deserialize { .. } => ErrorCode::InvalidBody,
            StructFault::Execution { .. } => ErrorCode::ParseError,
        }
    }

    /// What the error says to a reader.
    pub open spec fn text(self) -> Seq<char> {
        match self {
            StructFault::InvalidPath { path } => "invalid path `"@ + path + "`"@,
            StructFault::InvalidSubpath { path } => "unexpected additional path segments at `"@
                + path + "`"@,
            StructFault::BodyExpected { path } => "body required for `"@ + path + "`"@,
            StructFault::BodyUnexpected { path } => "body not allowed for `"@ + path + "`"@,
            StructFault::Serialize { path, source } => "serialization error for `"@ + path + "`: "@
                + source,
            StructFault::Deserialize { path, source } => "deserialization error for `"@ + path
                + "`: "@ + source,
            StructFault::Execution { path, message } => "method `"@ + path + "` failed: "@
                + message,
        }
    }

    /// The path that the error is about.
    pub open spec fn path(self) -> Seq<char> {
        match self {
            StructFault::InvalidPath { path } => path,
            StructFault::InvalidSubpath { path } => path,
            StructFault::BodyExpected { path } => path,
            StructFault::BodyUnexpected { path } => path,
            StructFault::Serialize { path, .. } => path,
            StructFault::Deserialize { path, .. } => path,
            StructFault::Execution { path, .. } => path,
        }
    }

    /// The same error about another path.
    pub open spec fn at(self, path: Seq<char>) -> StructFault {
        match self {
            StructFault::InvalidPath { .. } => StructFault::InvalidPath { path },
            StructFault::InvalidSubpath { .. } => StructFault::InvalidSubpath { path },
            StructFault::BodyExpected { .. } => StructFault::BodyExpected { path },
            StructFault::BodyUnexpected { .. } => StructFault::BodyUnexpected { path },
            StructFault::Serialize { source, .. } => StructFault::Serialize { path, source },
            StructFault::Deserialize { source, .. } => StructFault::Deserialize { path, source },
            StructFault::Execution { message, .. } => StructFault::Execution { path, message },
        }
    }
}

/// `a`, `b`, `c` and `d` in a row.
fn concat4(a: &str, b: &str, c: &str, d: &str) -> (s: String)
    ensures
        s@ == a@ + b@ + c@ + d@,
{
    let mut s = concat3(a, b, c);
    s.append(d);
    s
}

impl StructError {
    /// The code that reports this error to the other side.
    pub fn code(&self) -> (c: ErrorCode)
        ensures
            c == self@.error_code(),
    {
        match self {
            StructError::InvalidPath { .. } => ErrorCode::MethodNotFound,
            StructError::InvalidSubpath { .. } => ErrorCode::MethodNotFound,
            StructError::BodyExpected { .. } => ErrorCode::InvalidBody,
            StructError::BodyUnexpected { .. } => ErrorCode::InvalidBody,
            StructError::Serialize { .. } => ErrorCode::InvalidBody,
            StructError::Deserialize { .. } => ErrorCode::InvalidBody,
            StructError::Execution { .. } => ErrorCode::ParseError,
        }
    }

    /// What this error says to a reader.
    pub fn text(&self) -> (s: String)
        ensures
            s@ == self@.text(),
    {
        match self {
            StructError::InvalidPath { path } => concat3("invalid path `", path.as_str(), "`"),
            StructError::InvalidSubpath { path } => concat3(
                "unexpected additional path segments at `",
                path.as_str(),
                "`",
            ),
            StructError::BodyExpected { path } => concat3(
                "body required for `",
                path.as_str(),
                "`",
            ),
            StructError::BodyUnexpected { path } => concat3(
                "body not allowed for `",
                path.as_str(),
                "`",
            ),
            StructError::Serialize { path, source } => concat4(
                "serialization error for `",
                path.as_str(),
                "`: ",
                source.as_str(),
            ),
            StructError::Deserialize { path, source } => concat4(
                "deserialization error for `",
                path.as_str(),
                "`: ",
                source.as_str(),
            ),
            StructError::Execution { path, message } => concat4(
                "method `",
                path.as_str(),
                "` failed: ",
                message.as_str(),
            ),
        }
    }
}

/// The result of a struct operation.
pub type StructResult<T> = Result<T, StructError>;

/// A struct that is served: its fields and methods are found by the tokens of a
/// path.
pub trait RepeStruct {
    /// What a request may come to.
    open spec fn handles(
        &self,
        segments: Seq<Seq<char>>,
        body: Option<Value>,
        after: &Self,
        out: Result<Option<Value>, StructFault>,
    ) -> bool {
        true
    }

    /// Reads (without a body) or writes (with one). `None` is answered as a
    /// JSON null.
    fn repe_handle(&mut self, segments: &[&str], body: Option<Value>) -> (r: StructResult<
        Option<Value>,
    >)
        ensures
            old(self).handles(str_texts(segments@), body, final(self), struct_outcome(r)),
    ;

    /// What a read that changes nothing may come to. `None`: it is declined.
    open spec fn reads(
        &self,
        segments: Seq<Seq<char>>,
        out: Option<Result<Option<Value>, StructFault>>,
    ) -> bool {
        true
    }

    /// Reads without changing anything. `None`: the path needs exclusive access.
    fn repe_read(&self, segments: &[&str]) -> (r: Option<StructResult<Option<Value>>>)
        ensures
            self.reads(str_texts(segments@), read_outcome(r)),
    ;
}

/// What a read that changes nothing came to.
pub open spec fn read_outcome(r: Option<StructResult<Option<Value>>>) -> Option<
    Result<Option<Value>, StructFault>,
> {
    match r {
        Some(came) => Some(struct_outcome(came)),
        None => None,
    }
}

/// What a struct operation came to.
pub open spec fn struct_outcome(r: StructResult<Option<Value>>) -> Result<
    Option<Value>,
    StructFault,
> {
    match r {
        Ok(v) => Ok(v),
        Err(e) => Err(e@),
    }
}

/// The texts of string slices.
pub open spec fn str_texts(v: Seq<&str>) -> Seq<Seq<char>> {
    Seq::new(v.len(), |i: int| v[i]@)
}

/// The path made of `segs`: each of them behind a `/`.
pub open spec fn path_text(segs: Seq<Seq<char>>) -> Seq<char>
    decreases segs.len(),
{
    if segs.len() == 0 {
        Seq::empty()
    } else {
        path_text(segs.drop_last()) + ("/"@ + segs.last())
    }
}

/// The path of a child: the current segments and one more.
pub fn join_path(current: &[&str], segment: &str) -> (s: String)
    ensures
        s@ == path_text(str_texts(current@).push(segment@)),
{
    let mut s = path_from_segments(current);
    s.append("/");
    s.append(segment);
    proof {
        let all = str_texts(current@).push(segment@);
        assert(all.drop_last() =~= str_texts(current@));
        assert(s@ =~= path_text(str_texts(current@)) + ("/"@ + segment@));
    }
    s
}

/// The path made of segments.
pub fn path_from_segments(segments: &[&str]) -> (s: String)
    ensures
        s@ == path_text(str_texts(segments@)),
{
    let mut s = String::new();
    let n: usize = segments.len();
    let mut i: usize = 0;
    let ghost all = str_texts(segments@);
    assert(all.subrange(0, 0) =~= Seq::<Seq<char>>::empty());
    while i < n
        invariant
            i <= n,
            n == segments@.len(),
            all == str_texts(segments@),
            s@ == path_text(all.subrange(0, i as int)),
        decreases n - i,
    {
        let ghost had = s@;
        s.append("/");
        s.append(segments[i]);
        proof {
            let next = all.subrange(0, i + 1);
            assert(next.drop_last() =~= all.subrange(0, i as int));
            assert(next.last() == segments@[i as int]@);
            assert(s@ =~= had + ("/"@ + segments@[i as int]@));
        }
        i = i + 1;
    }
    assert(all.subrange(0, n as int) =~= all);
    s
}

/// `path` below one more segment.
pub open spec fn prefixed(path: Seq<char>, prefix: Seq<char>) -> Seq<char> {
    if prefix.len() == 0 {
        path
    } else if path.len() == 0 {
        "/"@ + prefix
    } else if path[0] == '/' {
        "/"@ + prefix + path
    } else {
        "/"@ + prefix + "/"@ + path
    }
}

/// `path` below one more segment.
fn with_prefix(path: String, prefix: &str) -> (s: String)
    ensures
        s@ == prefixed(path@, prefix@),
{
    if prefix.is_empty() {
        path
    } else if path.as_str().is_empty() {
        concat2("/", prefix)
    } else if starts_with_slash(path.as_str()) {
        concat3("/", prefix, path.as_str())
    } else {
        concat4("/", prefix, "/", path.as_str())
    }
}

/// Puts the path of an error below one more segment, as it leaves a nested
/// struct.
pub fn prepend_path(err: StructError, prefix: &str) -> (e: StructError)
    ensures
        e@ == err@.at(prefixed(err@.path(), prefix@)),
{
    match err {
        StructError::InvalidPath { path } => StructError::InvalidPath {
            path: with_prefix(path, prefix),
        },
        StructError::InvalidSubpath { path } => StructError::InvalidSubpath {
            path: with_prefix(path, prefix),
        },
        StructError::BodyExpected { path } => StructError::BodyExpected {
            path: with_prefix(path, prefix),
        },
        StructError::BodyUnexpected { path } => StructError::BodyUnexpected {
            path: with_prefix(path, prefix),
        },
        StructError::Serialize { path, source } => StructError::Serialize {
            path: with_prefix(path, prefix),
            source,
        },
        StructError::Deserialize { path, source } => StructError::Deserialize {
            path: with_prefix(path, prefix),
            source,
        },
        StructError::Execution { path, message } => StructError::Execution {
            path: with_prefix(path, prefix),
            message,
        },
    }
}

/// Wherever an error is moved to, its code stays.
pub proof fn a_moved_error_keeps_its_code(e: StructFault, path: Seq<char>)
    ensures
        e.at(path).error_code() == e.error_code(),
        e.at(path).path() == path,
{
}

/// Putting the path of segments below one more segment is the path of the
/// longer list of segments.
pub proof fn prefixing_extends_the_path(segs: Seq<Seq<char>>, prefix: Seq<char>)
    requires
        prefix.len() > 0,
    ensures
        prefixed(path_text(segs), prefix) == path_text(seq![prefix] + segs),
    decreases segs.len(),
{
    reveal_strlit("/");
    let all = seq![prefix] + segs;
    if segs.len() == 0 {
        assert(all.drop_last() =~= Seq::<Seq<char>>::empty());
        assert(path_text(all.drop_last()) == Seq::<char>::empty());
        assert(path_text(all) =~= "/"@ + prefix);
    } else {
        let init = segs.drop_last();
        prefixing_extends_the_path(init, prefix);
        assert(all.drop_last() =~= seq![prefix] + init);
        path_opens_with_slash(segs);
        if init.len() > 0 {
            path_opens_with_slash(init);
        }
        assert(prefixed(path_text(segs), prefix) =~= path_text(all));
    }
}

/// The path of segments opens with `/`.
proof fn path_opens_with_slash(segs: Seq<Seq<char>>)
    requires
        segs.len() > 0,
    ensures
        path_text(segs).len() > 0,
        path_text(segs)[0] == '/',
    decreases segs.len(),
{
    reveal_strlit("/");
    let tail = "/"@ + segs.last();
    assert(tail[0] == '/');
    if segs.len() > 1 {
        path_opens_with_slash(segs.drop_last());
    } else {
        assert(path_text(segs.drop_last()) == Seq::<char>::empty());
        assert(path_text(segs) =~= tail);
    }
}

/// What a struct refuses is reported for what it is: a path that leads nowhere as
/// a missing method, a body that is missing, not wanted or does not fit as a bad
/// body, and a method that failed as a parse error.
pub proof fn a_refusal_has_the_code_of_its_cause(e: StructFault)
    ensures
        e is InvalidPath || e is InvalidSubpath <==> e.error_code() == ErrorCode::MethodNotFound,
        e is BodyExpected || e is BodyUnexpected || e is Serialize || e is Deserialize
            <==> e.error_code() == ErrorCode::InvalidBody,
        e is Execution <==> e.error_code() == ErrorCode::ParseError,
{
}

/// The path of segments is each of them behind a `/`, in order.
pub proof fn a_path_lists_its_segments(segs: Seq<Seq<char>>, seg: Seq<char>)
    ensures
        path_text(Seq::<Seq<char>>::empty()) == Seq::<char>::empty(),
        path_text(segs.push(seg)) == path_text(segs) + "/"@ + seg,
{
    assert(segs.push(seg).drop_last() =~= segs);
    assert(path_text(segs) + ("/"@ + seg) =~= path_text(segs) + "/"@ + seg);
}

/// A prefix stands in front of a path as one more segment, with exactly one slash
/// before it and one between the two; an empty prefix changes nothing.
pub proof fn a_prefix_is_one_more_segment(path: Seq<char>, prefix: Seq<char>)
    ensures
        prefixed(path, Seq::<char>::empty()) == path,
        prefix.len() > 0 ==> prefixed(Seq::<char>::empty(), prefix) == seq!['/'] + prefix,
        prefix.len() > 0 ==> prefixed(seq!['/'] + path, prefix) == seq!['/'] + prefix + seq!['/']
            + path,
        prefix.len() > 0 && path.len() > 0 && path[0] != '/' ==> prefixed(path, prefix)
            == seq!['/'] + prefix + seq!['/'] + path,
{
    reveal_strlit("/");
    assert("/"@ =~= seq!['/']);
    assert((seq!['/'] + path)[0] == '/');
    assert(seq!['/'] + prefix + (seq!['/'] + path) =~= seq!['/'] + prefix + seq!['/'] + path);
}

} // verus!
