//! Character sinks and the error type shared by the writers.
use vstd::prelude::*;

verus! {

/// Appends one character to a string.
///
/// Trusted: `String::push` is taken to append exactly `c` at the end of the
/// string and to leave the characters before it unchanged.
pub assume_specification[ String::push ](s: &mut String, c: char)
    ensures
        final(s)@ == old(s)@.push(c),
;

/// A sink for characters whose writes may fail with `ERR`. A sink only
/// grows: what it has accepted stays, whether a later write succeeds or
/// fails.
pub trait CharOutput<ERR> {
    /// Everything this sink has accepted so far.
    spec fn written(&self) -> Seq<char>;

    /// Whether every write to a sink of this type succeeds.
    spec fn reliable() -> bool;

    /// Writes `s` behind what the sink holds. A write that fails may have
    /// written a part of `s`.
    fn write_str(&mut self, s: &str) -> (r: Result<(), ERR>)
        ensures
            r is Ok ==> final(self).written() == old(self).written() + s@,
            r is Err ==> old(self).written().is_prefix_of(final(self).written()),
            Self::reliable() ==> r is Ok,
    ;

    /// Writes `c` behind what the sink holds. A write that fails writes
    /// nothing.
    fn write_char(&mut self, c: char) -> (r: Result<(), ERR>)
        ensures
            r is Ok ==> final(self).written() == old(self).written().push(c),
            r is Err ==> final(self).written() == old(self).written(),
            Self::reliable() ==> r is Ok,
    ;
}

/// A sink for characters whose writes cannot fail.
pub trait BasicCharOutput {
    /// Everything this sink has accepted so far.
    spec fn put(&self) -> Seq<char>;

    /// Writes `s` behind what the sink holds.
    fn put_str(&mut self, s: &str)
        ensures
            final(self).put() == old(self).put() + s@,
    ;

    /// Writes `c` behind what the sink holds.
    fn put_char(&mut self, c: char)
        ensures
            final(self).put() == old(self).put().push(c),
    ;
}

impl BasicCharOutput for String {
    open spec fn put(&self) -> Seq<char> {
        self@
    }

    fn put_str(&mut self, s: &str) {
        self.append(s);
    }

    fn put_char(&mut self, c: char) {
        self.push(c);
    }
}

impl<ERR> CharOutput<ERR> for String {
    open spec fn written(&self) -> Seq<char> {
        self@
    }

    open spec fn reliable() -> bool {
        true
    }

    fn write_str(&mut self, s: &str) -> (r: Result<(), ERR>) {
        self.put_str(s);
        Ok(())
    }

    fn write_char(&mut self, c: char) -> (r: Result<(), ERR>) {
        self.put_char(c);
        Ok(())
    }
}

/// An error that carries a human-readable message.
pub trait CommonExceptionT {
    /// The message of this error.
    spec fn message(&self) -> Seq<char>;

    /// Writes the message to `writer`.
    fn write_message(&self, writer: &mut String) -> (r: Void)
        ensures
            r is Ok,
            final(writer)@ == old(writer)@ + self.message(),
    ;

    /// The message as a string of its own.
    fn write_message_to_string(&self) -> (s: String)
        ensures
            s@ == self.message(),
    ;
}

/// An error whose message is a fixed string.
#[derive(Debug)]
pub struct StringCommonException(pub String);

/// The error type of the writers.
pub type CommonException = Box<StringCommonException>;

/// The result type of the writers.
pub type GResult<T> = Result<T, CommonException>;

/// The result of a write that returns nothing.
pub type Void = GResult<()>;

impl StringCommonException {
    /// An error with `string` as its message.
    pub fn create(string: String) -> (e: Box<StringCommonException>)
        ensures
            e.message() == string@,
    {
        Box::new(StringCommonException(string))
    }
}

impl CommonExceptionT for StringCommonException {
    open spec fn message(&self) -> Seq<char> {
        self.0@
    }

    fn write_message(&self, writer: &mut String) -> (r: Void) {
        writer.append(self.0.as_str());
        Ok(())
    }

    fn write_message_to_string(&self) -> (s: String) {
        let mut s = String::new();
        s.append(self.0.as_str());
        s
    }
}

impl vstd::std_specs::convert::FromSpecImpl<String> for Box<StringCommonException> {
    open spec fn obeys_from_spec() -> bool {
        true
    }

    open spec fn from_spec(obj: String) -> Self {
        Box::new(StringCommonException(obj))
    }
}

impl From<String> for Box<StringCommonException> {
    fn from(obj: String) -> (e: Self) {
        Box::new(StringCommonException(obj))
    }
}

} // verus!
