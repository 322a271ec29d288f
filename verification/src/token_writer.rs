//! The token layer of the output format: quoted strings and bare tokens.
use vstd::prelude::*;
use vstd::string::StringExecFns;
use crate::util::CharOutput;
use crate::util::CommonExceptionT;
use crate::util::StringCommonException;
use crate::util::Void;

verus! {

/// Whether `c` has the Unicode property `White_Space`.
pub open spec fn is_white_space(c: char) -> bool {
    let n = c as u32;
    ||| 0x09 <= n <= 0x0D
    ||| n == 0x20
    ||| n == 0x85
    ||| n == 0xA0
    ||| n == 0x1680
    ||| 0x2000 <= n <= 0x200A
    ||| n == 0x2028
    ||| n == 0x2029
    ||| n == 0x202F
    ||| n == 0x205F
    ||| n == 0x3000
}

/// Tells whether a character is white space.
///
/// Trusted: `char::is_whitespace` is taken to return `true` exactly on the
/// code points that carry the Unicode property `White_Space`.
pub assume_specification[ char::is_whitespace ](c: char) -> (r: bool)
    ensures
        r == is_white_space(c),
;

/// Whether `c` is one of the six bracket characters.
pub open spec fn is_bracket(c: char) -> bool {
    c == '{' || c == '}' || c == '(' || c == ')' || c == '[' || c == ']'
}

/// Whether `s` can be written as a bare token: it holds no white space and
/// no bracket.
pub open spec fn is_bare_token(s: Seq<char>) -> bool {
    forall|i: int| 0 <= i < s.len() ==> !is_white_space(#[trigger] s[i]) && !is_bracket(s[i])
}

/// The escaped form of one character: a quote or a backslash gets a
/// backslash in front of it, any other character stays as it is.
pub open spec fn escape_char(c: char) -> Seq<char> {
    if c == '"' || c == '\\' {
        seq!['\\', c]
    } else {
        seq![c]
    }
}

/// The escaped form of `s`, character by character.
pub open spec fn escape(s: Seq<char>) -> Seq<char>
    decreases s.len(),
{
    if s.len() == 0 {
        Seq::empty()
    } else {
        escape_char(s[0]) + escape(s.drop_first())
    }
}

/// The quoted form of `s`: its escaped form between two quotes.
pub open spec fn quote(s: Seq<char>) -> Seq<char> {
    seq!['"'] + escape(s) + seq!['"']
}

/// Reads escaped text back: a backslash stands for the character behind it.
/// A bare quote, or a backslash with nothing behind it, has no reading.
pub open spec fn unescape(t: Seq<char>) -> Option<Seq<char>>
    decreases t.len(),
{
    if t.len() == 0 {
        Some(Seq::empty())
    } else if t[0] == '\\' {
        if t.len() < 2 {
            None
        } else {
            match unescape(t.skip(2)) {
                Some(rest) => Some(seq![t[1]] + rest),
                None => None,
            }
        }
    } else if t[0] == '"' {
        None
    } else {
        match unescape(t.skip(1)) {
            Some(rest) => Some(seq![t[0]] + rest),
            None => None,
        }
    }
}

/// Reads a quoted string back: strips the two quotes and unescapes what
/// stands between them.
pub open spec fn unquote(t: Seq<char>) -> Option<Seq<char>> {
    if t.len() >= 2 && t[0] == '"' && t.last() == '"' {
        unescape(t.subrange(1, t.len() - 1))
    } else {
        None
    }
}

/// Escaping a string with one more character at its end appends that
/// character's escaped form.
pub proof fn lemma_escape_push(s: Seq<char>, c: char)
    ensures
        escape(s.push(c)) == escape(s) + escape_char(c),
    decreases s.len(),
{
    if s.len() == 0 {
        assert(s.push(c).drop_first() =~= Seq::<char>::empty());
        assert(escape(s.push(c).drop_first()) =~= Seq::<char>::empty());
        assert(escape(s.push(c)) =~= escape_char(c));
        assert(escape(s) + escape_char(c) =~= escape_char(c));
    } else {
        assert(s.push(c).drop_first() =~= s.drop_first().push(c));
        lemma_escape_push(s.drop_first(), c);
        assert(escape_char(s[0]) + (escape(s.drop_first()) + escape_char(c)) =~= (escape_char(s[0])
            + escape(s.drop_first())) + escape_char(c));
    }
}

/// Unescaping the escaped form of a string gives the string back.
pub proof fn lemma_unescape_escape(s: Seq<char>)
    ensures
        unescape(escape(s)) == Some(s),
    decreases s.len(),
{
    if s.len() > 0 {
        let c = s[0];
        let rest = s.drop_first();
        let t = escape(s);
        lemma_unescape_escape(rest);
        if c == '"' || c == '\\' {
            assert(t.skip(2) =~= escape(rest));
            assert(seq![c] + rest =~= s);
        } else {
            assert(t.skip(1) =~= escape(rest));
            assert(seq![c] + rest =~= s);
        }
    } else {
        assert(Some(Seq::<char>::empty()) == Some(s)) by {
            assert(s =~= Seq::<char>::empty());
        }
    }
}

/// Quoting loses nothing: for every string, reading its quoted form back
/// gives the string itself.
pub proof fn lemma_unquote_quote(s: Seq<char>)
    ensures
        unquote(quote(s)) == Some(s),
{
    let t = quote(s);
    lemma_unescape_escape(s);
    assert(t.subrange(1, t.len() - 1) =~= escape(s));
}

/// Quoting changes nothing but quotes and backslashes: a string that holds
/// neither is quoted by putting it between two quotes.
pub proof fn lemma_quote_plain(s: Seq<char>)
    requires
        forall|i: int| 0 <= i < s.len() ==> s[i] != '"' && s[i] != '\\',
    ensures
        quote(s) == seq!['"'] + s + seq!['"'],
{
    lemma_escape_plain(s);
}

/// A string without quotes and backslashes is its own escaped form.
pub proof fn lemma_escape_plain(s: Seq<char>)
    requires
        forall|i: int| 0 <= i < s.len() ==> s[i] != '"' && s[i] != '\\',
    ensures
        escape(s) == s,
    decreases s.len(),
{
    if s.len() > 0 {
        lemma_escape_plain(s.drop_first());
        assert(seq![s[0]] + s.drop_first() =~= s);
    } else {
        assert(s =~= Seq::<char>::empty());
    }
}

/// Writes the quoted form of `string` to `out`. Where a write fails, the
/// rest is left unwritten, and what `out` held before is still there.
pub fn write_escaped_string<ERR, OUT: CharOutput<ERR>>(string: &str, out: &mut OUT) -> (r: Result<
    (),
    ERR,
>)
    ensures
        r is Ok ==> final(out).written() == old(out).written() + quote(string@),
        r is Err ==> old(out).written().is_prefix_of(final(out).written()),
        OUT::reliable() ==> r is Ok,
{
    out.write_char('"')?;
    for ch in it: string.chars()
        invariant
            it.seq() == string@,
            out.written() == old(out).written() + seq!['"'] + escape(string@.take(it.index())),
    {
        if ch == '"' || ch == '\\' {
            out.write_char('\\')?;
        }
        out.write_char(ch)?;
        proof {
            let i = it.index();
            lemma_escape_push(string@.take(i), ch);
            assert(string@.take(i).push(ch) =~= string@.take(i + 1));
            assert(out.written() =~= old(out).written() + seq!['"'] + escape(
                string@.take(i + 1),
            ));
        }
    }
    out.write_char('"')?;
    proof {
        assert(string@.take(string@.len() as int) =~= string@);
        assert(out.written() =~= old(out).written() + quote(string@));
    }
    Ok(())
}

/// The quoted form of `string` as a string of its own.
pub fn writeStringToken_toString(string: &str) -> (result: String)
    ensures
        result@ == quote(string@),
{
    let mut result = String::new();
    let _written: Void = write_escaped_string(string, &mut result);
    assert(result@ =~= quote(string@));
    result
}

/// Whether `c` may not stand in a bare token.
pub fn breaks_token(c: char) -> (r: bool)
    ensures
        r == (is_white_space(c) || is_bracket(c)),
{
    c.is_whitespace() || c == '{' || c == '}' || c == '(' || c == ')' || c == '[' || c == ']'
}

/// Writes the tokens of the output format into a string.
pub struct TokenWriter {
    pub out: String,
}

impl View for TokenWriter {
    type V = Seq<char>;

    /// The text written so far.
    open spec fn view(&self) -> Seq<char> {
        self.out@
    }
}

impl TokenWriter {
    /// A writer that has written nothing yet.
    pub fn new() -> (tw: TokenWriter)
        ensures
            tw@ == Seq::<char>::empty(),
    {
        TokenWriter { out: String::new() }
    }

    /// The text written so far.
    pub fn get_output(&self) -> (s: &str)
        ensures
            s@ == self@,
    {
        self.out.as_str()
    }

    /// Writes `string` as it is.
    pub fn write_raw(&mut self, string: &str) -> (r: Void)
        ensures
            r is Ok,
            final(self)@ == old(self)@ + string@,
    {
        self.out.write_str(string)
    }

    /// Writes the quoted form of `string` and a space behind it.
    pub fn write_string_token(&mut self, string: &str) -> (r: Void)
        ensures
            r is Ok,
            final(self)@ == old(self)@ + quote(string@) + seq![' '],
    {
        let quoted: Void = write_escaped_string(string, &mut self.out);
        quoted?;
        self.out.write_char(' ')
    }

    /// Writes `string` as a bare token and a space behind it. A string that
    /// holds white space or a bracket is refused, and nothing is written.
    pub fn write_raw_token(&mut self, string: &str) -> (r: Void)
        ensures
            is_bare_token(string@) ==> r is Ok && final(self)@ == old(self)@ + string@ + seq![' '],
            !is_bare_token(string@) ==> r is Err && final(self)@ == old(self)@
                && r->Err_0.message() == "Cannot write raw token"@,
    {
        for ch in it: string.chars()
            invariant
                it.seq() == string@,
                is_bare_token(string@.take(it.index())),
                *self == *old(self),
        {
            if breaks_token(ch) {
                return Err(StringCommonException::create(String::from_str("Cannot write raw token")));
            }
            assert(is_bare_token(string@.take(it.index() + 1))) by {
                let i = it.index();
                assert forall|j: int| 0 <= j < i + 1 implies !is_white_space(
                    #[trigger] string@.take(i + 1)[j],
                ) && !is_bracket(string@.take(i + 1)[j]) by {
                    if j < i {
                        assert(string@.take(i + 1)[j] == string@.take(i)[j]);
                    }
                }
            }
        }
        assert(string@.take(string@.len() as int) =~= string@);
        let token: Void = self.out.write_str(string);
        token?;
        self.out.write_char(' ')
    }
}

} // verus!
