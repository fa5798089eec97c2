use vstd::prelude::*;

use crate::builder::byte_lists;
use crate::overrides::opt_bytes;

verus! {

/// Why input could not be split into arguments.
#[derive(Clone, Copy, Debug, PartialEq, Eq, Structural)]
pub enum TokenError {
    /// A quote was still open at a newline or at the end of the input.
    UnterminatedQuote,
    /// The input ended right after a backslash.
    TrailingBackslash,
}

/// The separators between arguments: space, tab, newline, form feed and
/// carriage return.
pub open spec fn is_blank(b: u8) -> bool {
    b == 0x20 || b == 0x09 || b == 0x0a || b == 0x0c || b == 0x0d
}

/// Where the splitting of blank-separated input stands: the argument read so
/// far, and whether a backslash or a quote is open.
pub ghost struct LexState {
    pub item: Seq<u8>,
    pub escape: bool,
    pub single: bool,
    pub double: bool,
}

/// The state before any input.
pub open spec fn fresh_state() -> LexState {
    LexState { item: Seq::empty(), escape: false, single: false, double: false }
}

/// One byte of input: the next state and the argument that the byte
/// completes, if any. A byte after a backslash is taken as it is. Inside
/// single quotes everything but the closing quote is taken as it is, and the
/// same inside double quotes; a newline in a quote is an error. Outside quotes a
/// blank ends a non-empty argument and is otherwise skipped.
pub open spec fn lex_step(s: LexState, b: u8) -> Result<(LexState, Option<Seq<u8>>), TokenError> {
    if s.escape {
        Ok((LexState { item: s.item.push(b), escape: false, ..s }, None))
    } else if s.single {
        if b == 0x27 {
            Ok((LexState { single: false, ..s }, None))
        } else if b == 0x0a {
            Err(TokenError::UnterminatedQuote)
        } else {
            Ok((LexState { item: s.item.push(b), ..s }, None))
        }
    } else if s.double {
        if b == 0x22 {
            Ok((LexState { double: false, ..s }, None))
        } else if b == 0x0a {
            Err(TokenError::UnterminatedQuote)
        } else {
            Ok((LexState { item: s.item.push(b), ..s }, None))
        }
    } else if b == 0x5c {
        Ok((LexState { escape: true, ..s }, None))
    } else if b == 0x27 {
        Ok((LexState { single: true, ..s }, None))
    } else if b == 0x22 {
        Ok((LexState { double: true, ..s }, None))
    } else if is_blank(b) {
        if s.item.len() == 0 {
            Ok((s, None))
        } else {
            Ok((fresh_state(), Some(s.item)))
        }
    } else {
        Ok((LexState { item: s.item.push(b), ..s }, None))
    }
}

/// The end of the input: the last argument, if one is pending, or the error of
/// an open quote or backslash.
pub open spec fn lex_end(s: LexState) -> Result<Option<Seq<u8>>, TokenError> {
    if s.single || s.double {
        Err(TokenError::UnterminatedQuote)
    } else if s.escape {
        Err(TokenError::TrailingBackslash)
    } else if s.item.len() == 0 {
        Ok(None)
    } else {
        Ok(Some(s.item))
    }
}

/// The arguments of `input` read from state `s`.
pub open spec fn lex_run(s: LexState, input: Seq<u8>) -> Result<Seq<Seq<u8>>, TokenError>
    decreases input.len(),
{
    if input.len() == 0 {
        match lex_end(s) {
            Ok(None) => Ok(Seq::empty()),
            Ok(Some(t)) => Ok(seq![t]),
            Err(e) => Err(e),
        }
    } else {
        match lex_step(s, input[0]) {
            Ok((next, None)) => lex_run(next, input.drop_first()),
            Ok((next, Some(t))) => match lex_run(next, input.drop_first()) {
                Ok(ts) => Ok(seq![t] + ts),
                Err(e) => Err(e),
            },
            Err(e) => Err(e),
        }
    }
}

/// The blank-separated, quoted and escaped arguments of `input`.
pub open spec fn delimited_tokens(input: Seq<u8>) -> Result<Seq<Seq<u8>>, TokenError> {
    lex_run(fresh_state(), input)
}

/// `done` followed by the outcome `rest`.
pub open spec fn after(done: Seq<Seq<u8>>, rest: Result<Seq<Seq<u8>>, TokenError>) -> Result<Seq<Seq<u8>>, TokenError> {
    match rest {
        Ok(ts) => Ok(done + ts),
        Err(e) => Err(e),
    }
}

/// The pieces of `input` after `item`, split at each `delim`. Every delimiter
/// ends a piece, empty ones included; what follows the last delimiter is a
/// piece when it is not empty.
pub open spec fn split_run(delim: u8, item: Seq<u8>, input: Seq<u8>) -> Seq<Seq<u8>>
    decreases input.len(),
{
    if input.len() == 0 {
        if item.len() == 0 {
            Seq::empty()
        } else {
            seq![item]
        }
    } else if input[0] == delim {
        seq![item] + split_run(delim, Seq::empty(), input.drop_first())
    } else {
        split_run(delim, item.push(input[0]), input.drop_first())
    }
}

/// The pieces of `input` separated by `delim`, with neither quoting nor
/// escaping.
pub open spec fn strict_tokens(delim: u8, input: Seq<u8>) -> Seq<Seq<u8>> {
    split_run(delim, Seq::empty(), input)
}

/// Splits a stream of bytes, fed one at a time, into blank-separated
/// arguments, honouring quotes and backslashes.
pub struct DelimitedTokenizer {
    item: Vec<u8>,
    escape: bool,
    single: bool,
    double: bool,
}

impl View for DelimitedTokenizer {
    type V = LexState;

    closed spec fn view(&self) -> LexState {
        LexState { item: self.item@, escape: self.escape, single: self.single, double: self.double }
    }
}

impl DelimitedTokenizer {
    /// A tokenizer that has seen no input.
    pub fn new() -> (r: DelimitedTokenizer)
        ensures
            r@ == fresh_state(),
    {
        DelimitedTokenizer { item: Vec::new(), escape: false, single: false, double: false }
    }

    /// Takes the next byte; returns the argument that it completes, if any.
    pub fn push(&mut self, b: u8) -> (r: Result<Option<Vec<u8>>, TokenError>)
        ensures
            match lex_step(old(self)@, b) {
                Ok((next, tok)) => r matches Ok(t) && opt_bytes(t) == tok && final(self)@ == next,
                Err(e) => r == Err::<Option<Vec<u8>>, TokenError>(e),
            },
    {
        if self.escape {
            self.escape = false;
            self.item.push(b);
        } else if self.single {
            if b == 0x27 {
                self.single = false;
            } else if b == 0x0a {
                return Err(TokenError::UnterminatedQuote);
            } else {
                self.item.push(b);
            }
        } else if self.double {
            if b == 0x22 {
                self.double = false;
            } else if b == 0x0a {
                return Err(TokenError::UnterminatedQuote);
            } else {
                self.item.push(b);
            }
        } else if b == 0x5c {
            self.escape = true;
        } else if b == 0x27 {
            self.single = true;
        } else if b == 0x22 {
            self.double = true;
        } else if b == 0x20 || b == 0x09 || b == 0x0a || b == 0x0c || b == 0x0d {
            if self.item.len() > 0 {
                let mut t: Vec<u8> = Vec::new();
                std::mem::swap(&mut t, &mut self.item);
                assert(self.item@ =~= Seq::<u8>::empty());
                return Ok(Some(t));
            }
        } else {
            self.item.push(b);
        }
        Ok(None)
    }

    /// Ends the input: returns the last argument, if one is pending, or the
    /// error of a quote or backslash left open.
    pub fn finish(&mut self) -> (r: Result<Option<Vec<u8>>, TokenError>)
        ensures
            old(self)@.single || old(self)@.double ==> r == Err::<Option<Vec<u8>>, TokenError>(
                TokenError::UnterminatedQuote,
            ),
            match lex_end(old(self)@) {
                Ok(tok) => r matches Ok(t) && opt_bytes(t) == tok,
                Err(e) => r == Err::<Option<Vec<u8>>, TokenError>(e),
            },
            final(self)@ == fresh_state(),
    {
        let single = self.single;
        let double = self.double;
        let escape = self.escape;
        let mut t: Vec<u8> = Vec::new();
        std::mem::swap(&mut t, &mut self.item);
        self.escape = false;
        self.single = false;
        self.double = false;
        assert(self.item@ =~= Seq::<u8>::empty());
        if single || double {
            Err(TokenError::UnterminatedQuote)
        } else if escape {
            Err(TokenError::TrailingBackslash)
        } else if t.len() == 0 {
            Ok(None)
        } else {
            Ok(Some(t))
        }
    }
}

/// Splits a stream of bytes, fed one at a time, at a delimiter byte.
pub struct StrictTokenizer {
    delimiter: u8,
    item: Vec<u8>,
}

impl StrictTokenizer {
    /// The delimiter.
    pub closed spec fn delim(&self) -> u8 {
        self.delimiter
    }

    /// The piece read since the last delimiter.
    pub closed spec fn pending(&self) -> Seq<u8> {
        self.item@
    }

    /// A tokenizer for pieces separated by `delimiter` that has seen no input.
    pub fn new(delimiter: u8) -> (r: StrictTokenizer)
        ensures
            r.delim() == delimiter,
            r.pending() == Seq::<u8>::empty(),
    {
        StrictTokenizer { delimiter, item: Vec::new() }
    }

    /// Takes the next byte; a delimiter completes the pending piece, even an
    /// empty one.
    pub fn push(&mut self, b: u8) -> (r: Option<Vec<u8>>)
        ensures
            final(self).delim() == old(self).delim(),
            b == old(self).delim() ==> opt_bytes(r) == Some(old(self).pending())
                && final(self).pending() == Seq::<u8>::empty(),
            b != old(self).delim() ==> r is None && final(self).pending() == old(self).pending().push(b),
    {
        if b == self.delimiter {
            let mut t: Vec<u8> = Vec::new();
            std::mem::swap(&mut t, &mut self.item);
            assert(self.item@ =~= Seq::<u8>::empty());
            Some(t)
        } else {
            self.item.push(b);
            None
        }
    }

    /// Ends the input: returns the pending piece unless it is empty.
    pub fn finish(&mut self) -> (r: Option<Vec<u8>>)
        ensures
            final(self).delim() == old(self).delim(),
            final(self).pending() == Seq::<u8>::empty(),
            opt_bytes(r) == (if old(self).pending().len() == 0 { None } else { Some(old(self).pending()) }),
    {
        let mut t: Vec<u8> = Vec::new();
        std::mem::swap(&mut t, &mut self.item);
        assert(self.item@ =~= Seq::<u8>::empty());
        if t.len() == 0 {
            None
        } else {
            Some(t)
        }
    }
}

/// All blank-separated arguments of `input`, or the first error.
pub fn tokenize_delimited(input: &[u8]) -> (r: Result<Vec<Vec<u8>>, TokenError>)
    ensures
        match delimited_tokens(input@) {
            Ok(ts) => r matches Ok(v) && byte_lists(v@) == ts,
            Err(e) => r == Err::<Vec<Vec<u8>>, TokenError>(e),
        },
{
    let mut lexer = DelimitedTokenizer::new();
    let mut out: Vec<Vec<u8>> = Vec::new();
    let mut i: usize = 0;
    assert(input@.skip(0) == input@);
    assert(Seq::<Seq<u8>>::empty() + lex_run(fresh_state(), input@)->Ok_0 == lex_run(fresh_state(), input@)->Ok_0);
    while i < input.len()
        invariant
            i <= input@.len(),
            delimited_tokens(input@) == after(byte_lists(out@), lex_run(lexer@, input@.skip(i as int))),
        decreases input@.len() - i,
    {
        let ghost rest = input@.skip(i as int);
        let ghost done = byte_lists(out@);
        assert(rest[0] == input@[i as int]);
        assert(rest.drop_first() == input@.skip(i + 1));
        match lexer.push(input[i]) {
            Ok(Some(t)) => {
                proof {
                    let tail = lex_run(lexer@, input@.skip(i + 1));
                    if tail is Ok {
                        assert(done + (seq![t@] + tail->Ok_0) == done.push(t@) + tail->Ok_0);
                    }
                }
                out.push(t);
                assert(byte_lists(out@) =~= done.push(t@));
            },
            Ok(None) => {},
            Err(e) => return Err(e),
        }
        i = i + 1;
    }
    let ghost done = byte_lists(out@);
    assert(input@.skip(i as int).len() == 0);
    match lexer.finish() {
        Ok(Some(t)) => {
            out.push(t);
            assert(byte_lists(out@) =~= done + seq![t@]);
        },
        Ok(None) => {
            assert(done + Seq::<Seq<u8>>::empty() == done);
        },
        Err(e) => return Err(e),
    }
    Ok(out)
}

/// All pieces of `input` separated by `delim`.
pub fn tokenize_strict(input: &[u8], delim: u8) -> (r: Vec<Vec<u8>>)
    ensures
        byte_lists(r@) == strict_tokens(delim, input@),
{
    let mut splitter = StrictTokenizer::new(delim);
    let mut out: Vec<Vec<u8>> = Vec::new();
    let mut i: usize = 0;
    assert(input@.skip(0) == input@);
    assert(byte_lists(out@) + strict_tokens(delim, input@) == strict_tokens(delim, input@));
    while i < input.len()
        invariant
            i <= input@.len(),
            splitter.delim() == delim,
            strict_tokens(delim, input@) == byte_lists(out@) + split_run(delim, splitter.pending(), input@.skip(i as int)),
        decreases input@.len() - i,
    {
        let ghost rest = input@.skip(i as int);
        let ghost done = byte_lists(out@);
        let ghost item = splitter.pending();
        assert(rest[0] == input@[i as int]);
        assert(rest.drop_first() == input@.skip(i + 1));
        match splitter.push(input[i]) {
            Some(t) => {
                let ghost tail = split_run(delim, Seq::empty(), input@.skip(i + 1));
                assert(done + (seq![item] + tail) == done.push(item) + tail);
                out.push(t);
                assert(byte_lists(out@) =~= done.push(item));
            },
            None => {},
        }
        i = i + 1;
    }
    let ghost done = byte_lists(out@);
    assert(input@.skip(i as int).len() == 0);
    match splitter.finish() {
        Some(t) => {
            out.push(t);
            assert(byte_lists(out@) =~= done + seq![t@]);
        },
        None => {
            assert(done + Seq::<Seq<u8>>::empty() == done);
        },
    }
    out
}

} // verus!
