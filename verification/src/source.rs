//! From a declaration's source to its bytes: the text of a literal encoded as
//! UTF-8, or the contents of the included file as they were read.

use vstd::prelude::*;
use vstd::string::*;
use vstd::utf8::encode_utf8;
use crate::grammar::{Fault, ParseError, Source, SourceView};

verus! {

/// Where an included file is looked for: under `src/` in the working
/// directory `pwd`, or in `./src/` when no working directory is known.
pub open spec fn include_path_text(pwd: Option<&str>, name: &str) -> Seq<char> {
    let dir = match pwd {
        Some(dir) => dir@,
        None => "."@,
    };
    dir + "/src/"@ + name@
}

/// The path of the file that an inclusion names. The name is appended as it
/// stands: nothing in it is resolved or checked.
pub fn include_path(pwd: Option<&str>, name: &str) -> (path: String)
    ensures
        path@ == include_path_text(pwd, name),
{
    let dir = match pwd {
        Some(dir) => dir,
        None => ".",
    };
    String::from_str(dir).concat("/src/").concat(name)
}

/// Takes in what one read of a file delivered: the first `n` bytes of `buf`
/// are appended to `acc`. Says whether to read on; a read of no bytes is the
/// end of the file.
pub fn absorb(acc: &mut Vec<u8>, buf: &[u8], n: usize) -> (more: bool)
    requires
        n <= buf@.len(),
    ensures
        more == (n != 0),
        final(acc)@ == old(acc)@ + buf@.subrange(0, n as int),
{
    let mut i: usize = 0;
    while i < n
        invariant
            i <= n <= buf@.len(),
            acc@ == old(acc)@ + buf@.subrange(0, i as int),
        decreases n - i,
    {
        acc.push(buf[i]);
        i += 1;
    }
    n != 0
}

/// The error for an inclusion whose file could not be read, at the index of
/// the literal that names the file.
pub open spec fn unreadable(at: usize) -> ParseError {
    ParseError { at, fault: Fault::UnreadableFile, at_end: false }
}

/// The bytes of a source: the UTF-8 encoding of a literal's text; for an
/// inclusion the contents of the file, which are taken as they are, and an
/// error where there are none.
pub open spec fn payload_of(source: SourceView, contents: Option<Seq<u8>>) -> Result<
    Seq<u8>,
    ParseError,
> {
    match source {
        SourceView::Text(text) => Ok(encode_utf8(text)),
        SourceView::File(_, at) => match contents {
            Some(bytes) => Ok(bytes),
            None => Err(unreadable(at)),
        },
    }
}

/// The mathematical value of what was read of a file, if anything was.
pub open spec fn contents_view(contents: Option<Vec<u8>>) -> Option<Seq<u8>> {
    match contents {
        Some(bytes) => Some(bytes@),
        None => None,
    }
}

/// The mathematical value of the outcome of resolving a source.
pub open spec fn payload_view(r: Result<Vec<u8>, ParseError>) -> Result<Seq<u8>, ParseError> {
    match r {
        Ok(bytes) => Ok(bytes@),
        Err(e) => Err(e),
    }
}

impl Source {
    /// Resolves the source to its bytes. `contents` is what the included file
    /// holds, or `None` if it could not be read; a literal needs none.
    pub fn payload(&self, contents: Option<Vec<u8>>) -> (r: Result<Vec<u8>, ParseError>)
        ensures
            payload_view(r) == payload_of(self@, contents_view(contents)),
    {
        match self {
            Source::Text(text) => Ok(text.as_str().as_bytes_vec()),
            Source::File(_, at) => match contents {
                Some(bytes) => Ok(bytes),
                None => Err(ParseError { at: *at, fault: Fault::UnreadableFile, at_end: false }),
            },
        }
    }
}

} // verus!
