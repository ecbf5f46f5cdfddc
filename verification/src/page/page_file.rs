//! The file of a page: its name and its content, as bytes and, when those
//! are UTF-8, as text.
use vstd::prelude::*;
use vstd::string::*;
use vstd::utf8::*;
use crate::text;

verus! {

/// The text of some content bytes, when they are UTF-8.
pub open spec fn text_of(bytes: Option<Seq<u8>>) -> Option<Seq<char>> {
    match bytes {
        Some(b) => if valid_utf8(b) {
            Some(decode_utf8(b))
        } else {
            None
        },
        None => None,
    }
}

/// Why content is not saved.
#[derive(Debug, PartialEq, Eq, Structural)]
pub enum SaveRefusal {
    /// There is no content to save.
    NoContent,
    /// The file was opened in debug mode, where nothing is saved.
    DebugMode,
}

/// The end of a file name that `dir_part` cuts off: its last `/` and what
/// follows it.
pub const LAST_NAME_PATTERN: &'static str = r"/[^/]+$";

/// The directory that a file is written into: the name up to its last
/// `/`, found with `LAST_NAME_PATTERN`; `None` when the pattern finds no
/// match (there the save is not made).  The caller creates the directory
/// when it is missing.
pub fn dir_part(filename: &str) -> (r: Option<&str>)
    ensures
        crate::pattern::regex_find_spec(LAST_NAME_PATTERN@, filename@, 0) is None ==> r is None,
        crate::pattern::regex_find_spec(LAST_NAME_PATTERN@, filename@, 0) matches Some(m) ==> (r matches Some(d)
            && d.spec_bytes() == filename.spec_bytes().subrange(0, m.0)),
{
    match crate::pattern::find_at(LAST_NAME_PATTERN, filename, 0) {
        Some(m) => {
            proof {
                text::lemma_bytes_valid(filename@);
            }
            Some(text::substr(filename, 0, m.0))
        },
        None => None,
    }
}

pub struct PageFile {
    filename: String,
    content_bytes: Option<Vec<u8>>,
    content_str: Option<String>,
    debug_mode: bool,
}

impl PageFile {
    /// The file's name.
    pub closed spec fn filename_spec(&self) -> Seq<char> {
        self.filename@
    }

    /// The file's content, when it could be read.
    pub closed spec fn bytes_spec(&self) -> Option<Seq<u8>> {
        match self.content_bytes {
            Some(b) => Some(b@),
            None => None,
        }
    }

    /// The file's content as text, when it is UTF-8.
    pub closed spec fn str_spec(&self) -> Option<Seq<char>> {
        match self.content_str {
            Some(s) => Some(s@),
            None => None,
        }
    }

    /// Whether nothing is to be saved.
    pub closed spec fn debug_spec(&self) -> bool {
        self.debug_mode
    }

    /// The text is always what the bytes hold, when they are UTF-8.
    #[verifier::type_invariant]
    closed spec fn inv(&self) -> bool {
        self.str_spec() == text_of(self.bytes_spec())
    }

    /// A file with the content that was read from it (`None` when it could
    /// not be read).
    pub fn open(filename: &str, content: Option<Vec<u8>>, debug_mode: bool) -> (r: PageFile)
        ensures
            r.filename_spec() == filename@,
            r.bytes_spec() == (match content {
                Some(b) => Some(b@),
                None => None::<Seq<u8>>,
            }),
            r.str_spec() == text_of(r.bytes_spec()),
            r.debug_spec() == debug_mode,
    {
        let content_str = match &content {
            Some(b) => text::from_utf8(b.as_slice()),
            None => None,
        };
        PageFile { filename: String::from_str(filename), content_bytes: content, content_str, debug_mode }
    }

    /// The file's name.
    pub fn filename(&self) -> (r: &str)
        ensures
            r@ == self.filename_spec(),
    {
        self.filename.as_str()
    }

    /// The file's content, when it could be read.
    pub fn content_bytes(&self) -> (r: Option<&Vec<u8>>)
        ensures
            r matches Some(b) ==> self.bytes_spec() == Some(b@),
            r is None ==> self.bytes_spec() is None,
    {
        match &self.content_bytes {
            Some(b) => Some(b),
            None => None,
        }
    }

    /// The file's content as text, when it is UTF-8.
    pub fn content_str(&self) -> (r: Option<&str>)
        ensures
            r matches Some(s) ==> self.str_spec() == Some(s@),
            r is None ==> self.str_spec() is None,
    {
        match &self.content_str {
            Some(s) => Some(s.as_str()),
            None => None,
        }
    }

    /// Whether the text of the content contains `s`; false when the content
    /// is no UTF-8 text.
    pub fn contains(&mut self, s: &str) -> (r: bool)
        ensures
            r == (match old(self).str_spec() {
                Some(t) => text::contains_spec(t, s@),
                None => false,
            }),
            *final(self) == *old(self),
    {
        match self.content_str() {
            Some(v) => text::contains(v, s),
            None => false,
        }
    }

    /// Replaces the content by the given bytes, and the text by what they
    /// hold when they are UTF-8.
    pub fn content_bytes_replace(&mut self, v8: Vec<u8>)
        ensures
            final(self).bytes_spec() == Some(v8@),
            final(self).str_spec() == text_of(Some(v8@)),
            final(self).filename_spec() == old(self).filename_spec(),
            final(self).debug_spec() == old(self).debug_spec(),
    {
        let s = text::from_utf8(v8.as_slice());
        *self = PageFile {
            filename: self.filename.clone(),
            content_bytes: Some(v8),
            content_str: s,
            debug_mode: self.debug_mode,
        };
    }

    /// Replaces the text and the content by the given text and its bytes.
    pub fn content_str_replace(&mut self, s: &str)
        ensures
            final(self).str_spec() == Some(s@),
            final(self).bytes_spec() == Some(s.spec_bytes()),
            final(self).filename_spec() == old(self).filename_spec(),
            final(self).debug_spec() == old(self).debug_spec(),
    {
        proof {
            text::lemma_bytes_valid(s@);
        }
        *self = PageFile {
            filename: self.filename.clone(),
            content_bytes: Some(text::to_bytes(s)),
            content_str: Some(String::from_str(s)),
            debug_mode: self.debug_mode,
        };
    }

    /// The text to write to the file's own name: refused when there is no
    /// text, or in debug mode.
    pub fn content_str_to_save(&self) -> (r: Result<&str, SaveRefusal>)
        ensures
            self.str_spec() is None ==> r == Err::<&str, SaveRefusal>(SaveRefusal::NoContent),
            self.str_spec() is Some && self.debug_spec() ==> r == Err::<&str, SaveRefusal>(
                SaveRefusal::DebugMode,
            ),
            self.str_spec() is Some && !self.debug_spec() ==> r is Ok && Some(r->Ok_0@)
                == self.str_spec(),
    {
        match &self.content_str {
            None => Err(SaveRefusal::NoContent),
            Some(s) => {
                if self.debug_mode {
                    Err(SaveRefusal::DebugMode)
                } else {
                    Ok(s.as_str())
                }
            },
        }
    }

    /// The bytes to write to another name: refused when there are none, or
    /// in debug mode.
    pub fn bytes_to_save_as(&self) -> (r: Result<&Vec<u8>, SaveRefusal>)
        ensures
            self.bytes_spec() is None ==> r == Err::<&Vec<u8>, SaveRefusal>(SaveRefusal::NoContent),
            self.bytes_spec() is Some && self.debug_spec() ==> r == Err::<&Vec<u8>, SaveRefusal>(
                SaveRefusal::DebugMode,
            ),
            self.bytes_spec() is Some && !self.debug_spec() ==> r is Ok && Some(r->Ok_0@)
                == self.bytes_spec(),
    {
        match &self.content_bytes {
            None => Err(SaveRefusal::NoContent),
            Some(b) => {
                if self.debug_mode {
                    Err(SaveRefusal::DebugMode)
                } else {
                    Ok(b)
                }
            },
        }
    }
}

} // verus!
