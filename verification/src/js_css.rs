//! The script and style sheet that the pages load: which files they go to
//! and what is written there.
use vstd::prelude::*;
use crate::text;

verus! {

/// The file that the source of a kind (`js`, `css`) goes to: `pages/wc.<kind>`.
pub open spec fn source_file(dtype: Seq<char>) -> Seq<char> {
    "pages/wc."@ + dtype
}

/// The bytes written for a source: its text without leading and trailing
/// white space.
pub open spec fn source_bytes(source: Seq<char>) -> Seq<u8> {
    text::bytes_of(text::trim_spec(source))
}

/// The files to write when the server is set up, in order: the script
/// (`js_source`) to `pages/wc.js` and the style sheet (`css_source`) to
/// `pages/wc.css`, each trimmed.  The caller writes them.
pub fn setup(js_source: &str, css_source: &str) -> (r: Vec<(String, Vec<u8>)>)
    ensures
        r@.len() == 2,
        r@[0].0@ == source_file("js"@),
        r@[0].1@ == source_bytes(js_source@),
        r@[1].0@ == source_file("css"@),
        r@[1].1@ == source_bytes(css_source@),
{
    proof {
        reveal_strlit("js");
        reveal_strlit("css");
        assert("css"@ != "js"@) by {
            assert("css"@.len() != "js"@.len());
        }
    }
    let mut out: Vec<(String, Vec<u8>)> = Vec::new();
    out.push(handle_dtype("js", js_source, css_source));
    out.push(handle_dtype("css", js_source, css_source));
    out
}

/// The file and bytes for the source of kind `dtype`; an unknown kind gets
/// nothing written.
fn handle_dtype(dtype: &str, js_source: &str, css_source: &str) -> (r: (String, Vec<u8>))
    ensures
        r.0@ == source_file(dtype@),
        r.1@ == source_bytes(if dtype@ == "js"@ {
            js_source@
        } else if dtype@ == "css"@ {
            css_source@
        } else {
            Seq::empty()
        }),
{
    let filename = text::concat("pages/wc.", dtype);
    let source: &str = if text::str_eq(dtype, "js") {
        js_source
    } else if text::str_eq(dtype, "css") {
        css_source
    } else {
        ""
    };
    proof {
        reveal_strlit("");
    }
    let trimmed = text::trim(source);
    (filename, text::to_bytes(trimmed.as_str()))
}

} // verus!
