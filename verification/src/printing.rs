//! The page handed to the browser that prints a paper to PDF.
use vstd::prelude::*;
use crate::text::{
    chars_of, contains, contains_exec, copy_range, extend_chars, extend_vec, find, first_index, occurs_at, replace_char,
    replace_char_exec, starts_with, starts_with_exec, string_of,
};

verus! {

/// The page printed: as given when it states a character set, else with a
/// UTF-8 `meta` tag put right after its first `<head>` (a page without
/// `<head>` is left as it is).
pub open spec fn print_body_spec(html: Seq<char>) -> Seq<char> {
    if contains(html, "<meta charset"@) || contains(html, "charset="@) {
        html
    } else {
        match first_index(html, "<head>"@) {
            Some(i) => html.subrange(0, i) + "<head><meta charset=\"UTF-8\" />"@ + html.subrange(i + 6, html.len() as int),
            None => html,
        }
    }
}

pub fn print_body(html: &str) -> (r: String)
    ensures
        r@ == print_body_spec(html@),
{
    let v = chars_of(html);
    let meta = chars_of("<meta charset");
    let cs = chars_of("charset=");
    if contains_exec(&v, &meta) || contains_exec(&v, &cs) {
        return string_of(&v);
    }
    let head = chars_of("<head>");
    proof {
        reveal_strlit("<head>");
    }
    match find(&v, &head) {
        Some(i) => {
            assert(head@.len() == 6);
            assert(occurs_at(v@, head@, i as int));
            assert(i + 6 <= v.len());
            let mut out = copy_range(&v, 0, i);
            extend_chars(&mut out, "<head><meta charset=\"UTF-8\" />");
            let rest = copy_range(&v, i + 6, v.len());
            extend_vec(&mut out, &rest);
            string_of(&out)
        },
        None => string_of(&v),
    }
}

/// The `file:` address of an absolute path: without the `\\?\` prefix of
/// long Windows paths, with `/` between the parts.
pub open spec fn file_url_spec(path: Seq<char>) -> Seq<char> {
    let p = if starts_with(path, "\\\\?\\"@) { path.subrange(4, path.len() as int) } else { path };
    let u = replace_char(p, '\\', "/"@);
    if u.len() > 0 && u[0] == '/' {
        "file://"@ + u
    } else {
        "file:///"@ + u
    }
}

pub fn file_url_of(path: &str) -> (r: String)
    ensures
        r@ == file_url_spec(path@),
{
    let v = chars_of(path);
    let prefix = chars_of("\\\\?\\");
    proof {
        reveal_strlit("\\\\?\\");
    }
    let p = if starts_with_exec(&v, &prefix) { copy_range(&v, 4, v.len()) } else { copy_range(&v, 0, v.len()) };
    assert(v@.subrange(0, v@.len() as int) =~= v@);
    let slash = chars_of("/");
    let u = replace_char_exec(&p, '\\', &slash);
    let mut out = if u.len() > 0 && u[0] == '/' { chars_of("file://") } else { chars_of("file:///") };
    extend_vec(&mut out, &u);
    string_of(&out)
}

} // verus!
