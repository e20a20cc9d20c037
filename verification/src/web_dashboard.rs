//! The dashboard's static-file routing: which file a request path names and
//! the content type it is served with.
use vstd::prelude::*;
use vstd::string::*;
use crate::text::str_eq;

verus! {

/// The file served for the root path.
pub const INDEX_FILE: &'static str = "index.html";

/// The text after the last `.` of `s`, or all of `s` when it has none.
pub open spec fn after_last_dot(s: Seq<char>) -> Seq<char>
    decreases s.len(),
{
    if s.len() == 0 {
        s
    } else if s.last() == '.' {
        Seq::empty()
    } else {
        after_last_dot(s.drop_last()).push(s.last())
    }
}

/// `s` without its leading `/` characters.
pub open spec fn strip_leading_slashes(s: Seq<char>) -> Seq<char>
    decreases s.len(),
{
    if s.len() > 0 && s[0] == '/' {
        strip_leading_slashes(s.drop_first())
    } else {
        s
    }
}

/// The content type for a file extension.
pub open spec fn mime_type(ext: Seq<char>) -> Seq<char> {
    if ext == "html"@ {
        "text/html; charset=utf-8"@
    } else if ext == "css"@ {
        "text/css; charset=utf-8"@
    } else if ext == "js"@ {
        "application/javascript; charset=utf-8"@
    } else if ext == "svg"@ {
        "image/svg+xml"@
    } else if ext == "png"@ {
        "image/png"@
    } else if ext == "ico"@ {
        "image/x-icon"@
    } else if ext == "json"@ {
        "application/json"@
    } else {
        "application/octet-stream"@
    }
}

/// The text after the last `.` of `path` (all of it when there is none).
pub fn extension(path: &str) -> (r: &str)
    ensures
        r@ == after_last_dot(path@),
{
    let n = path.unicode_len();
    let mut i: usize = n;
    proof {
        assert(path@.take(n as int) =~= path@);
        assert(path@ + path@.subrange(n as int, n as int) =~= path@);
    }
    while i > 0 && path.get_char(i - 1) != '.'
        invariant
            n == path@.len(),
            i <= n,
            after_last_dot(path@) == after_last_dot(path@.take(i as int)) + path@.subrange(i as int, n as int),
        decreases i,
    {
        proof {
            let t = path@.take(i as int);
            assert(t.drop_last() =~= path@.take(i - 1));
            assert(t.last() == path@[i - 1]);
            assert(path@.subrange(i - 1, n as int) =~= seq![path@[i - 1]] + path@.subrange(i as int, n as int));
            assert(after_last_dot(path@.take(i - 1)).push(path@[i - 1]) + path@.subrange(i as int, n as int)
                =~= after_last_dot(path@.take(i - 1)) + path@.subrange(i - 1, n as int));
        }
        i = i - 1;
    }
    proof {
        if i > 0 {
            let t = path@.take(i as int);
            assert(t.last() == path@[i - 1]);
        } else {
            assert(path@.take(0) =~= Seq::<char>::empty());
        }
        assert(after_last_dot(path@) =~= path@.subrange(i as int, n as int));
    }
    path.substring_char(i, n)
}

/// The content type of a file, by the text after the last `.` of its path.
pub fn mime_for(path: &str) -> (r: &'static str)
    ensures
        r@ == mime_type(after_last_dot(path@)),
{
    let ext = extension(path);
    if str_eq(ext, "html") {
        "text/html; charset=utf-8"
    } else if str_eq(ext, "css") {
        "text/css; charset=utf-8"
    } else if str_eq(ext, "js") {
        "application/javascript; charset=utf-8"
    } else if str_eq(ext, "svg") {
        "image/svg+xml"
    } else if str_eq(ext, "png") {
        "image/png"
    } else if str_eq(ext, "ico") {
        "image/x-icon"
    } else if str_eq(ext, "json") {
        "application/json"
    } else {
        "application/octet-stream"
    }
}

/// The file a request path names: the path without its leading slashes.
pub fn static_file_path(path: &str) -> (r: &str)
    ensures
        r@ == strip_leading_slashes(path@),
{
    let n = path.unicode_len();
    let mut i: usize = 0;
    proof {
        assert(path@.subrange(0, n as int) =~= path@);
    }
    while i < n && path.get_char(i) == '/'
        invariant
            n == path@.len(),
            i <= n,
            strip_leading_slashes(path@) == strip_leading_slashes(path@.subrange(i as int, n as int)),
        decreases n - i,
    {
        proof {
            assert(path@.subrange(i as int, n as int).drop_first() =~= path@.subrange(i + 1, n as int));
        }
        i = i + 1;
    }
    proof {
        let rest = path@.subrange(i as int, n as int);
        if i < n {
            assert(rest[0] == path@[i as int]);
        }
    }
    path.substring_char(i, n)
}

/// The body of the answer to a request for a missing file.
pub fn not_found_body(path: &str) -> (r: String)
    ensures
        r@ == "Not found: "@ + path@,
{
    let mut s = String::new();
    s.append("Not found: ");
    s.append(path);
    proof {
        assert(s@ =~= "Not found: "@ + path@);
    }
    s
}

} // verus!
