//! The decisions of a handler that serves files below a root directory.
//! Resolving and reading files is left to the caller; every answer that
//! reaches a client goes through `respond`, which never serves a path that
//! left the root.
use vstd::prelude::*;
use vstd::string::*;

use crate::method::Method;
use crate::request::Request;
use crate::response::Response;
use crate::status_code::StatusCode;

verus! {

/// The file a path names below the root: `/` names `index.html`.
pub open spec fn relative_target(path: Seq<char>) -> Seq<char> {
    if path == "/"@ {
        "index.html"@
    } else {
        path
    }
}

/// `p` is `root` itself or lies below it, comparing whole path components:
/// `/srv/public-other` does not lie below `/srv/public`.
pub open spec fn within_root(root: Seq<char>, p: Seq<char>) -> bool {
    &&& root.len() <= p.len()
    &&& p.take(root.len() as int) == root
    &&& (p.len() == root.len() || (root.len() > 0 && root.last() == '/') || p[root.len() as int]
        == '/')
}

/// The status and body for a resolved path and the text read from it.
pub open spec fn respond_spec(
    root: Seq<char>,
    resolved: Option<Seq<char>>,
    content: Option<Seq<char>>,
) -> (StatusCode, Option<Seq<char>>) {
    match (resolved, content) {
        (Some(p), Some(c)) => if within_root(root, p) {
            (StatusCode::OK, Some(c))
        } else {
            (StatusCode::NotFound, None)
        },
        _ => (StatusCode::NotFound, None),
    }
}

/// Serves files from a root directory.
pub struct FileServer {
    public_path: String,
}

impl FileServer {
    /// The root directory.
    pub closed spec fn root(&self) -> Seq<char> {
        self.public_path@
    }

    /// A server of the files below `public_path`. The root is compared as
    /// text with canonical paths, so it should itself be canonical: absolute,
    /// with no `.` or `..` segments, no doubled `/` and no symbolic links.
    pub fn new(public_path: String) -> (r: Self)
        ensures
            r.root() == public_path@,
    {
        Self { public_path }
    }

    /// The path to resolve for a request: the root, a slash, and the file
    /// the request names. Only `GET` requests name a file.
    pub fn file_for(&self, request: &Request) -> (r: Option<String>)
        ensures
            r is Some <==> request@.method == Method::GET,
            r matches Some(p) ==> p@ == self.root() + "/"@ + relative_target(request@.path),
    {
        match request.method() {
            Method::GET => {
                let path = request.path();
                let relative = if crate::text::same_text(path, "/") {
                    "index.html"
                } else {
                    path
                };
                let mut full = self.public_path.clone();
                proof {
                    assert(full@ == self.public_path@);
                }
                full.append("/");
                full.append(relative);
                Some(full)
            },
            _ => None,
        }
    }

    /// Whether a resolved path lies within the root.
    pub fn contains(&self, resolved: &str) -> (r: bool)
        ensures
            r == within_root(self.root(), resolved@),
    {
        let root = self.public_path.as_str();
        let n = root.unicode_len();
        let m = resolved.unicode_len();
        if n > m {
            return false;
        }
        let mut i: usize = 0;
        while i < n
            invariant
                n == root@.len(),
                m == resolved@.len(),
                n <= m,
                i <= n,
                root@ == self.public_path@,
                forall|j: int| 0 <= j < i ==> root@[j] == resolved@[j],
            decreases n - i,
        {
            if root.get_char(i) != resolved.get_char(i) {
                proof {
                    assert(resolved@.take(n as int)[i as int] == resolved@[i as int]);
                }
                return false;
            }
            i = i + 1;
        }
        assert(resolved@.take(n as int) =~= root@);
        if n == m {
            true
        } else if n > 0 && root.get_char(n - 1) == '/' {
            true
        } else {
            resolved.get_char(n) == '/'
        }
    }

    /// The answer for a request, given the path it resolved to (`None`
    /// where it named no file or did not resolve) and the text read from
    /// that path (`None` where it could not be read). A path outside the
    /// root is never served.
    pub fn respond(&self, resolved: Option<&str>, content: Option<String>) -> (r: Response)
        ensures
            (r.status_code, r.body_view()) == respond_spec(
                self.root(),
                match resolved {
                    Some(p) => Some(p@),
                    None => None,
                },
                match content {
                    Some(c) => Some(c@),
                    None => None,
                },
            ),
    {
        match resolved {
            Some(p) => if self.contains(p) {
                match content {
                    Some(c) => Response::new(StatusCode::OK, Some(c)),
                    None => Response::new(StatusCode::NotFound, None),
                }
            } else {
                Response::new(StatusCode::NotFound, None)
            },
            None => Response::new(StatusCode::NotFound, None),
        }
    }
}

/// A resolved path outside the root is answered with 404 and no body,
/// whatever text the caller read.
pub proof fn lemma_escape_is_not_found(
    root: Seq<char>,
    resolved: Seq<char>,
    content: Option<Seq<char>>,
)
    requires
        !within_root(root, resolved),
    ensures
        respond_spec(root, Some(resolved), content) == (StatusCode::NotFound, None::<Seq<char>>),
{
}

/// A path that did not resolve, or a file that could not be read, is
/// answered with 404 and no body.
pub proof fn lemma_missing_is_not_found(
    root: Seq<char>,
    resolved: Option<Seq<char>>,
    content: Option<Seq<char>>,
)
    requires
        resolved is None || content is None,
    ensures
        respond_spec(root, resolved, content) == (StatusCode::NotFound, None::<Seq<char>>),
{
}

/// A file below the root that was read is served whole with 200.
pub proof fn lemma_contained_is_served(root: Seq<char>, resolved: Seq<char>, content: Seq<char>)
    requires
        within_root(root, resolved),
    ensures
        respond_spec(root, Some(resolved), Some(content)) == (StatusCode::OK, Some(content)),
{
}

} // verus!
