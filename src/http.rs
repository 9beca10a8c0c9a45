//! The closed set of HTTP verbs a route may be registered for.

use vstd::prelude::*;

verus! {

/// A recognised HTTP verb; its name is the lowercase word (`get`, `post`, ...).
#[derive(Debug, Clone, Copy, PartialEq, Eq, Structural)]
pub enum HttpMethod {
    Any,
    Delete,
    Get,
    Head,
    Options,
    Patch,
    Post,
    Put,
    Trace,
}

/// `c` with ASCII upper-case letters taken to lower case, as a code point.
pub open spec fn fold_char(c: char) -> u32 {
    if 'A' <= c && c <= 'Z' {
        (c as u32 + 32) as u32
    } else {
        c as u32
    }
}

/// `a` and `b` are equal when ASCII letters are compared without case.
pub open spec fn eq_ignore_ascii_case(a: Seq<char>, b: Seq<char>) -> bool {
    a.len() == b.len() && forall|i: int| 0 <= i < a.len() ==> fold_char(#[trigger] a[i]) == fold_char(b[i])
}

/// Every recognised verb, in the order they are listed to users.
pub open spec fn all_methods() -> Seq<HttpMethod> {
    seq![
        HttpMethod::Any,
        HttpMethod::Delete,
        HttpMethod::Get,
        HttpMethod::Head,
        HttpMethod::Options,
        HttpMethod::Patch,
        HttpMethod::Post,
        HttpMethod::Put,
        HttpMethod::Trace,
    ]
}

impl HttpMethod {
    /// The verb's lowercase name.
    pub open spec fn name(self) -> Seq<char> {
        match self {
            HttpMethod::Any => seq!['a', 'n', 'y'],
            HttpMethod::Delete => seq!['d', 'e', 'l', 'e', 't', 'e'],
            HttpMethod::Get => seq!['g', 'e', 't'],
            HttpMethod::Head => seq!['h', 'e', 'a', 'd'],
            HttpMethod::Options => seq!['o', 'p', 't', 'i', 'o', 'n', 's'],
            HttpMethod::Patch => seq!['p', 'a', 't', 'c', 'h'],
            HttpMethod::Post => seq!['p', 'o', 's', 't'],
            HttpMethod::Put => seq!['p', 'u', 't'],
            HttpMethod::Trace => seq!['t', 'r', 'a', 'c', 'e'],
        }
    }

    /// The verb's lowercase name.
    pub fn as_str(&self) -> (r: &'static str)
        ensures
            r@ == self.name(),
    {
        match self {
            HttpMethod::Any => {
                proof { reveal_strlit("any"); }
                "any"
            },
            HttpMethod::Delete => {
                proof { reveal_strlit("delete"); }
                "delete"
            },
            HttpMethod::Get => {
                proof { reveal_strlit("get"); }
                "get"
            },
            HttpMethod::Head => {
                proof { reveal_strlit("head"); }
                "head"
            },
            HttpMethod::Options => {
                proof { reveal_strlit("options"); }
                "options"
            },
            HttpMethod::Patch => {
                proof { reveal_strlit("patch"); }
                "patch"
            },
            HttpMethod::Post => {
                proof { reveal_strlit("post"); }
                "post"
            },
            HttpMethod::Put => {
                proof { reveal_strlit("put"); }
                "put"
            },
            HttpMethod::Trace => {
                proof { reveal_strlit("trace"); }
                "trace"
            },
        }
    }

    /// Every recognised verb.
    pub fn all() -> (r: Vec<HttpMethod>)
        ensures
            r@ == all_methods(),
    {
        let r = vec![
            HttpMethod::Any,
            HttpMethod::Delete,
            HttpMethod::Get,
            HttpMethod::Head,
            HttpMethod::Options,
            HttpMethod::Patch,
            HttpMethod::Post,
            HttpMethod::Put,
            HttpMethod::Trace,
        ];
        assert(r@ =~= all_methods());
        r
    }

    /// The verb whose name equals `s` up to ASCII case, if any.
    pub fn from_name(s: &str) -> (r: Option<HttpMethod>)
        ensures
            r matches Some(m) ==> eq_ignore_ascii_case(s@, m.name()),
            r is None ==> forall|m: HttpMethod| !eq_ignore_ascii_case(s@, #[trigger] m.name()),
    {
        let all = HttpMethod::all();
        let mut i: usize = 0;
        while i < all.len()
            invariant
                all@ == all_methods(),
                i <= all.len(),
                forall|j: int| 0 <= j < i ==> !eq_ignore_ascii_case(s@, #[trigger] all@[j].name()),
            decreases all.len() - i,
        {
            let m = all[i];
            if eq_ignore_case_str(s, m.as_str()) {
                return Some(m);
            }
            i = i + 1;
        }
        proof {
            assert forall|m: HttpMethod| !eq_ignore_ascii_case(s@, #[trigger] m.name()) by {
                let j: int = match m {
                    HttpMethod::Any => 0,
                    HttpMethod::Delete => 1,
                    HttpMethod::Get => 2,
                    HttpMethod::Head => 3,
                    HttpMethod::Options => 4,
                    HttpMethod::Patch => 5,
                    HttpMethod::Post => 6,
                    HttpMethod::Put => 7,
                    HttpMethod::Trace => 8,
                };
                assert(all@[j] == m);
            }
        }
        None
    }
}

impl HttpMethod {
    /// The verb whose name is exactly `s`, if any.
    pub fn from_exact_name(s: &str) -> (r: Option<HttpMethod>)
        ensures
            r matches Some(m) ==> s@ == m.name(),
            r is None ==> forall|m: HttpMethod| s@ != #[trigger] m.name(),
    {
        let all = HttpMethod::all();
        let mut i: usize = 0;
        while i < all.len()
            invariant
                all@ == all_methods(),
                i <= all.len(),
                forall|j: int| 0 <= j < i ==> s@ != #[trigger] all@[j].name(),
            decreases all.len() - i,
        {
            let m = all[i];
            if crate::text::str_eq(s, m.as_str()) {
                return Some(m);
            }
            i = i + 1;
        }
        proof {
            assert forall|m: HttpMethod| s@ != #[trigger] m.name() by {
                let j: int = match m {
                    HttpMethod::Any => 0,
                    HttpMethod::Delete => 1,
                    HttpMethod::Get => 2,
                    HttpMethod::Head => 3,
                    HttpMethod::Options => 4,
                    HttpMethod::Patch => 5,
                    HttpMethod::Post => 6,
                    HttpMethod::Put => 7,
                    HttpMethod::Trace => 8,
                };
                assert(all@[j] == m);
            }
        }
        None
    }
}

fn fold_char_exec(c: char) -> (r: u32)
    ensures
        r == fold_char(c),
{
    if 'A' <= c && c <= 'Z' {
        c as u32 + 32
    } else {
        c as u32
    }
}

/// Compares two strings with ASCII letters taken without case.
pub fn eq_ignore_case_str(a: &str, b: &str) -> (r: bool)
    ensures
        r == eq_ignore_ascii_case(a@, b@),
{
    let n = a.unicode_len();
    if n != b.unicode_len() {
        return false;
    }
    let mut i: usize = 0;
    while i < n
        invariant
            n == a@.len(),
            n == b@.len(),
            i <= n,
            forall|j: int| 0 <= j < i ==> fold_char(#[trigger] a@[j]) == fold_char(b@[j]),
        decreases n - i,
    {
        if fold_char_exec(a.get_char(i)) != fold_char_exec(b.get_char(i)) {
            return false;
        }
        i = i + 1;
    }
    true
}

} // verus!
