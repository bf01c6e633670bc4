use vstd::prelude::*;

verus! {

// The response side of the HTTP runtime: a received response with its status, body and
// headers, the success test, and header lookup by case-insensitive name.

/// A character with ASCII upper case mapped to lower case.
pub open spec fn ascii_lower_char(c: char) -> char {
    if 'A' <= c && c <= 'Z' {
        ((c as u32) + 32) as char
    } else {
        c
    }
}

/// A text with ASCII upper case mapped to lower case; other characters are kept.
pub open spec fn ascii_lower(s: Seq<char>) -> Seq<char> {
    s.map_values(|c: char| ascii_lower_char(c))
}

/// Calls `str::to_ascii_lowercase`, which std documents as mapping `'A'..='Z'` to
/// `'a'..='z'` and leaving every other character unchanged.
#[verifier::external_body]
fn to_ascii_lower(s: &str) -> (r: String)
    ensures
        r@ == ascii_lower(s@),
{
    s.to_ascii_lowercase()
}

/// A received HTTP response. Header names are held in lower case.
pub struct HttpResponse {
    pub status: i64,
    pub body: String,
    pub headers: Vec<(String, String)>,
}

/// The index of the first header named `name`, if any.
pub open spec fn first_header(headers: Seq<(String, String)>, name: Seq<char>) -> Option<int> {
    if exists|i: int| 0 <= i < headers.len() && (#[trigger] headers[i]).0@ == name {
        Some(choose|i: int| 0 <= i < headers.len() && (#[trigger] headers[i]).0@ == name
            && forall|j: int| 0 <= j < i ==> (#[trigger] headers[j]).0@ != name)
    } else {
        None
    }
}

impl HttpResponse {
    /// A response with the given status and body; header names are lower-cased and the
    /// headers keep their order.
    pub fn new(status: i64, body: String, raw_headers: &Vec<(String, String)>) -> (r: Self)
        ensures
            r.status == status,
            r.body == body,
            r.headers@.len() == raw_headers@.len(),
            forall|i: int| 0 <= i < raw_headers@.len() ==> {
                &&& (#[trigger] r.headers@[i]).0@ == ascii_lower(raw_headers@[i].0@)
                &&& r.headers@[i].1 == raw_headers@[i].1
            },
    {
        let mut headers: Vec<(String, String)> = Vec::new();
        let mut i: usize = 0;
        while i < raw_headers.len()
            invariant
                i <= raw_headers@.len(),
                headers@.len() == i,
                forall|k: int| 0 <= k < i ==> {
                    &&& (#[trigger] headers@[k]).0@ == ascii_lower(raw_headers@[k].0@)
                    &&& headers@[k].1 == raw_headers@[k].1
                },
            decreases raw_headers.len() - i,
        {
            let key = to_ascii_lower(raw_headers[i].0.as_str());
            headers.push((key, raw_headers[i].1.clone()));
            i += 1;
        }
        HttpResponse { status, body, headers }
    }

    /// Whether the status is a success, 200 to 299.
    pub fn ok(&self) -> (r: bool)
        ensures
            r == (200 <= self.status && self.status < 300),
    {
        self.status >= 200 && self.status < 300
    }

    /// The value of the first header whose name is `name` compared without regard to
    /// ASCII case.
    pub fn header(&self, name: &str) -> (r: Option<&String>)
        ensures
            match first_header(self.headers@, ascii_lower(name@)) {
                Some(i) => r == Some(&self.headers@[i].1),
                None => r is None,
            },
    {
        let lower = to_ascii_lower(name);
        let mut i: usize = 0;
        while i < self.headers.len()
            invariant
                i <= self.headers@.len(),
                lower@ == ascii_lower(name@),
                forall|j: int| 0 <= j < i ==> (#[trigger] self.headers@[j]).0@ != lower@,
            decreases self.headers.len() - i,
        {
            if self.headers[i].0 == lower {
                proof {
                    let hs = self.headers@;
                    assert(hs[i as int].0@ == lower@);
                    let c = choose|c: int| 0 <= c < hs.len() && (#[trigger] hs[c]).0@ == lower@
                        && forall|j: int| 0 <= j < c ==> (#[trigger] hs[j]).0@ != lower@;
                    if c < i {
                    } else if c > i {
                        assert(hs[i as int].0@ != lower@);
                    }
                }
                return Some(&self.headers[i].1);
            }
            i += 1;
        }
        None
    }
}

} // verus!
