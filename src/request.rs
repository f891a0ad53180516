//! Routing of the illustrative server's requests: which page a request asks
//! for, judged by the request line it starts with.
use vstd::prelude::*;

verus! {

/// The page a request is answered with.
pub enum Route {
    /// `GET /`: the greeting page, at once.
    Index,
    /// `GET /sleep`: the greeting page, after a delay.
    Sleep,
    /// Anything else: the not-found page.
    NotFound,
}

/// The bytes of `GET / HTTP/1.1\r\n`.
pub open spec fn index_line() -> Seq<u8> {
    seq![71u8, 69, 84, 32, 47, 32, 72, 84, 84, 80, 47, 49, 46, 49, 13, 10]
}

/// The bytes of `GET /sleep HTTP/1.1\r\n`.
pub open spec fn sleep_line() -> Seq<u8> {
    seq![71u8, 69, 84, 32, 47, 115, 108, 101, 101, 112, 32, 72, 84, 84, 80, 47, 49, 46, 49, 13, 10]
}

/// Whether `s` begins with `prefix`.
pub open spec fn is_prefix(prefix: Seq<u8>, s: Seq<u8>) -> bool {
    prefix.len() <= s.len() && s.take(prefix.len() as int) == prefix
}

/// The route of a request that begins with the bytes `request`.
pub open spec fn route_of(request: Seq<u8>) -> Route {
    if is_prefix(index_line(), request) {
        Route::Index
    } else if is_prefix(sleep_line(), request) {
        Route::Sleep
    } else {
        Route::NotFound
    }
}

fn index_line_bytes() -> (r: Vec<u8>)
    ensures
        r@ == index_line(),
{
    let r = vec![71u8, 69, 84, 32, 47, 32, 72, 84, 84, 80, 47, 49, 46, 49, 13, 10];
    assert(r@ =~= index_line());
    r
}

fn sleep_line_bytes() -> (r: Vec<u8>)
    ensures
        r@ == sleep_line(),
{
    let r = vec![71u8, 69, 84, 32, 47, 115, 108, 101, 101, 112, 32, 72, 84, 84, 80, 47, 49, 46, 49, 13, 10];
    assert(r@ =~= sleep_line());
    r
}

/// Whether `s` begins with `prefix`.
pub fn starts_with(s: &[u8], prefix: &[u8]) -> (r: bool)
    ensures
        r == is_prefix(prefix@, s@),
{
    if prefix.len() > s.len() {
        return false;
    }
    let mut i: usize = 0;
    while i < prefix.len()
        invariant
            prefix@.len() <= s@.len(),
            i <= prefix@.len(),
            forall|k: int| 0 <= k < i ==> s@[k] == prefix@[k],
        decreases prefix@.len() - i,
    {
        if s[i] != prefix[i] {
            assert(s@.take(prefix@.len() as int)[i as int] != prefix@[i as int]);
            return false;
        }
        i = i + 1;
    }
    assert(s@.take(prefix@.len() as int) =~= prefix@);
    true
}

/// The route of the request whose first bytes are `request`.
pub fn route(request: &[u8]) -> (r: Route)
    ensures
        r == route_of(request@),
{
    let index = index_line_bytes();
    if starts_with(request, index.as_slice()) {
        return Route::Index;
    }
    let sleep = sleep_line_bytes();
    if starts_with(request, sleep.as_slice()) {
        Route::Sleep
    } else {
        Route::NotFound
    }
}

impl Route {
    /// The status line the response starts with.
    pub fn status_line(&self) -> (r: &'static str)
        ensures
            r@ == (if *self is NotFound {
                "HTTP/1.1 404 NOT FOUND"@
            } else {
                "HTTP/1.1 200 OK"@
            }),
    {
        match self {
            Route::NotFound => "HTTP/1.1 404 NOT FOUND",
            _ => "HTTP/1.1 200 OK",
        }
    }

    /// The name of the file whose contents are the response's body.
    pub fn file_name(&self) -> (r: &'static str)
        ensures
            r@ == (if *self is NotFound {
                "404.html"@
            } else {
                "hello.html"@
            }),
    {
        match self {
            Route::NotFound => "404.html",
            _ => "hello.html",
        }
    }

    /// Whether the answer is delayed.
    pub fn is_delayed(&self) -> (r: bool)
        ensures
            r == (*self is Sleep),
    {
        match self {
            Route::Sleep => true,
            _ => false,
        }
    }
}

} // verus!
