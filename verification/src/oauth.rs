use vstd::prelude::*;

verus! {

/// Whether `n` occurs in `h` starting at index `i`.
pub open spec fn match_at(h: Seq<u8>, n: Seq<u8>, i: int) -> bool {
    &&& 0 <= i
    &&& i + n.len() <= h.len()
    &&& forall|k: int| 0 <= k < n.len() ==> h[i + k] == n[k]
}

/// Whether `n` occurs anywhere in `h` as a contiguous run.
pub open spec fn contains_seq(h: Seq<u8>, n: Seq<u8>) -> bool {
    exists|i: int| match_at(h, n, i)
}

/// Bytewise check that `n` occurs in `h` at index `i`.
fn matches_at(h: &Vec<u8>, n: &Vec<u8>, i: usize) -> (r: bool)
    requires
        i + n@.len() <= h@.len(),
    ensures
        r == match_at(h@, n@, i as int),
{
    let hl = h.len();
    let mut k: usize = 0;
    while k < n.len()
        invariant
            hl == h@.len(),
            i + n@.len() <= h@.len(),
            k <= n@.len(),
            forall|k2: int| 0 <= k2 < k ==> h@[i + k2] == n@[k2],
        decreases n@.len() - k,
    {
        if h[i + k] != n[k] {
            return false;
        }
        k += 1;
    }
    true
}

/// Whether `h` contains `n` as a contiguous run of bytes.
pub fn contains_bytes(h: &Vec<u8>, n: &Vec<u8>) -> (r: bool)
    ensures
        r == contains_seq(h@, n@),
{
    if n.len() == 0 {
        assert(match_at(h@, n@, 0));
        return true;
    }
    if n.len() > h.len() {
        return false;
    }
    let hl = h.len();
    let last = hl - n.len();
    let mut i: usize = 0;
    while i <= last
        invariant
            hl == h@.len(),
            1 <= n@.len() <= h@.len(),
            last == h@.len() - n@.len(),
            i <= last + 1,
            forall|i2: int| 0 <= i2 < i ==> !match_at(h@, n@, i2),
        decreases last + 1 - i,
    {
        if matches_at(h, n, i) {
            return true;
        }
        i += 1;
    }
    assert forall|i2: int| !match_at(h@, n@, i2) by {
        if 0 <= i2 < i {
        }
    }
    false
}

/// ASCII whitespace, as the request line is tokenized: space, tab, carriage
/// return, line feed.
pub open spec fn is_ws(b: u8) -> bool {
    b == 32 || b == 9 || b == 13 || b == 10
}

/// The index of the first line feed in `s` at or after `i`, or the length if
/// there is none.
pub open spec fn line_end_from(s: Seq<u8>, i: int) -> int
    decreases s.len() - i,
{
    if i < 0 || i >= s.len() {
        s.len() as int
    } else if s[i] == 10 {
        i
    } else {
        line_end_from(s, i + 1)
    }
}

/// The first non-whitespace index in `s` at or after `i`, or the length.
pub open spec fn skip_ws(s: Seq<u8>, i: int) -> int
    decreases s.len() - i,
{
    if i < 0 || i >= s.len() {
        s.len() as int
    } else if is_ws(s[i]) {
        skip_ws(s, i + 1)
    } else {
        i
    }
}

/// The first whitespace index in `s` at or after `i`, or the length.
pub open spec fn skip_token(s: Seq<u8>, i: int) -> int
    decreases s.len() - i,
{
    if i < 0 || i >= s.len() {
        s.len() as int
    } else if !is_ws(s[i]) {
        skip_token(s, i + 1)
    } else {
        i
    }
}

/// The second whitespace-separated token of the first line of `req` — for an
/// HTTP request line, the path — if the first line has a second token.
pub open spec fn request_path(req: Seq<u8>) -> Option<Seq<u8>> {
    let line = req.subrange(0, line_end_from(req, 0));
    let a = skip_ws(line, 0);
    let b = skip_token(line, a);
    let c = skip_ws(line, b);
    let d = skip_token(line, c);
    if c < line.len() {
        Some(line.subrange(c, d))
    } else {
        None
    }
}

/// The index just past the first line of `req`: the first line-feed
/// position, or the end of the request.
fn find_line_end(req: &Vec<u8>) -> (e: usize)
    ensures
        e == line_end_from(req@, 0),
        e <= req@.len(),
{
    let mut i: usize = 0;
    while i < req.len()
        invariant
            i <= req@.len(),
            line_end_from(req@, 0) == line_end_from(req@, i as int),
        decreases req@.len() - i,
    {
        if req[i] == 10 {
            return i;
        }
        i += 1;
    }
    i
}

/// The first non-whitespace index of the first `e` bytes of `req`, at or
/// after `from`.
fn scan_ws(req: &Vec<u8>, e: usize, from: usize) -> (r: usize)
    requires
        e <= req@.len(),
        from <= e,
    ensures
        r == skip_ws(req@.subrange(0, e as int), from as int),
        from <= r <= e,
{
    let ghost line = req@.subrange(0, e as int);
    let mut i: usize = from;
    while i < e
        invariant
            from <= i <= e,
            e <= req@.len(),
            line == req@.subrange(0, e as int),
            skip_ws(line, from as int) == skip_ws(line, i as int),
        decreases e - i,
    {
        let b = req[i];
        assert(line[i as int] == b);
        if !(b == 32 || b == 9 || b == 13 || b == 10) {
            return i;
        }
        i += 1;
    }
    i
}

/// The first whitespace index of the first `e` bytes of `req`, at or after
/// `from`.
fn scan_token(req: &Vec<u8>, e: usize, from: usize) -> (r: usize)
    requires
        e <= req@.len(),
        from <= e,
    ensures
        r == skip_token(req@.subrange(0, e as int), from as int),
        from <= r <= e,
{
    let ghost line = req@.subrange(0, e as int);
    let mut i: usize = from;
    while i < e
        invariant
            from <= i <= e,
            e <= req@.len(),
            line == req@.subrange(0, e as int),
            skip_token(line, from as int) == skip_token(line, i as int),
        decreases e - i,
    {
        let b = req[i];
        assert(line[i as int] == b);
        if b == 32 || b == 9 || b == 13 || b == 10 {
            return i;
        }
        i += 1;
    }
    i
}

/// The bytes of the favicon probe marker "GET /favicon.ico".
pub open spec fn favicon_probe() -> Seq<u8> {
    seq![
        71u8, 69u8, 84u8, 32u8, 47u8, 102u8, 97u8, 118u8, 105u8, 99u8, 111u8, 110u8, 46u8, 105u8,
        99u8, 111u8,
    ]
}

/// The bytes of the request-line prefix "GET /".
pub open spec fn get_prefix() -> Seq<u8> {
    seq![71u8, 69u8, 84u8, 32u8, 47u8]
}

/// The bytes of the authorization-code marker "code=".
pub open spec fn code_param() -> Seq<u8> {
    seq![99u8, 111u8, 100u8, 101u8, 61u8]
}

/// The bytes of the authorization-error marker "error=".
pub open spec fn error_param() -> Seq<u8> {
    seq![101u8, 114u8, 114u8, 111u8, 114u8, 61u8]
}

/// The bytes of the loopback base address "http://localhost:1420".
pub open spec fn url_prefix() -> Seq<u8> {
    seq![
        104u8, 116u8, 116u8, 112u8, 58u8, 47u8, 47u8, 108u8, 111u8, 99u8, 97u8, 108u8, 104u8, 111u8,
        115u8, 116u8, 58u8, 49u8, 52u8, 50u8, 48u8,
    ]
}

fn favicon_probe_bytes() -> (v: Vec<u8>)
    ensures
        v@ == favicon_probe(),
{
    let mut v: Vec<u8> = Vec::new();
    v.push(71u8);
    v.push(69u8);
    v.push(84u8);
    v.push(32u8);
    v.push(47u8);
    v.push(102u8);
    v.push(97u8);
    v.push(118u8);
    v.push(105u8);
    v.push(99u8);
    v.push(111u8);
    v.push(110u8);
    v.push(46u8);
    v.push(105u8);
    v.push(99u8);
    v.push(111u8);
    proof {
        assert(v@ =~= favicon_probe());
    }
    v
}

fn get_prefix_bytes() -> (v: Vec<u8>)
    ensures
        v@ == get_prefix(),
{
    let mut v: Vec<u8> = Vec::new();
    v.push(71u8);
    v.push(69u8);
    v.push(84u8);
    v.push(32u8);
    v.push(47u8);
    proof {
        assert(v@ =~= get_prefix());
    }
    v
}

fn code_param_bytes() -> (v: Vec<u8>)
    ensures
        v@ == code_param(),
{
    let mut v: Vec<u8> = Vec::new();
    v.push(99u8);
    v.push(111u8);
    v.push(100u8);
    v.push(101u8);
    v.push(61u8);
    proof {
        assert(v@ =~= code_param());
    }
    v
}

fn error_param_bytes() -> (v: Vec<u8>)
    ensures
        v@ == error_param(),
{
    let mut v: Vec<u8> = Vec::new();
    v.push(101u8);
    v.push(114u8);
    v.push(114u8);
    v.push(111u8);
    v.push(114u8);
    v.push(61u8);
    proof {
        assert(v@ =~= error_param());
    }
    v
}

/// What the listener does with one incoming request.
pub enum ListenerVerdict {
    /// Not the awaited redirect: answer 404 and keep the listener alive.
    KeepWaiting,
    /// The redirect carrying the authorization code or error: answer the
    /// confirmation page and hand the captured path back to the caller.
    Complete(Vec<u8>),
}

/// The listener's decision for one request: a request mentioning the favicon
/// probe is ignored; otherwise a request starting "GET /" whose request-line
/// path carries an authorization code or error parameter completes the wait
/// with that path; anything else is ignored. `None` means answer 404 and keep
/// waiting.
pub open spec fn verdict_spec(req: Seq<u8>) -> Option<Seq<u8>> {
    if contains_seq(req, favicon_probe()) {
        None
    } else if match_at(req, get_prefix(), 0) {
        match request_path(req) {
            Some(p) => if contains_seq(p, code_param()) || contains_seq(p, error_param()) {
                Some(p)
            } else {
                None
            },
            None => None,
        }
    } else {
        None
    }
}

/// Decide what to do with one incoming request, exactly as `verdict_spec`
/// says: ignore favicon probes without terminating, complete on a "GET /"
/// request whose path carries "code=" or "error=", and ignore everything
/// else.
pub fn classify_request(req: &Vec<u8>) -> (v: ListenerVerdict)
    ensures
        match v {
            ListenerVerdict::KeepWaiting => verdict_spec(req@) is None,
            ListenerVerdict::Complete(p) => verdict_spec(req@) == Some(p@),
        },
{
    let favicon = favicon_probe_bytes();
    if contains_bytes(req, &favicon) {
        return ListenerVerdict::KeepWaiting;
    }
    let get_pat = get_prefix_bytes();
    if req.len() < get_pat.len() {
        assert(!match_at(req@, get_prefix(), 0));
        return ListenerVerdict::KeepWaiting;
    }
    if !matches_at(req, &get_pat, 0) {
        return ListenerVerdict::KeepWaiting;
    }
    let e = find_line_end(req);
    let ghost line = req@.subrange(0, e as int);
    let a = scan_ws(req, e, 0);
    let b = scan_token(req, e, a);
    let c = scan_ws(req, e, b);
    if c >= e {
        assert(request_path(req@) is None);
        return ListenerVerdict::KeepWaiting;
    }
    let d = scan_token(req, e, c);
    let mut path: Vec<u8> = Vec::new();
    let mut k: usize = c;
    while k < d
        invariant
            c <= k <= d,
            d <= e,
            e <= req@.len(),
            path@ =~= req@.subrange(c as int, k as int),
        decreases d - k,
    {
        path.push(req[k]);
        k += 1;
    }
    proof {
        assert(path@ =~= line.subrange(c as int, d as int));
        assert(request_path(req@) == Some(path@));
    }
    let code_pat = code_param_bytes();
    let error_pat = error_param_bytes();
    if contains_bytes(&path, &code_pat) || contains_bytes(&path, &error_pat) {
        ListenerVerdict::Complete(path)
    } else {
        ListenerVerdict::KeepWaiting
    }
}

/// The full local URL for a captured redirect path: the loopback base
/// address followed by the path, byte for byte.
pub fn callback_url(path: &Vec<u8>) -> (u: Vec<u8>)
    ensures
        u@ == url_prefix() + path@,
{
    let mut u: Vec<u8> = Vec::new();
    u.push(104u8);
    u.push(116u8);
    u.push(116u8);
    u.push(112u8);
    u.push(58u8);
    u.push(47u8);
    u.push(47u8);
    u.push(108u8);
    u.push(111u8);
    u.push(99u8);
    u.push(97u8);
    u.push(108u8);
    u.push(104u8);
    u.push(111u8);
    u.push(115u8);
    u.push(116u8);
    u.push(58u8);
    u.push(49u8);
    u.push(52u8);
    u.push(50u8);
    u.push(48u8);
    proof {
        assert(u@ =~= url_prefix());
    }
    let mut k: usize = 0;
    while k < path.len()
        invariant
            k <= path@.len(),
            u@ =~= url_prefix() + path@.subrange(0, k as int),
        decreases path@.len() - k,
    {
        u.push(path[k]);
        k += 1;
    }
    proof {
        assert(u@ =~= url_prefix() + path@);
    }
    u
}

} // verus!
