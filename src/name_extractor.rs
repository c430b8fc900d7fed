//! Extraction of the routing key (a room name) from the first bytes of a raw
//! connection, before any protocol handshake has been read.
use vstd::prelude::*;

verus! {

/// The bytes of `GET /room/`, which open every routable request line.
pub open spec fn route_prefix() -> Seq<u8> {
    seq![71u8, 69u8, 84u8, 32u8, 47u8, 114u8, 111u8, 111u8, 109u8, 47u8]
}

/// The bytes of `HTTP`, which close the path of a request line.
pub open spec fn http_marker() -> Seq<u8> {
    seq![72u8, 84u8, 84u8, 80u8]
}

/// `pat` occurs in `b` starting at index `i`.
pub open spec fn occurs_at(b: Seq<u8>, pat: Seq<u8>, i: int) -> bool {
    0 <= i && i + pat.len() <= b.len() && b.subrange(i, i + pat.len()) == pat
}

/// `i` is the first index at which `HTTP` occurs in `b`.
pub open spec fn first_marker(b: Seq<u8>, i: int) -> bool {
    occurs_at(b, http_marker(), i) && forall|j: int| 0 <= j < i ==> !occurs_at(b, http_marker(), j)
}

/// `k` is the last index before `end` holding a `/`.
pub open spec fn last_slash_before(b: Seq<u8>, end: int, k: int) -> bool {
    0 <= k < end && end <= b.len() && b[k] == 47u8 && forall|j: int| k < j < end ==> b[j] != 47u8
}

/// `b` holds `HTTP`, and a `/` stands before its first occurrence.
pub open spec fn has_routing_key(b: Seq<u8>) -> bool {
    exists|h: int, k: int| first_marker(b, h) && last_slash_before(b, h, k)
}

/// The text of the routing key held in `b`: the bytes between the last `/`
/// before the first `HTTP` and that `HTTP`, decoded and trimmed.
pub open spec fn routing_key(b: Seq<u8>, key: Seq<char>) -> bool {
    exists|h: int, k: int|
        first_marker(b, h) && last_slash_before(b, h, k) && key == trim_whitespace(
            utf8_lossy(b.subrange(k + 1, h)),
        )
}

/// `b` is a request line that the router handles.
pub open spec fn is_room_request(b: Seq<u8>) -> bool {
    b.len() >= route_prefix().len() && b.subrange(0, route_prefix().len() as int) == route_prefix()
        && has_routing_key(b)
}

/// What `String::from_utf8_lossy` makes of a byte sequence.
pub uninterp spec fn utf8_lossy(b: Seq<u8>) -> Seq<char>;

/// What `str::trim` makes of a text.
pub uninterp spec fn trim_whitespace(s: Seq<char>) -> Seq<char>;

/// Relies on `String::from_utf8_lossy`: decodes bytes as UTF-8, replacing
/// invalid sequences; the result depends on the bytes alone.
#[verifier::external_body]
fn decode_lossy(b: &[u8]) -> (r: String)
    ensures
        r@ == utf8_lossy(b@),
{
    String::from_utf8_lossy(b).into_owned()
}

/// Relies on `str::trim`: removes leading and trailing whitespace; the
/// result depends on the text alone.
#[verifier::external_body]
fn trim(s: &str) -> (r: String)
    ensures
        r@ == trim_whitespace(s@),
{
    s.trim().to_string()
}

/// Index of the first `HTTP` in `b`, if any.
fn find_marker(b: &[u8]) -> (r: Option<usize>)
    ensures
        match r {
            Some(h) => first_marker(b@, h as int),
            None => forall|j: int| !occurs_at(b@, http_marker(), j),
        },
{
    if b.len() < 4 {
        return None;
    }
    let mut i: usize = 0;
    while i <= b.len() - 4
        invariant
            b.len() >= 4,
            i <= b.len() - 3,
            forall|j: int| 0 <= j < i ==> !occurs_at(b@, http_marker(), j),
        decreases b.len() - i,
    {
        if b[i] == 72u8 && b[i + 1] == 84u8 && b[i + 2] == 84u8 && b[i + 3] == 80u8 {
            assert(b@.subrange(i as int, i + 4) =~= http_marker());
            return Some(i);
        }
        assert(!occurs_at(b@, http_marker(), i as int)) by {
            if occurs_at(b@, http_marker(), i as int) {
                assert(b@.subrange(i as int, i + 4)[0] == b@[i as int]);
                assert(b@.subrange(i as int, i + 4)[1] == b@[i + 1]);
                assert(b@.subrange(i as int, i + 4)[2] == b@[i + 2]);
                assert(b@.subrange(i as int, i + 4)[3] == b@[i + 3]);
            }
        }
        i = i + 1;
    }
    None
}

/// Index of the last `/` before `end`, if any.
fn rfind_slash(b: &[u8], end: usize) -> (r: Option<usize>)
    requires
        end <= b@.len(),
    ensures
        match r {
            Some(k) => last_slash_before(b@, end as int, k as int),
            None => forall|j: int| 0 <= j < end ==> b@[j] != 47u8,
        },
{
    let mut i: usize = end;
    while i > 0
        invariant
            i <= end <= b@.len(),
            forall|j: int| i <= j < end ==> b@[j] != 47u8,
        decreases i,
    {
        if b[i - 1] == 47u8 {
            return Some(i - 1);
        }
        i = i - 1;
    }
    None
}

/// Extracts the room name from a request line that holds a routing key.
pub fn extract_name(http_req: &[u8]) -> (name: String)
    requires
        has_routing_key(http_req@),
    ensures
        routing_key(http_req@, name@),
{
    let h = match find_marker(http_req) {
        Some(h) => h,
        None => {
            proof {
                let (h, k) = choose|h: int, k: int|
                    first_marker(http_req@, h) && last_slash_before(http_req@, h, k);
                assert(occurs_at(http_req@, http_marker(), h));
            }
            return String::new();
        },
    };
    let k = match rfind_slash(http_req, h) {
        Some(k) => k,
        None => {
            proof {
                let (h2, k) = choose|h2: int, k: int|
                    first_marker(http_req@, h2) && last_slash_before(http_req@, h2, k);
                assert(h2 == h as int) by {
                    if h2 < h {
                        assert(!occurs_at(http_req@, http_marker(), h2));
                    } else if h2 > h {
                        assert(!occurs_at(http_req@, http_marker(), h as int));
                    }
                }
                assert(http_req@[k] == 47u8);
            }
            return String::new();
        },
    };
    let raw = decode_lossy(&http_req[k + 1..h]);
    trim(raw.as_str())
}

/// Reads the routing key from the first bytes of a raw connection: the room
/// name when the bytes open with `GET /room/` and hold a routing key.
pub fn get_room_name(request: &[u8]) -> (r: Option<String>)
    ensures
        r.is_some() <==> is_room_request(request@),
        r matches Some(name) ==> routing_key(request@, name@),
{
    let prefix: [u8; 10] = [71u8, 69u8, 84u8, 32u8, 47u8, 114u8, 111u8, 111u8, 109u8, 47u8];
    if request.len() < 10 {
        return None;
    }
    let mut i: usize = 0;
    while i < 10
        invariant
            request@.len() >= 10,
            prefix@ == route_prefix(),
            forall|j: int| 0 <= j < i ==> request@[j] == route_prefix()[j],
        decreases 10 - i,
    {
        if request[i] != prefix[i] {
            assert(request@.subrange(0, 10)[i as int] != route_prefix()[i as int]);
            return None;
        }
        i = i + 1;
    }
    assert(request@.subrange(0, 10) =~= route_prefix());
    match find_marker(request) {
        None => {
            return None;
        },
        Some(h) => {
            match rfind_slash(request, h) {
                None => {
                    proof {
                        if has_routing_key(request@) {
                            let (h2, k) = choose|h2: int, k: int|
                                first_marker(request@, h2) && last_slash_before(request@, h2, k);
                            assert(h2 == h as int) by {
                                if h2 < h {
                                    assert(!occurs_at(request@, http_marker(), h2));
                                } else if h2 > h {
                                    assert(!occurs_at(request@, http_marker(), h as int));
                                }
                            }
                        }
                    }
                    return None;
                },
                Some(k) => {
                    assert(has_routing_key(request@));
                    Some(extract_name(request))
                },
            }
        },
    }
}

} // verus!
