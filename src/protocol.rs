use vstd::prelude::*;

verus! {

/// Unicode `White_Space`: the characters that separate the words of a request.
pub open spec fn is_whitespace(c: char) -> bool {
    let u = c as u32;
    ||| 0x09 <= u <= 0x0D
    ||| u == 0x20
    ||| u == 0x85
    ||| u == 0xA0
    ||| u == 0x1680
    ||| 0x2000 <= u <= 0x200A
    ||| u == 0x2028
    ||| u == 0x2029
    ||| u == 0x202F
    ||| u == 0x205F
    ||| u == 0x3000
}

/// Splitting `s` from the left: the words already closed by whitespace, and
/// the run of non-whitespace characters at the end of `s`.
pub open spec fn scan_words(s: Seq<char>) -> (Seq<Seq<char>>, Seq<char>)
    decreases s.len(),
{
    if s.len() == 0 {
        (Seq::empty(), Seq::empty())
    } else {
        let (done, cur) = scan_words(s.drop_last());
        if is_whitespace(s.last()) {
            if cur.len() > 0 {
                (done.push(cur), Seq::empty())
            } else {
                (done, cur)
            }
        } else {
            (done, cur.push(s.last()))
        }
    }
}

/// The maximal runs of non-whitespace characters of `s`, in order.
pub open spec fn words(s: Seq<char>) -> Seq<Seq<char>> {
    let (done, cur) = scan_words(s);
    if cur.len() > 0 {
        done.push(cur)
    } else {
        done
    }
}

pub open spec fn is_digit(c: char) -> bool {
    '0' <= c && c <= '9'
}

pub open spec fn all_digits(s: Seq<char>) -> bool {
    forall|i: int| 0 <= i < s.len() ==> is_digit(#[trigger] s[i])
}

/// The number that a string of decimal digits denotes.
pub open spec fn digits_value(s: Seq<char>) -> int
    decreases s.len(),
{
    if s.len() == 0 {
        0
    } else {
        10 * digits_value(s.drop_last()) + (s.last() as int - '0' as int)
    }
}

/// The integer that `s` writes in decimal: an optional `+` or `-` followed by
/// one or more digits, and nothing else.
pub open spec fn decimal_value(s: Seq<char>) -> Option<int> {
    if s.len() > 0 && (s[0] == '+' || s[0] == '-') {
        let d = s.drop_first();
        if d.len() > 0 && all_digits(d) {
            Some(if s[0] == '-' { -digits_value(d) } else { digits_value(d) })
        } else {
            None
        }
    } else if s.len() > 0 && all_digits(s) {
        Some(digits_value(s))
    } else {
        None
    }
}

/// `s` read as an `i64`: its decimal value where that fits in 64 bits.
pub open spec fn parsed_i64(s: Seq<char>) -> Option<i64> {
    match decimal_value(s) {
        Some(n) => if i64::MIN <= n <= i64::MAX {
            Some(n as i64)
        } else {
            None
        },
        None => None,
    }
}

/// Relies on `i64`'s `FromStr` (`str::parse::<i64>`), which accepts an
/// optional sign followed by ASCII digits and fails on anything else or on
/// overflow.
#[verifier::external_body]
fn parse_i64(s: &str) -> (r: Option<i64>)
    ensures
        r == parsed_i64(s@),
{
    s.parse::<i64>().ok()
}

/// Whether `c` is Unicode whitespace.
pub fn is_whitespace_char(c: char) -> (r: bool)
    ensures
        r == is_whitespace(c),
{
    let u = c as u32;
    (0x09 <= u && u <= 0x0D) || u == 0x20 || u == 0x85 || u == 0xA0 || u == 0x1680 || (0x2000
        <= u && u <= 0x200A) || u == 0x2028 || u == 0x2029 || u == 0x202F || u == 0x205F || u
        == 0x3000
}

/// The whitespace-separated words of `line`.
pub fn split_words(line: &str) -> (r: Vec<String>)
    ensures
        r@.map_values(|w: String| w@) == words(line@),
{
    let n = line.unicode_len();
    let mut out: Vec<String> = Vec::new();
    let mut start: usize = 0;
    let mut i: usize = 0;
    while i < n
        invariant
            n == line@.len(),
            start <= i <= n,
            scan_words(line@.subrange(0, i as int)) == (
                out@.map_values(|w: String| w@),
                line@.subrange(start as int, i as int),
            ),
        decreases n - i,
    {
        let c = line.get_char(i);
        let ghost prefix = line@.subrange(0, i as int + 1);
        assert(prefix.drop_last() =~= line@.subrange(0, i as int));
        assert(prefix.last() == c);
        if is_whitespace_char(c) {
            if start < i {
                let w = String::from_str(line.substring_char(start, i));
                let ghost before = out@;
                out.push(w);
                assert(out@.map_values(|w: String| w@) =~= before.map_values(|w: String| w@).push(
                    line@.subrange(start as int, i as int),
                ));
            }
            start = i + 1;
            assert(line@.subrange(start as int, i as int + 1) =~= Seq::<char>::empty());
        } else {
            assert(line@.subrange(start as int, i as int + 1) =~= line@.subrange(
                start as int,
                i as int,
            ).push(c));
        }
        i = i + 1;
    }
    assert(line@.subrange(0, n as int) =~= line@);
    if start < n {
        let w = String::from_str(line.substring_char(start, n));
        let ghost before = out@;
        out.push(w);
        assert(out@.map_values(|w: String| w@) =~= before.map_values(|w: String| w@).push(
            line@.subrange(start as int, n as int),
        ));
    }
    out
}

/// A request of the protocol, with its arguments.
#[derive(Debug, Clone, PartialEq, Eq)]
pub enum Request {
    GetKey { key: String },
    SetKey { key: String, value: String, ttl: i64 },
    DeleteKey { key: String },
}

/// A request as the contracts see it.
pub enum RequestSpec {
    GetKey { key: Seq<char> },
    SetKey { key: Seq<char>, value: Seq<char>, ttl: i64 },
    DeleteKey { key: Seq<char> },
}

impl View for Request {
    type V = RequestSpec;

    open spec fn view(&self) -> RequestSpec {
        match self {
            Request::GetKey { key } => RequestSpec::GetKey { key: key@ },
            Request::SetKey { key, value, ttl } => RequestSpec::SetKey { key: key@, value: value@, ttl: *ttl },
            Request::DeleteKey { key } => RequestSpec::DeleteKey { key: key@ },
        }
    }
}

/// Why a request line was not served.
#[derive(Debug, Clone, Copy, PartialEq, Eq, Structural)]
pub enum RequestError {
    /// A `GET` of a key that the store does not hold.
    KeyNotFound,
    /// A `SET` whose time-to-live is not a 64-bit integer.
    UnparsableTtl,
    /// An unknown keyword, an empty line, or a missing argument.
    InvalidAction,
}

/// The text that the client is sent for an error.
pub open spec fn error_message(e: RequestError) -> Seq<char> {
    match e {
        RequestError::KeyNotFound => "Key not found"@,
        RequestError::UnparsableTtl => "Unparsable TTL"@,
        RequestError::InvalidAction => "Invalid request action"@,
    }
}

impl RequestError {
    /// The text that the client is sent for this error.
    pub fn message(&self) -> (r: String)
        ensures
            r@ == error_message(*self),
    {
        match self {
            RequestError::KeyNotFound => String::from_str("Key not found"),
            RequestError::UnparsableTtl => String::from_str("Unparsable TTL"),
            RequestError::InvalidAction => String::from_str("Invalid request action"),
        }
    }
}

/// What a request line means: the first word selects the command and the
/// following words are its arguments, in order. Words beyond those a command
/// takes are ignored.
pub open spec fn parse_request(line: Seq<char>) -> Result<RequestSpec, RequestError> {
    let w = words(line);
    if w.len() == 0 {
        Err(RequestError::InvalidAction)
    } else if w[0] == "GET"@ {
        if w.len() >= 2 {
            Ok(RequestSpec::GetKey { key: w[1] })
        } else {
            Err(RequestError::InvalidAction)
        }
    } else if w[0] == "SET"@ {
        if w.len() >= 4 {
            match parsed_i64(w[3]) {
                Some(ttl) => Ok(RequestSpec::SetKey { key: w[1], value: w[2], ttl }),
                None => Err(RequestError::UnparsableTtl),
            }
        } else {
            Err(RequestError::InvalidAction)
        }
    } else if w[0] == "DELETE"@ {
        if w.len() >= 2 {
            Ok(RequestSpec::DeleteKey { key: w[1] })
        } else {
            Err(RequestError::InvalidAction)
        }
    } else {
        Err(RequestError::InvalidAction)
    }
}

/// Reads one request line (without its line terminator).
pub fn parse_request_line(line: &str) -> (r: Result<Request, RequestError>)
    ensures
        match r {
            Ok(req) => parse_request(line@) == Ok::<RequestSpec, RequestError>(req@),
            Err(e) => parse_request(line@) == Err::<RequestSpec, RequestError>(e),
        },
{
    let words = split_words(line);
    let ghost w = words@.map_values(|t: String| t@);
    assert(w.len() == words@.len());
    if words.len() == 0 {
        return Err(RequestError::InvalidAction);
    }
    assert(w[0] == words@[0]@);
    let get_keyword = String::from_str("GET");
    let set_keyword = String::from_str("SET");
    let delete_keyword = String::from_str("DELETE");
    if words[0] == get_keyword {
        if words.len() >= 2 {
            assert(w[1] == words@[1]@);
            Ok(Request::GetKey { key: words[1].clone() })
        } else {
            Err(RequestError::InvalidAction)
        }
    } else if words[0] == set_keyword {
        if words.len() >= 4 {
            assert(w[1] == words@[1]@ && w[2] == words@[2]@ && w[3] == words@[3]@);
            match parse_i64(words[3].as_str()) {
                Some(ttl) => Ok(Request::SetKey { key: words[1].clone(), value: words[2].clone(), ttl }),
                None => Err(RequestError::UnparsableTtl),
            }
        } else {
            Err(RequestError::InvalidAction)
        }
    } else if words[0] == delete_keyword {
        if words.len() >= 2 {
            assert(w[1] == words@[1]@);
            Ok(Request::DeleteKey { key: words[1].clone() })
        } else {
            Err(RequestError::InvalidAction)
        }
    } else {
        Err(RequestError::InvalidAction)
    }
}

} // verus!
