use vstd::prelude::*;
use crate::store::{Store, StoreModel, lookup, removed_value};
use crate::protocol::{
    Request, RequestError, RequestSpec, error_message, parse_request, parse_request_line, parsed_i64,
    words,
};

verus! {

/// The marker written after the last response of a connection.
pub const CLOSE_CONNECTION_MESSAGE: &'static str = "__TERM__";

/// The contents of a served request's result.
pub open spec fn result_view(r: Result<String, RequestError>) -> Result<Seq<char>, RequestError> {
    match r {
        Ok(v) => Ok(v@),
        Err(e) => Err(e),
    }
}

/// Serving `req` on a store holding `m`: the store afterwards, and the value
/// returned to the client or the error.
pub open spec fn serve_request(m: StoreModel, req: RequestSpec) -> (StoreModel, Result<Seq<char>, RequestError>) {
    match req {
        RequestSpec::GetKey { key } => match lookup(m, key) {
            Some(v) => (m, Ok(v)),
            None => (m, Err(RequestError::KeyNotFound)),
        },
        RequestSpec::SetKey { key, value, ttl } => (m.insert(key, (value, ttl)), Ok(value)),
        RequestSpec::DeleteKey { key } => (m.remove(key), Ok(removed_value(m, key))),
    }
}

/// Serving one request line; a line that does not parse leaves the store as it is.
pub open spec fn serve_line(m: StoreModel, line: Seq<char>) -> (StoreModel, Result<Seq<char>, RequestError>) {
    match parse_request(line) {
        Ok(req) => serve_request(m, req),
        Err(e) => (m, Err(e)),
    }
}

/// The line sent back for a served request's result.
pub open spec fn response_line(r: Result<Seq<char>, RequestError>) -> Seq<char> {
    match r {
        Ok(v) => v + "\n"@,
        Err(e) => "Error: "@ + error_message(e) + "\n"@,
    }
}

/// Serving the lines of a connection in order, stopping after the first
/// error: the store afterwards, the text sent so far, and whether an error
/// stopped the processing.
pub open spec fn serve_lines(m: StoreModel, lines: Seq<Seq<char>>) -> (StoreModel, Seq<char>, bool)
    decreases lines.len(),
{
    if lines.len() == 0 {
        (m, Seq::empty(), false)
    } else {
        let (m1, out, stopped) = serve_lines(m, lines.drop_last());
        if stopped {
            (m1, out, true)
        } else {
            let (m2, r) = serve_line(m1, lines.last());
            (m2, out + response_line(r), r is Err)
        }
    }
}

/// Everything a connection that sent `lines` receives: one response line per
/// served line, then the closing marker.
pub open spec fn connection_output(m: StoreModel, lines: Seq<Seq<char>>) -> Seq<char> {
    serve_lines(m, lines).1 + CLOSE_CONNECTION_MESSAGE@
}

/// Serves the request protocol over a store that it borrows for its lifetime.
pub struct Server<'a> {
    store: &'a mut Store,
    port: i32,
}

/// A `SET` line whose time-to-live word is not a 64-bit integer is answered
/// with the time-to-live error and creates or changes no entry.
pub proof fn lemma_unparsable_ttl_changes_nothing(m: StoreModel, line: Seq<char>)
    requires
        words(line).len() >= 4,
        words(line)[0] == "SET"@,
        parsed_i64(words(line)[3]) is None,
    ensures
        serve_line(m, line) == (m, Err::<Seq<char>, RequestError>(RequestError::UnparsableTtl)),
{
    reveal_strlit("SET");
    reveal_strlit("GET");
    assert("SET"@[0] != "GET"@[0]);
}

/// A line whose first word is no command is answered with the invalid-action
/// error and leaves the store as it was.
pub proof fn lemma_unknown_command_is_invalid(m: StoreModel, line: Seq<char>)
    requires
        words(line).len() >= 1,
        words(line)[0] != "GET"@,
        words(line)[0] != "SET"@,
        words(line)[0] != "DELETE"@,
    ensures
        serve_line(m, line) == (m, Err::<Seq<char>, RequestError>(RequestError::InvalidAction)),
{
}

impl<'a> Server<'a> {
    /// The contents of the store that this server works on.
    pub closed spec fn spec_store(&self) -> StoreModel {
        (*self.store)@
    }

    /// The port that this server is configured to listen on.
    pub closed spec fn spec_port(&self) -> i32 {
        self.port
    }

    /// A server for `port` that works on `store`.
    pub fn new(port: i32, store: &'a mut Store) -> (r: Server<'a>)
        ensures
            r.spec_port() == port,
            r.spec_store() == old(store)@,
    {
        Server { store: store, port: port }
    }

    /// The port that this server is configured to listen on.
    pub fn port(&self) -> (r: i32)
        ensures
            r == self.spec_port(),
    {
        self.port
    }

    /// Looks up `key`.
    fn handle_get_request(&self, key: &String) -> (r: Result<String, RequestError>)
        ensures
            result_view(r) == serve_request(self.spec_store(), RequestSpec::GetKey { key: key@ }).1,
    {
        match self.store.get(key) {
            Ok(value) => Ok(value),
            Err(_) => Err(RequestError::KeyNotFound),
        }
    }

    /// Stores `value` with `ttl` under `key`.
    fn handle_set_request(&mut self, key: &String, value: &String, ttl: &i64) -> (r: Result<String, RequestError>)
        ensures
            final(self).spec_port() == old(self).spec_port(),
            (final(self).spec_store(), result_view(r)) == serve_request(
                old(self).spec_store(),
                RequestSpec::SetKey { key: key@, value: value@, ttl: *ttl },
            ),
    {
        Ok(self.store.set(key, value, ttl).unwrap())
    }

    /// Removes the entry under `key`.
    fn handle_delete_request(&mut self, key: &String) -> (r: Result<String, RequestError>)
        ensures
            final(self).spec_port() == old(self).spec_port(),
            (final(self).spec_store(), result_view(r)) == serve_request(
                old(self).spec_store(),
                RequestSpec::DeleteKey { key: key@ },
            ),
    {
        Ok(self.store.delete(key).unwrap())
    }

    /// Serves one request line: parses it and carries it out on the store.
    /// Returns the value for the client, or the error.
    pub fn handle_request_line(&mut self, line: &String) -> (r: Result<String, RequestError>)
        ensures
            final(self).spec_port() == old(self).spec_port(),
            (final(self).spec_store(), result_view(r)) == serve_line(old(self).spec_store(), line@),
    {
        match parse_request_line(line.as_str()) {
            Ok(Request::GetKey { key }) => self.handle_get_request(&key),
            Ok(Request::SetKey { key, value, ttl }) => self.handle_set_request(&key, &value, &ttl),
            Ok(Request::DeleteKey { key }) => self.handle_delete_request(&key),
            Err(e) => Err(e),
        }
    }

    /// Serves the request lines of one connection, in order, and returns all
    /// the connection is sent: a response line for each line served, an error
    /// line after which no further line is served, and the closing marker.
    pub fn handle_connection(&mut self, lines: &Vec<String>) -> (r: String)
        ensures
            final(self).spec_port() == old(self).spec_port(),
            final(self).spec_store() == serve_lines(
                old(self).spec_store(),
                lines@.map_values(|l: String| l@),
            ).0,
            r@ == connection_output(old(self).spec_store(), lines@.map_values(|l: String| l@)),
    {
        let ghost m0 = self.spec_store();
        let ghost all = lines@.map_values(|l: String| l@);
        let mut out = String::new();
        let mut stopped = false;
        let mut i: usize = 0;
        while i < lines.len()
            invariant
                all == lines@.map_values(|l: String| l@),
                m0 == old(self).spec_store(),
                self.spec_port() == old(self).spec_port(),
                i <= lines.len(),
                serve_lines(m0, all.subrange(0, i as int)) == (self.spec_store(), out@, stopped),
            decreases lines.len() - i,
        {
            let ghost prefix = all.subrange(0, i as int + 1);
            assert(prefix.drop_last() =~= all.subrange(0, i as int));
            assert(prefix.last() == lines@[i as int]@);
            if !stopped {
                let ghost before = out@;
                match self.handle_request_line(&lines[i]) {
                    Ok(value) => {
                        out.append(value.as_str());
                        out.append("\n");
                    },
                    Err(e) => {
                        out.append("Error: ");
                        out.append(e.message().as_str());
                        out.append("\n");
                        stopped = true;
                    },
                }
                assert(out@ =~= before + response_line(serve_line(
                    serve_lines(m0, all.subrange(0, i as int)).0,
                    lines@[i as int]@,
                ).1));
            }
            i = i + 1;
        }
        assert(all.subrange(0, lines.len() as int) =~= all);
        out.append(CLOSE_CONNECTION_MESSAGE);
        out
    }
}

} // verus!
