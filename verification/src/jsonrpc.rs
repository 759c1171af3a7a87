//! Calls by name: which method a request is for, and what is refused.
use vstd::prelude::*;
use vstd::string::*;

use crate::error::joined;
use crate::text::{chars_of, find_char, is_upper, lowered, place_of, raise, raised, str_eq, to_lower, trim_bounds, trimmed, upper};

verus! {

/// The request is not readable.
pub const PARSE: i32 = -32700;

/// The request is not one of the right version.
pub const INVALID_REQ: i32 = -32600;

/// There is no such method.
pub const NO_METHOD: i32 = -32601;

/// The parameters do not fit the method.
pub const BAD_PARAMS: i32 = -32602;

/// Something is wrong inside.
pub const INTERNAL: i32 = -32603;

/// The method failed.
pub const SERVER: i32 = -32000;

/// Why a call failed.
#[derive(Clone, Debug, PartialEq, Eq)]
pub struct RpcError {
    /// The code.
    pub code: i32,
    /// The message.
    pub message: String,
    /// What else there is to say, as the text of a JSON value.
    pub data: Option<String>,
}

impl RpcError {
    /// Whether the failure has the code and the message given, and there is
    /// nothing else to say.
    pub open spec fn says(&self, code: i32, message: Seq<char>) -> bool {
        self.code == code && self.message@ == message && self.data is None
    }

    /// The same failure, with `data` to say besides.
    pub fn with_data(self, data: String) -> (r: RpcError)
        ensures
            r == (RpcError { data: Some(data), ..self }),
    {
        RpcError { code: self.code, message: self.message, data: Some(data) }
    }

    /// The method failed.
    pub fn server(message: String) -> (r: RpcError)
        ensures
            r.says(SERVER, message@),
    {
        RpcError { code: SERVER, message, data: None }
    }

    /// The parameters do not fit the method.
    pub fn invalid_params(message: String) -> (r: RpcError)
        ensures
            r.says(BAD_PARAMS, message@),
    {
        RpcError { code: BAD_PARAMS, message, data: None }
    }

    /// There is no such method.
    pub fn method_not_found(message: String) -> (r: RpcError)
        ensures
            r.says(NO_METHOD, message@),
    {
        RpcError { code: NO_METHOD, message, data: None }
    }

    /// Something is wrong inside.
    pub fn internal(message: String) -> (r: RpcError)
        ensures
            r.says(INTERNAL, message@),
    {
        RpcError { code: INTERNAL, message, data: None }
    }

    /// The request is not readable.
    pub fn parse() -> (r: RpcError)
        ensures
            r.says(PARSE, "parse error"@),
    {
        RpcError { code: PARSE, message: "parse error".to_owned(), data: None }
    }
}

/// The name that a method is found under, where the wire has `method`. One that
/// starts with an upper case letter is refused.
pub open spec fn normalized(method: Seq<char>) -> Option<Seq<char>> {
    if method.len() == 0 {
        Some(method)
    } else if upper(method[0]) {
        None
    } else {
        Some(raised(method[0]) + method.drop_first())
    }
}

/// The name that a method is found under, where the wire has `method`: with its
/// first letter in upper case. One that has it so already is refused.
pub fn normalize_method(method: &str) -> (r: Option<String>)
    ensures
        match normalized(method@) {
            Some(s) => r is Some && r->0@ == s,
            None => r is None,
        },
{
    let n: usize = method.unicode_len();
    if n == 0 {
        let s = method.to_owned();
        return Some(s);
    }
    let first = method.get_char(0);
    if is_upper(first) {
        return None;
    }
    let head = raise(first);
    let tail = method.substring_char(1, n);
    assert(tail@ =~= method@.drop_first());
    Some(joined(head.as_str(), tail))
}

/// The parameters of a request.
pub enum Params<V> {
    /// A list.
    List(Vec<V>),
    /// None.
    Nothing,
    /// One that is no list.
    Single(V),
}

/// What a method is called with: the first of a list, or the parameter itself.
/// There may be nothing.
pub open spec fn first_of<V>(params: Params<V>) -> Option<V> {
    match params {
        Params::List(l) => if l@.len() == 0 {
            None
        } else {
            Some(l@[0])
        },
        Params::Nothing => None,
        Params::Single(v) => Some(v),
    }
}

/// What the method is called with.
pub fn first_param<V>(params: Params<V>) -> (r: Option<V>)
    ensures
        r == first_of(params),
{
    match params {
        Params::List(mut l) => {
            if l.len() == 0 {
                None
            } else {
                Some(l.swap_remove(0))
            }
        },
        Params::Nothing => None,
        Params::Single(v) => Some(v),
    }
}

/// What stands in front of the first `;`, without white space around it.
pub open spec fn media_type(value: Seq<char>) -> Seq<char> {
    trimmed(value.take(place_of(value, ';') as int))
}

/// Whether the content type asks for JSON, whatever its parameters and its
/// case.
pub fn is_json_media_type(value: &str) -> (r: bool)
    ensures
        r == (lowered(media_type(value@)) == lowered("application/json"@)),
{
    let chars = chars_of(value);
    let end: usize = find_char(&chars, ';');
    let (a, b) = trim_bounds(&chars, 0, end);
    assert(chars@.subrange(0, end as int) =~= value@.take(end as int));
    let media = value.substring_char(a, b);
    let media = to_lower(media);
    let json = to_lower("application/json");
    str_eq(media.as_str(), json.as_str())
}

/// The status that a request is refused with before it is read, if it is: it
/// has to be a `POST` of JSON.
pub open spec fn refused_status(method: Seq<char>, content_type: Option<Seq<char>>) -> Option<u16> {
    if lowered(method) != lowered("POST"@) {
        Some(405)
    } else {
        match content_type {
            Some(c) => if lowered(media_type(c)) == lowered("application/json"@) {
                None
            } else {
                Some(415)
            },
            None => Some(415),
        }
    }
}

/// The status that a request is refused with before it is read, if it is.
pub fn transport_refusal(method: &str, content_type: Option<&str>) -> (r: Option<u16>)
    ensures
        r == refused_status(
            method@,
            match content_type {
                Some(c) => Some(c@),
                None => None,
            },
        ),
{
    let m = to_lower(method);
    let post = to_lower("POST");
    if !str_eq(m.as_str(), post.as_str()) {
        return Some(405);
    }
    match content_type {
        Some(c) => if is_json_media_type(c) {
            None
        } else {
            Some(415)
        },
        None => Some(415),
    }
}

/// The key of a method within the registry: the name of its service, whatever
/// the case, and its own.
pub open spec fn method_key(service: Seq<char>, method: Seq<char>) -> Seq<char> {
    lowered(service) + "."@ + method
}

/// The key that a method is registered under by its name on the wire.
pub open spec fn wire_key(wire: Seq<char>) -> Seq<char> {
    let p = place_of(wire, '.') as int;
    if p < wire.len() {
        method_key(wire.take(p), wire.skip(p + 1))
    } else {
        lowered(wire)
    }
}

/// The methods that can be called. Each has a place, in the order in which they
/// were registered.
pub struct ServiceRegistry {
    keys: Vec<String>,
}

impl View for ServiceRegistry {
    type V = Seq<Seq<char>>;

    closed spec fn view(&self) -> Seq<Seq<char>> {
        self.keys@.map_values(|k: String| k@)
    }
}

impl ServiceRegistry {
    /// No method is registered twice.
    pub open spec fn wf(&self) -> bool {
        self@.no_duplicates()
    }

    /// No methods.
    pub fn new() -> (r: ServiceRegistry)
        ensures
            r.wf(),
            r@ == Seq::<Seq<char>>::empty(),
    {
        let r = ServiceRegistry { keys: Vec::new() };
        assert(r@ =~= Seq::empty());
        r
    }

    /// How many methods there are.
    pub fn len(&self) -> (r: usize)
        ensures
            r == self@.len(),
    {
        self.keys.len()
    }

    /// Whether there are none.
    pub fn is_empty(&self) -> (r: bool)
        ensures
            r == (self@.len() == 0),
    {
        self.keys.len() == 0
    }

    fn position(&self, key: &str) -> (r: Option<usize>)
        ensures
            r is Some <==> self@.contains(key@),
            r matches Some(i) ==> i < self@.len() && self@[i as int] == key@,
    {
        let n: usize = self.keys.len();
        let mut i: usize = 0;
        while i < n
            invariant
                i <= n,
                n == self.keys@.len(),
                forall|j: int| 0 <= j < i ==> (#[trigger] self@[j]) != key@,
            decreases n - i,
        {
            assert(self@[i as int] == self.keys@[i as int]@);
            if str_eq(self.keys[i].as_str(), key) {
                return Some(i);
            }
            i += 1;
        }
        None
    }

    /// Registers a method by its name on the wire, and gives its place. One
    /// that is there already keeps its place.
    pub fn register(&mut self, wire: &str) -> (r: usize)
        requires
            old(self).wf(),
        ensures
            final(self).wf(),
            r < final(self)@.len(),
            final(self)@[r as int] == wire_key(wire@),
            final(self)@ == if old(self)@.contains(wire_key(wire@)) {
                old(self)@
            } else {
                old(self)@.push(wire_key(wire@))
            },
    {
        let chars = chars_of(wire);
        let n: usize = chars.len();
        let p: usize = find_char(&chars, '.');
        let key: String = if p < n {
            let service = to_lower(wire.substring_char(0, p));
            let method = wire.substring_char(p + 1, n);
            assert(wire@.subrange(0, p as int) =~= wire@.take(p as int));
            assert(wire@.subrange(p + 1, n as int) =~= wire@.skip(p + 1));
            let head = joined(service.as_str(), ".");
            joined(head.as_str(), method)
        } else {
            to_lower(wire)
        };
        match self.position(key.as_str()) {
            Some(i) => i,
            None => {
                let ghost before = self@;
                let ghost kv = key@;
                self.keys.push(key);
                proof {
                    assert(self@ =~= before.push(kv));
                    assert(self@.no_duplicates()) by {
                        assert forall|i: int, j: int|
                            0 <= i < self@.len() && 0 <= j < self@.len() && i != j implies self@[i]
                            != self@[j] by {
                            if i < before.len() && j == before.len() {
                                assert(before[i] != kv);
                            }
                            if j < before.len() && i == before.len() {
                                assert(before[j] != kv);
                            }
                        }
                    }
                }
                self.keys.len() - 1
            },
        }
    }

    /// The place of a method, by the name of its service, whatever the case,
    /// and its own.
    pub fn lookup(&self, service: &str, method: &str) -> (r: Option<usize>)
        ensures
            r is Some <==> self@.contains(method_key(service@, method@)),
            r matches Some(i) ==> i < self@.len() && self@[i as int] == method_key(
                service@,
                method@,
            ),
    {
        let service = to_lower(service);
        let head = joined(service.as_str(), ".");
        let key = joined(head.as_str(), method);
        self.position(key.as_str())
    }
}

/// The key of the method that a request is for, or the code and the message
/// that it is refused with. Whether the method is registered is not asked here.
pub open spec fn routed(version: Seq<char>, method: Seq<char>) -> Result<
    Seq<char>,
    (i32, Seq<char>),
> {
    let p = place_of(method, '.') as int;
    if version != "2.0"@ {
        Err((INVALID_REQ, "invalid request: jsonrpc must be \"2.0\""@))
    } else if p >= method.len() {
        Err((NO_METHOD, "rpc: can't find method "@ + method))
    } else {
        match normalized(method.skip(p + 1)) {
            None => Err((NO_METHOD, "rpc: service/method ill-formed: \""@ + method + "\""@)),
            Some(m) => Ok(method_key(method.take(p), m)),
        }
    }
}

/// The place of the method that a request is for. A request of another version,
/// or for a method that is not there, is refused.
pub fn route(registry: &ServiceRegistry, version: &str, method: &str) -> (r: Result<
    usize,
    RpcError,
>)
    ensures
        match routed(version@, method@) {
            Err((code, message)) => r is Err && r->Err_0.says(code, message),
            Ok(key) => if registry@.contains(key) {
                r is Ok && r->Ok_0 < registry@.len() && registry@[r->Ok_0 as int] == key
            } else {
                r is Err && r->Err_0.says(NO_METHOD, "rpc: can't find method "@ + method@)
            },
        },
{
    if !str_eq(version, "2.0") {
        let message = "invalid request: jsonrpc must be \"2.0\"".to_owned();
        return Err(RpcError { code: INVALID_REQ, message, data: None });
    }
    let chars = chars_of(method);
    let n: usize = chars.len();
    let p: usize = find_char(&chars, '.');
    if p >= n {
        return Err(RpcError::method_not_found(joined("rpc: can't find method ", method)));
    }
    let service = method.substring_char(0, p);
    let name = method.substring_char(p + 1, n);
    assert(method@.subrange(0, p as int) =~= method@.take(p as int));
    assert(method@.subrange(p + 1, n as int) =~= method@.skip(p + 1));
    let matched: String = match normalize_method(name) {
        Some(m) => m,
        None => {
            let head = joined("rpc: service/method ill-formed: \"", method);
            return Err(RpcError::method_not_found(joined(head.as_str(), "\"")));
        },
    };
    match registry.lookup(service, matched.as_str()) {
        Some(i) => Ok(i),
        None => Err(RpcError::method_not_found(joined("rpc: can't find method ", method))),
    }
}

/// The reply to a request.
pub enum Reply<V> {
    /// What the method answered.
    Answer {
        /// The answer.
        result: V,
        /// The id of the request.
        id: V,
    },
    /// Why there is no answer.
    Failure {
        /// The failure, with all there is to say of it.
        error: RpcError,
        /// The id of the request.
        id: V,
    },
}

/// The reply to the request `id`, where the call ended in `outcome`.
pub fn reply<V>(id: V, outcome: Result<V, RpcError>) -> (r: Reply<V>)
    ensures
        r == match outcome {
            Ok(result) => Reply::Answer { result, id },
            Err(error) => Reply::Failure { error, id },
        },
{
    match outcome {
        Ok(result) => Reply::Answer { result, id },
        Err(error) => Reply::Failure { error, id },
    }
}

/// What is to be done for a request.
pub enum Step<V> {
    /// To call a method.
    Call {
        /// The place of the method.
        place: usize,
        /// What it is called with.
        param: Option<V>,
        /// The id of the request.
        id: V,
    },
    /// To reply that the request is refused.
    Refuse(Reply<V>),
}

/// What is to be done for a request: the method that it is for is called with
/// its parameter, or the request is refused.
pub fn dispatch<V>(
    registry: &ServiceRegistry,
    version: &str,
    method: &str,
    params: Params<V>,
    id: V,
) -> (r: Step<V>)
    ensures
        match routed(version@, method@) {
            Err((code, message)) => {
                &&& r matches Step::Refuse(Reply::Failure { error, id: of })
                &&& error.says(code, message)
                &&& of == id
            },
            Ok(key) => if registry@.contains(key) {
                &&& r matches Step::Call { place, param, id: of }
                &&& place < registry@.len()
                &&& registry@[place as int] == key
                &&& param == first_of(params)
                &&& of == id
            } else {
                &&& r matches Step::Refuse(Reply::Failure { error, id: of })
                &&& error.says(NO_METHOD, "rpc: can't find method "@ + method@)
                &&& of == id
            },
        },
{
    match route(registry, version, method) {
        Ok(place) => Step::Call { place, param: first_param(params), id },
        Err(error) => Step::Refuse(Reply::Failure { error, id }),
    }
}

} // verus!
