//! The HTTP/1.1 messages of the opening handshake.
use vstd::prelude::*;
use vstd::slice::slice_to_vec;
use vstd::utf8::encode_utf8;

use crate::bytes::{append_bytes, append_text};
use crate::outside::{httparse_outcome, httparse_request};

verus! {

/// How many headers a request may have.
pub const MAX_HEADERS: usize = 32;

/// What is wrong with the bytes of a request.
#[derive(Clone, Copy, Debug, PartialEq, Eq, Structural)]
pub enum ParseError {
    HeaderName,
    HeaderValue,
    NewLine,
    Status,
    Token,
    TooManyHeaders,
    Version,
}

/// The parts of a request's head as they stand in its bytes.
#[derive(Debug)]
pub struct ParsedRequest {
    /// How many bytes the head takes.
    pub consumed: usize,
    pub method: Option<String>,
    pub path: Option<String>,
    pub headers: Vec<(String, Vec<u8>)>,
}

/// What a `ParsedRequest` holds.
#[verifier::ext_equal]
pub struct ParsedModel {
    pub consumed: usize,
    pub method: Option<Seq<char>>,
    pub path: Option<Seq<char>>,
    pub headers: Seq<(Seq<char>, Seq<u8>)>,
}

/// The text in `text`, if there is any.
pub open spec fn text_of(text: Option<String>) -> Option<Seq<char>> {
    match text {
        Some(text) => Some(text@),
        None => None,
    }
}

impl View for ParsedRequest {
    type V = ParsedModel;

    open spec fn view(&self) -> ParsedModel {
        ParsedModel {
            consumed: self.consumed,
            method: text_of(self.method),
            path: text_of(self.path),
            headers: fields_of(self.headers@),
        }
    }
}

/// The outcome of reading a request's head: its parts, nothing where the head is not all there
/// yet, or what is wrong with it.
pub open spec fn outcome_of(outcome: Result<Option<ParsedRequest>, ParseError>) -> Result<
    Option<ParsedModel>,
    ParseError,
> {
    match outcome {
        Ok(Some(parsed)) => Ok(Some(parsed@)),
        Ok(None) => Ok(None),
        Err(error) => Err(error),
    }
}

/// The header fields of a message: no two have the same name, and they keep the order in which
/// their names first came.
#[derive(Debug)]
pub struct Headers {
    entries: Vec<(String, Vec<u8>)>,
}

impl View for Headers {
    type V = Seq<(Seq<char>, Seq<u8>)>;

    closed spec fn view(&self) -> Seq<(Seq<char>, Seq<u8>)> {
        fields_of(self.entries@)
    }
}

/// Names and values as texts and bytes.
pub open spec fn fields_of(entries: Seq<(String, Vec<u8>)>) -> Seq<(Seq<char>, Seq<u8>)> {
    entries.map_values(|entry: (String, Vec<u8>)| (entry.0@, entry.1@))
}

/// Whether no two fields have the same name.
pub open spec fn distinct_names(fields: Seq<(Seq<char>, Seq<u8>)>) -> bool {
    forall|i: int, j: int|
        0 <= i < j < fields.len() ==> #[trigger] fields[i].0 != #[trigger] fields[j].0
}

/// Whether a field is called `name`.
pub open spec fn has_name(fields: Seq<(Seq<char>, Seq<u8>)>, name: Seq<char>) -> bool {
    exists|i: int| 0 <= i < fields.len() && #[trigger] fields[i].0 == name
}

/// Where the field called `name` is.
pub open spec fn place_of(fields: Seq<(Seq<char>, Seq<u8>)>, name: Seq<char>) -> int {
    choose|i: int| 0 <= i < fields.len() && #[trigger] fields[i].0 == name
}

/// The value of the field called `name`.
pub open spec fn lookup(fields: Seq<(Seq<char>, Seq<u8>)>, name: Seq<char>) -> Option<Seq<u8>> {
    if has_name(fields, name) {
        Some(fields[place_of(fields, name)].1)
    } else {
        None
    }
}

/// `fields` with `value` for `name`, in the place of an earlier value or behind all others.
pub open spec fn with_field(
    fields: Seq<(Seq<char>, Seq<u8>)>,
    name: Seq<char>,
    value: Seq<u8>,
) -> Seq<(Seq<char>, Seq<u8>)> {
    if has_name(fields, name) {
        fields.update(place_of(fields, name), (name, value))
    } else {
        fields.push((name, value))
    }
}

/// `fields` with those of `more` that have a name, the later of two values for one name last.
pub open spec fn with_fields(
    fields: Seq<(Seq<char>, Seq<u8>)>,
    more: Seq<(Seq<char>, Seq<u8>)>,
) -> Seq<(Seq<char>, Seq<u8>)>
    decreases more.len(),
{
    if more.len() == 0 {
        fields
    } else {
        let before = with_fields(fields, more.drop_last());
        if more.last().0.len() == 0 {
            before
        } else {
            with_field(before, more.last().0, more.last().1)
        }
    }
}

/// Setting a field gives it its value, leaves the values of all others, and keeps the names
/// distinct.
pub proof fn law_field_set(
    fields: Seq<(Seq<char>, Seq<u8>)>,
    name: Seq<char>,
    value: Seq<u8>,
    other: Seq<char>,
)
    requires
        distinct_names(fields),
    ensures
        distinct_names(with_field(fields, name, value)),
        lookup(with_field(fields, name, value), name) == Some(value),
        other != name ==> lookup(with_field(fields, name, value), other) == lookup(fields, other),
{
    let after = with_field(fields, name, value);
    if has_name(fields, name) {
        let at = place_of(fields, name);
        assert(after[at].0 == name);
    } else {
        assert(after[fields.len() as int].0 == name);
    }
    assert(has_name(after, name));
    if other != name {
        if has_name(fields, other) {
            let at = place_of(fields, other);
            assert(after[at] == fields[at]);
            assert(has_name(after, other));
            assert(after[place_of(after, other)].0 == other);
            assert(place_of(after, other) == at);
        } else if has_name(after, other) {
            let at = place_of(after, other);
            assert(fields[at].0 == other);
        }
    }
}

/// Fields with distinct names that are set one after another are those fields.
pub proof fn lemma_fields_from_empty(fields: Seq<(Seq<char>, Seq<u8>)>)
    requires
        distinct_names(fields),
        forall|i: int| 0 <= i < fields.len() ==> #[trigger] fields[i].0.len() > 0,
    ensures
        with_fields(Seq::empty(), fields) == fields,
    decreases fields.len(),
{
    if fields.len() > 0 {
        let first = fields.drop_last();
        assert forall|i: int| 0 <= i < first.len() implies #[trigger] first[i].0.len() > 0 by {
            assert(first[i] == fields[i]);
        }
        assert forall|i: int, j: int| 0 <= i < j < first.len() implies #[trigger] first[i].0
            != #[trigger] first[j].0 by {
            assert(first[i] == fields[i] && first[j] == fields[j]);
        }
        lemma_fields_from_empty(first);
        let name = fields.last().0;
        assert(fields[fields.len() - 1].0 == name);
        assert(!has_name(first, name)) by {
            if has_name(first, name) {
                let at = place_of(first, name);
                assert(fields[at].0 == name);
            }
        }
        assert(first.push(fields.last()) =~= fields);
    } else {
        assert(fields =~= Seq::empty());
    }
}

impl Headers {
    #[verifier::type_invariant]
    spec fn names_are_distinct(self) -> bool {
        distinct_names(self@)
    }

    /// No fields.
    pub fn new() -> (headers: Headers)
        ensures
            headers@ == Seq::<(Seq<char>, Seq<u8>)>::empty(),
    {
        let entries: Vec<(String, Vec<u8>)> = Vec::new();
        assert(fields_of(entries@) =~= Seq::empty());
        Headers { entries }
    }

    /// Where the field called `name` is, if there is one.
    fn position(&self, name: &String) -> (at: Option<usize>)
        ensures
            match at {
                Some(at) => at < self@.len() && self@[at as int].0 == name@ && at == place_of(
                    self@,
                    name@,
                ) && has_name(self@, name@),
                None => !has_name(self@, name@),
            },
    {
        proof {
            use_type_invariant(self);
        }
        let mut i: usize = 0;
        while i < self.entries.len()
            invariant
                i <= self.entries@.len(),
                self@ == fields_of(self.entries@),
                distinct_names(self@),
                forall|j: int| 0 <= j < i ==> #[trigger] self@[j].0 != name@,
            decreases self.entries@.len() - i,
        {
            if self.entries[i].0 == *name {
                assert(self@[i as int].0 == name@);
                assert(has_name(self@, name@));
                return Some(i);
            }
            assert(self@[i as int].0 != name@);
            i = i + 1;
        }
        None
    }

    /// The value of the field called `name`, if there is one.
    pub fn get(&self, name: &str) -> (value: Option<&Vec<u8>>)
        ensures
            match value {
                Some(value) => lookup(self@, name@) == Some(value@),
                None => lookup(self@, name@) is None,
            },
            distinct_names(self@),
    {
        proof {
            use_type_invariant(self);
        }
        let name = name.to_string();
        match self.position(&name) {
            Some(at) => Some(&self.entries[at].1),
            None => None,
        }
    }

    /// Sets the field called `name` to `value`.
    pub fn insert(&mut self, name: String, value: Vec<u8>)
        ensures
            final(self)@ == with_field(old(self)@, name@, value@),
            distinct_names(final(self)@),
    {
        proof {
            use_type_invariant(&*self);
            law_field_set(self@, name@, value@, name@);
        }
        let ghost before = self@;
        let at = self.position(&name);
        let mut entries: Vec<(String, Vec<u8>)> = Vec::new();
        assert(fields_of(entries@) =~= Seq::empty());
        std::mem::swap(&mut entries, &mut self.entries);
        match at {
            Some(at) => {
                entries.set(at, (name, value));
                assert(fields_of(entries@) =~= with_field(before, name@, value@));
            },
            None => {
                entries.push((name, value));
                assert(fields_of(entries@) =~= with_field(before, name@, value@));
            },
        }
        self.entries = entries;
    }
}

/// A header field as it stands in a message.
pub open spec fn field_line(field: (Seq<char>, Seq<u8>)) -> Seq<u8> {
    encode_utf8(field.0) + encode_utf8(": "@) + field.1 + encode_utf8("\r\n"@)
}

/// All header fields of a message, one line each.
pub open spec fn field_lines(fields: Seq<(Seq<char>, Seq<u8>)>) -> Seq<u8>
    decreases fields.len(),
{
    if fields.len() == 0 {
        Seq::empty()
    } else {
        field_lines(fields.drop_last()) + field_line(fields.last())
    }
}

/// A request's head: the request line, the header fields and an empty line.
pub open spec fn request_bytes(
    method: Seq<char>,
    path: Seq<char>,
    fields: Seq<(Seq<char>, Seq<u8>)>,
) -> Seq<u8> {
    encode_utf8(method) + encode_utf8(" "@) + encode_utf8(path) + encode_utf8(" HTTP/1.1\r\n"@)
        + field_lines(fields) + encode_utf8("\r\n"@)
}

/// A response's head: the status line, the header fields and an empty line.
pub open spec fn response_bytes(
    code: Seq<char>,
    reason: Seq<char>,
    fields: Seq<(Seq<char>, Seq<u8>)>,
) -> Seq<u8> {
    encode_utf8("HTTP/1.1 "@) + encode_utf8(code) + encode_utf8(" "@) + encode_utf8(reason)
        + encode_utf8("\r\n"@) + field_lines(fields) + encode_utf8("\r\n"@)
}

/// Whether `c` may stand in a method or in a header's name.
pub open spec fn is_token_char(c: char) -> bool {
    ||| 'a' <= c <= 'z'
    ||| 'A' <= c <= 'Z'
    ||| '0' <= c <= '9'
    ||| "!#$%&'*+-.^_`|~"@.contains(c)
}

/// Whether `text` is a token: not empty, and made of token characters.
pub open spec fn is_token(text: Seq<char>) -> bool {
    text.len() > 0 && forall|i: int| 0 <= i < text.len() ==> is_token_char(#[trigger] text[i])
}

/// Whether `value` has no control characters, and no space at its ends.
pub open spec fn is_plain_value(value: Seq<u8>) -> bool {
    &&& forall|i: int| 0 <= i < value.len() ==> #[trigger] value[i] >= 32 && value[i] != 127
    &&& value.len() > 0 ==> value[0] != 32 && value.last() != 32
}

/// Whether a request's parts can be told apart again in its bytes.
pub open spec fn plain_request(
    method: Seq<char>,
    path: Seq<char>,
    fields: Seq<(Seq<char>, Seq<u8>)>,
) -> bool {
    &&& is_token(method)
    &&& path.len() > 0
    &&& forall|i: int| 0 <= i < path.len() ==> '!' <= #[trigger] path[i] <= '~'
    &&& forall|i: int|
        0 <= i < fields.len() ==> is_token(#[trigger] fields[i].0) && is_plain_value(fields[i].1)
}

/// The outcome of reading a head that has these parts.
pub open spec fn parsed_request(
    method: Seq<char>,
    path: Seq<char>,
    fields: Seq<(Seq<char>, Seq<u8>)>,
) -> Result<Option<ParsedModel>, ParseError> {
    Ok(
        Some(
            ParsedModel {
                consumed: request_bytes(method, path, fields).len() as usize,
                method: Some(method),
                path: Some(path),
                headers: fields,
            },
        ),
    )
}

/// Whether `outcome` is right for `buf` as far as plain requests go. Where `buf` starts with one of
/// up to `limit` fields, `outcome` has its parts, and where `buf` is only the beginning of one,
/// `outcome` is that there is more to come. Where `buf` starts with one of more fields, they are
/// too many.
pub open spec fn reads_plain_requests(
    buf: Seq<u8>,
    limit: usize,
    outcome: Result<Option<ParsedModel>, ParseError>,
) -> bool {
    &&& forall|method: Seq<char>, path: Seq<char>, fields: Seq<(Seq<char>, Seq<u8>)>|
        plain_request(method, path, fields) && fields.len() <= limit
            && #[trigger] request_bytes(method, path, fields).is_prefix_of(buf) ==> outcome
            == parsed_request(method, path, fields)
    &&& forall|method: Seq<char>, path: Seq<char>, fields: Seq<(Seq<char>, Seq<u8>)>|
        plain_request(method, path, fields) && fields.len() <= limit && buf.is_prefix_of(
            #[trigger] request_bytes(method, path, fields),
        ) && buf.len() < request_bytes(method, path, fields).len() ==> outcome == Ok::<
            Option<ParsedModel>,
            ParseError,
        >(None)
    &&& forall|method: Seq<char>, path: Seq<char>, fields: Seq<(Seq<char>, Seq<u8>)>|
        plain_request(method, path, fields) && fields.len() > limit
            && #[trigger] request_bytes(method, path, fields).is_prefix_of(buf) ==> outcome
            == Err::<Option<ParsedModel>, ParseError>(ParseError::TooManyHeaders)
}

/// Whether the outcomes for `a` and `b` are right together. Where `a` starts with a whole head,
/// `b` has the same outcome if it starts with the same head, whatever follows it there, and there
/// is more to come if `b` is only a part of that head.
pub open spec fn heads_agree(
    a: Seq<u8>,
    outcome_a: Result<Option<ParsedModel>, ParseError>,
    b: Seq<u8>,
    outcome_b: Result<Option<ParsedModel>, ParseError>,
) -> bool {
    outcome_a matches Ok(Some(parsed)) ==> {
        &&& a.take(parsed.consumed as int).is_prefix_of(b) ==> outcome_b == outcome_a
        &&& b.is_prefix_of(a) && b.len() < parsed.consumed ==> outcome_b == Ok::<
            Option<ParsedModel>,
            ParseError,
        >(None)
    }
}

/// Whether `outcome` is right for `buf` next to the outcomes for all other bytes: a head is read
/// by itself.
pub open spec fn heads_stand_alone(
    buf: Seq<u8>,
    limit: usize,
    outcome: Result<Option<ParsedModel>, ParseError>,
) -> bool {
    forall|other: Seq<u8>|
        {
            &&& heads_agree(buf, outcome, other, #[trigger] httparse_outcome(other, limit))
            &&& heads_agree(other, httparse_outcome(other, limit), buf, outcome)
        }
}

/// Appends the header fields and the empty line after them.
fn append_headers(buf: &mut Vec<u8>, headers: &Headers)
    ensures
        final(buf)@ == old(buf)@ + field_lines(headers@) + encode_utf8("\r\n"@),
{
    let mut i: usize = 0;
    assert(headers@.take(0) =~= Seq::empty());
    assert(buf@ =~= old(buf)@ + field_lines(headers@.take(0)));
    while i < headers.entries.len()
        invariant
            i <= headers.entries@.len(),
            headers@ == fields_of(headers.entries@),
            buf@ == old(buf)@ + field_lines(headers@.take(i as int)),
        decreases headers.entries@.len() - i,
    {
        let ghost before = buf@;
        append_text(buf, headers.entries[i].0.as_str());
        append_text(buf, ": ");
        append_bytes(buf, headers.entries[i].1.as_slice());
        append_text(buf, "\r\n");
        assert(buf@ =~= before + field_line(headers@[i as int]));
        assert(headers@.take(i + 1).drop_last() =~= headers@.take(i as int));
        assert(buf@ =~= old(buf)@ + field_lines(headers@.take(i + 1)));
        i = i + 1;
    }
    assert(headers@.take(i as int) =~= headers@);
    append_text(buf, "\r\n");
}

/// How far the reading of a message has come.
#[derive(Clone, Copy, Debug, PartialEq, Eq, Structural)]
pub enum Status {
    /// The whole head was there and took this many bytes.
    Complete(usize),
    /// There is more to come.
    Partial,
}

/// A request.
#[derive(Debug)]
pub struct Request {
    pub method: Option<String>,
    pub path: Option<String>,
    pub headers: Headers,
}

/// What a request holds.
#[verifier::ext_equal]
pub struct RequestModel {
    pub method: Option<Seq<char>>,
    pub path: Option<Seq<char>>,
    pub headers: Seq<(Seq<char>, Seq<u8>)>,
}

impl View for Request {
    type V = RequestModel;

    open spec fn view(&self) -> RequestModel {
        RequestModel {
            method: text_of(self.method),
            path: text_of(self.path),
            headers: self.headers@,
        }
    }
}

/// `request` with what was read added to it. Only a whole head adds anything.
pub open spec fn with_outcome(
    request: RequestModel,
    outcome: Result<Option<ParsedModel>, ParseError>,
) -> RequestModel {
    match outcome {
        Ok(Some(parsed)) => RequestModel {
            method: parsed.method,
            path: parsed.path,
            headers: with_fields(request.headers, parsed.headers),
        },
        _ => request,
    }
}

/// How far `outcome` has come.
pub open spec fn status_of(outcome: Result<Option<ParsedModel>, ParseError>) -> Result<
    Status,
    ParseError,
> {
    match outcome {
        Ok(Some(parsed)) => Ok(Status::Complete(parsed.consumed)),
        Ok(None) => Ok(Status::Partial),
        Err(error) => Err(error),
    }
}

impl Request {
    /// A request without anything in it.
    pub fn new() -> (request: Request)
        ensures
            request@ == (RequestModel { method: None, path: None, headers: Seq::empty() }),
    {
        Request { method: None, path: None, headers: Headers::new() }
    }

    /// Adds to the request what was read of one. A head that was read whole has a method and a
    /// path.
    pub fn accept(&mut self, outcome: Result<Option<ParsedRequest>, ParseError>) -> (status: Result<
        Status,
        ParseError,
    >)
        requires
            outcome matches Ok(Some(parsed)) ==> parsed.method is Some && parsed.path is Some,
        ensures
            final(self)@ == with_outcome(old(self)@, outcome_of(outcome)),
            status == status_of(outcome_of(outcome)),
            distinct_names(final(self)@.headers),
    {
        proof {
            use_type_invariant(&self.headers);
        }
        match outcome {
            Ok(Some(parsed)) => {
                let left = parsed.headers;
                let ghost fields = fields_of(left@);
                let ghost start = self.headers@;
                let mut i: usize = 0;
                assert(fields.take(0) =~= Seq::empty());
                while i < left.len()
                    invariant
                        i <= left@.len(),
                        fields == fields_of(left@),
                        self.headers@ == with_fields(start, fields.take(i as int)),
                        distinct_names(self.headers@),
                    decreases left@.len() - i,
                {
                    assert(fields.take(i + 1).drop_last() =~= fields.take(i as int));
                    if !left[i].0.as_str().is_empty() {
                        self.headers.insert(
                            left[i].0.clone(),
                            slice_to_vec(left[i].1.as_slice()),
                        );
                    }
                    i = i + 1;
                }
                assert(fields.take(i as int) =~= fields);
                self.method = Some(parsed.method.unwrap());
                self.path = Some(parsed.path.unwrap());
                Ok(Status::Complete(parsed.consumed))
            },
            Ok(None) => Ok(Status::Partial),
            Err(error) => Err(error),
        }
    }

    /// Reads a request's head from `buf` into this request.
    pub fn parse(&mut self, buf: &[u8]) -> (status: Result<Status, ParseError>)
        ensures
            final(self)@ == with_outcome(old(self)@, httparse_outcome(buf@, MAX_HEADERS)),
            status == status_of(httparse_outcome(buf@, MAX_HEADERS)),
            distinct_names(final(self)@.headers),
            status matches Ok(Status::Complete(consumed)) ==> consumed <= buf@.len(),
            // A head that was read whole has a method and a path.
            status matches Ok(Status::Complete(_)) ==> final(self)@.method is Some
                && final(self)@.path is Some,
            // What follows a head makes no difference, and of a part of a head nothing is read.
            heads_stand_alone(buf@, MAX_HEADERS, httparse_outcome(buf@, MAX_HEADERS)),
            // What a plain request wrote is read back, whatever follows it.
            forall|method: Seq<char>, path: Seq<char>, fields: Seq<(Seq<char>, Seq<u8>)>|
                plain_request(method, path, fields) && fields.len() <= MAX_HEADERS
                    && #[trigger] request_bytes(method, path, fields).is_prefix_of(buf@) ==> {
                    &&& status == Ok::<Status, ParseError>(
                        Status::Complete(request_bytes(method, path, fields).len() as usize),
                    )
                    &&& final(self)@ == (RequestModel {
                        method: Some(method),
                        path: Some(path),
                        headers: with_fields(old(self)@.headers, fields),
                    })
                },
            // The beginning of a plain request changes nothing yet.
            forall|method: Seq<char>, path: Seq<char>, fields: Seq<(Seq<char>, Seq<u8>)>|
                plain_request(method, path, fields) && fields.len() <= MAX_HEADERS
                    && buf@.is_prefix_of(#[trigger] request_bytes(method, path, fields))
                    && buf@.len() < request_bytes(method, path, fields).len() ==> {
                    &&& status == Ok::<Status, ParseError>(Status::Partial)
                    &&& final(self)@ == old(self)@
                },
            // A plain request with too many fields is refused, and changes nothing.
            forall|method: Seq<char>, path: Seq<char>, fields: Seq<(Seq<char>, Seq<u8>)>|
                plain_request(method, path, fields) && fields.len() > MAX_HEADERS
                    && #[trigger] request_bytes(method, path, fields).is_prefix_of(buf@) ==> {
                    &&& status == Err::<Status, ParseError>(ParseError::TooManyHeaders)
                    &&& final(self)@ == old(self)@
                },
    {
        let outcome = httparse_request(buf, MAX_HEADERS);
        self.accept(outcome)
    }

    /// Appends the request's head to `buf`. A request without a method or a path has none.
    pub fn serialize(&self, buf: &mut Vec<u8>) -> (result: Result<(), String>)
        ensures
            distinct_names(self@.headers),
            match (self@.method, self@.path) {
                (Some(method), Some(path)) => result is Ok && final(buf)@ == old(buf)@
                    + request_bytes(method, path, self@.headers),
                (None, _) => result is Err && result->Err_0@
                    == "Could not serialize HTTP response: no \"method\" field"@ && final(buf)@
                    == old(buf)@,
                (Some(_), None) => result is Err && result->Err_0@
                    == "Could not serialize HTTP response: no \"path\" field"@ && final(buf)@
                    == old(buf)@,
            },
    {
        proof {
            use_type_invariant(&self.headers);
        }
        let method = match &self.method {
            Some(value) => value,
            None => {
                return Err(
                    "Could not serialize HTTP response: no \"method\" field".to_string(),
                );
            },
        };
        let path = match &self.path {
            Some(value) => value,
            None => {
                return Err("Could not serialize HTTP response: no \"path\" field".to_string());
            },
        };
        append_text(buf, method.as_str());
        append_text(buf, " ");
        append_text(buf, path.as_str());
        append_text(buf, " HTTP/1.1\r\n");
        append_headers(buf, &self.headers);
        assert(buf@ =~= old(buf)@ + request_bytes(method@, path@, self@.headers));
        Ok(())
    }
}

/// A response.
#[derive(Debug)]
pub struct Response {
    pub code: Option<String>,
    pub reason: Option<String>,
    pub headers: Headers,
}

/// What a response holds.
#[verifier::ext_equal]
pub struct ResponseModel {
    pub code: Option<Seq<char>>,
    pub reason: Option<Seq<char>>,
    pub headers: Seq<(Seq<char>, Seq<u8>)>,
}

impl View for Response {
    type V = ResponseModel;

    open spec fn view(&self) -> ResponseModel {
        ResponseModel {
            code: text_of(self.code),
            reason: text_of(self.reason),
            headers: self.headers@,
        }
    }
}

impl Response {
    /// A response without anything in it.
    pub fn new() -> (response: Response)
        ensures
            response@ == (ResponseModel { code: None, reason: None, headers: Seq::empty() }),
    {
        Response { code: None, reason: None, headers: Headers::new() }
    }

    /// Appends the response's head to `buf`. A response without a code or a reason has none.
    pub fn serialize(&self, buf: &mut Vec<u8>) -> (result: Result<(), String>)
        ensures
            distinct_names(self@.headers),
            match (self@.code, self@.reason) {
                (Some(code), Some(reason)) => result is Ok && final(buf)@ == old(buf)@
                    + response_bytes(code, reason, self@.headers),
                (None, _) => result is Err && result->Err_0@
                    == "Could not serialize response: No \"code\" field."@ && final(buf)@ == old(
                    buf,
                )@,
                (Some(_), None) => result is Err && result->Err_0@
                    == "Could not serialize response: No \"reason\" field."@ && final(buf)@ == old(
                    buf,
                )@,
            },
    {
        proof {
            use_type_invariant(&self.headers);
        }
        let code = match &self.code {
            Some(value) => value,
            None => {
                return Err("Could not serialize response: No \"code\" field.".to_string());
            },
        };
        let reason = match &self.reason {
            Some(value) => value,
            None => {
                return Err("Could not serialize response: No \"reason\" field.".to_string());
            },
        };
        append_text(buf, "HTTP/1.1 ");
        append_text(buf, code.as_str());
        append_text(buf, " ");
        append_text(buf, reason.as_str());
        append_text(buf, "\r\n");
        append_headers(buf, &self.headers);
        assert(buf@ =~= old(buf)@ + response_bytes(code@, reason@, self@.headers));
        Ok(())
    }
}

/// Names are distinct where any two fields in different places have different names.
pub proof fn law_distinct_names(fields: Seq<(Seq<char>, Seq<u8>)>)
    ensures
        distinct_names(fields) <==> forall|i: int, j: int|
            0 <= i < fields.len() && 0 <= j < fields.len() && i != j ==> #[trigger] fields[i].0
                != #[trigger] fields[j].0,
{
}

/// Where names are distinct, looking a name up gives the value of the field that has it, wherever
/// it stands and whatever the other fields are, and nothing where no field has it. Whatever the
/// fields are, nothing is found exactly where no field has the name.
pub proof fn law_field_found(fields: Seq<(Seq<char>, Seq<u8>)>, name: Seq<char>, at: int)
    ensures
        (forall|i: int| 0 <= i < fields.len() ==> #[trigger] fields[i].0 != name) <==> lookup(
            fields,
            name,
        ) is None,
        distinct_names(fields) && 0 <= at < fields.len() && fields[at].0 == name ==> lookup(
            fields,
            name,
        ) == Some(fields[at].1),
{
    if 0 <= at < fields.len() && fields[at].0 == name {
        assert(has_name(fields, name));
    }
}

/// Setting a field that is there changes its value in its place; one that is not there goes behind
/// all others. No other field is touched.
pub proof fn law_field_placed(
    fields: Seq<(Seq<char>, Seq<u8>)>,
    name: Seq<char>,
    value: Seq<u8>,
    at: int,
)
    requires
        distinct_names(fields),
    ensures
        0 <= at < fields.len() && fields[at].0 == name ==> with_field(fields, name, value)
            == fields.update(at, (name, value)),
        (forall|i: int| 0 <= i < fields.len() ==> #[trigger] fields[i].0 != name) ==> with_field(
            fields,
            name,
            value,
        ) == fields.push((name, value)),
{
    if 0 <= at < fields.len() && fields[at].0 == name {
        assert(has_name(fields, name));
    }
}

/// Of many fields that are set one after another, each that has a name is found with the last
/// value given for it, each name that none of them has is found as before, and names stay
/// distinct.
pub proof fn law_fields_set(
    fields: Seq<(Seq<char>, Seq<u8>)>,
    more: Seq<(Seq<char>, Seq<u8>)>,
    name: Seq<char>,
    last: int,
)
    requires
        distinct_names(fields),
    ensures
        distinct_names(with_fields(fields, more)),
        0 <= last < more.len() && more[last].0 == name && name.len() > 0 && (forall|i: int|
            last < i < more.len() ==> #[trigger] more[i].0 != name) ==> lookup(
            with_fields(fields, more),
            name,
        ) == Some(more[last].1),
        name.len() == 0 || (forall|i: int|
            0 <= i < more.len() ==> #[trigger] more[i].0 != name) ==> lookup(
            with_fields(fields, more),
            name,
        ) == lookup(fields, name),
    decreases more.len(),
{
    if more.len() > 0 {
        let first = more.drop_last();
        let end = more.len() - 1;
        law_fields_set(fields, first, name, last);
        assert(more[end] == more.last());
        assert forall|i: int| 0 <= i < first.len() implies #[trigger] first[i].0 == more[i].0 by {}
        let before = with_fields(fields, first);
        if more.last().0.len() > 0 {
            law_field_set(before, more.last().0, more.last().1, name);
        }
    }
}

/// Setting no fields changes nothing, and one more field at the end is set after all others; one
/// without a name is passed over.
pub proof fn law_fields_set_in_turn(
    fields: Seq<(Seq<char>, Seq<u8>)>,
    more: Seq<(Seq<char>, Seq<u8>)>,
    name: Seq<char>,
    value: Seq<u8>,
)
    ensures
        with_fields(fields, Seq::empty()) == fields,
        with_fields(fields, more.push((name, value))) == if name.len() == 0 {
            with_fields(fields, more)
        } else {
            with_field(with_fields(fields, more), name, value)
        },
{
    assert(more.push((name, value)).drop_last() =~= more);
}

/// Fields that are set after others leave the places of those as they are.
pub proof fn law_fields_keep_places(
    fields: Seq<(Seq<char>, Seq<u8>)>,
    more: Seq<(Seq<char>, Seq<u8>)>,
    at: int,
)
    requires
        0 <= at < fields.len(),
    ensures
        at < with_fields(fields, more).len(),
        with_fields(fields, more)[at].0 == fields[at].0,
    decreases more.len(),
{
    if more.len() > 0 {
        law_fields_keep_places(fields, more.drop_last(), at);
    }
}

/// How a request lies on the wire. Without fields it is the request line and an empty line; one
/// more field at the end is one more line in front of the empty line, and changes nothing else.
pub proof fn law_request_layout(
    method: Seq<char>,
    path: Seq<char>,
    fields: Seq<(Seq<char>, Seq<u8>)>,
    name: Seq<char>,
    value: Seq<u8>,
)
    ensures
        request_bytes(method, path, Seq::empty()) == encode_utf8(method) + encode_utf8(" "@)
            + encode_utf8(path) + encode_utf8(" HTTP/1.1\r\n"@) + encode_utf8("\r\n"@),
        exists|lines: Seq<u8>|
            request_bytes(method, path, fields) == #[trigger] (lines + encode_utf8("\r\n"@))
                && request_bytes(method, path, fields.push((name, value))) == lines + encode_utf8(
                name,
            ) + encode_utf8(": "@) + value + encode_utf8("\r\n"@) + encode_utf8("\r\n"@),
{
    let start = encode_utf8(method) + encode_utf8(" "@) + encode_utf8(path) + encode_utf8(
        " HTTP/1.1\r\n"@,
    );
    assert(start + Seq::<u8>::empty() =~= start);
    let lines = start + field_lines(fields);
    let longer = fields.push((name, value));
    assert(longer.drop_last() =~= fields);
    assert(request_bytes(method, path, fields) == lines + encode_utf8("\r\n"@));
    assert(request_bytes(method, path, longer) =~= lines + encode_utf8(name) + encode_utf8(": "@)
        + value + encode_utf8("\r\n"@) + encode_utf8("\r\n"@));
}

/// How a response lies on the wire. Without fields it is the status line and an empty line; one
/// more field at the end is one more line in front of the empty line, and changes nothing else.
pub proof fn law_response_layout(
    code: Seq<char>,
    reason: Seq<char>,
    fields: Seq<(Seq<char>, Seq<u8>)>,
    name: Seq<char>,
    value: Seq<u8>,
)
    ensures
        response_bytes(code, reason, Seq::empty()) == encode_utf8("HTTP/1.1 "@) + encode_utf8(code)
            + encode_utf8(" "@) + encode_utf8(reason) + encode_utf8("\r\n"@) + encode_utf8(
            "\r\n"@,
        ),
        exists|lines: Seq<u8>|
            response_bytes(code, reason, fields) == #[trigger] (lines + encode_utf8("\r\n"@))
                && response_bytes(code, reason, fields.push((name, value))) == lines + encode_utf8(
                name,
            ) + encode_utf8(": "@) + value + encode_utf8("\r\n"@) + encode_utf8("\r\n"@),
{
    let start = encode_utf8("HTTP/1.1 "@) + encode_utf8(code) + encode_utf8(" "@) + encode_utf8(
        reason,
    ) + encode_utf8("\r\n"@);
    assert(start + Seq::<u8>::empty() =~= start);
    let lines = start + field_lines(fields);
    let longer = fields.push((name, value));
    assert(longer.drop_last() =~= fields);
    assert(response_bytes(code, reason, fields) == lines + encode_utf8("\r\n"@));
    assert(response_bytes(code, reason, longer) =~= lines + encode_utf8(name) + encode_utf8(": "@)
        + value + encode_utf8("\r\n"@) + encode_utf8("\r\n"@));
}

/// A head that was read whole gives the request its method and its path, adds its fields, and
/// tells how many bytes it took. Anything else leaves the request alone and is told as it is.
pub proof fn law_outcome_taken(request: RequestModel, parsed: ParsedModel, error: ParseError)
    ensures
        with_outcome(request, Ok(Some(parsed))).method == parsed.method,
        with_outcome(request, Ok(Some(parsed))).path == parsed.path,
        with_outcome(request, Ok(Some(parsed))).headers == with_fields(
            request.headers,
            parsed.headers,
        ),
        status_of(Ok(Some(parsed))) == Ok::<Status, ParseError>(Status::Complete(parsed.consumed)),
        with_outcome(request, Ok(None)) == request,
        status_of(Ok(None)) == Ok::<Status, ParseError>(Status::Partial),
        with_outcome(request, Err(error)) == request,
        status_of(Err(error)) == Err::<Status, ParseError>(error),
{
}

/// What a request or a response is said to hold is what stands in its parts.
pub proof fn law_message_parts(request: Request, response: Response)
    ensures
        request.method matches Some(text) ==> request@.method == Some(text@),
        request.method is None ==> request@.method is None,
        request.path matches Some(text) ==> request@.path == Some(text@),
        request.path is None ==> request@.path is None,
        request@.headers == request.headers@,
        response.code matches Some(text) ==> response@.code == Some(text@),
        response.code is None ==> response@.code is None,
        response.reason matches Some(text) ==> response@.reason == Some(text@),
        response.reason is None ==> response@.reason is None,
        response@.headers == response.headers@,
{
}

/// What was read of a head is said to hold what stands in its parts, field by field, and an
/// outcome is said to be what it is.
pub proof fn law_parsed_parts(parsed: ParsedRequest, error: ParseError, i: int)
    ensures
        parsed@.consumed == parsed.consumed,
        parsed.method matches Some(text) ==> parsed@.method == Some(text@),
        parsed.method is None ==> parsed@.method is None,
        parsed.path matches Some(text) ==> parsed@.path == Some(text@),
        parsed.path is None ==> parsed@.path is None,
        parsed@.headers.len() == parsed.headers@.len(),
        0 <= i < parsed.headers@.len() ==> parsed@.headers[i] == (
            parsed.headers@[i].0@,
            parsed.headers@[i].1@,
        ),
        outcome_of(Ok(Some(parsed))) == Ok::<Option<ParsedModel>, ParseError>(Some(parsed@)),
        outcome_of(Ok(None)) == Ok::<Option<ParsedModel>, ParseError>(None),
        outcome_of(Err(error)) == Err::<Option<ParsedModel>, ParseError>(error),
{
}

} // verus!
